//! The fields of a message on the wire. Every field opens with one key byte
//! that names it; what follows is a varint, four or eight bytes in
//! little-endian order, or a varint length and that many bytes. This module
//! holds the fields that are varints and those that carry a length.

use crate::varint::{
    lemma_parse_number_complete, lemma_parse_number_sound, lemma_parse_varint_complete,
    lemma_parse_varint_sound, lemma_varint_is_number, parse_number, parse_varint, read_varint,
    varint_bytes, write_varint,
};
use vstd::prelude::*;

verus! {

/// `x` stands in `s` at `pos`.
#[verifier::opaque]
pub open spec fn at(s: Seq<u8>, pos: int, x: Seq<u8>) -> bool {
    0 <= pos && pos + x.len() <= s.len() && s.subrange(pos, pos + x.len()) == x
}

/// `a + b` stands at `pos` exactly where `a` stands there and `b` behind it.
pub proof fn lemma_at_split(s: Seq<u8>, pos: int, a: Seq<u8>, b: Seq<u8>)
    ensures
        at(s, pos, a + b) <==> at(s, pos, a) && at(s, pos + a.len(), b),
{
    reveal(at);
    if at(s, pos, a + b) {
        let ab = s.subrange(pos, pos + (a + b).len());
        assert(s.subrange(pos, pos + a.len()) =~= a) by {
            assert forall|k: int| 0 <= k < a.len() implies s[pos + k] == a[k] by {
                assert(ab[k] == (a + b)[k]);
            }
        }
        assert(s.subrange(pos + a.len(), pos + a.len() + b.len()) =~= b) by {
            assert forall|k: int| 0 <= k < b.len() implies s[pos + a.len() + k] == b[k] by {
                assert(ab[a.len() + k] == (a + b)[a.len() + k]);
            }
        }
    }
    if at(s, pos, a) && at(s, pos + a.len(), b) {
        let sa = s.subrange(pos, pos + a.len());
        let sb = s.subrange(pos + a.len(), pos + a.len() + b.len());
        assert(s.subrange(pos, pos + (a + b).len()) =~= a + b) by {
            assert forall|k: int| 0 <= k < (a + b).len() implies s[pos + k] == (a + b)[k] by {
                if k < a.len() {
                    assert(sa[k] == a[k]);
                } else {
                    assert(sb[k - a.len()] == b[k - a.len()]);
                }
            }
        }
    }
}

/// Every sequence stands in itself at the start.
pub proof fn lemma_at_whole(p: Seq<u8>)
    ensures
        at(p, 0, p),
{
    reveal(at);
    assert(p.subrange(0, p.len() as int) =~= p);
}

/// What stands at the start of `p` and is as long as `p` is `p`.
pub proof fn lemma_at_all(p: Seq<u8>, x: Seq<u8>)
    requires
        at(p, 0, x),
        x.len() == p.len(),
    ensures
        p == x,
{
    reveal(at);
    assert(p.subrange(0, p.len() as int) =~= p);
}

/// The empty sequence stands everywhere.
pub proof fn lemma_at_empty(s: Seq<u8>, pos: int)
    requires
        0 <= pos <= s.len(),
    ensures
        at(s, pos, Seq::<u8>::empty()),
{
    reveal(at);
    assert(s.subrange(pos, pos) =~= Seq::<u8>::empty());
}

/// What stands in the first `k` bytes of `s` stands in `s`.
pub proof fn lemma_at_prefix(s: Seq<u8>, k: int, pos: int, x: Seq<u8>)
    requires
        0 <= k <= s.len(),
        at(s.subrange(0, k), pos, x),
    ensures
        at(s, pos, x),
{
    reveal(at);
    assert(s.subrange(pos, pos + x.len()) =~= s.subrange(0, k).subrange(pos, pos + x.len()));
}

/// What stands in `s` ends within `s`.
pub proof fn lemma_at_bounds(s: Seq<u8>, pos: int, x: Seq<u8>)
    requires
        at(s, pos, x),
    ensures
        0 <= pos,
        pos + x.len() <= s.len(),
{
    reveal(at);
}

/// A field named `key` opens at `pos`.
pub open spec fn has_key(s: Seq<u8>, pos: int, key: u8) -> bool {
    0 <= pos < s.len() && s[pos] == key
}

/// Whether a field named `key` opens at `pos`.
pub fn peek_key(buf: &[u8], pos: usize, key: u8) -> (res: bool)
    ensures
        res == has_key(buf@, pos as int, key),
{
    pos < buf.len() && buf[pos] == key
}

/// No byte stands at `pos`, or one that is above `key`: no field named `key`
/// or lower opens there.
pub open spec fn above_at(s: Seq<u8>, pos: int, key: u8) -> bool {
    pos >= s.len() || s[pos] > key
}

/// No byte stands at `pos`, or a byte that is `key` or higher.
pub open spec fn not_below(s: Seq<u8>, pos: int, key: u8) -> bool {
    pos >= s.len() || s[pos] >= key
}

/// A varint field: the key, then the value.
pub open spec fn uint_field(key: u8, v: u64) -> Seq<u8> {
    seq![key] + varint_bytes(v as nat)
}

/// The varint field named `key` at `pos`: its value, and the position behind it.
pub open spec fn parse_uint_field(s: Seq<u8>, pos: int, key: u8) -> Option<(u64, int)> {
    if 0 <= pos < s.len() && s[pos] == key {
        parse_varint(s, pos + 1)
    } else {
        None
    }
}

/// The field that stands at `pos` is read as its value, and the reading ends
/// behind it.
pub proof fn lemma_uint_field_complete(s: Seq<u8>, pos: int, key: u8, v: u64)
    requires
        at(s, pos, uint_field(key, v)),
    ensures
        parse_uint_field(s, pos, key) == Some((v, pos + uint_field(key, v).len())),
{
    reveal(at);
    lemma_at_split(s, pos, seq![key], varint_bytes(v as nat));
    assert(s.subrange(pos, pos + 1)[0] == key);
    lemma_parse_varint_complete(s, pos + 1, v);
}

/// What is read at `pos` is the field of the value read, and the field ends
/// where the reading ended.
pub proof fn lemma_uint_field_sound(s: Seq<u8>, pos: int, key: u8)
    requires
        parse_uint_field(s, pos, key) is Some,
    ensures
        at(s, pos, uint_field(key, parse_uint_field(s, pos, key).unwrap().0)),
        parse_uint_field(s, pos, key).unwrap().1 == pos + uint_field(
            key,
            parse_uint_field(s, pos, key).unwrap().0,
        ).len(),
{
    reveal(at);
    let v = parse_uint_field(s, pos, key).unwrap().0;
    lemma_parse_varint_sound(s, pos + 1);
    assert(s.subrange(pos, pos + 1) =~= seq![key]);
    lemma_at_split(s, pos, seq![key], varint_bytes(v as nat));
}

/// Appends the varint field named `key`.
pub fn put_uint_field(buf: &mut Vec<u8>, key: u8, v: u64)
    ensures
        final(buf)@ == old(buf)@ + uint_field(key, v),
{
    buf.push(key);
    write_varint(buf, v);
    assert(final(buf)@ =~= old(buf)@ + uint_field(key, v));
}

/// Reads the varint field named `key` at `pos`.
pub fn take_uint_field(buf: &[u8], pos: usize, key: u8) -> (res: Option<(u64, usize)>)
    ensures
        res is Some <==> parse_uint_field(buf@, pos as int, key) is Some,
        res matches Some((v, end)) ==> parse_uint_field(buf@, pos as int, key) == Some(
            (v, end as int),
        ),
{
    if pos < buf.len() && buf[pos] == key {
        read_varint(buf, pos + 1)
    } else {
        None
    }
}

/// The 32-bit number that a varint field holds, if it holds one.
pub open spec fn parse_u32_field(s: Seq<u8>, pos: int, key: u8) -> Option<(u32, int)> {
    match parse_uint_field(s, pos, key) {
        Some((v, end)) => if v <= 0xFFFF_FFFF {
            Some((v as u32, end))
        } else {
            None
        },
        None => None,
    }
}

/// The field that stands at `pos` is read as its value, and the reading ends
/// behind it.
pub proof fn lemma_u32_field_complete(s: Seq<u8>, pos: int, key: u8, v: u32)
    requires
        at(s, pos, uint_field(key, v as u64)),
    ensures
        parse_u32_field(s, pos, key) == Some((v, pos + uint_field(key, v as u64).len())),
{
    reveal(at);
    lemma_uint_field_complete(s, pos, key, v as u64);
}

/// What is read at `pos` is the field of the value read, and the field ends
/// where the reading ended.
pub proof fn lemma_u32_field_sound(s: Seq<u8>, pos: int, key: u8)
    requires
        parse_u32_field(s, pos, key) is Some,
    ensures
        at(s, pos, uint_field(key, parse_u32_field(s, pos, key).unwrap().0 as u64)),
        parse_u32_field(s, pos, key).unwrap().1 == pos + uint_field(
            key,
            parse_u32_field(s, pos, key).unwrap().0 as u64,
        ).len(),
{
    reveal(at);
    lemma_uint_field_sound(s, pos, key);
}

/// Reads the varint field named `key` at `pos` as a 32-bit number.
pub fn take_u32_field(buf: &[u8], pos: usize, key: u8) -> (res: Option<(u32, usize)>)
    ensures
        res is Some <==> parse_u32_field(buf@, pos as int, key) is Some,
        res matches Some((v, end)) ==> parse_u32_field(buf@, pos as int, key) == Some(
            (v, end as int),
        ),
{
    match take_uint_field(buf, pos, key) {
        Some((v, end)) => if v <= 0xFFFF_FFFF {
            Some((v as u32, end))
        } else {
            None
        },
        None => None,
    }
}

/// The number that stands for a flag on the wire.
pub open spec fn flag_value(b: bool) -> u64 {
    if b {
        1
    } else {
        0
    }
}

/// The flag that a varint field holds, if it holds zero or one.
pub open spec fn parse_flag_field(s: Seq<u8>, pos: int, key: u8) -> Option<(bool, int)> {
    match parse_uint_field(s, pos, key) {
        Some((v, end)) => if v <= 1 {
            Some((v == 1, end))
        } else {
            None
        },
        None => None,
    }
}

/// The field that stands at `pos` is read as its value, and the reading ends
/// behind it.
pub proof fn lemma_flag_field_complete(s: Seq<u8>, pos: int, key: u8, b: bool)
    requires
        at(s, pos, uint_field(key, flag_value(b))),
    ensures
        parse_flag_field(s, pos, key) == Some((b, pos + uint_field(key, flag_value(b)).len())),
{
    reveal(at);
    lemma_uint_field_complete(s, pos, key, flag_value(b));
}

/// What is read at `pos` is the field of the value read, and the field ends
/// where the reading ended.
pub proof fn lemma_flag_field_sound(s: Seq<u8>, pos: int, key: u8)
    requires
        parse_flag_field(s, pos, key) is Some,
    ensures
        at(s, pos, uint_field(key, flag_value(parse_flag_field(s, pos, key).unwrap().0))),
        parse_flag_field(s, pos, key).unwrap().1 == pos + uint_field(
            key,
            flag_value(parse_flag_field(s, pos, key).unwrap().0),
        ).len(),
{
    reveal(at);
    lemma_uint_field_sound(s, pos, key);
}

/// Appends the flag field named `key`.
pub fn put_flag_field(buf: &mut Vec<u8>, key: u8, b: bool)
    ensures
        final(buf)@ == old(buf)@ + uint_field(key, flag_value(b)),
{
    let v: u64 = if b {
        1
    } else {
        0
    };
    put_uint_field(buf, key, v);
}

/// Reads the varint field named `key` at `pos` as a flag.
pub fn take_flag_field(buf: &[u8], pos: usize, key: u8) -> (res: Option<(bool, usize)>)
    ensures
        res is Some <==> parse_flag_field(buf@, pos as int, key) is Some,
        res matches Some((v, end)) ==> parse_flag_field(buf@, pos as int, key) == Some(
            (v, end as int),
        ),
{
    match take_uint_field(buf, pos, key) {
        Some((v, end)) => if v <= 1 {
            Some((v == 1, end))
        } else {
            None
        },
        None => None,
    }
}

/// A length-delimited field: the key, the payload's length, the payload.
pub open spec fn len_field(key: u8, payload: Seq<u8>) -> Seq<u8> {
    seq![key] + varint_bytes(payload.len()) + payload
}

/// The length-delimited field named `key` at `pos`: where its payload starts
/// and where it ends.
pub open spec fn parse_len_field(s: Seq<u8>, pos: int, key: u8) -> Option<(int, int)> {
    if has_key(s, pos, key) {
        match parse_number(s, pos + 1) {
            Some((n, start)) => if start + n <= s.len() {
                Some((start, start + n))
            } else {
                None
            },
            None => None,
        }
    } else {
        None
    }
}

/// The field that stands at `pos` is read as its value, and the reading ends
/// behind it.
pub proof fn lemma_len_field_complete(s: Seq<u8>, pos: int, key: u8, payload: Seq<u8>)
    requires
        at(s, pos, len_field(key, payload)),
    ensures
        parse_len_field(s, pos, key) == Some(
            (
                pos + len_field(key, payload).len() - payload.len(),
                pos + len_field(key, payload).len(),
            ),
        ),
        s.subrange(
            pos + len_field(key, payload).len() - payload.len(),
            pos + len_field(key, payload).len(),
        ) == payload,
{
    let number = varint_bytes(payload.len());
    lemma_at_split(s, pos, seq![key] + number, payload);
    lemma_at_split(s, pos, seq![key], number);
    reveal(at);
    assert(s.subrange(pos, pos + 1)[0] == key);
    lemma_parse_number_complete(s, pos + 1, payload.len());
}

/// What is read at `pos` is the field of the value read, and the field ends
/// where the reading ended.
pub proof fn lemma_len_field_sound(s: Seq<u8>, pos: int, key: u8)
    requires
        parse_len_field(s, pos, key) is Some,
    ensures
        ({
            let (a, b) = parse_len_field(s, pos, key).unwrap();
            &&& pos < a <= b <= s.len()
            &&& at(s, pos, len_field(key, s.subrange(a, b)))
            &&& b == pos + len_field(key, s.subrange(a, b)).len()
        }),
{
    let (a, b) = parse_len_field(s, pos, key).unwrap();
    let payload = s.subrange(a, b);
    let number = varint_bytes(payload.len());
    lemma_parse_number_sound(s, pos + 1);
    assert(at(s, pos, seq![key])) by {
        reveal(at);
        assert(s.subrange(pos, pos + 1) =~= seq![key]);
    }
    assert(at(s, pos + 1, number)) by {
        reveal(at);
    }
    assert(at(s, a, payload)) by {
        reveal(at);
    }
    lemma_at_split(s, pos, seq![key], number);
    lemma_at_split(s, pos, seq![key] + number, payload);
}

/// Appends the length-delimited field named `key` with `payload`.
pub fn put_len_field(buf: &mut Vec<u8>, key: u8, payload: &[u8])
    ensures
        final(buf)@ == old(buf)@ + len_field(key, payload@),
{
    buf.push(key);
    write_varint(buf, payload.len() as u64);
    buf.extend_from_slice(payload);
    assert(final(buf)@ =~= old(buf)@ + len_field(key, payload@));
}

/// Reads the length-delimited field named `key` at `pos`, and gives the
/// positions where its payload starts and ends.
pub fn take_len_field(buf: &[u8], pos: usize, key: u8) -> (res: Option<(usize, usize)>)
    ensures
        res is Some <==> parse_len_field(buf@, pos as int, key) is Some,
        res matches Some((a, b)) ==> parse_len_field(buf@, pos as int, key) == Some(
            (a as int, b as int),
        ),
{
    proof {
        assert(buf@.len() == buf.len());
        lemma_varint_is_number(buf@, pos + 1);
        if parse_number(buf@, pos + 1) is Some {
            lemma_parse_number_sound(buf@, pos + 1);
        }
    }
    match take_uint_field(buf, pos, key) {
        Some((n, start)) => {
            if n <= (buf.len() - start) as u64 {
                Some((start, start + n as usize))
            } else {
                None
            }
        },
        None => None,
    }
}

/// A repeated field: one length-delimited field named `key` for each item, in
/// the items' order, each holding what `enc` makes of its item.
pub open spec fn repeated_field<T>(key: u8, items: Seq<T>, enc: spec_fn(T) -> Seq<u8>) -> Seq<u8>
    decreases items.len(),
{
    if items.len() == 0 {
        Seq::empty()
    } else {
        repeated_field(key, items.drop_last(), enc) + len_field(key, enc(items.last()))
    }
}

/// The run of fields named `key` that starts at `pos`, each payload read by
/// `dec`: the items, and the position behind the last of them. The run ends
/// where `key` opens no field.
pub open spec fn parse_repeated_field<T>(
    s: Seq<u8>,
    pos: int,
    key: u8,
    dec: spec_fn(Seq<u8>) -> Option<T>,
) -> Option<(Seq<T>, int)>
    decreases s.len() - pos,
{
    if has_key(s, pos, key) {
        match parse_len_field(s, pos, key) {
            Some((a, b)) => match dec(s.subrange(a, b)) {
                Some(x) => if b > pos {
                    match parse_repeated_field(s, b, key, dec) {
                        Some((rest, end)) => Some((seq![x] + rest, end)),
                        None => None,
                    }
                } else {
                    None
                },
                None => None,
            },
            None => None,
        }
    } else {
        Some((Seq::empty(), pos))
    }
}

/// A repeated field is its first item's field followed by the rest.
pub proof fn lemma_repeated_front<T>(key: u8, x: T, rest: Seq<T>, enc: spec_fn(T) -> Seq<u8>)
    ensures
        repeated_field(key, seq![x] + rest, enc) == len_field(key, enc(x)) + repeated_field(
            key,
            rest,
            enc,
        ),
    decreases rest.len(),
{
    let all = seq![x] + rest;
    if rest.len() == 0 {
        assert(all.drop_last() =~= Seq::<T>::empty());
        assert(repeated_field(key, all.drop_last(), enc) =~= Seq::<u8>::empty());
        assert(repeated_field(key, all, enc) =~= len_field(key, enc(x)) + Seq::<u8>::empty());
    } else {
        lemma_repeated_front(key, x, rest.drop_last(), enc);
        assert(all.drop_last() =~= seq![x] + rest.drop_last());
        assert(all.last() == rest.last());
        assert(repeated_field(key, all, enc) =~= len_field(key, enc(x)) + repeated_field(
            key,
            rest,
            enc,
        ));
    }
}

/// A repeated field is read back as its items, where every item's bytes are
/// read back as that item and no field named `key` follows.
pub proof fn lemma_repeated_complete<T>(
    s: Seq<u8>,
    pos: int,
    key: u8,
    items: Seq<T>,
    enc: spec_fn(T) -> Seq<u8>,
    dec: spec_fn(Seq<u8>) -> Option<T>,
)
    requires
        at(s, pos, repeated_field(key, items, enc)),
        above_at(s, pos + repeated_field(key, items, enc).len(), key),
        forall|i: int| 0 <= i < items.len() ==> dec(enc(#[trigger] items[i])) == Some(items[i]),
    ensures
        parse_repeated_field(s, pos, key, dec) == Some(
            (items, pos + repeated_field(key, items, enc).len()),
        ),
        not_below(s, pos, key),
    decreases items.len(),
{
    lemma_at_bounds(s, pos, repeated_field(key, items, enc));
    if items.len() == 0 {
    } else {
        let x = items[0];
        let rest = items.drop_first();
        assert(items =~= seq![x] + rest);
        lemma_repeated_front(key, x, rest, enc);
        let head = len_field(key, enc(x));
        lemma_at_split(s, pos, head, repeated_field(key, rest, enc));
        lemma_len_field_complete(s, pos, key, enc(x));
        assert forall|i: int| 0 <= i < rest.len() implies dec(enc(#[trigger] rest[i])) == Some(
            rest[i],
        ) by {
            assert(rest[i] == items[i + 1]);
        }
        lemma_repeated_complete(s, pos + head.len(), key, rest, enc, dec);
        assert(dec(enc(items[0])) == Some(x));
    }
}

/// What is read as a run of items is those items' repeated field, where
/// whatever `dec` reads is what `enc` writes.
pub proof fn lemma_repeated_sound<T>(
    s: Seq<u8>,
    pos: int,
    key: u8,
    enc: spec_fn(T) -> Seq<u8>,
    dec: spec_fn(Seq<u8>) -> Option<T>,
)
    requires
        0 <= pos <= s.len(),
        parse_repeated_field(s, pos, key, dec) is Some,
        forall|p: Seq<u8>| #[trigger] dec(p) is Some ==> enc(dec(p).unwrap()) == p,
    ensures
        at(s, pos, repeated_field(key, parse_repeated_field(s, pos, key, dec).unwrap().0, enc)),
        parse_repeated_field(s, pos, key, dec).unwrap().1 == pos + repeated_field(
            key,
            parse_repeated_field(s, pos, key, dec).unwrap().0,
            enc,
        ).len(),
        !has_key(s, parse_repeated_field(s, pos, key, dec).unwrap().1, key),
    decreases s.len() - pos,
{
    if has_key(s, pos, key) {
        let (a, b) = parse_len_field(s, pos, key).unwrap();
        let x = dec(s.subrange(a, b)).unwrap();
        let (rest, end) = parse_repeated_field(s, b, key, dec).unwrap();
        lemma_len_field_sound(s, pos, key);
        lemma_repeated_sound(s, b, key, enc, dec);
        lemma_repeated_front(key, x, rest, enc);
        lemma_at_split(s, pos, len_field(key, enc(x)), repeated_field(key, rest, enc));
    } else {
        lemma_at_empty(s, pos);
    }
}

} // verus!
