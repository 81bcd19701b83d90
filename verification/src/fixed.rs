//! Fields of fixed width: the key, then four or eight bytes, least
//! significant first.

use crate::wire::{above_at, at, has_key, lemma_at_split, not_below, peek_key};
use vstd::bytes::{
    lemma_auto_spec_u32_to_from_le_bytes, lemma_auto_spec_u64_to_from_le_bytes,
    spec_u32_from_le_bytes, spec_u32_to_le_bytes, spec_u64_from_le_bytes, spec_u64_to_le_bytes,
};
use vstd::prelude::*;
use vstd::slice::slice_subrange;

verus! {

/// Calls `bytes::BufMut::put_u64_le` on a `Vec<u8>`. Trusted: the eight bytes
/// appended are `v` in little-endian order.
#[verifier::external_body]
fn put_u64_le(buf: &mut Vec<u8>, v: u64)
    ensures
        final(buf)@ == old(buf)@ + spec_u64_to_le_bytes(v),
{
    bytes::BufMut::put_u64_le(buf, v);
}

/// Calls `bytes::BufMut::put_u32_le` on a `Vec<u8>`. Trusted: the four bytes
/// appended are `v` in little-endian order.
#[verifier::external_body]
fn put_u32_le(buf: &mut Vec<u8>, v: u32)
    ensures
        final(buf)@ == old(buf)@ + spec_u32_to_le_bytes(v),
{
    bytes::BufMut::put_u32_le(buf, v);
}

/// Calls `bytes::Buf::get_u64_le` on a byte slice, which panics on fewer than
/// eight bytes. Trusted: the result is the first eight bytes read in
/// little-endian order.
#[verifier::external_body]
fn get_u64_le(buf: &[u8]) -> (v: u64)
    requires
        buf@.len() >= 8,
    ensures
        v == spec_u64_from_le_bytes(buf@.subrange(0, 8)),
{
    let mut rest = buf;
    bytes::Buf::get_u64_le(&mut rest)
}

/// Calls `bytes::Buf::get_u32_le` on a byte slice, which panics on fewer than
/// four bytes. Trusted: the result is the first four bytes read in
/// little-endian order.
#[verifier::external_body]
fn get_u32_le(buf: &[u8]) -> (v: u32)
    requires
        buf@.len() >= 4,
    ensures
        v == spec_u32_from_le_bytes(buf@.subrange(0, 4)),
{
    let mut rest = buf;
    bytes::Buf::get_u32_le(&mut rest)
}

/// A 64-bit field: the key, then eight bytes, least significant first.
pub open spec fn fixed64_field(key: u8, v: u64) -> Seq<u8> {
    seq![key] + spec_u64_to_le_bytes(v)
}

/// The 64-bit field named `key` at `pos`.
pub open spec fn parse_fixed64_field(s: Seq<u8>, pos: int, key: u8) -> Option<(u64, int)> {
    if 0 <= pos && pos + 9 <= s.len() && s[pos] == key {
        Some((spec_u64_from_le_bytes(s.subrange(pos + 1, pos + 9)), pos + 9))
    } else {
        None
    }
}

/// The field that stands at `pos` is read as its value, and the reading ends
/// behind it.
pub proof fn lemma_fixed64_field_complete(s: Seq<u8>, pos: int, key: u8, v: u64)
    requires
        at(s, pos, fixed64_field(key, v)),
    ensures
        parse_fixed64_field(s, pos, key) == Some((v, pos + fixed64_field(key, v).len())),
        fixed64_field(key, v).len() == 9,
{
    reveal(at);
    lemma_auto_spec_u64_to_from_le_bytes();
    lemma_at_split(s, pos, seq![key], spec_u64_to_le_bytes(v));
    assert(s.subrange(pos, pos + 1)[0] == key);
}

/// What is read at `pos` is the field of the value read, and the field ends
/// where the reading ended.
pub proof fn lemma_fixed64_field_sound(s: Seq<u8>, pos: int, key: u8)
    requires
        parse_fixed64_field(s, pos, key) is Some,
    ensures
        at(s, pos, fixed64_field(key, parse_fixed64_field(s, pos, key).unwrap().0)),
        fixed64_field(key, parse_fixed64_field(s, pos, key).unwrap().0).len() == 9,
{
    reveal(at);
    lemma_auto_spec_u64_to_from_le_bytes();
    let v = parse_fixed64_field(s, pos, key).unwrap().0;
    let body = s.subrange(pos + 1, pos + 9);
    assert(spec_u64_to_le_bytes(spec_u64_from_le_bytes(body)) == body);
    assert(s.subrange(pos, pos + 1) =~= seq![key]);
    lemma_at_split(s, pos, seq![key], spec_u64_to_le_bytes(v));
}

/// Appends the 64-bit field named `key`.
pub fn put_fixed64_field(buf: &mut Vec<u8>, key: u8, v: u64)
    ensures
        final(buf)@ == old(buf)@ + fixed64_field(key, v),
{
    buf.push(key);
    put_u64_le(buf, v);
    assert(final(buf)@ =~= old(buf)@ + fixed64_field(key, v));
}

/// Reads the 64-bit field named `key` at `pos`.
pub fn take_fixed64_field(buf: &[u8], pos: usize, key: u8) -> (res: Option<(u64, usize)>)
    ensures
        res is Some <==> parse_fixed64_field(buf@, pos as int, key) is Some,
        res matches Some((v, end)) ==> parse_fixed64_field(buf@, pos as int, key) == Some(
            (v, end as int),
        ),
{
    if pos < buf.len() && buf.len() - pos >= 9 && buf[pos] == key {
        let body = slice_subrange(buf, pos + 1, pos + 9);
        assert(body@.subrange(0, 8) =~= body@);
        Some((get_u64_le(body), pos + 9))
    } else {
        None
    }
}

/// A 64-bit field that may be absent: absent, it takes no bytes.
pub open spec fn opt_fixed64_field(key: u8, o: Option<u64>) -> Seq<u8> {
    match o {
        Some(v) => fixed64_field(key, v),
        None => Seq::empty(),
    }
}

/// The 64-bit field named `key` at `pos`, present exactly where `key` opens
/// what stands there.
pub open spec fn parse_opt_fixed64_field(s: Seq<u8>, pos: int, key: u8) -> Option<
    (Option<u64>, int),
> {
    if has_key(s, pos, key) {
        match parse_fixed64_field(s, pos, key) {
            Some((v, end)) => Some((Some(v), end)),
            None => None,
        }
    } else {
        Some((None, pos))
    }
}

/// The field that stands at `pos` is read as its value, and the reading ends
/// behind it.
pub proof fn lemma_opt_fixed64_complete(s: Seq<u8>, pos: int, key: u8, o: Option<u64>)
    requires
        at(s, pos, opt_fixed64_field(key, o)),
        above_at(s, pos + opt_fixed64_field(key, o).len(), key),
    ensures
        parse_opt_fixed64_field(s, pos, key) == Some((o, pos + opt_fixed64_field(key, o).len())),
        not_below(s, pos, key),
{
    reveal(at);
    if let Some(v) = o {
        lemma_fixed64_field_complete(s, pos, key, v);
    }
}

/// What is read at `pos` is the field of the value read, and the field ends
/// where the reading ended.
pub proof fn lemma_opt_fixed64_sound(s: Seq<u8>, pos: int, key: u8)
    requires
        0 <= pos <= s.len(),
        parse_opt_fixed64_field(s, pos, key) is Some,
    ensures
        at(s, pos, opt_fixed64_field(key, parse_opt_fixed64_field(s, pos, key).unwrap().0)),
        parse_opt_fixed64_field(s, pos, key).unwrap().1 == pos + opt_fixed64_field(
            key,
            parse_opt_fixed64_field(s, pos, key).unwrap().0,
        ).len(),
{
    reveal(at);
    if has_key(s, pos, key) {
        lemma_fixed64_field_sound(s, pos, key);
    } else {
        assert(s.subrange(pos, pos) =~= Seq::<u8>::empty());
    }
}

/// Appends the 64-bit field named `key` where `o` holds a value.
pub fn put_opt_fixed64_field(buf: &mut Vec<u8>, key: u8, o: Option<u64>)
    ensures
        final(buf)@ == old(buf)@ + opt_fixed64_field(key, o),
{
    match o {
        Some(v) => put_fixed64_field(buf, key, v),
        None => {
            assert(buf@ =~= buf@ + Seq::<u8>::empty());
        },
    }
}

/// Reads the 64-bit field named `key` at `pos`, where one opens there.
pub fn take_opt_fixed64_field(buf: &[u8], pos: usize, key: u8) -> (res: Option<
    (Option<u64>, usize),
>)
    ensures
        res is Some <==> parse_opt_fixed64_field(buf@, pos as int, key) is Some,
        res matches Some((o, end)) ==> parse_opt_fixed64_field(buf@, pos as int, key) == Some(
            (o, end as int),
        ),
{
    if peek_key(buf, pos, key) {
        match take_fixed64_field(buf, pos, key) {
            Some((v, end)) => Some((Some(v), end)),
            None => None,
        }
    } else {
        Some((None, pos))
    }
}

/// A 32-bit field: the key, then four bytes, least significant first.
pub open spec fn fixed32_field(key: u8, v: u32) -> Seq<u8> {
    seq![key] + spec_u32_to_le_bytes(v)
}

/// The 32-bit field named `key` at `pos`.
pub open spec fn parse_fixed32_field(s: Seq<u8>, pos: int, key: u8) -> Option<(u32, int)> {
    if 0 <= pos && pos + 5 <= s.len() && s[pos] == key {
        Some((spec_u32_from_le_bytes(s.subrange(pos + 1, pos + 5)), pos + 5))
    } else {
        None
    }
}

/// The field that stands at `pos` is read as its value, and the reading ends
/// behind it.
pub proof fn lemma_fixed32_field_complete(s: Seq<u8>, pos: int, key: u8, v: u32)
    requires
        at(s, pos, fixed32_field(key, v)),
    ensures
        parse_fixed32_field(s, pos, key) == Some((v, pos + fixed32_field(key, v).len())),
        fixed32_field(key, v).len() == 5,
{
    reveal(at);
    lemma_auto_spec_u32_to_from_le_bytes();
    lemma_at_split(s, pos, seq![key], spec_u32_to_le_bytes(v));
    assert(s.subrange(pos, pos + 1)[0] == key);
}

/// What is read at `pos` is the field of the value read, and the field ends
/// where the reading ended.
pub proof fn lemma_fixed32_field_sound(s: Seq<u8>, pos: int, key: u8)
    requires
        parse_fixed32_field(s, pos, key) is Some,
    ensures
        at(s, pos, fixed32_field(key, parse_fixed32_field(s, pos, key).unwrap().0)),
        fixed32_field(key, parse_fixed32_field(s, pos, key).unwrap().0).len() == 5,
{
    reveal(at);
    lemma_auto_spec_u32_to_from_le_bytes();
    let v = parse_fixed32_field(s, pos, key).unwrap().0;
    let body = s.subrange(pos + 1, pos + 5);
    assert(spec_u32_to_le_bytes(spec_u32_from_le_bytes(body)) == body);
    assert(s.subrange(pos, pos + 1) =~= seq![key]);
    lemma_at_split(s, pos, seq![key], spec_u32_to_le_bytes(v));
}

/// Appends the 32-bit field named `key`.
pub fn put_fixed32_field(buf: &mut Vec<u8>, key: u8, v: u32)
    ensures
        final(buf)@ == old(buf)@ + fixed32_field(key, v),
{
    buf.push(key);
    put_u32_le(buf, v);
    assert(final(buf)@ =~= old(buf)@ + fixed32_field(key, v));
}

/// Reads the 32-bit field named `key` at `pos`.
pub fn take_fixed32_field(buf: &[u8], pos: usize, key: u8) -> (res: Option<(u32, usize)>)
    ensures
        res is Some <==> parse_fixed32_field(buf@, pos as int, key) is Some,
        res matches Some((v, end)) ==> parse_fixed32_field(buf@, pos as int, key) == Some(
            (v, end as int),
        ),
{
    if pos < buf.len() && buf.len() - pos >= 5 && buf[pos] == key {
        let body = slice_subrange(buf, pos + 1, pos + 5);
        assert(body@.subrange(0, 4) =~= body@);
        Some((get_u32_le(body), pos + 5))
    } else {
        None
    }
}

/// A 32-bit field that may be absent: absent, it takes no bytes.
pub open spec fn opt_fixed32_field(key: u8, o: Option<u32>) -> Seq<u8> {
    match o {
        Some(v) => fixed32_field(key, v),
        None => Seq::empty(),
    }
}

/// The 32-bit field named `key` at `pos`, present exactly where `key` opens
/// what stands there.
pub open spec fn parse_opt_fixed32_field(s: Seq<u8>, pos: int, key: u8) -> Option<
    (Option<u32>, int),
> {
    if has_key(s, pos, key) {
        match parse_fixed32_field(s, pos, key) {
            Some((v, end)) => Some((Some(v), end)),
            None => None,
        }
    } else {
        Some((None, pos))
    }
}

/// The field that stands at `pos` is read as its value, and the reading ends
/// behind it.
pub proof fn lemma_opt_fixed32_complete(s: Seq<u8>, pos: int, key: u8, o: Option<u32>)
    requires
        at(s, pos, opt_fixed32_field(key, o)),
        above_at(s, pos + opt_fixed32_field(key, o).len(), key),
    ensures
        parse_opt_fixed32_field(s, pos, key) == Some((o, pos + opt_fixed32_field(key, o).len())),
        not_below(s, pos, key),
{
    reveal(at);
    if let Some(v) = o {
        lemma_fixed32_field_complete(s, pos, key, v);
    }
}

/// What is read at `pos` is the field of the value read, and the field ends
/// where the reading ended.
pub proof fn lemma_opt_fixed32_sound(s: Seq<u8>, pos: int, key: u8)
    requires
        0 <= pos <= s.len(),
        parse_opt_fixed32_field(s, pos, key) is Some,
    ensures
        at(s, pos, opt_fixed32_field(key, parse_opt_fixed32_field(s, pos, key).unwrap().0)),
        parse_opt_fixed32_field(s, pos, key).unwrap().1 == pos + opt_fixed32_field(
            key,
            parse_opt_fixed32_field(s, pos, key).unwrap().0,
        ).len(),
{
    reveal(at);
    if has_key(s, pos, key) {
        lemma_fixed32_field_sound(s, pos, key);
    } else {
        assert(s.subrange(pos, pos) =~= Seq::<u8>::empty());
    }
}

/// Appends the 32-bit field named `key` where `o` holds a value.
pub fn put_opt_fixed32_field(buf: &mut Vec<u8>, key: u8, o: Option<u32>)
    ensures
        final(buf)@ == old(buf)@ + opt_fixed32_field(key, o),
{
    match o {
        Some(v) => put_fixed32_field(buf, key, v),
        None => {
            assert(buf@ =~= buf@ + Seq::<u8>::empty());
        },
    }
}

/// Reads the 32-bit field named `key` at `pos`, where one opens there.
pub fn take_opt_fixed32_field(buf: &[u8], pos: usize, key: u8) -> (res: Option<
    (Option<u32>, usize),
>)
    ensures
        res is Some <==> parse_opt_fixed32_field(buf@, pos as int, key) is Some,
        res matches Some((o, end)) ==> parse_opt_fixed32_field(buf@, pos as int, key) == Some(
            (o, end as int),
        ),
{
    if peek_key(buf, pos, key) {
        match take_fixed32_field(buf, pos, key) {
            Some((v, end)) => Some((Some(v), end)),
            None => None,
        }
    } else {
        Some((None, pos))
    }
}

} // verus!
