//! Base-128 variable-length integers, as the wire format writes every integer
//! and every length.

use vstd::prelude::*;
use vstd::slice::slice_subrange;

verus! {

/// The base-128 encoding of `v`: seven bits per byte, least significant group
/// first, the high bit set on every byte but the last.
pub open spec fn varint_bytes(v: nat) -> Seq<u8>
    decreases v,
{
    if v < 128 {
        seq![v as u8]
    } else {
        seq![(v % 128 + 128) as u8] + varint_bytes(v / 128)
    }
}

/// The index of the first byte at or after `i` whose high bit is clear.
pub open spec fn varint_stop(s: Seq<u8>, i: int) -> Option<int>
    decreases s.len() - i,
{
    if i < 0 || i >= s.len() {
        None
    } else if s[i] < 0x80 {
        Some(i)
    } else {
        varint_stop(s, i + 1)
    }
}

/// The number that the low seven bits of `s[i..end]` spell, least significant
/// group first.
pub open spec fn varint_value(s: Seq<u8>, i: int, end: int) -> nat
    decreases end - i,
{
    if i >= end {
        0
    } else {
        (s[i] % 128) as nat + 128 * varint_value(s, i + 1, end)
    }
}

/// What a reader that accepts any varint of at most ten bytes whose value fits
/// 64 bits finds at the head of `s`: the value and the number of bytes it took.
pub open spec fn varint_read(s: Seq<u8>) -> Option<(u64, int)> {
    match varint_stop(s, 0) {
        Some(j) => if j < 9 || (j == 9 && s[9] < 2) {
            Some((varint_value(s, 0, j + 1) as u64, j + 1))
        } else {
            None
        },
        None => None,
    }
}

/// `128` to the power `k`.
pub open spec fn pow128(k: nat) -> nat
    decreases k,
{
    if k == 0 {
        1
    } else {
        128 * pow128((k - 1) as nat)
    }
}

/// The varint that the wire format accepts at `pos`: the one way of writing its
/// value, with no padding groups. Gives the value and the position behind it.
pub open spec fn parse_varint(s: Seq<u8>, pos: int) -> Option<(u64, int)> {
    if 0 <= pos <= s.len() {
        match varint_read(s.subrange(pos, s.len() as int)) {
            Some((v, n)) => if n == 1 || s[pos + n - 1] != 0 {
                Some((v, pos + n))
            } else {
                None
            },
            None => None,
        }
    } else {
        None
    }
}

/// The number that stands at `pos` in its one way of being written, however
/// long that is: the number, and the position behind it.
pub open spec fn parse_number(s: Seq<u8>, pos: int) -> Option<(nat, int)> {
    if 0 <= pos <= s.len() {
        let t = s.subrange(pos, s.len() as int);
        match varint_stop(t, 0) {
            Some(j) => if j == 0 || t[j] != 0 {
                Some((varint_value(t, 0, j + 1), pos + j + 1))
            } else {
                None
            },
            None => None,
        }
    } else {
        None
    }
}

/// Where `varint_bytes(v)` stands in `t` at `i`, a scan from `i` stops on its
/// last byte and reads `v`.
proof fn lemma_scan_of_bytes(t: Seq<u8>, i: int, v: nat)
    requires
        0 <= i,
        i + varint_bytes(v).len() <= t.len(),
        t.subrange(i, i + varint_bytes(v).len()) == varint_bytes(v),
    ensures
        varint_bytes(v).len() >= 1,
        varint_stop(t, i) == Some(i + varint_bytes(v).len() - 1),
        varint_value(t, i, i + varint_bytes(v).len()) == v,
        v >= 1 ==> t[i + varint_bytes(v).len() - 1] != 0,
        v < 128 <==> varint_bytes(v).len() == 1,
    decreases v,
{
    let vb = varint_bytes(v);
    let sub = t.subrange(i, i + vb.len());
    assert(t[i] == sub[0]);
    if v < 128 {
        assert(varint_value(t, i + 1, i + 1) == 0);
    } else {
        let tail = varint_bytes(v / 128);
        assert(vb.len() == 1 + tail.len());
        assert(t.subrange(i + 1, i + 1 + tail.len()) =~= tail) by {
            assert forall|k: int| 0 <= k < tail.len() implies t[i + 1 + k] == tail[k] by {
                assert(t[i + 1 + k] == sub[1 + k]);
            }
        }
        lemma_scan_of_bytes(t, i + 1, v / 128);
        assert(t[i] == (v % 128 + 128) as u8);
    }
}

/// A number below `m * 128^(k-1)` takes at most `k` bytes, and where it takes
/// `k`, the last of them is below `m`.
proof fn lemma_bytes_bound(v: nat, k: nat, m: nat)
    requires
        k >= 1,
        1 <= m <= 128,
        v < m * pow128((k - 1) as nat),
    ensures
        varint_bytes(v).len() <= k,
        varint_bytes(v).len() == k ==> varint_bytes(v).last() < m,
    decreases k,
{
    if v < 128 {
        assert(varint_bytes(v) =~= seq![v as u8]);
        if k == 1 {
            assert(pow128(0) == 1);
            assert(m * 1 == m) by (nonlinear_arith);
        }
    } else {
        if k == 1 {
            assert(pow128(0) == 1);
            assert(m * 1 == m) by (nonlinear_arith);
        } else {
            let p = pow128((k - 2) as nat);
            assert(pow128((k - 1) as nat) == 128 * p);
            assert(v / 128 < m * p) by (nonlinear_arith)
                requires
                    v < m * (128 * p),
            ;
            lemma_bytes_bound(v / 128, (k - 1) as nat, m);
            let tail = varint_bytes(v / 128);
            assert(varint_bytes(v) == seq![(v % 128 + 128) as u8] + tail);
            assert(tail.len() >= 1) by {
                lemma_bytes_nonempty(v / 128);
            }
            assert(varint_bytes(v).last() == tail.last());
        }
    }
}

/// Every number takes at least one byte.
proof fn lemma_bytes_nonempty(v: nat)
    ensures
        varint_bytes(v).len() >= 1,
    decreases v,
{
    if v >= 128 {
        lemma_bytes_nonempty(v / 128);
    }
}

/// `2 * 128^9` is `2^64`.
proof fn lemma_pow128_nine()
    ensures
        2 * pow128(9) == 0x1_0000_0000_0000_0000,
{
    reveal_with_fuel(pow128, 10);
}

/// A scan that stops at `j` has passed only bytes with the high bit set.
proof fn lemma_stop_facts(t: Seq<u8>, i: int)
    requires
        varint_stop(t, i) is Some,
    ensures
        i <= varint_stop(t, i).unwrap() < t.len(),
        t[varint_stop(t, i).unwrap()] < 0x80,
        forall|k: int| i <= k < varint_stop(t, i).unwrap() ==> t[k] >= 0x80,
    decreases t.len() - i,
{
    if t[i] >= 0x80 {
        lemma_stop_facts(t, i + 1);
    }
}

/// The groups `t[i..end]` spell a number below `(last + 1) * 128^(end-i-1)`,
/// and a positive one where the last group is not zero.
proof fn lemma_value_bound(t: Seq<u8>, i: int, end: int)
    requires
        0 <= i < end <= t.len(),
    ensures
        varint_value(t, i, end) < (t[end - 1] % 128 + 1) * pow128((end - i - 1) as nat),
        t[end - 1] % 128 != 0 ==> varint_value(t, i, end) >= 1,
    decreases end - i,
{
    let last = (t[end - 1] % 128) as nat;
    if end - i == 1 {
        assert(varint_value(t, i + 1, end) == 0);
        assert(pow128(0) == 1);
        assert((last + 1) * 1 == last + 1) by (nonlinear_arith);
    } else {
        lemma_value_bound(t, i + 1, end);
        let p = pow128((end - i - 2) as nat);
        let rest = varint_value(t, i + 1, end);
        let b = (t[i] % 128) as nat;
        assert(pow128((end - i - 1) as nat) == 128 * p);
        assert(b + 128 * rest < (last + 1) * (128 * p)) by (nonlinear_arith)
            requires
                rest < (last + 1) * p,
                b < 128,
        ;
    }
}

/// A run of continuation bytes closed by a final byte, with no padding group,
/// is the encoding of the number it spells.
proof fn lemma_bytes_of_scan(t: Seq<u8>, i: int, end: int)
    requires
        0 <= i < end <= t.len(),
        forall|k: int| i <= k < end - 1 ==> t[k] >= 0x80,
        t[end - 1] < 0x80,
        end - i == 1 || t[end - 1] != 0,
    ensures
        t.subrange(i, end) == varint_bytes(varint_value(t, i, end)),
    decreases end - i,
{
    if end - i == 1 {
        assert(varint_value(t, i + 1, end) == 0);
        assert(t.subrange(i, end) =~= seq![t[i]]);
    } else {
        lemma_bytes_of_scan(t, i + 1, end);
        lemma_value_bound(t, i + 1, end);
        let rest = varint_value(t, i + 1, end);
        let v = varint_value(t, i, end);
        assert(v == (t[i] % 128) as nat + 128 * rest);
        assert(v / 128 == rest);
        assert(v % 128 == t[i] % 128);
        assert(t.subrange(i, end) =~= seq![t[i]] + t.subrange(i + 1, end));
    }
}

/// The encoding of a 64-bit number is read back as that number, whatever
/// follows it.
pub proof fn lemma_parse_varint_complete(s: Seq<u8>, pos: int, v: u64)
    requires
        0 <= pos,
        pos + varint_bytes(v as nat).len() <= s.len(),
        s.subrange(pos, pos + varint_bytes(v as nat).len()) == varint_bytes(v as nat),
    ensures
        parse_varint(s, pos) == Some((v, pos + varint_bytes(v as nat).len())),
{
    let vb = varint_bytes(v as nat);
    let t = s.subrange(pos, s.len() as int);
    assert(t.subrange(0, vb.len() as int) =~= vb);
    lemma_scan_of_bytes(t, 0, v as nat);
    lemma_pow128_nine();
    lemma_bytes_bound(v as nat, 10, 2);
    assert(t[vb.len() - 1] == vb.last());
}

/// What is read at `pos` is the encoding of the value read.
pub proof fn lemma_parse_varint_sound(s: Seq<u8>, pos: int)
    requires
        parse_varint(s, pos) is Some,
    ensures
        pos < parse_varint(s, pos).unwrap().1 <= s.len(),
        s.subrange(pos, parse_varint(s, pos).unwrap().1) == varint_bytes(
            parse_varint(s, pos).unwrap().0 as nat,
        ),
{
    let t = s.subrange(pos, s.len() as int);
    let j = varint_stop(t, 0).unwrap();
    lemma_stop_facts(t, 0);
    lemma_value_bound(t, 0, j + 1);
    lemma_bytes_of_scan(t, 0, j + 1);
    lemma_pow128_nine();
    let p = pow128(j as nat);
    let v = varint_value(t, 0, j + 1);
    assert(v < 0x1_0000_0000_0000_0000) by {
        reveal_with_fuel(pow128, 10);
        let last = (t[j] % 128) as nat;
        if j == 9 {
            assert(v < 2 * pow128(9)) by (nonlinear_arith)
                requires
                    v < (last + 1) * pow128(9),
                    last < 2,
            ;
        } else {
            assert(pow128(j as nat) * 128 <= pow128(9)) by {
                lemma_pow128_mono((j + 1) as nat, 9);
            }
            assert(v < 2 * pow128(9)) by (nonlinear_arith)
                requires
                    v < (last + 1) * p,
                    last < 128,
                    p * 128 <= pow128(9),
            ;
        }
    }
    assert(s.subrange(pos, pos + j + 1) =~= t.subrange(0, j + 1));
}

/// The groups `t[i..end]` spell a number that is at least the last group
/// times `128^(end-i-1)`.
proof fn lemma_value_at_least(t: Seq<u8>, i: int, end: int)
    requires
        0 <= i < end <= t.len(),
    ensures
        varint_value(t, i, end) >= (t[end - 1] % 128) * pow128((end - i - 1) as nat),
    decreases end - i,
{
    let last = (t[end - 1] % 128) as nat;
    if end - i == 1 {
        assert(varint_value(t, i + 1, end) == 0);
        assert(pow128(0) == 1);
        assert(last * 1 == last) by (nonlinear_arith);
    } else {
        lemma_value_at_least(t, i + 1, end);
        let p = pow128((end - i - 2) as nat);
        let rest = varint_value(t, i + 1, end);
        assert(pow128((end - i - 1) as nat) == 128 * p);
        assert(128 * rest >= last * (128 * p)) by (nonlinear_arith)
            requires
                rest >= last * p,
        ;
    }
}

/// The encoding of a number is read back as that number, whatever follows it.
pub proof fn lemma_parse_number_complete(s: Seq<u8>, pos: int, v: nat)
    requires
        0 <= pos,
        pos + varint_bytes(v).len() <= s.len(),
        s.subrange(pos, pos + varint_bytes(v).len()) == varint_bytes(v),
    ensures
        parse_number(s, pos) == Some((v, pos + varint_bytes(v).len())),
{
    let vb = varint_bytes(v);
    let t = s.subrange(pos, s.len() as int);
    assert(t.subrange(0, vb.len() as int) =~= vb);
    lemma_scan_of_bytes(t, 0, v);
}

/// What is read at `pos` is the encoding of the number read.
pub proof fn lemma_parse_number_sound(s: Seq<u8>, pos: int)
    requires
        parse_number(s, pos) is Some,
    ensures
        pos < parse_number(s, pos).unwrap().1 <= s.len(),
        s.subrange(pos, parse_number(s, pos).unwrap().1) == varint_bytes(
            parse_number(s, pos).unwrap().0,
        ),
{
    let t = s.subrange(pos, s.len() as int);
    let j = varint_stop(t, 0).unwrap();
    lemma_stop_facts(t, 0);
    lemma_bytes_of_scan(t, 0, j + 1);
    assert(s.subrange(pos, pos + j + 1) =~= t.subrange(0, j + 1));
}

/// A varint is a number that 64 bits can hold.
pub proof fn lemma_varint_is_number(s: Seq<u8>, pos: int)
    ensures
        parse_varint(s, pos) is Some <==> parse_number(s, pos) is Some && parse_number(
            s,
            pos,
        ).unwrap().0 <= u64::MAX,
        parse_varint(s, pos) matches Some((v, end)) ==> parse_number(s, pos) == Some(
            (v as nat, end),
        ),
{
    if 0 <= pos <= s.len() {
        let t = s.subrange(pos, s.len() as int);
        if varint_stop(t, 0) is Some {
            let j = varint_stop(t, 0).unwrap();
            lemma_stop_facts(t, 0);
            lemma_pow128_nine();
            let v = varint_value(t, 0, j + 1);
            let last = (t[j] % 128) as nat;
            let p = pow128(j as nat);
            lemma_value_at_least(t, 0, j + 1);
            lemma_value_bound(t, 0, j + 1);
            if parse_varint(s, pos) is Some {
                lemma_parse_varint_sound(s, pos);
                assert(v < 0x1_0000_0000_0000_0000) by {
                    if j == 9 {
                        assert(v < 2 * pow128(9)) by (nonlinear_arith)
                            requires
                                v < (last + 1) * pow128(9),
                                last < 2,
                        ;
                    } else {
                        lemma_pow128_mono((j + 1) as nat, 9);
                        assert(pow128((j + 1) as nat) == 128 * p);
                        assert(v < 2 * pow128(9)) by (nonlinear_arith)
                            requires
                                v < (last + 1) * p,
                                last < 128,
                                128 * p <= pow128(9),
                        ;
                    }
                }
            }
            if parse_number(s, pos) is Some && v <= u64::MAX {
                if j >= 10 {
                    lemma_pow128_mono(10, j as nat);
                    assert(pow128(10) == 128 * pow128(9));
                    assert(v >= pow128(10)) by (nonlinear_arith)
                        requires
                            v >= last * p,
                            last >= 1,
                            p >= pow128(10),
                    ;
                } else if j == 9 && t[9] >= 2 {
                    assert(v >= 2 * pow128(9)) by (nonlinear_arith)
                        requires
                            v >= last * pow128(9),
                            last >= 2,
                    ;
                }
            }
        }
    }
}

/// `128^a <= 128^b` where `a <= b`.
proof fn lemma_pow128_mono(a: nat, b: nat)
    requires
        a <= b,
    ensures
        pow128(a) <= pow128(b),
        pow128(a) >= 1,
    decreases b,
{
    if a < b {
        lemma_pow128_mono(a, (b - 1) as nat);
    } else if a > 0 {
        lemma_pow128_mono((a - 1) as nat, (a - 1) as nat);
    }
}

/// The error that prost's decoders return. Nothing is read from it.
#[verifier::external_type_specification]
#[verifier::external_body]
pub struct ExDecodeError(prost::DecodeError);

/// Calls `prost::encoding::encode_varint` on a `Vec<u8>`, which grows as
/// needed. Trusted: the bytes appended are the base-128 encoding of `value`.
#[verifier::external_body]
fn encode_varint(value: u64, buf: &mut Vec<u8>)
    ensures
        final(buf)@ == old(buf)@ + varint_bytes(value as nat),
{
    prost::encoding::encode_varint(value, buf);
}

/// Calls `prost::encoding::decode_varint` on a byte slice. Trusted: it
/// succeeds exactly where `varint_read` finds a value at the head of `buf`,
/// returns that value, and leaves behind what follows the bytes it took; the
/// second component is the length of what it left.
#[verifier::external_body]
fn decode_varint(buf: &[u8]) -> (res: Result<(u64, usize), prost::DecodeError>)
    ensures
        res is Ok <==> varint_read(buf@) is Some,
        res matches Ok((v, left)) ==> v == varint_read(buf@).unwrap().0 && left == buf@.len()
            - varint_read(buf@).unwrap().1,
{
    let mut rest = buf;
    match prost::encoding::decode_varint(&mut rest) {
        Ok(v) => Ok((v, rest.len())),
        Err(e) => Err(e),
    }
}

/// Appends the encoding of `v` to `buf`.
pub fn write_varint(buf: &mut Vec<u8>, v: u64)
    ensures
        final(buf)@ == old(buf)@ + varint_bytes(v as nat),
{
    encode_varint(v, buf);
}

/// Reads the varint that stands at `pos`, and gives its value and the position
/// behind it; `None` where no varint in its shortest form stands there.
pub fn read_varint(buf: &[u8], pos: usize) -> (res: Option<(u64, usize)>)
    ensures
        res is Some <==> parse_varint(buf@, pos as int) is Some,
        res matches Some((v, end)) ==> parse_varint(buf@, pos as int) == Some((v, end as int)),
{
    if pos > buf.len() {
        return None;
    }
    let rest = slice_subrange(buf, pos, buf.len());
    match decode_varint(rest) {
        Ok((v, left)) => {
            proof {
                lemma_stop_facts(rest@, 0);
            }
            let end = buf.len() - left;
            if end - pos == 1 || buf[end - 1] != 0 {
                Some((v, end))
            } else {
                None
            }
        },
        Err(_) => None,
    }
}

} // verus!
