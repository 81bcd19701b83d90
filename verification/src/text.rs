//! Text fields: length-delimited fields that hold their text in UTF-8.

use crate::wire::{
    above_at, at, has_key, lemma_len_field_complete, lemma_len_field_sound, len_field, not_below,
    parse_len_field, peek_key, put_len_field, take_len_field,
};
use vstd::prelude::*;
use vstd::slice::slice_subrange;
use vstd::utf8::{
    decode_utf8, decode_utf8_encode_utf8, encode_utf8, encode_utf8_decode_utf8,
    encode_utf8_valid_utf8, valid_utf8,
};

verus! {

/// Calls `core::str::from_utf8`. Trusted: it succeeds exactly on well-formed
/// UTF-8, and the text it returns is what those bytes spell.
#[verifier::external_body]
fn str_from_utf8(bytes: &[u8]) -> (res: Option<&str>)
    ensures
        res is Some <==> valid_utf8(bytes@),
        res matches Some(t) ==> t@ == decode_utf8(bytes@),
{
    match core::str::from_utf8(bytes) {
        Ok(t) => Some(t),
        Err(_) => None,
    }
}

/// A text field: a length-delimited field that holds the text in UTF-8.
pub open spec fn text_field(key: u8, text: Seq<char>) -> Seq<u8> {
    len_field(key, encode_utf8(text))
}

/// The text field named `key` at `pos`.
pub open spec fn parse_text_field(s: Seq<u8>, pos: int, key: u8) -> Option<(Seq<char>, int)> {
    match parse_len_field(s, pos, key) {
        Some((a, b)) => if valid_utf8(s.subrange(a, b)) {
            Some((decode_utf8(s.subrange(a, b)), b))
        } else {
            None
        },
        None => None,
    }
}

/// The field that stands at `pos` is read as its value, and the reading ends
/// behind it.
pub proof fn lemma_text_field_complete(s: Seq<u8>, pos: int, key: u8, text: Seq<char>)
    requires
        at(s, pos, text_field(key, text)),
    ensures
        parse_text_field(s, pos, key) == Some((text, pos + text_field(key, text).len())),
{
    reveal(at);
    lemma_len_field_complete(s, pos, key, encode_utf8(text));
    encode_utf8_valid_utf8(text);
    encode_utf8_decode_utf8(text);
}

/// What is read at `pos` is the field of the value read, and the field ends
/// where the reading ended.
pub proof fn lemma_text_field_sound(s: Seq<u8>, pos: int, key: u8)
    requires
        parse_text_field(s, pos, key) is Some,
    ensures
        at(s, pos, text_field(key, parse_text_field(s, pos, key).unwrap().0)),
        parse_text_field(s, pos, key).unwrap().1 == pos + text_field(
            key,
            parse_text_field(s, pos, key).unwrap().0,
        ).len(),
{
    reveal(at);
    let (a, b) = parse_len_field(s, pos, key).unwrap();
    lemma_len_field_sound(s, pos, key);
    decode_utf8_encode_utf8(s.subrange(a, b));
}

/// Appends the text field named `key`.
pub fn put_text_field(buf: &mut Vec<u8>, key: u8, text: &str)
    ensures
        final(buf)@ == old(buf)@ + text_field(key, text@),
{
    put_len_field(buf, key, text.as_bytes());
}

/// Reads the text field named `key` at `pos`.
pub fn take_text_field(buf: &[u8], pos: usize, key: u8) -> (res: Option<(String, usize)>)
    ensures
        res is Some <==> parse_text_field(buf@, pos as int, key) is Some,
        res matches Some((t, end)) ==> parse_text_field(buf@, pos as int, key) == Some(
            (t@, end as int),
        ),
{
    match take_len_field(buf, pos, key) {
        Some((a, b)) => {
            proof {
                lemma_len_field_sound(buf@, pos as int, key);
            }
            match str_from_utf8(slice_subrange(buf, a, b)) {
                Some(t) => Some((t.to_owned(), b)),
                None => None,
            }
        },
        None => None,
    }
}

/// The text that an optional `String` holds.
pub open spec fn opt_text(o: Option<String>) -> Option<Seq<char>> {
    match o {
        Some(t) => Some(t@),
        None => None,
    }
}

/// A text field that may be absent.
pub open spec fn opt_text_field(key: u8, o: Option<Seq<char>>) -> Seq<u8> {
    match o {
        Some(t) => text_field(key, t),
        None => Seq::empty(),
    }
}

/// The text field named `key` at `pos`, present exactly where `key` opens what
/// stands there.
pub open spec fn parse_opt_text_field(s: Seq<u8>, pos: int, key: u8) -> Option<
    (Option<Seq<char>>, int),
> {
    if has_key(s, pos, key) {
        match parse_text_field(s, pos, key) {
            Some((t, end)) => Some((Some(t), end)),
            None => None,
        }
    } else {
        Some((None, pos))
    }
}

/// The field that stands at `pos` is read as its value, and the reading ends
/// behind it.
pub proof fn lemma_opt_text_complete(s: Seq<u8>, pos: int, key: u8, o: Option<Seq<char>>)
    requires
        at(s, pos, opt_text_field(key, o)),
        above_at(s, pos + opt_text_field(key, o).len(), key),
    ensures
        parse_opt_text_field(s, pos, key) == Some((o, pos + opt_text_field(key, o).len())),
        not_below(s, pos, key),
{
    reveal(at);
    if let Some(t) = o {
        lemma_text_field_complete(s, pos, key, t);
    }
}

/// What is read at `pos` is the field of the value read, and the field ends
/// where the reading ended.
pub proof fn lemma_opt_text_sound(s: Seq<u8>, pos: int, key: u8)
    requires
        0 <= pos <= s.len(),
        parse_opt_text_field(s, pos, key) is Some,
    ensures
        at(s, pos, opt_text_field(key, parse_opt_text_field(s, pos, key).unwrap().0)),
        parse_opt_text_field(s, pos, key).unwrap().1 == pos + opt_text_field(
            key,
            parse_opt_text_field(s, pos, key).unwrap().0,
        ).len(),
{
    reveal(at);
    if has_key(s, pos, key) {
        lemma_text_field_sound(s, pos, key);
    } else {
        assert(s.subrange(pos, pos) =~= Seq::<u8>::empty());
    }
}

/// Appends the text field named `key` where `o` holds a text.
pub fn put_opt_text_field(buf: &mut Vec<u8>, key: u8, o: &Option<String>)
    ensures
        final(buf)@ == old(buf)@ + opt_text_field(key, opt_text(*o)),
{
    match o {
        Some(t) => put_text_field(buf, key, t.as_str()),
        None => {
            assert(buf@ =~= buf@ + Seq::<u8>::empty());
        },
    }
}

/// Reads the text field named `key` at `pos`, where one opens there.
pub fn take_opt_text_field(buf: &[u8], pos: usize, key: u8) -> (res: Option<
    (Option<String>, usize),
>)
    ensures
        res is Some <==> parse_opt_text_field(buf@, pos as int, key) is Some,
        res matches Some((o, end)) ==> parse_opt_text_field(buf@, pos as int, key) == Some(
            (opt_text(o), end as int),
        ),
{
    if peek_key(buf, pos, key) {
        match take_text_field(buf, pos, key) {
            Some((t, end)) => Some((Some(t), end)),
            None => None,
        }
    } else {
        Some((None, pos))
    }
}

} // verus!
