//! JSON documents, as `serde_json` reads and prints them.
//!
//! A parsed document is a `serde_json::Value`. Verified code never looks
//! inside one: it asks `serde_json` through the functions below, and the
//! contracts speak of a value by the compact text that `serde_json` prints for
//! it, [`json_text`]. Two values with the same compact text are the same
//! document, so what a value holds is named as a function of that text.

use vstd::prelude::*;
use vstd::utf8::{decode_utf8, valid_utf8};

verus! {

/// `serde_json::Value`, a parsed JSON document, as an opaque type.
#[verifier::external_type_specification]
#[verifier::external_body]
pub struct ExValue(serde_json::Value);

/// `serde_json::Error`, as an opaque type.
#[verifier::external_type_specification]
#[verifier::external_body]
pub struct ExJsonError(serde_json::Error);

/// `std::str::Utf8Error`, as an opaque type.
#[verifier::external_type_specification]
#[verifier::external_body]
pub struct ExUtf8Error(std::str::Utf8Error);

/// The compact text that `serde_json` prints for a value.
pub uninterp spec fn json_text(value: serde_json::Value) -> Seq<char>;

/// The compact text of the document that `serde_json` reads from `text`, or
/// `None` where `text` is no JSON document.
pub uninterp spec fn json_document(text: Seq<char>) -> Option<Seq<char>>;

/// The compact text of the member `key` of the document `document`; the text
/// of `null` where `document` is no object or has no such member.
pub uninterp spec fn json_member(document: Seq<char>, key: Seq<char>) -> Seq<char>;

/// The compact texts of the elements of the array `document`, in order, or
/// `None` where `document` is no array.
pub uninterp spec fn json_elements(document: Seq<char>) -> Option<Seq<Seq<char>>>;

/// The sixteen hexadecimal digits, in lower case.
pub open spec fn hex_digits() -> Seq<char> {
    seq!['0', '1', '2', '3', '4', '5', '6', '7', '8', '9', 'a', 'b', 'c', 'd', 'e', 'f']
}

/// What stands for the character `c` inside a JSON string literal: the quote
/// and the backslash behind a backslash, the five short escapes, `\u00` and
/// two hexadecimal digits for any other character below the space, and every
/// other character itself.
pub open spec fn json_escape(c: char) -> Seq<char> {
    if c == '"' {
        seq!['\\', '"']
    } else if c == '\\' {
        seq!['\\', '\\']
    } else if c == '\u{8}' {
        seq!['\\', 'b']
    } else if c == '\u{c}' {
        seq!['\\', 'f']
    } else if c == '\n' {
        seq!['\\', 'n']
    } else if c == '\r' {
        seq!['\\', 'r']
    } else if c == '\t' {
        seq!['\\', 't']
    } else if (c as u32) < 0x20 {
        seq!['\\', 'u', '0', '0', hex_digits()[c as int / 16], hex_digits()[c as int % 16]]
    } else {
        seq![c]
    }
}

/// The text `s` with each of its characters escaped.
pub open spec fn json_escaped(s: Seq<char>) -> Seq<char>
    decreases s.len(),
{
    if s.len() == 0 {
        Seq::empty()
    } else {
        json_escaped(s.drop_last()) + json_escape(s.last())
    }
}

/// The JSON string literal of the text `s`: the escaped text in quotes.
pub open spec fn json_string(s: Seq<char>) -> Seq<char> {
    seq!['"'] + json_escaped(s) + seq!['"']
}

/// Whether the character `c` stands for itself inside a JSON string literal.
pub open spec fn is_plain(c: char) -> bool {
    c != '"' && c != '\\' && (c as u32) >= 0x20
}

/// A text of plain characters is its own escaped text.
pub proof fn lemma_plain_text(s: Seq<char>)
    requires
        forall|i: int| 0 <= i < s.len() ==> is_plain(#[trigger] s[i]),
    ensures
        json_escaped(s) == s,
        json_string(s) == seq!['"'] + s + seq!['"'],
    decreases s.len(),
{
    if s.len() > 0 {
        let head = s.drop_last();
        assert forall|i: int| 0 <= i < head.len() implies is_plain(#[trigger] head[i]) by {
            assert(head[i] == s[i]);
        }
        lemma_plain_text(head);
        assert(is_plain(s[s.len() - 1]));
        assert(json_escape(s.last()) =~= seq![s.last()]);
        assert(head + seq![s.last()] =~= s);
    }
}

/// The compact text of the JSON value `null`.
pub open spec fn null_text() -> Seq<char> {
    "null"@
}

/// The compact texts of a sequence of values.
pub open spec fn json_texts(values: Seq<serde_json::Value>) -> Seq<Seq<char>> {
    Seq::new(values.len(), |i: int| json_text(values[i]))
}

/// Calls `std::str::from_utf8`. It is taken to succeed exactly on well-formed
/// UTF-8, and then to give the text that the bytes encode.
#[verifier::external_body]
pub(crate) fn text_of(bytes: &[u8]) -> (r: Result<&str, std::str::Utf8Error>)
    ensures
        r is Ok <==> valid_utf8(bytes@),
        r matches Ok(text) ==> text@ == decode_utf8(bytes@),
{
    std::str::from_utf8(bytes)
}

/// Calls `serde_json::from_str` for a `Value`. It is taken to succeed exactly
/// where the text is a JSON document, and then to give that document; which
/// texts are documents, and which document a text is, is left to
/// [`json_document`].
#[verifier::external_body]
pub(crate) fn parse_json(text: &str) -> (r: Result<serde_json::Value, serde_json::Error>)
    ensures
        match r {
            Ok(value) => json_document(text@) == Some(json_text(value)),
            Err(_) => json_document(text@) is None,
        },
{
    serde_json::from_str::<serde_json::Value>(text)
}

/// Indexes a `Value` with a string (`Index<&str>` of `serde_json`). It is
/// taken to give the member of that name of an object, and `null` where there
/// is none; which value that is, is left to [`json_member`].
#[verifier::external_body]
pub(crate) fn member<'a>(value: &'a serde_json::Value, key: &str) -> (r: &'a serde_json::Value)
    ensures
        json_text(*r) == json_member(json_text(*value), key@),
{
    &value[key]
}

/// Calls `Value::is_null`. It is taken to be true of the value `null`, whose
/// compact text is `null`, and of no other.
#[verifier::external_body]
pub(crate) fn is_null(value: &serde_json::Value) -> (r: bool)
    ensures
        r == (json_text(*value) == null_text()),
{
    value.is_null()
}

/// Calls `Value::as_array`. It is taken to give the elements of an array, in
/// their order, and `None` for any other value.
#[verifier::external_body]
pub(crate) fn elements(value: &serde_json::Value) -> (r: Option<&Vec<serde_json::Value>>)
    ensures
        match r {
            Some(items) => json_elements(json_text(*value)) == Some(json_texts(items@)),
            None => json_elements(json_text(*value)) is None,
        },
{
    value.as_array()
}

/// Calls `to_string` on a `Value`. What it gives is the compact text of the
/// value, by which the contracts speak of it.
#[verifier::external_body]
pub(crate) fn print_json(value: &serde_json::Value) -> (r: String)
    ensures
        r@ == json_text(*value),
{
    value.to_string()
}

/// Calls `serde_json::to_string` for a string. It is taken to give the JSON
/// string literal of the text, as [`json_string`] spells it out: the text in
/// quotes, with the quote, the backslash and the characters below the space
/// escaped. Printing a string does not fail; were it to, the result would be
/// empty.
#[verifier::external_body]
pub(crate) fn quote_json(s: &str) -> (r: String)
    ensures
        r@ == json_string(s@),
{
    serde_json::to_string(s).unwrap_or_default()
}

} // verus!
