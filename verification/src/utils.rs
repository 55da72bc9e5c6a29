//! Small helpers.

use vstd::prelude::*;
use vstd::utf8::{decode_utf8, encode_utf8};
use crate::json::{json_document, json_text, parse_json};

verus! {

/// The greeting.
pub const GREETING: &'static str = "Hello, Ericsson!";

/// A short JSON document: a host and a port.
pub const EXAMPLE_DOCUMENT: &'static str =
    "\n    {\n        \"host\": \"http://something.com\",\n        \"port\": 8888\n    }\n    ";

/// A greeting.
pub fn welcome() -> (greeting: String)
    ensures
        greeting@ == GREETING@,
{
    GREETING.to_owned()
}

/// Reads [`EXAMPLE_DOCUMENT`] as JSON.
pub fn serde() -> (r: Option<serde_json::Value>)
    ensures
        match r {
            Some(value) => json_document(EXAMPLE_DOCUMENT@) == Some(json_text(value)),
            None => json_document(EXAMPLE_DOCUMENT@) is None,
        },
{
    match parse_json(EXAMPLE_DOCUMENT) {
        Ok(value) => Some(value),
        Err(_) => None,
    }
}

/// Tells whether two texts are the same.
pub fn same_text(a: &str, b: &str) -> (r: bool)
    ensures
        r == (a@ == b@),
{
    broadcast use vstd::utf8::encode_utf8_decode_utf8;

    let x: &[u8] = a.as_bytes();
    let y: &[u8] = b.as_bytes();
    if x.len() != y.len() {
        return false;
    }
    let mut i: usize = 0;
    while i < x.len()
        invariant
            i <= x@.len(),
            x@.len() == y@.len(),
            x@ == encode_utf8(a@),
            y@ == encode_utf8(b@),
            forall|k: int| 0 <= k < i ==> x@[k] == y@[k],
        decreases x@.len() - i,
    {
        if x[i] != y[i] {
            return false;
        }
        i = i + 1;
    }
    assert(x@ =~= y@);
    assert(decode_utf8(encode_utf8(a@)) == a@);
    assert(decode_utf8(encode_utf8(b@)) == b@);
    true
}

} // verus!
