//! Semantic versions of the form `major.minor.patch`.
//!
//! The text of a version is three numbers separated by two dots, each number
//! as [`decimal_u16`] reads it. Extensions such as `1.0.0-alpha+001` are not
//! versions.

use std::cmp::Ordering;
use vstd::prelude::*;
use vstd::std_specs::cmp::PartialOrdSpecImpl;
use vstd::string::StringSliceAdditionalSpecFns;
use crate::decimal::{decimal_u16, lemma_number_has_no_dot, parse_u16_in, DOT};

verus! {

/// A semantic version without pre-release or build extensions.
///
/// Versions are ordered by major, then minor, then patch number.
#[derive(Debug, Clone, Copy, PartialEq, Eq, Structural, Ord, Hash)]
pub struct SemVer {
    pub major: u16,
    pub minor: u16,
    pub patch: u16,
}

/// Why a text is not a version.
#[derive(Debug, Clone, Copy, PartialEq, Eq, Structural)]
pub enum SemVerErrorKind {
    /// The text is not made of three numbers separated by dots.
    InvalidStructure,
}

/// The error of [`SemVer::parse`].
#[derive(Debug, PartialEq, Eq, Structural)]
pub struct ParseSemVerError {
    pub kind: SemVerErrorKind,
}

/// The number of bytes of `s` before its first dot; the length of `s` where
/// it holds no dot.
pub open spec fn dot_index(s: Seq<u8>) -> int
    decreases s.len(),
{
    if s.len() == 0 || s[0] == DOT {
        0
    } else {
        1 + dot_index(s.drop_first())
    }
}

/// The text of a version with the given three parts.
pub open spec fn dotted(major: Seq<u8>, minor: Seq<u8>, patch: Seq<u8>) -> Seq<u8> {
    major + seq![DOT] + minor + seq![DOT] + patch
}

/// The version that the text `s` denotes, or `None` where `s` is no version:
/// the text before the first dot, the text between the first and the second
/// dot, and the rest are read as numbers.
pub open spec fn semver_of(s: Seq<u8>) -> Option<SemVer> {
    let i = dot_index(s);
    let rest = s.skip(i + 1);
    let j = dot_index(rest);
    if i < s.len() && j < rest.len() {
        match (decimal_u16(s.take(i)), decimal_u16(rest.take(j)), decimal_u16(rest.skip(j + 1))) {
            (Some(major), Some(minor), Some(patch)) => Some(SemVer { major, minor, patch }),
            _ => None,
        }
    } else {
        None
    }
}

/// What [`SemVer::parse`] returns for the text `s`.
pub open spec fn parse_result(s: Seq<u8>) -> Result<SemVer, ParseSemVerError> {
    match semver_of(s) {
        Some(version) => Ok(version),
        None => Err(ParseSemVerError { kind: SemVerErrorKind::InvalidStructure }),
    }
}

/// `dot_index` is the position of the first dot.
pub proof fn lemma_dot_index(s: Seq<u8>)
    ensures
        0 <= dot_index(s) <= s.len(),
        dot_index(s) < s.len() ==> s[dot_index(s)] == DOT,
        forall|k: int| 0 <= k < dot_index(s) ==> #[trigger] s[k] != DOT,
    decreases s.len(),
{
    if s.len() == 0 || s[0] == DOT {
    } else {
        let tail = s.drop_first();
        lemma_dot_index(tail);
        assert forall|k: int| 0 <= k < dot_index(s) implies #[trigger] s[k] != DOT by {
            if k > 0 {
                assert(tail[k - 1] == s[k]);
            }
        }
    }
}

/// A position before which `s` holds no dot, and which is a dot or the end of
/// `s`, is `dot_index(s)`.
pub proof fn lemma_dot_index_is(s: Seq<u8>, i: int)
    requires
        0 <= i <= s.len(),
        forall|k: int| 0 <= k < i ==> #[trigger] s[k] != DOT,
        i < s.len() ==> s[i] == DOT,
    ensures
        dot_index(s) == i,
{
    lemma_dot_index(s);
    let d = dot_index(s);
    if d < i {
        assert(s[d] != DOT);
    } else if i < d {
        assert(s[i] != DOT);
    }
}

/// Three numbers joined by dots are a version, and it holds those numbers.
pub proof fn lemma_dotted_is_version(major: Seq<u8>, minor: Seq<u8>, patch: Seq<u8>)
    requires
        decimal_u16(major) is Some,
        decimal_u16(minor) is Some,
        decimal_u16(patch) is Some,
    ensures
        semver_of(dotted(major, minor, patch)) == Some(
            SemVer {
                major: decimal_u16(major).unwrap(),
                minor: decimal_u16(minor).unwrap(),
                patch: decimal_u16(patch).unwrap(),
            },
        ),
{
    let s = dotted(major, minor, patch);
    lemma_number_has_no_dot(major);
    lemma_number_has_no_dot(minor);
    let i = major.len() as int;
    assert forall|k: int| 0 <= k < i implies #[trigger] s[k] != DOT by {
        assert(s[k] == major[k]);
    }
    assert(s[i] == DOT);
    lemma_dot_index_is(s, i);
    let rest = s.skip(i + 1);
    assert(rest =~= minor + seq![DOT] + patch);
    let j = minor.len() as int;
    assert forall|k: int| 0 <= k < j implies #[trigger] rest[k] != DOT by {
        assert(rest[k] == minor[k]);
    }
    assert(rest[j] == DOT);
    lemma_dot_index_is(rest, j);
    assert(s.take(i) =~= major);
    assert(rest.take(j) =~= minor);
    assert(rest.skip(j + 1) =~= patch);
}

/// A version is three numbers joined by dots: its text splits at its first two
/// dots into the numbers that it holds.
pub proof fn lemma_version_is_dotted(s: Seq<u8>) -> (parts: (Seq<u8>, Seq<u8>, Seq<u8>))
    requires
        semver_of(s) is Some,
    ensures
        s == dotted(parts.0, parts.1, parts.2),
        decimal_u16(parts.0) == Some(semver_of(s).unwrap().major),
        decimal_u16(parts.1) == Some(semver_of(s).unwrap().minor),
        decimal_u16(parts.2) == Some(semver_of(s).unwrap().patch),
{
    let i = dot_index(s);
    let rest = s.skip(i + 1);
    let j = dot_index(rest);
    lemma_dot_index(s);
    lemma_dot_index(rest);
    let parts = (s.take(i), rest.take(j), rest.skip(j + 1));
    assert(s =~= dotted(parts.0, parts.1, parts.2));
    parts
}

/// The position of the first dot of `bytes[start..]`, counted from the start
/// of `bytes`.
fn find_dot(bytes: &[u8], start: usize) -> (i: usize)
    requires
        start <= bytes@.len(),
    ensures
        start <= i <= bytes@.len(),
        i - start == dot_index(bytes@.skip(start as int)),
{
    let mut i: usize = start;
    while i < bytes.len() && bytes[i] != DOT
        invariant
            start <= i <= bytes@.len(),
            forall|k: int| start <= k < i ==> #[trigger] bytes@[k] != DOT,
        decreases bytes@.len() - i,
    {
        i = i + 1;
    }
    proof {
        let tail = bytes@.skip(start as int);
        assert forall|k: int| 0 <= k < i - start implies #[trigger] tail[k] != DOT by {
            assert(tail[k] == bytes@[start + k]);
        }
        lemma_dot_index_is(tail, i - start);
    }
    i
}

impl SemVer {
    /// The version `0.0.0`.
    pub fn new() -> (v: SemVer)
        ensures
            v == (SemVer { major: 0, minor: 0, patch: 0 }),
    {
        SemVer { major: 0, minor: 0, patch: 0 }
    }

    /// Reads a version from its text in bytes.
    pub fn parse_bytes(bytes: &[u8]) -> (r: Result<SemVer, ParseSemVerError>)
        ensures
            r == parse_result(bytes@),
    {
        let len: usize = bytes.len();
        let i: usize = find_dot(bytes, 0);
        assert(bytes@.skip(0) =~= bytes@);
        if i >= len {
            return Err(ParseSemVerError { kind: SemVerErrorKind::InvalidStructure });
        }
        let j: usize = find_dot(bytes, i + 1);
        if j >= len {
            return Err(ParseSemVerError { kind: SemVerErrorKind::InvalidStructure });
        }
        proof {
            let rest = bytes@.skip(i + 1);
            assert(bytes@.take(i as int) =~= bytes@.subrange(0, i as int));
            assert(rest.take(j - i - 1) =~= bytes@.subrange(i + 1, j as int));
            assert(rest.skip(j - i) =~= bytes@.subrange(j + 1, len as int));
        }
        let major: Option<u16> = parse_u16_in(bytes, 0, i);
        let minor: Option<u16> = parse_u16_in(bytes, i + 1, j);
        let patch: Option<u16> = parse_u16_in(bytes, j + 1, len);
        match (major, minor, patch) {
            (Some(major), Some(minor), Some(patch)) => Ok(SemVer { major, minor, patch }),
            _ => Err(ParseSemVerError { kind: SemVerErrorKind::InvalidStructure }),
        }
    }

    /// Reads a version from its text.
    pub fn parse(text: &str) -> (r: Result<SemVer, ParseSemVerError>)
        ensures
            r == parse_result(text.spec_bytes()),
    {
        SemVer::parse_bytes(text.as_bytes())
    }
}

impl SemVer {
    /// Whether `self` comes before `other`: by major number first, then by
    /// minor number, then by patch number.
    pub open spec fn precedes(self, other: SemVer) -> bool {
        ||| self.major < other.major
        ||| self.major == other.major && self.minor < other.minor
        ||| self.major == other.major && self.minor == other.minor && self.patch < other.patch
    }

    /// Of two versions exactly one holds: the first comes before the second,
    /// they are equal, or the second comes before the first.
    pub proof fn lemma_order_is_total(a: SemVer, b: SemVer)
        ensures
            a.precedes(b) || a == b || b.precedes(a),
            !(a.precedes(b) && a == b),
            !(a.precedes(b) && b.precedes(a)),
            !(a == b && b.precedes(a)),
    {
    }

    /// The order is transitive.
    pub proof fn lemma_order_is_transitive(a: SemVer, b: SemVer, c: SemVer)
        requires
            a.precedes(b),
            b.precedes(c),
        ensures
            a.precedes(c),
    {
    }
}

impl PartialOrd for SemVer {
    fn partial_cmp(&self, other: &SemVer) -> (r: Option<Ordering>) {
        if self.major != other.major {
            if self.major < other.major {
                Some(Ordering::Less)
            } else {
                Some(Ordering::Greater)
            }
        } else if self.minor != other.minor {
            if self.minor < other.minor {
                Some(Ordering::Less)
            } else {
                Some(Ordering::Greater)
            }
        } else if self.patch < other.patch {
            Some(Ordering::Less)
        } else if self.patch > other.patch {
            Some(Ordering::Greater)
        } else {
            Some(Ordering::Equal)
        }
    }
}

impl PartialOrdSpecImpl for SemVer {
    open spec fn obeys_partial_cmp_spec() -> bool {
        true
    }

    open spec fn partial_cmp_spec(&self, other: &SemVer) -> Option<Ordering> {
        if self.precedes(*other) {
            Some(Ordering::Less)
        } else if other.precedes(*self) {
            Some(Ordering::Greater)
        } else {
            Some(Ordering::Equal)
        }
    }
}

impl ParseSemVerError {
    /// The message of the error.
    pub fn to_string(&self) -> (message: String)
        ensures
            message@ == "Could not parse `SemVer`"@,
    {
        match self.kind {
            SemVerErrorKind::InvalidStructure => "Could not parse `SemVer`".to_owned(),
        }
    }
}

impl std::str::FromStr for SemVer {
    type Err = ParseSemVerError;

    fn from_str(s: &str) -> (r: Result<SemVer, ParseSemVerError>)
        ensures
            r == parse_result(s.spec_bytes()),
    {
        SemVer::parse(s)
    }
}

} // verus!
