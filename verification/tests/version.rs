use std::str::FromStr;

use ves::version::{ParseSemVerError, SemVerErrorKind};
use ves::SemVer;

#[test]
fn test_invalid_semver_construct() {
    assert!(SemVer::from_str("2.23").is_err());
    assert!(SemVer::from_str("2.23.456.7").is_err());
    assert!(SemVer::from_str("2.23.A").is_err());
}

#[test]
fn test_semver_error_format() {
    let error_msg = SemVer::from_str("2.23").err().unwrap().to_string();

    assert_eq!(error_msg, "Could not parse `SemVer`".to_string());
}

#[test]
fn new_is_zero() {
    assert_eq!(SemVer::new(), SemVer { major: 0, minor: 0, patch: 0 });
}

#[test]
fn three_numbers_parse_to_their_triple() {
    let expected = Ok(SemVer { major: 1, minor: 23, patch: 456 });
    assert_eq!(SemVer::from_str("1.23.456"), expected);
    assert_eq!("1.23.456".parse(), expected);
    assert_eq!(String::from("1.23.456").parse::<SemVer>(), expected);
    assert_eq!(SemVer::parse("1.23.456"), expected);
    assert_eq!(SemVer::parse_bytes(b"1.23.456"), expected);
    assert_eq!(SemVer::parse("0.0.0"), Ok(SemVer::new()));
    assert_eq!(
        SemVer::parse("65535.65535.65535"),
        Ok(SemVer { major: 65535, minor: 65535, patch: 65535 })
    );
}

#[test]
fn numbers_may_have_leading_zeros_and_a_plus() {
    assert_eq!(SemVer::parse("007.01.0"), Ok(SemVer { major: 7, minor: 1, patch: 0 }));
    assert_eq!(SemVer::parse("+7.+2.+1"), Ok(SemVer { major: 7, minor: 2, patch: 1 }));
}

#[test]
fn every_other_shape_is_rejected() {
    let rejected = Err(ParseSemVerError { kind: SemVerErrorKind::InvalidStructure });
    for text in [
        "", ".", "..", "...", "1", "1.2", "1.2.", ".1.2", "1..2", "1.2.3.", "1.2.3.4", "a.1.2.3",
        "1..2.3", "1.2.x.3", "1.2.3-alpha", "1.2.3+001", "-1.2.3", "1.-2.3", " 1.2.3", "1.2.3 ",
        "1,2,3", "++1.2.3", "+.2.3", "1.2.+", "v1.2.3", "1.2.3\n", "١.٢.٣",
    ] {
        assert_eq!(SemVer::parse(text), rejected, "{:?}", text);
    }
}

#[test]
fn numbers_above_sixteen_bits_are_rejected() {
    assert!(SemVer::parse("65536.0.0").is_err());
    assert!(SemVer::parse("0.65536.0").is_err());
    assert!(SemVer::parse("0.0.65536").is_err());
    assert!(SemVer::parse("70000.0.0").is_err());
    assert!(SemVer::parse("0.0.99999999999999999999999999").is_err());
    assert_eq!(SemVer::parse("0.0.000000000000000000000065535").unwrap().patch, 65535);
}

#[test]
fn versions_are_ordered_by_major_minor_patch() {
    let a = SemVer { major: 7, minor: 1, patch: 0 };
    let b = SemVer { major: 7, minor: 1, patch: 1 };
    let c = SemVer { major: 7, minor: 2, patch: 0 };
    let d = SemVer { major: 8, minor: 0, patch: 0 };
    assert!(a < b && b < c && c < d && a < d);
    assert!(!(b < a) && !(a < a));
    assert!(a <= a && a >= a && d > c);
    assert_eq!(a.partial_cmp(&b), Some(std::cmp::Ordering::Less));
    assert_eq!(b.partial_cmp(&a), Some(std::cmp::Ordering::Greater));
    assert_eq!(a.partial_cmp(&a), Some(std::cmp::Ordering::Equal));
    assert_eq!(a.cmp(&b), std::cmp::Ordering::Less);
    assert_eq!(*[c, a, d, b].iter().max().unwrap(), d);
    let mut sorted = vec![d, b, c, a];
    sorted.sort();
    assert_eq!(sorted, vec![a, b, c, d]);
}

#[test]
fn equal_versions_hash_alike() {
    let mut set = std::collections::HashSet::new();
    set.insert(SemVer::parse("1.2.3").unwrap());
    assert!(set.contains(&SemVer { major: 1, minor: 2, patch: 3 }));
    assert!(!set.contains(&SemVer { major: 1, minor: 2, patch: 4 }));
}
