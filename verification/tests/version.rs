use theia_plugins::version::{Version, VersionError};

#[test]
fn version_cmp() {
    let mut last = Version::from_str("0.0.0").unwrap();
    assert_eq!(last, last);
    for next in vec![
        Version::from_str("0.0.1").unwrap(),
        Version::from_str("0.1.0").unwrap(),
        Version::from_str("1.0.0").unwrap(),
        Version::from_str("1.1.1").unwrap(),
    ] {
        assert!(last < next);
        last = next;
    }
}

#[test]
fn tolerant_prefix_parse() {
    let v = Version::from_str("v2.3.4").unwrap();
    assert_eq!(v, Version { major: 2, minor: 3, patch: 4 });
}

#[test]
fn format_round_trip() {
    let v = Version::from_str("1.22.333").unwrap();
    assert_eq!(v.format(), "1.22.333");
    let w = Version { major: 0, minor: 10, patch: 4294967295 };
    assert_eq!(Version::from_str(&w.format()).unwrap(), w);
}

#[test]
fn leading_zeros_compare_equal() {
    assert_eq!(
        Version::from_str("01.2.3").unwrap(),
        Version::from_str("1.2.3").unwrap()
    );
}

#[test]
fn short_strings_are_zero() {
    let zero = Version { major: 0, minor: 0, patch: 0 };
    assert_eq!(Version::from_str("1.2").unwrap(), zero);
    assert_eq!(Version::from_str("").unwrap(), zero);
}

#[test]
fn extra_components_are_ignored() {
    assert_eq!(
        Version::from_str("1.2.3.9").unwrap(),
        Version { major: 1, minor: 2, patch: 3 }
    );
}

#[test]
fn bad_numeric_component_is_error() {
    assert_eq!(Version::from_str("1.x.3"), Err(VersionError::NotANumber));
    assert_eq!(Version::from_str("1..3"), Err(VersionError::NotANumber));
    assert_eq!(Version::from_str("99999999999.0.0"), Err(VersionError::NotANumber));
}
