use bootstrapper::probe::{check_java_version, CommandError};
use bootstrapper::version::{JavaVersion, VersionFormatError};

#[test]
fn parse_full_version() {
    let v = JavaVersion::parse("1.8.0_201").unwrap();
    assert_eq!(v.major, 1);
    assert_eq!(v.minor, 8);
    assert_eq!(v.build, "0_201");
}

#[test]
fn parse_build_label_with_punctuation() {
    let v = JavaVersion::parse("10.250.xyz-42").unwrap();
    assert_eq!(v.major, 10);
    assert_eq!(v.minor, 250);
    assert_eq!(v.build, "xyz-42");
}

#[test]
fn parse_too_few_parts() {
    assert_eq!(JavaVersion::parse("1.8").unwrap_err(), VersionFormatError::NotEnoughParts);
    assert_eq!(JavaVersion::parse("").unwrap_err(), VersionFormatError::NotEnoughParts);
    assert_eq!(JavaVersion::parse("18").unwrap_err(), VersionFormatError::NotEnoughParts);
}

#[test]
fn parse_too_many_parts() {
    assert_eq!(JavaVersion::parse("1.8.0.1").unwrap_err(), VersionFormatError::TooManyParts);
    assert_eq!(JavaVersion::parse("1.2.3.4.5").unwrap_err(), VersionFormatError::TooManyParts);
}

#[test]
fn parse_invalid_number() {
    assert_eq!(JavaVersion::parse("a.8.0").unwrap_err(), VersionFormatError::InvalidNumber);
    assert_eq!(JavaVersion::parse("1.b.0").unwrap_err(), VersionFormatError::InvalidNumber);
    assert_eq!(JavaVersion::parse(".8.0").unwrap_err(), VersionFormatError::InvalidNumber);
    assert_eq!(JavaVersion::parse("1..0").unwrap_err(), VersionFormatError::InvalidNumber);
    // 70000 does not fit the sixteen-bit major field
    assert_eq!(JavaVersion::parse("70000.0.0").unwrap_err(), VersionFormatError::InvalidNumber);
}

#[test]
fn parse_accepts_leading_zeros() {
    let v = JavaVersion::parse("01.08.x").unwrap();
    assert_eq!(v.major, 1);
    assert_eq!(v.minor, 8);
}

#[test]
fn format_parse_round_trip() {
    let v = JavaVersion { major: 1, minor: 8, build: String::from("0_201") };
    let text = v.to_full_string();
    assert_eq!(text, "1.8.0_201");
    let w = JavaVersion::parse(&text).unwrap();
    assert!(w == v);
    assert_eq!(w.build, v.build);
}

#[test]
fn round_trip_at_field_limits() {
    let v = JavaVersion { major: 65535, minor: 65535, build: String::from("b") };
    let text = v.to_full_string();
    assert_eq!(text, "65535.65535.b");
    assert!(JavaVersion::parse(&text).unwrap() == v);
    // one more than the field limit no longer parses
    assert_eq!(JavaVersion::parse("65536.0.0").unwrap_err(), VersionFormatError::InvalidNumber);
}

#[test]
fn version_string_has_major_and_minor_only() {
    let v = JavaVersion { major: 11, minor: 0, build: String::from("9-LTS") };
    assert_eq!(v.to_version_string(), "11.0");
}

#[test]
fn comparison_is_by_major_then_minor() {
    let a = JavaVersion { major: 2, minor: 0, build: String::from("x") };
    let b = JavaVersion { major: 1, minor: 9, build: String::from("z") };
    assert!(a > b);
    assert!(b < a);
    let c = JavaVersion { major: 1, minor: 8, build: String::from("a") };
    let d = JavaVersion { major: 1, minor: 8, build: String::from("b") };
    assert!(c == d);
    assert!(c >= d && c <= d);
    assert!(JavaVersion::new(1, 8) >= JavaVersion::new(1, 8));
    assert!(JavaVersion::new(1, 7) < JavaVersion::new(1, 8));
}

#[test]
fn output_with_quoted_token_parses() {
    let out = b"java version \"1.8.0_201\"\nJava(TM) SE Runtime Environment".to_vec();
    let v = JavaVersion::from_command_output(&out).unwrap();
    assert_eq!(v.major, 1);
    assert_eq!(v.minor, 8);
    assert_eq!(v.build, "0_201");
}

#[test]
fn output_takes_leftmost_token() {
    let out = b"version \"9.0.1\" and then version \"1.2.3\"".to_vec();
    let v = JavaVersion::from_command_output(&out).unwrap();
    assert_eq!(v.major, 9);
    assert_eq!(v.minor, 0);
}

#[test]
fn output_without_token_is_invalid() {
    let out = b"no such command".to_vec();
    assert_eq!(JavaVersion::from_command_output(&out).unwrap_err(), CommandError::InvalidOutput);
    // a quote that never closes is no token either
    let out2 = b"java version \"1.8.0_201".to_vec();
    assert_eq!(JavaVersion::from_command_output(&out2).unwrap_err(), CommandError::InvalidOutput);
}

#[test]
fn output_with_malformed_token_is_invalid_version() {
    let out = b"java version \"1.8\"".to_vec();
    assert_eq!(
        JavaVersion::from_command_output(&out).unwrap_err(),
        CommandError::InvalidVersion(VersionFormatError::NotEnoughParts)
    );
}

#[test]
fn check_accepts_required_and_newer() {
    let old = b"java version \"1.7.0_80\"".to_vec();
    assert_eq!(check_java_version(&old).unwrap(), false);
    let exact = b"java version \"1.8.0_201\"".to_vec();
    assert_eq!(check_java_version(&exact).unwrap(), true);
    let newer = b"openjdk version \"11.0.9\"".to_vec();
    assert_eq!(check_java_version(&newer).unwrap(), true);
}

#[test]
fn check_propagates_probe_failures() {
    let none = b"gibberish".to_vec();
    assert!(matches!(check_java_version(&none), Err(CommandError::InvalidOutput)));
}
