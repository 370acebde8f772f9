use homeboy::version::{increment_version, parse_component_version};

#[test]
fn version_is_found_in_the_header() {
    let header = "/*\n * Plugin Name: Sell My Images\n * Version: 1.4.12\n * Author: x\n */";
    assert_eq!(parse_component_version(header), Some("1.4.12".to_string()));
    assert_eq!(parse_component_version("Version:2.0.0"), Some("2.0.0".to_string()));
    assert_eq!(parse_component_version("Version:\t\n 10.20.30rc"), Some("10.20.30".to_string()));
    assert_eq!(parse_component_version("Version: 1.2.3.4"), Some("1.2.3".to_string()));
    assert_eq!(parse_component_version("Version: 007.0.1"), Some("007.0.1".to_string()));
}

#[test]
fn first_header_with_a_version_wins() {
    assert_eq!(
        parse_component_version("Version: soon\nVersion: 1.2\nVersion: 3.2.1\nVersion: 9.9.9"),
        Some("3.2.1".to_string())
    );
    assert_eq!(
        parse_component_version("Stable Version: 4.5.6 Version: 1.1.1"),
        Some("4.5.6".to_string())
    );
    assert_eq!(parse_component_version("Version:Version: 1.0.0"), Some("1.0.0".to_string()));
}

#[test]
fn texts_without_a_version_give_none() {
    for text in [
        "",
        "Version:",
        "Version: ",
        "version: 1.2.3",
        "Version 1.2.3",
        "Version: 1.2",
        "Version: 1..3",
        "Version: .1.2.3",
        "Version: v1.2.3",
        "Version: 1.2.",
        "Version: 1. 2.3",
        "1.2.3",
    ] {
        assert_eq!(parse_component_version(text), None, "{:?}", text);
    }
}

#[test]
fn parts_of_a_version_are_raised() {
    assert_eq!(increment_version("1.2.3", "patch"), Some("1.2.4".to_string()));
    assert_eq!(increment_version("1.2.3", "minor"), Some("1.3.0".to_string()));
    assert_eq!(increment_version("1.2.3", "major"), Some("2.0.0".to_string()));
    assert_eq!(increment_version("0.0.0", "patch"), Some("0.0.1".to_string()));
    assert_eq!(increment_version("1.9.9", "patch"), Some("1.9.10".to_string()));
    assert_eq!(increment_version("01.002.0003", "minor"), Some("1.3.0".to_string()));
    assert_eq!(
        increment_version("18446744073709551614.0.18446744073709551614", "patch"),
        Some("18446744073709551614.0.18446744073709551615".to_string())
    );
}

#[test]
fn what_is_no_version_is_not_raised() {
    for version in ["", "1.2", "1.2.3.4", "v1.2.3", "1.2.3-beta", "1.2.x", " 1.2.3", "1.2.3 ", "1..3", ".1.2"] {
        assert_eq!(increment_version(version, "patch"), None, "{:?}", version);
    }
    for bump in ["", "Patch", "build", "patch "] {
        assert_eq!(increment_version("1.2.3", bump), None, "{:?}", bump);
    }
    assert_eq!(increment_version("1.2.18446744073709551615", "patch"), None);
    assert_eq!(increment_version("1.18446744073709551615.0", "minor"), None);
    assert_eq!(increment_version("18446744073709551615.0.0", "major"), None);
    assert_eq!(increment_version("18446744073709551616.0.0", "patch"), None);
    assert_eq!(
        increment_version("18446744073709551615.0.0", "patch"),
        Some("18446744073709551615.0.1".to_string())
    );
}
