use std::str::FromStr;
use roas::v3_0::spec::{InvalidVersion, Version};

#[test]
fn test_version_parse_programmatically() {
    // Schema-conformant patch and prerelease values are accepted.
    assert_eq!(Version::from_str("3.0.99").unwrap().as_str(), "3.0.99");
    assert_eq!(Version::from_str("3.0.0-rc1").unwrap().as_str(), "3.0.0-rc1");
    // Bare `3.0` short alias normalises to `3.0.4`.
    assert_eq!(Version::from_str("3.0").unwrap(), Version::V3_0_4());
    // TryFrom<&str> and TryFrom<String> agree.
    assert_eq!(<Version as TryFrom<&str>>::try_from("3.0.7").unwrap().as_str(), "3.0.7");
    assert_eq!(
        <Version as TryFrom<String>>::try_from("3.0.7".to_owned()).unwrap().as_str(),
        "3.0.7"
    );
    // Garbage rejects with a typed error carrying the offending input.
    let err = Version::from_str("foo").unwrap_err();
    assert_eq!(err, InvalidVersion("foo".to_owned()));
    assert!(
        err.to_string().contains("3\\.0\\.\\d+(-.+)?$"),
        "error message echoes the schema regex: {}",
        err.to_string()
    );
}

#[test]
fn version_display_all_variants() {
    assert_eq!(Version::V3_0_0().to_string(), "3.0.0");
    assert_eq!(Version::V3_0_1().to_string(), "3.0.1");
    assert_eq!(Version::V3_0_2().to_string(), "3.0.2");
    assert_eq!(Version::V3_0_3().to_string(), "3.0.3");
    assert_eq!(Version::V3_0_4().to_string(), "3.0.4");
}

#[test]
fn version_from_str_trait_agrees() {
    assert_eq!(<Version as FromStr>::from_str("3.0.1").unwrap(), Version::V3_0_1());
    assert_eq!(Version::default(), Version::V3_0_4());
    assert!(Version::from_str("3.1.0").is_err());
    assert!(Version::from_str("3.0.").is_err());
    assert!(Version::from_str("3.0.x").is_err());
    assert!(Version::from_str("3.0.1-").is_err());
}
