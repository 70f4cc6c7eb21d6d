use std::str::FromStr;
use typed4safety::shared::DeviceConfiguration;
use typed4safety::type_driven_101::non_zero;
use typed4safety::type_driven_101::primitive_types;
use typed4safety::type_driven_101::SpacecraftName;

#[test]
fn primitive_types_succeed() {
    assert_eq!(primitive_types(), Ok(()));
}

#[test]
fn zero_is_ruled_out() {
    assert_eq!(non_zero(0), Err("Zero provided!"));
    assert_eq!(non_zero(1), Ok(1));
    assert_eq!(non_zero(50), Ok(50));
    assert_eq!(non_zero(u64::MAX), Ok(u64::MAX));
}

#[test]
fn spacecraft_name_starts_with_an_underscore() {
    let name = SpacecraftName::parse("_voyager").ok().unwrap();
    assert_eq!(name.to_string(), "_voyager");
    let name = SpacecraftName::parse("_").ok().unwrap();
    assert_eq!(name.to_string(), "_");
    let name = SpacecraftName::parse("_ü_").ok().unwrap();
    assert_eq!(name.to_string(), "_ü_");
}

#[test]
fn spacecraft_name_without_an_underscore_is_rejected() {
    for s in ["voyager", "", " _voyager", "v_", "ü_"] {
        assert_eq!(
            SpacecraftName::parse(s).err(),
            Some("Spacecraft name should start with `_`"),
            "{s}"
        );
    }
}

#[test]
fn spacecraft_name_from_str() {
    let name = SpacecraftName::from_str("_cassini").ok().unwrap();
    assert_eq!(name.to_string(), "_cassini");
    let parsed: Result<SpacecraftName, _> = "cassini".parse();
    assert_eq!(parsed.err(), Some("Spacecraft name should start with `_`"));
}

#[test]
fn empty_configuration_takes_no_bytes() {
    let mut buf = [0xa5u8; 8];
    assert_eq!(DeviceConfiguration {}.to_radio(&mut buf), Ok(()));
    assert_eq!(buf, [0xa5u8; 8]);
    let mut empty: [u8; 0] = [];
    assert_eq!(DeviceConfiguration {}.to_radio(&mut empty), Ok(()));
}
