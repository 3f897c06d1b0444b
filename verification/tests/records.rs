//! The persisted record format: exact text, lossless round trips, rejection
//! of malformed text, and the per-channel path.

use dsm::datastore::DATASTORE_DIR;
use dsm::Datastore;

#[test]
fn yaml_text_of_use_vpd() {
    assert_eq!(Datastore::UseVPD.to_yaml(), "---\nUseVPD\n");
}

#[test]
fn yaml_text_of_measured_record() {
    let d = Datastore::DSM { rdc: 5, temp: -7 };
    assert_eq!(d.to_yaml(), "---\nDSM:\n  rdc: 5\n  temp: -7\n");
}

#[test]
fn roundtrip_use_vpd() {
    let d = Datastore::UseVPD;
    assert_eq!(Datastore::from_yaml(&d.to_yaml()), Some(d));
}

#[test]
fn roundtrip_measured_record() {
    let d = Datastore::DSM { rdc: 0x05cea0c7, temp: 37 };
    assert_eq!(Datastore::from_yaml(&d.to_yaml()), Some(d));
}

#[test]
fn roundtrip_negative_and_extreme_fields() {
    for d in [
        Datastore::DSM { rdc: -123, temp: 456 },
        Datastore::DSM { rdc: i32::MIN, temp: i32::MAX },
        Datastore::DSM { rdc: 0, temp: 0 },
        Datastore::DSM { rdc: i32::MAX, temp: i32::MIN },
    ] {
        assert_eq!(Datastore::from_yaml(&d.to_yaml()), Some(d));
    }
}

#[test]
fn malformed_text_is_rejected() {
    assert_eq!(Datastore::from_yaml(""), None);
    assert_eq!(Datastore::from_yaml("---\nUseVPD"), None);
    assert_eq!(Datastore::from_yaml("---\nUseVPD\n\n"), None);
    assert_eq!(Datastore::from_yaml("UseVPD\n"), None);
    assert_eq!(Datastore::from_yaml("---\nDSM:\n  rdc: x\n  temp: 1\n"), None);
    assert_eq!(Datastore::from_yaml("---\nDSM:\n  rdc: 1\n  temp: 2"), None);
    assert_eq!(Datastore::from_yaml("---\nDSM:\n  rdc: 1\n  temp: 2\nx"), None);
    assert_eq!(Datastore::from_yaml("---\nDSM:\n  rdc: \n  temp: 2\n"), None);
}

#[test]
fn numbers_outside_32_bits_are_rejected() {
    assert_eq!(Datastore::from_yaml("---\nDSM:\n  rdc: 2147483648\n  temp: 0\n"), None);
    assert_eq!(Datastore::from_yaml("---\nDSM:\n  rdc: 99999999999999999999\n  temp: 0\n"), None);
    assert_eq!(
        Datastore::from_yaml("---\nDSM:\n  rdc: -2147483648\n  temp: 2147483647\n"),
        Some(Datastore::DSM { rdc: i32::MIN, temp: i32::MAX })
    );
    assert_eq!(Datastore::from_yaml("---\nDSM:\n  rdc: -2147483649\n  temp: 0\n"), None);
}

#[test]
fn path_is_derived_from_card_and_channel() {
    assert_eq!(DATASTORE_DIR, "/var/lib/sound_card_init");
    assert_eq!(
        Datastore::path("sofcml_max98390_da7219", 0),
        "/var/lib/sound_card_init/sofcml_max98390_da7219/calib_0"
    );
    assert_eq!(Datastore::path("card", 12), "/var/lib/sound_card_init/card/calib_12");
}
