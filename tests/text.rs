use libosdp::channel::fold_channel_id;
use libosdp::cp::retry_delay_ms;
use libosdp::{
    get_source_info, get_version, str_to_channel_id, KeyStore, OsdpError, OsdpFlag, PdCapEntity,
    PdCapEntry, PdCapability, PdId,
};
use std::hash::{Hash, Hasher};

#[test]
fn hex_text_decodes() {
    assert_eq!(KeyStore::decode_hex("0a0B+f"), Ok(vec![0x0a, 0x0b, 0x0f]));
    assert_eq!(KeyStore::decode_hex(""), Ok(vec![]));
    assert!(matches!(KeyStore::decode_hex("abc"), Err(OsdpError::Parse(_))));
    assert!(matches!(KeyStore::decode_hex("zz"), Err(OsdpError::Parse(_))));
}

#[test]
fn keys_round_trip_through_text() {
    let key: [u8; 16] = [
        0x00, 0x01, 0x02, 0x03, 0x04, 0x05, 0x06, 0x07, 0x08, 0x09, 0x0a, 0x0b, 0x0c, 0x0d, 0x0e,
        0xff,
    ];
    let s = KeyStore::key_to_str(&key);
    assert_eq!(s, "000102030405060708090a0b0c0d0eff");
    assert_eq!(KeyStore::str_to_key(&s), Ok(key));
    assert!(matches!(KeyStore::str_to_key("0001"), Err(OsdpError::Parse(_))));
}

#[test]
fn capability_entities_parse() {
    assert_eq!(
        PdCapEntity::from_str("Compliance:10,NumItems:20"),
        Ok(PdCapEntity::new(10, 20))
    );
    assert_eq!(PdCapEntry::from_str("Compliance:+1,NumItems:0"), Ok(PdCapEntry::new(1, 0)));
    assert!(matches!(PdCapEntity::from_str("Compliance:10"), Err(OsdpError::Parse(_))));
    assert!(matches!(PdCapEntity::from_str("Level:10,NumItems:20"), Err(OsdpError::Parse(_))));
    assert!(matches!(PdCapEntity::from_str("Compliance:256,NumItems:2"), Err(OsdpError::Parse(_))));
}

#[test]
fn capabilities_parse() {
    assert_eq!(
        PdCapability::from_str("LedControl:Compliance:1,NumItems:2"),
        Ok(PdCapability::LedControl(PdCapEntity::new(1, 2)))
    );
    assert_eq!(
        PdCapability::from_str("Biometrics:Compliance:0,NumItems:0"),
        Ok(PdCapability::Biometrics(PdCapEntity::new(0, 0)))
    );
    assert!(matches!(PdCapability::from_str("Laser:Compliance:1,NumItems:2"), Err(OsdpError::Parse(_))));
    assert_eq!(PdCapability::LedControl(PdCapEntity::new(1, 2)).function_code(), 4);
}

#[test]
fn flags_parse_by_name() {
    assert_eq!(OsdpFlag::from_str("EnforceSecure"), Ok(OsdpFlag::enforce_secure()));
    assert_eq!(OsdpFlag::from_str("InstallMode"), Ok(OsdpFlag::install_mode()));
    assert_eq!(OsdpFlag::from_str("IgnoreUnsolicited"), Ok(OsdpFlag::ignore_unsolicited()));
    assert!(matches!(OsdpFlag::from_str("Other"), Err(OsdpError::Parse(_))));
    let mut f = OsdpFlag::empty();
    f.set(OsdpFlag::install_mode(), true);
    assert!(f.install_mode_allowed());
    f.set(OsdpFlag::enforce_secure(), true);
    assert!(!f.install_mode_allowed());
    assert!(f.contains(OsdpFlag::install_mode()));
    f.set(OsdpFlag::install_mode(), false);
    assert!(!f.contains(OsdpFlag::install_mode()));
}

#[test]
fn channel_ids_fold_the_hash() {
    assert_eq!(fold_channel_id(0x0000_0001_0000_0003), 2);
    assert_eq!(fold_channel_id(0xFFFF_FFFF_0000_0000), -1);
    let mut h = std::collections::hash_map::DefaultHasher::new();
    "conn-0".hash(&mut h);
    assert_eq!(str_to_channel_id("conn-0"), fold_channel_id(h.finish()));
}

#[test]
fn pd_id_from_number() {
    let id = PdId::from_number(7);
    assert_eq!(id.version, 0x74);
    assert_eq!(id.model, 0x23);
    assert_eq!(id.vendor_code, (0xA0, 0xB2, 0xFE));
    assert_eq!(id.serial_number, [0, 0, 0, 7]);
    assert_eq!(id.firmware_version, (0, 1, 0));
    let b = id.encode();
    assert_eq!(b.len(), 13);
    assert_eq!(PdId::decode(&b), Ok(id));
}

#[test]
fn version_strings() {
    assert_eq!(get_version(), "0.1.0");
    assert_eq!(get_source_info(), "libosdp-0.1.0");
}

#[test]
fn flag_lists_parse() {
    let f = OsdpFlag::parse_list("EnforceSecure|IgnoreUnsolicited").unwrap();
    assert!(f.contains(OsdpFlag::enforce_secure()));
    assert!(f.contains(OsdpFlag::ignore_unsolicited()));
    assert!(!f.contains(OsdpFlag::install_mode()));
    assert_eq!(f.bits(), 0x0005_0000);
    assert_eq!(OsdpFlag::parse_list("InstallMode"), Ok(OsdpFlag::install_mode()));
    assert!(matches!(OsdpFlag::parse_list("InstallMode|"), Err(OsdpError::Parse(_))));
    assert!(matches!(OsdpFlag::parse_list(""), Err(OsdpError::Parse(_))));
}

#[test]
fn pd_id_from_config_numbers() {
    let id = PdId::from_config(1, 2, 0x00FEB2A0, 0x04030201, 0x00030201);
    assert_eq!(id.vendor_code, (0xA0, 0xB2, 0xFE));
    assert_eq!(id.serial_number, [1, 2, 3, 4]);
    assert_eq!(id.firmware_version, (1, 2, 3));
    assert_eq!((id.version, id.model), (1, 2));
}

#[test]
fn retry_delay_doubles_up_to_the_cap() {

    assert_eq!(retry_delay_ms(0), 300);
    assert_eq!(retry_delay_ms(1), 600);
    assert_eq!(retry_delay_ms(3), 2400);
    assert_eq!(retry_delay_ms(10), 300_000);
    assert_eq!(retry_delay_ms(u32::MAX), 300_000);
}
