use dm::entry::{DMPath, ItemEntryKind, TomlItemEntry};
use dm::error::{CfgErrorKind, DMError};
use dm::ops::{health_check_entry, prepare_entry, SweepState, UpdateChoice};

#[test]
fn prepare_plain_entry() {
    let e = prepare_entry("/home/u/.bashrc", "linux", false, false, false, None).unwrap();
    assert_eq!(e.path, "ROOT/home/u/.bashrc");
    assert!(!e.hard_link && !e.soft_link && !e.compress && !e.encrypt);
    assert_eq!(e.kind, ItemEntryKind::File);
    match e.get_platform_install_path("linux") {
        Some(DMPath::Normal(p)) => assert_eq!(p, "/home/u/.bashrc"),
        other => panic!("unexpected {:?}", other),
    }
    assert!(e.get_platform_install_path("windows").is_none());
}

#[test]
fn prepare_compressed_encrypted_entry() {
    let e = prepare_entry("/home/u/.netrc", "linux", false, false, true, Some("bob".to_string())).unwrap();
    assert_eq!(e.path, "ROOT/home/u/.netrc.zst.encrypt");
    assert!(e.compress && e.encrypt);
    assert_eq!(e.encrypt_recipient, Some("bob".to_string()));
    let e = prepare_entry("\\\\?\\D:\\cfg\\a.ini", "windows", false, false, true, None).unwrap();
    assert_eq!(e.path, "D\\cfg\\a.ini.zst");
}

#[test]
fn prepare_rejects_conflicts_and_paths() {
    assert!(matches!(
        prepare_entry("/home/u/.bashrc", "linux", true, true, false, None),
        Err(DMError::Configuration(CfgErrorKind::HardAndSoftLink))
    ));
    assert!(matches!(
        prepare_entry("/home/u/.bashrc", "linux", true, false, false, Some("bob".to_string())),
        Err(DMError::Configuration(CfgErrorKind::EncryptWithHardLink))
    ));
    assert!(matches!(
        prepare_entry("relative/path", "linux", false, false, false, None),
        Err(DMError::UnsupportedPath)
    ));
}

#[test]
fn health_check_findings() {
    let mut e = TomlItemEntry::new(ItemEntryKind::File, "ROOT/a".to_string(), false);
    assert_eq!(health_check_entry(&e, true), None);
    assert_eq!(health_check_entry(&e, false), Some(DMError::DepositoryObjectMissing));
    e.encrypt = true;
    e.encrypt_recipient = Some("bob".to_string());
    e.soft_link = true;
    assert_eq!(health_check_entry(&e, true), Some(DMError::Configuration(CfgErrorKind::EncryptWithSoftLink)));
}

#[test]
fn update_sweep_answers() {
    let mut s = SweepState::new();
    s.start_group();
    assert!(s.must_ask());
    assert!(s.answer(UpdateChoice::Yes));
    assert!(s.must_ask());
    assert!(!s.answer(UpdateChoice::No));
    assert!(s.answer(UpdateChoice::AllInGroup));
    assert!(!s.must_ask());
    s.start_group();
    assert!(s.must_ask());
    assert!(s.answer(UpdateChoice::All));
    s.start_group();
    assert!(!s.must_ask());
}
