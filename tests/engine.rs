use dm::cache::{insert_or_update_file_sha256, query_file_sha256, HashCache};
use dm::digest::{hash_file, to_hex_upper};
use dm::entry::{check_configuration, materialization_mode, DMPath, ItemEntryKind, Mode, TomlItemEntry};
use dm::error::{CfgErrorKind, DMError};
use dm::path_map::to_depositiory_path;
use dm::storage::{install_file, is_file_same, is_file_updatable, update_file, InstallAction, SyncAction};

fn entry(path: &str) -> TomlItemEntry {
    TomlItemEntry::new(ItemEntryKind::File, path.to_string(), false)
}

fn encrypted_entry(path: &str) -> TomlItemEntry {
    let mut e = entry(path);
    e.encrypt = true;
    e.encrypt_recipient = Some("alice@example.org".to_string());
    e
}

const BASHRC: &str = "/home/u/.bashrc";

#[test]
fn maps_posix_path_under_root() {
    assert_eq!(to_depositiory_path("/home/u/.bashrc"), Ok("ROOT/home/u/.bashrc".to_string()));
}

#[test]
fn maps_windows_path_to_drive() {
    assert_eq!(to_depositiory_path("\\\\?\\C:\\Users\\u\\a.txt"), Ok("C\\Users\\u\\a.txt".to_string()));
}

#[test]
fn refuses_unsupported_paths() {
    assert_eq!(to_depositiory_path("home/u/.bashrc"), Err(DMError::UnsupportedPath));
    assert_eq!(to_depositiory_path(""), Err(DMError::UnsupportedPath));
    assert_eq!(to_depositiory_path("\\\\?\\UNC\\server\\share\\x"), Err(DMError::UnsupportedPath));
    assert_eq!(to_depositiory_path("\\\\?\\:\\x"), Err(DMError::UnsupportedPath));
    assert_eq!(to_depositiory_path("\\\\?\\C:"), Err(DMError::UnsupportedPath));
}

#[test]
fn distinct_paths_map_apart() {
    let a = to_depositiory_path("/a/b").unwrap();
    let b = to_depositiory_path("/a/c").unwrap();
    let c = to_depositiory_path("\\\\?\\ROOT:\\a\\b").unwrap();
    assert_ne!(a, b);
    assert_ne!(a, c);
    assert_ne!(b, c);
}

#[test]
fn cache_replaces_rows() {
    let mut cache = HashCache::new();
    assert_eq!(query_file_sha256(&cache, "/x"), None);
    insert_or_update_file_sha256(&mut cache, "/x", "AA");
    insert_or_update_file_sha256(&mut cache, "/y", "BB");
    insert_or_update_file_sha256(&mut cache, "/x", "CC");
    assert_eq!(query_file_sha256(&cache, "/x"), Some("CC".to_string()));
    assert_eq!(query_file_sha256(&cache, "/y"), Some("BB".to_string()));
    assert_eq!(cache.records().len(), 2);
}

#[test]
fn hex_and_sha256_values() {
    assert_eq!(to_hex_upper(&[0x00, 0x0f, 0xa5, 0xff]), "000FA5FF");
    assert_eq!(
        hash_file(b"abc"),
        "BA7816BF8F01CFEA414140DE5DAE2223B00361A396177A9CB410FF61F20015AD"
    );
    assert_eq!(
        hash_file(b""),
        "E3B0C44298FC1C149AFBF4C8996FB92427AE41E4649B934CA495991B7852B855"
    );
}

#[test]
fn compares_contents() {
    let a = vec![7u8; 25000];
    let mut b = a.clone();
    assert!(is_file_same(&a, &b));
    b[24999] = 8;
    assert!(!is_file_same(&a, &b));
    assert!(!is_file_same(&a, &a[..100]));
    assert!(is_file_same(&[], &[]));
}

#[test]
fn validator_reports_each_conflict() {
    let mut e = entry("ROOT/a");
    assert!(check_configuration(&e).is_none());
    e.hard_link = true;
    e.soft_link = true;
    assert_eq!(check_configuration(&e).unwrap().get_kind(), CfgErrorKind::HardAndSoftLink);
    let mut e = encrypted_entry("ROOT/a");
    e.hard_link = true;
    assert_eq!(check_configuration(&e).unwrap().get_kind(), CfgErrorKind::EncryptWithHardLink);
    let mut e = encrypted_entry("ROOT/a");
    e.soft_link = true;
    assert_eq!(check_configuration(&e).unwrap().get_kind(), CfgErrorKind::EncryptWithSoftLink);
    let mut e = encrypted_entry("ROOT/a");
    e.encrypt_recipient = None;
    assert_eq!(check_configuration(&e).unwrap().get_kind(), CfgErrorKind::MissingRecipient);
}

#[test]
fn modes_from_flags() {
    let mut e = entry("ROOT/a");
    assert_eq!(materialization_mode(&e), Ok(Mode::Copy));
    e.compress = true;
    assert_eq!(materialization_mode(&e), Ok(Mode::CompressedCopy));
    let mut e = encrypted_entry("ROOT/a");
    assert_eq!(materialization_mode(&e), Ok(Mode::EncryptedCopy));
    e.compress = true;
    assert_eq!(materialization_mode(&e), Ok(Mode::CompressedEncryptedCopy));
    let mut e = entry("ROOT/a");
    e.soft_link = true;
    assert_eq!(materialization_mode(&e), Ok(Mode::SoftLink));
    e.soft_link = false;
    e.hard_link = true;
    assert_eq!(materialization_mode(&e), Ok(Mode::HardLink));
}

#[test]
fn default_copy_registers_and_settles() {
    let location = to_depositiory_path(BASHRC).unwrap();
    assert_eq!(location, "ROOT/home/u/.bashrc");
    let e = entry(&location);
    let local = b"export PATH=$PATH:~/bin\n".to_vec();
    let mut cache = HashCache::new();
    assert_eq!(is_file_updatable(&e, BASHRC, Some(&local[..]), None, &cache), Ok(true));
    let first = update_file(&e, BASHRC, Some(&local[..]), None, &mut cache).unwrap();
    let stored = match first {
        SyncAction::Write(b) => b,
        other => panic!("unexpected {:?}", other),
    };
    assert_eq!(stored, local);
    assert_eq!(is_file_updatable(&e, BASHRC, Some(&local[..]), Some(&stored[..]), &cache), Ok(false));
    assert!(matches!(update_file(&e, BASHRC, Some(&local[..]), Some(&stored[..]), &mut cache), Ok(SyncAction::Nothing)));
    assert_eq!(query_file_sha256(&cache, BASHRC), None);
    match install_file(&e, Some(&stored[..])).unwrap() {
        InstallAction::WriteLocal(v) => assert_eq!(v, local),
        other => panic!("unexpected {:?}", other),
    }
}

#[test]
fn compressed_copy_tracks_digest() {
    let mut e = entry("ROOT/home/u/.bashrc.zst");
    e.compress = true;
    let mut local = b"alias ll='ls -l'\nalias la='ls -a'\n".repeat(20);
    let mut cache = HashCache::new();
    let frame = match update_file(&e, BASHRC, Some(&local[..]), None, &mut cache).unwrap() {
        SyncAction::Write(b) => b,
        other => panic!("unexpected {:?}", other),
    };
    assert_ne!(frame, local);
    assert_eq!(query_file_sha256(&cache, BASHRC), Some(hash_file(&local)));
    assert_eq!(is_file_updatable(&e, BASHRC, Some(&local[..]), Some(&frame[..]), &cache), Ok(false));
    match install_file(&e, Some(&frame[..])).unwrap() {
        InstallAction::WriteLocal(v) => assert_eq!(v, local),
        other => panic!("unexpected {:?}", other),
    }
    local[0] = b'A';
    assert_eq!(is_file_updatable(&e, BASHRC, Some(&local[..]), Some(&frame[..]), &cache), Ok(true));
    let frame2 = match update_file(&e, BASHRC, Some(&local[..]), Some(&frame[..]), &mut cache).unwrap() {
        SyncAction::Write(b) => b,
        other => panic!("unexpected {:?}", other),
    };
    assert_ne!(frame2, frame);
    assert_eq!(query_file_sha256(&cache, BASHRC), Some(hash_file(&local)));
    assert_eq!(is_file_updatable(&e, BASHRC, Some(&local[..]), Some(&frame2[..]), &cache), Ok(false));
}

#[test]
fn conflicting_links_rejected() {
    let mut e = entry("ROOT/home/u/.bashrc");
    e.hard_link = true;
    e.soft_link = true;
    let local = b"x".to_vec();
    let mut cache = HashCache::new();
    let expected = DMError::Configuration(CfgErrorKind::HardAndSoftLink);
    assert_eq!(is_file_updatable(&e, BASHRC, Some(&local[..]), None, &cache), Err(expected));
    assert!(matches!(update_file(&e, BASHRC, Some(&local[..]), None, &mut cache), Err(err) if err == expected));
    assert!(matches!(install_file(&e, Some(&local[..])), Err(err) if err == expected));
    assert_eq!(cache.records().len(), 0);
}

#[test]
fn encrypt_with_link_rejected_without_change() {
    let mut e = encrypted_entry("ROOT/a");
    e.soft_link = true;
    let local = b"secret".to_vec();
    let mut cache = HashCache::new();
    assert!(matches!(
        update_file(&e, "/a", Some(&local[..]), None, &mut cache),
        Err(DMError::Configuration(CfgErrorKind::EncryptWithSoftLink))
    ));
    assert_eq!(query_file_sha256(&cache, "/a"), None);
}

#[test]
fn resync_is_idempotent() {
    let mut e = entry("ROOT/a.zst");
    e.compress = true;
    let local = b"same content".to_vec();
    let mut cache = HashCache::new();
    let first = match update_file(&e, "/a", Some(&local[..]), None, &mut cache).unwrap() {
        SyncAction::Write(b) => b,
        other => panic!("unexpected {:?}", other),
    };
    let second = match update_file(&e, "/a", Some(&local[..]), Some(&first[..]), &mut cache).unwrap() {
        SyncAction::Write(b) => b,
        other => panic!("unexpected {:?}", other),
    };
    assert_eq!(first, second);
}

#[test]
fn link_modes() {
    let mut e = entry("ROOT/a");
    e.hard_link = true;
    let local = b"data".to_vec();
    let mut cache = HashCache::new();
    assert!(matches!(update_file(&e, "/a", Some(&local[..]), None, &mut cache), Ok(SyncAction::MoveAndLink { hard: true })));
    assert!(matches!(update_file(&e, "/a", Some(&local[..]), Some(&local[..]), &mut cache), Ok(SyncAction::Nothing)));
    assert!(matches!(update_file(&e, "/a", None, None, &mut cache), Err(DMError::LocalFileMissing)));
    assert_eq!(is_file_updatable(&e, "/a", Some(&local[..]), Some(&local[..]), &cache), Ok(true));
    assert!(matches!(install_file(&e, None), Ok(InstallAction::Nothing)));
    let mut e = entry("ROOT/a");
    e.soft_link = true;
    assert!(matches!(update_file(&e, "/a", Some(&local[..]), None, &mut cache), Ok(SyncAction::MoveAndLink { hard: false })));
}

#[test]
fn encrypted_modes() {
    let e = encrypted_entry("ROOT/a.encrypt");
    let local = b"token".to_vec();
    let mut cache = HashCache::new();
    match update_file(&e, "/a", Some(&local[..]), None, &mut cache).unwrap() {
        SyncAction::EncryptAndWrite { plaintext, recipient } => {
            assert_eq!(plaintext, local);
            assert_eq!(recipient, "alice@example.org");
        }
        other => panic!("unexpected {:?}", other),
    }
    let ciphertext = b"opaque".to_vec();
    assert_eq!(is_file_updatable(&e, "/a", Some(&local[..]), Some(&ciphertext[..]), &cache), Ok(false));
    let mut e = encrypted_entry("ROOT/a.zst.encrypt");
    e.compress = true;
    let plaintext = match update_file(&e, "/a", Some(&local[..]), None, &mut cache).unwrap() {
        SyncAction::EncryptAndWrite { plaintext, .. } => plaintext,
        other => panic!("unexpected {:?}", other),
    };
    match install_file(&e, Some(&plaintext[..])).unwrap() {
        InstallAction::WriteLocal(v) => assert_eq!(v, local),
        other => panic!("unexpected {:?}", other),
    }
}

#[test]
fn detector_errors() {
    let e = entry("ROOT/a");
    let cache = HashCache::new();
    let dep = b"old".to_vec();
    assert_eq!(is_file_updatable(&e, "/a", None, Some(&dep[..]), &cache), Err(DMError::LocalFileMissing));
    assert_eq!(is_file_updatable(&e, "/a", None, None, &cache), Ok(true));
    let local = b"new".to_vec();
    assert_eq!(is_file_updatable(&e, "/a", Some(&local[..]), Some(&dep[..]), &cache), Ok(true));
    let mut c = entry("ROOT/a.zst");
    c.compress = true;
    assert_eq!(is_file_updatable(&c, "/a", Some(&local[..]), Some(&dep[..]), &cache), Ok(true));
}

#[test]
fn install_errors() {
    let e = entry("ROOT/a");
    assert!(matches!(install_file(&e, None), Err(DMError::DepositoryObjectMissing)));
    let mut c = entry("ROOT/a.zst");
    c.compress = true;
    assert!(matches!(install_file(&c, Some(&b"not a frame"[..])), Err(DMError::Decompression)));
}

#[test]
fn install_paths_per_platform() {
    let mut e = entry("ROOT/a");
    assert!(e.get_platform_install_path("linux").is_none());
    e.insert_platform_install_path("linux", DMPath::Normal("/home/u/a".to_string()));
    e.insert_platform_install_path("windows", DMPath::Normal("C:\\a".to_string()));
    e.insert_platform_install_path("linux", DMPath::Normal("/home/v/a".to_string()));
    assert_eq!(e.install_paths().len(), 2);
    match e.get_platform_install_path("linux") {
        Some(DMPath::Normal(p)) => assert_eq!(p, "/home/v/a"),
        other => panic!("unexpected {:?}", other),
    }
}
