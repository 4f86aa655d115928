use dm::entry::{DMPath, ItemEntryKind, TomlItemEntry};
use dm::env::{dynamic_path_for, SpecDir};
use dm::error::{CfgErrorKind, DMError, EnvErrorKind, GroupErrorKind, ProfileErrorKind};
use dm::tempfile::Tempfile;
use dm::transaction::{lock, DMConfiguration, TomlGlobal, TomlGlobalProfileEntry, TomlGroup, Transaction};

fn pairs(v: &[(&str, &str)]) -> Vec<(String, String)> {
    v.iter().map(|(a, b)| (a.to_string(), b.to_string())).collect()
}

#[test]
fn lock_refused_while_present() {
    assert_eq!(lock(true), Err(()));
    assert_eq!(lock(false), Ok(()));
    assert!(matches!(Transaction::start(true, TomlGlobal::default()), Err(DMError::LockHeld)));
}

#[test]
fn default_registry_and_configuration() {
    let g = TomlGlobal::default();
    assert_eq!(g.registery.profile.len(), 1);
    assert_eq!(g.registery.profile[0].name, "default");
    assert!(g.registery.group.is_empty());
    let c = DMConfiguration::default();
    assert_eq!(c.using_profile, "default");
    assert_eq!(c.locale, "en");
    let p = TomlGlobalProfileEntry::new("work".to_string());
    assert_eq!(p.name, "work");
    assert!(p.group.is_empty());
    let grp = TomlGroup::new("shell".to_string());
    assert_eq!(grp.name, "shell");
    assert!(grp.description.is_none());
    assert!(grp.files.is_empty());
}

#[test]
fn create_group_registers_once() {
    let mut t = Transaction::start(false, TomlGlobal::default()).unwrap();
    assert_eq!(t.create_group("shell"), Ok(()));
    assert_eq!(t.global().registery.group, vec!["shell".to_string()]);
    assert_eq!(t.groups().len(), 1);
    assert_eq!(t.create_group("shell"), Err(DMError::GroupError(GroupErrorKind::DuplicateCreate)));
    t.global_mut().registery.group.push("vim".to_string());
    assert_eq!(t.create_group("vim"), Err(DMError::GroupError(GroupErrorKind::DuplicateCreate)));
    assert!(matches!(t.group("nvim"), Err(DMError::GroupError(GroupErrorKind::NotExists))));
    assert_eq!(t.group("shell").unwrap().name, "shell");
}

#[test]
fn load_group_keeps_loaded_state() {
    let mut t = Transaction::start(false, TomlGlobal::default()).unwrap();
    let mut m = TomlGroup::new("vim".to_string());
    m.description = Some("editor".to_string());
    t.load_group("vim", Some(m));
    t.load_group("vim", None);
    t.load_group("git", None);
    assert_eq!(t.groups().len(), 2);
    assert_eq!(t.group("vim").unwrap().description, Some("editor".to_string()));
    assert!(t.group("git").unwrap().files.is_empty());
}

#[test]
fn add_file_rejects_duplicates_and_conflicts() {
    let mut t = Transaction::start(false, TomlGlobal::default()).unwrap();
    t.create_group("shell").unwrap();
    let e = TomlItemEntry::new(ItemEntryKind::File, "ROOT/home/u/.bashrc".to_string(), false);
    assert_eq!(t.add_file("shell", e), Ok(()));
    let again = TomlItemEntry::new(ItemEntryKind::File, "ROOT/home/u/.bashrc".to_string(), false);
    assert_eq!(t.add_file("shell", again), Err(DMError::DuplicateFileEntry));
    let other = TomlItemEntry::new(ItemEntryKind::File, "ROOT/home/u/.zshrc".to_string(), false);
    assert_eq!(t.add_file("missing", other), Err(DMError::GroupError(GroupErrorKind::NotExists)));
    let mut bad = TomlItemEntry::new(ItemEntryKind::File, "ROOT/home/u/.profile".to_string(), false);
    bad.hard_link = true;
    bad.soft_link = true;
    assert_eq!(t.add_file("shell", bad), Err(DMError::Configuration(CfgErrorKind::HardAndSoftLink)));
    assert_eq!(t.group("shell").unwrap().files.len(), 1);
}

#[test]
fn profiles() {
    let mut t = Transaction::start(false, TomlGlobal::default()).unwrap();
    assert_eq!(t.create_profile("work".to_string()), Ok(()));
    assert_eq!(t.create_profile("work".to_string()), Err(DMError::ProfileError(ProfileErrorKind::DuplicateCreate)));
    assert_eq!(t.add_group_to_profile("work", "shell"), Ok(()));
    assert_eq!(t.global().registery.profile[1].group, vec!["shell".to_string()]);
    assert_eq!(t.add_group_to_profile("home", "shell"), Err(DMError::ProfileError(ProfileErrorKind::NotExists)));
    let mut c = DMConfiguration::default();
    assert_eq!(t.use_profile("work", &mut c), Ok(()));
    assert_eq!(c.using_profile, "work");
    assert_eq!(t.use_profile("home", &mut c), Err(DMError::ProfileError(ProfileErrorKind::NotExists)));
    assert_eq!(t.delete_profile("default", "work"), Err(DMError::ProfileError(ProfileErrorKind::IlleagalOperation)));
    assert_eq!(t.delete_profile("work", "work"), Err(DMError::ProfileError(ProfileErrorKind::IlleagalOperation)));
    assert_eq!(t.delete_profile("home", "default"), Err(DMError::ProfileError(ProfileErrorKind::NotExists)));
    assert_eq!(t.delete_profile("work", "default"), Ok(()));
    assert_eq!(t.global().registery.profile.len(), 1);
}

#[test]
fn spec_dir_lookup() {
    let d = SpecDir::new(
        pairs(&[("home_dir", "/home/u"), ("config_dir", "/home/u/.config")]),
        pairs(&[("WORK", "/srv/work"), ("home_dir", "/other")]),
    );
    assert_eq!(d.get_path("#home_dir").map(|s| s.as_str()), Some("/home/u"));
    assert_eq!(d.get_path("$home_dir").map(|s| s.as_str()), Some("/other"));
    assert_eq!(d.get_path("home_dir").map(|s| s.as_str()), Some("/home/u"));
    assert_eq!(d.get_path("WORK").map(|s| s.as_str()), Some("/srv/work"));
    assert_eq!(d.get_path("#WORK"), None);
    assert_eq!(d.get_path(""), None);
}

#[test]
fn dm_path_resolution() {
    let d = SpecDir::new(pairs(&[("config_dir", "/home/u/.config")]), vec![]);
    let vars = pairs(&[("APP", "nvim")]);
    let p = DMPath::Dynamic(vec!["#config_dir".to_string(), "$APP".to_string(), "init.lua".to_string()]);
    assert_eq!(p.parse(&d, &vars), Ok("/home/u/.config/nvim/init.lua".to_string()));
    let p = DMPath::Normal("/etc/hosts".to_string());
    assert_eq!(p.parse(&d, &vars), Ok("/etc/hosts".to_string()));
    let p = DMPath::Dynamic(vec!["$APP".to_string(), "x".to_string()]);
    assert_eq!(p.parse(&d, &vars), Ok("nvim/x".to_string()));
    assert_eq!(DMPath::Dynamic(vec![]).parse(&d, &vars), Err(DMError::EnvError(EnvErrorKind::EmptyPath)));
    let p = DMPath::Dynamic(vec!["#data_dir".to_string()]);
    assert_eq!(p.parse(&d, &vars), Err(DMError::EnvError(EnvErrorKind::DirectoryNotFound)));
    let p = DMPath::Dynamic(vec!["$NOPE".to_string()]);
    assert_eq!(p.parse(&d, &vars), Err(DMError::EnvError(EnvErrorKind::VariableNotFound)));
    let p = DMPath::Dynamic(vec!["/a".to_string(), "#config_dir".to_string()]);
    assert_eq!(p.parse(&d, &vars), Err(DMError::EnvError(EnvErrorKind::PrefixNotFirst)));
    let p = DMPath::Dynamic(vec!["/a".to_string(), "".to_string()]);
    assert_eq!(p.parse(&d, &vars), Err(DMError::EnvError(EnvErrorKind::EmptySegment)));
}

#[test]
fn tempfile_path() {
    let t = Tempfile::new("/tmp", "1700000000000");
    assert_eq!(t.get_path_buf(), "/tmp/1700000000000.dm.tmp");
}

#[test]
fn spec_dir_tree() {
    let d = SpecDir::new(pairs(&[("home_dir", "/home/u"), ("config_dir", "/c")]), pairs(&[("WORK", "/w")]));
    assert_eq!(
        d.display_tree(),
        "\u{251c}\u{2500} platform\n\u{2502}   \u{251c}\u{2500} home_dir \t/home/u\n\u{2502}   \u{2514}\u{2500} config_dir \t/c\n\u{2514}\u{2500} env\n    \u{2514}\u{2500} WORK \t/w\n"
    );
    let empty = SpecDir::new(vec![], vec![]);
    assert_eq!(empty.display_tree(), "");
    let only_env = SpecDir::new(vec![], pairs(&[("A", "/a"), ("B", "/b")]));
    assert_eq!(only_env.display_tree(), "\u{2514}\u{2500} env\n    \u{251c}\u{2500} A \t/a\n    \u{2514}\u{2500} B \t/b\n");
}

#[test]
fn spec_dir_matches_and_recognition() {
    let d = SpecDir::new(
        pairs(&[("home_dir", "/home/u"), ("config_dir", "/home/u/.config"), ("cache_dir", "/var/cache")]),
        pairs(&[("HOME", "/home/u"), ("XDG", "/home/uu")]),
    );
    let m = d.match_path("/home/u/.config/nvim/init.lua");
    assert_eq!(
        m,
        pairs(&[("#home_dir", "/home/u"), ("#config_dir", "/home/u/.config"), ("$HOME", "/home/u")])
    );
    match d.recognize("/home/u/.config/nvim/init.lua", Some(1)) {
        Some(DMPath::Dynamic(v)) => assert_eq!(v, vec!["#config_dir".to_string(), "nvim/init.lua".to_string()]),
        other => panic!("unexpected {:?}", other),
    }
    match d.recognize("/home/u/.config/nvim/init.lua", None) {
        Some(DMPath::Normal(p)) => assert_eq!(p, "/home/u/.config/nvim/init.lua"),
        other => panic!("unexpected {:?}", other),
    }
    assert!(d.recognize("/home/u/.config/nvim/init.lua", Some(3)).is_none());
    assert!(dynamic_path_for("#cache_dir", "/var/cache", "/home/u/a").is_none());
    let back = DMPath::Dynamic(vec!["#config_dir".to_string(), "nvim/init.lua".to_string()]);
    assert_eq!(back.parse(&d, &vec![]), Ok("/home/u/.config/nvim/init.lua".to_string()));
}
