use vstd::prelude::*;
use vstd::string::*;
use crate::entry::{check_configuration, config_conflict, TomlItemEntry};
use crate::error::{DMError, GroupErrorKind, ProfileErrorKind};

verus! {

/// Per-user settings: the profile in use and the interface language.
pub struct DMConfiguration {
    pub using_profile: String,
    pub locale: String,
}

impl Default for DMConfiguration {
    fn default() -> (r: DMConfiguration)
        ensures
            r.using_profile@ == "default"@,
            r.locale@ == "en"@,
    {
        DMConfiguration { using_profile: String::from_str("default"), locale: String::from_str("en") }
    }
}

/// A named profile and the groups it uses.
pub struct TomlGlobalProfileEntry {
    pub name: String,
    pub group: Vec<String>,
}

impl TomlGlobalProfileEntry {
    pub fn new(name: String) -> (r: TomlGlobalProfileEntry)
        ensures
            r.name == name,
            r.group@.len() == 0,
    {
        TomlGlobalProfileEntry { name, group: Vec::new() }
    }
}

/// The registry of profiles and of group names.
pub struct TomlGlobalRegistery {
    pub profile: Vec<TomlGlobalProfileEntry>,
    pub group: Vec<String>,
}

impl Default for TomlGlobalRegistery {
    fn default() -> (r: TomlGlobalRegistery)
        ensures
            r.profile@.len() == 1,
            r.profile@[0].name@ == "default"@,
            r.profile@[0].group@.len() == 0,
            r.group@.len() == 0,
    {
        let mut profile = Vec::new();
        profile.push(TomlGlobalProfileEntry::new(String::from_str("default")));
        TomlGlobalRegistery { profile, group: Vec::new() }
    }
}

/// The global registry document.
pub struct TomlGlobal {
    pub registery: TomlGlobalRegistery,
}

impl Default for TomlGlobal {
    fn default() -> (r: TomlGlobal)
        ensures
            r.registery.profile@.len() == 1,
            r.registery.profile@[0].name@ == "default"@,
            r.registery.profile@[0].group@.len() == 0,
            r.registery.group@.len() == 0,
    {
        TomlGlobal { registery: TomlGlobalRegistery::default() }
    }
}

/// A group manifest: its metadata and its file entries.
pub struct TomlGroup {
    pub name: String,
    pub description: Option<String>,
    pub enable: bool,
    pub files: Vec<TomlItemEntry>,
}

impl TomlGroup {
    /// An enabled group with no description and no entries.
    pub fn new(name: String) -> (r: TomlGroup)
        ensures
            r.name == name,
            r.description is None,
            r.enable,
            r.files@.len() == 0,
    {
        TomlGroup { name, description: None, enable: true, files: Vec::new() }
    }
}

pub open spec fn names_of(v: Seq<String>) -> Seq<Seq<char>> {
    v.map_values(|s: String| s@)
}

pub open spec fn group_names(v: Seq<TomlGroup>) -> Seq<Seq<char>> {
    v.map_values(|g: TomlGroup| g.name@)
}

pub open spec fn profile_names(v: Seq<TomlGlobalProfileEntry>) -> Seq<Seq<char>> {
    v.map_values(|p: TomlGlobalProfileEntry| p.name@)
}

pub open spec fn entry_paths(v: Seq<TomlItemEntry>) -> Seq<Seq<char>> {
    v.map_values(|e: TomlItemEntry| e.path@)
}

pub open spec fn unique(s: Seq<Seq<char>>) -> bool {
    forall|i: int, j: int| 0 <= i < s.len() && 0 <= j < s.len() && i != j ==> #[trigger] s[i] != #[trigger] s[j]
}

fn index_of(v: &Vec<String>, name: &str) -> (r: Option<usize>)
    ensures
        match r {
            Some(i) => i < v@.len() && v@[i as int]@ == name@,
            None => !names_of(v@).contains(name@),
        },
{
    let key = String::from_str(name);
    let mut i: usize = 0;
    while i < v.len()
        invariant
            i <= v@.len(),
            key@ == name@,
            forall|j: int| 0 <= j < i ==> v@[j]@ != name@,
        decreases v@.len() - i,
    {
        if v[i] == key {
            return Some(i);
        }
        i = i + 1;
    }
    proof {
        if names_of(v@).contains(name@) {
            let j = choose|j: int| 0 <= j < names_of(v@).len() && names_of(v@)[j] == name@;
            assert(v@[j]@ == name@);
        }
    }
    None
}

/// Whether the advisory lock may be taken: refused while the lock is present.
pub fn lock(lock_present: bool) -> (r: Result<(), ()>)
    ensures
        r is Err <==> lock_present,
{
    if lock_present {
        Err(())
    } else {
        Ok(())
    }
}

/// The in-memory state of one configuration transaction: the global registry
/// and the group manifests loaded so far, each group at most once. The caller
/// persists it on commit, registry first, then each manifest.
pub struct Transaction {
    group: Vec<TomlGroup>,
    global: TomlGlobal,
}

impl Transaction {
    pub closed spec fn loaded(&self) -> Seq<TomlGroup> {
        self.group@
    }

    pub closed spec fn global_view(&self) -> TomlGlobal {
        self.global
    }

    pub open spec fn loaded_names(&self) -> Seq<Seq<char>> {
        group_names(self.loaded())
    }

    pub open spec fn registered_groups(&self) -> Seq<Seq<char>> {
        names_of(self.global_view().registery.group@)
    }

    pub open spec fn profiles(&self) -> Seq<Seq<char>> {
        profile_names(self.global_view().registery.profile@)
    }

    pub open spec fn wf(&self) -> bool {
        unique(self.loaded_names())
    }

    /// Starts a transaction on the registry `global`, unless the advisory
    /// lock is present.
    pub fn start(lock_present: bool, global: TomlGlobal) -> (r: Result<Transaction, DMError>)
        ensures
            lock_present ==> r == Err::<Transaction, DMError>(DMError::LockHeld),
            !lock_present ==> (r matches Ok(t) && t.wf() && t.loaded().len() == 0 && t.global_view() == global),
    {
        match lock(lock_present) {
            Err(()) => Err(DMError::LockHeld),
            Ok(()) => Ok(Transaction { group: Vec::new(), global }),
        }
    }

    pub fn global(&self) -> (r: &TomlGlobal)
        ensures
            *r == self.global_view(),
    {
        &self.global
    }

    pub fn global_mut(&mut self) -> (r: &mut TomlGlobal)
        ensures
            *r == old(self).global_view(),
            final(self).global_view() == *final(r),
            final(self).loaded() == old(self).loaded(),
    {
        &mut self.global
    }

    /// The loaded manifests, for persisting them.
    pub fn groups(&self) -> (r: &Vec<TomlGroup>)
        ensures
            r@ == self.loaded(),
    {
        &self.group
    }

    fn find_loaded(&self, name: &str) -> (r: Option<usize>)
        ensures
            match r {
                Some(i) => i < self.loaded().len() && self.loaded()[i as int].name@ == name@,
                None => !self.loaded_names().contains(name@),
            },
    {
        let key = String::from_str(name);
        let mut i: usize = 0;
        while i < self.group.len()
            invariant
                i <= self.group@.len(),
                key@ == name@,
                forall|j: int| 0 <= j < i ==> self.group@[j].name@ != name@,
            decreases self.group@.len() - i,
        {
            if self.group[i].name == key {
                return Some(i);
            }
            i = i + 1;
        }
        proof {
            if self.loaded_names().contains(name@) {
                let j = choose|j: int| 0 <= j < self.loaded_names().len() && self.loaded_names()[j] == name@;
                assert(self.group@[j].name@ == name@);
            }
        }
        None
    }

    /// Hands over the manifest of group `name` as read from storage (`None`
    /// when it has no manifest yet, which yields an empty one). A group that
    /// is already loaded keeps its in-memory state.
    pub fn load_group(&mut self, name: &str, manifest: Option<TomlGroup>)
        requires
            old(self).wf(),
            manifest matches Some(m) ==> m.name@ == name@,
        ensures
            final(self).wf(),
            final(self).global_view() == old(self).global_view(),
            old(self).loaded_names().contains(name@) ==> final(self).loaded() == old(self).loaded(),
            !old(self).loaded_names().contains(name@) ==> {
                &&& final(self).loaded().len() == old(self).loaded().len() + 1
                &&& final(self).loaded().take(old(self).loaded().len() as int) == old(self).loaded()
                &&& final(self).loaded().last().name@ == name@
                &&& match manifest {
                    Some(m) => final(self).loaded().last() == m,
                    None => final(self).loaded().last().files@.len() == 0,
                }
            },
    {
        if let Some(i) = self.find_loaded(name) {
            assert(self.loaded_names()[i as int] == name@);
            return;
        }
        let g = match manifest {
            Some(m) => m,
            None => TomlGroup::new(String::from_str(name)),
        };
        let ghost before = self.group@;
        self.group.push(g);
        proof {
            assert(self.group@.take(before.len() as int) =~= before);
            let ns = self.loaded_names();
            assert forall|i: int, j: int| 0 <= i < ns.len() && 0 <= j < ns.len() && i != j implies #[trigger] ns[i] != #[trigger] ns[j] by {
                let old_ns = group_names(before);
                if i < before.len() && j < before.len() {
                    assert(ns[i] == old_ns[i] && ns[j] == old_ns[j]);
                } else if i < before.len() {
                    assert(ns[i] == old_ns[i]);
                    assert(old_ns.contains(ns[i]));
                } else {
                    assert(ns[j] == old_ns[j]);
                    assert(old_ns.contains(ns[j]));
                }
            }
        }
    }

    /// The loaded manifest of group `name`.
    pub fn group(&self, name: &str) -> (r: Result<&TomlGroup, DMError>)
        ensures
            match r {
                Ok(g) => g.name@ == name@ && self.loaded().contains(*g),
                Err(e) => e == DMError::GroupError(GroupErrorKind::NotExists)
                    && !self.loaded_names().contains(name@),
            },
    {
        match self.find_loaded(name) {
            Some(i) => Ok(&self.group[i]),
            None => Err(DMError::GroupError(GroupErrorKind::NotExists)),
        }
    }

    /// Registers a new, empty group. Refused when a group of that name is
    /// already loaded or registered.
    pub fn create_group(&mut self, name: &str) -> (r: Result<(), DMError>)
        requires
            old(self).wf(),
        ensures
            final(self).wf(),
            old(self).loaded_names().contains(name@) || old(self).registered_groups().contains(name@) ==> {
                &&& r == Err::<(), DMError>(DMError::GroupError(GroupErrorKind::DuplicateCreate))
                &&& *final(self) == *old(self)
            },
            !(old(self).loaded_names().contains(name@) || old(self).registered_groups().contains(name@)) ==> {
                &&& r is Ok
                &&& final(self).registered_groups() == old(self).registered_groups().push(name@)
                &&& final(self).global_view().registery.profile == old(self).global_view().registery.profile
                &&& final(self).loaded().take(old(self).loaded().len() as int) == old(self).loaded()
                &&& final(self).loaded().len() == old(self).loaded().len() + 1
                &&& final(self).loaded().last().name@ == name@
                &&& final(self).loaded().last().files@.len() == 0
            },
    {
        if let Some(i) = self.find_loaded(name) {
            assert(self.loaded_names()[i as int] == name@);
            return Err(DMError::GroupError(GroupErrorKind::DuplicateCreate));
        }
        if let Some(i) = index_of(&self.global.registery.group, name) {
            assert(self.registered_groups()[i as int] == name@);
            return Err(DMError::GroupError(GroupErrorKind::DuplicateCreate));
        }
        self.global.registery.group.push(String::from_str(name));
        self.load_group(name, None);
        proof {
            assert(self.registered_groups() =~= old(self).registered_groups().push(name@));
        }
        Ok(())
    }

    /// Adds a validated entry to loaded group `group_name`. Refused, with
    /// nothing changed, when the entry's flags conflict, the group is not
    /// loaded, or the group already has an entry at the same depository
    /// location.
    pub fn add_file(&mut self, group_name: &str, entry: TomlItemEntry) -> (r: Result<(), DMError>)
        requires
            old(self).wf(),
        ensures
            final(self).wf(),
            final(self).global_view() == old(self).global_view(),
            r is Err ==> *final(self) == *old(self),
            config_conflict(entry) matches Some(k) ==> r == Err::<(), DMError>(DMError::Configuration(k)),
            config_conflict(entry) is None && !old(self).loaded_names().contains(group_name@)
                ==> r == Err::<(), DMError>(DMError::GroupError(GroupErrorKind::NotExists)),
            config_conflict(entry) is None && old(self).loaded_names().contains(group_name@) ==> {
                let i = old(self).loaded_names().index_of(group_name@);
                let g = old(self).loaded()[i];
                if entry_paths(g.files@).contains(entry.path@) {
                    r == Err::<(), DMError>(DMError::DuplicateFileEntry)
                } else {
                    &&& r is Ok
                    &&& final(self).loaded().len() == old(self).loaded().len()
                    &&& forall|j: int| 0 <= j < old(self).loaded().len() && j != i
                        ==> #[trigger] final(self).loaded()[j] == old(self).loaded()[j]
                    &&& final(self).loaded()[i].name == g.name
                    &&& final(self).loaded()[i].description == g.description
                    &&& final(self).loaded()[i].enable == g.enable
                    &&& final(self).loaded()[i].files@ == g.files@.push(entry)
                }
            },
    {
        if let Some(e) = check_configuration(&entry) {
            return Err(DMError::Configuration(e.get_kind()));
        }
        let i = match self.find_loaded(group_name) {
            Some(i) => i,
            None => return Err(DMError::GroupError(GroupErrorKind::NotExists)),
        };
        proof {
            let ns = self.loaded_names();
            assert(ns[i as int] == group_name@);
            assert(ns.contains(group_name@));
            assert(ns.index_of(group_name@) == i as int) by {
                let k = ns.index_of(group_name@);
                if k != i as int {
                    assert(ns[k] == ns[i as int]);
                }
            }
        }
        let n = self.group[i].files.len();
        let mut j: usize = 0;
        while j < n
            invariant
                *self == *old(self),
                old(self).wf(),
                old(self).loaded_names().contains(group_name@),
                old(self).loaded_names().index_of(group_name@) == i as int,
                config_conflict(entry) is None,
                i < self.group@.len(),
                n == self.group@[i as int].files@.len(),
                j <= n,
                forall|k: int| 0 <= k < j ==> self.group@[i as int].files@[k].path@ != entry.path@,
            decreases n - j,
        {
            if self.group[i].files[j].path == entry.path {
                proof {
                    assert(entry_paths(self.group@[i as int].files@)[j as int] == entry.path@);
                }
                return Err(DMError::DuplicateFileEntry);
            }
            j = j + 1;
        }
        proof {
            let ps = entry_paths(self.group@[i as int].files@);
            if ps.contains(entry.path@) {
                let k = choose|k: int| 0 <= k < ps.len() && ps[k] == entry.path@;
                assert(self.group@[i as int].files@[k].path@ == entry.path@);
            }
        }
        let ghost before = self.group@;
        let mut g = self.group.remove(i);
        g.files.push(entry);
        self.group.insert(i, g);
        proof {
            let ns = self.loaded_names();
            let old_ns = group_names(before);
            assert forall|j: int| 0 <= j < before.len() && j != i implies #[trigger] self.group@[j] == before[j] by {}
            assert forall|a: int| 0 <= a < ns.len() implies #[trigger] ns[a] == old_ns[a] by {
                if a != i {
                    assert(self.group@[a] == before[a]);
                }
            }
        }
        Ok(())
    }

    /// Adds a new, empty profile. Refused when one of that name exists.
    pub fn create_profile(&mut self, name: String) -> (r: Result<(), DMError>)
        ensures
            final(self).loaded() == old(self).loaded(),
            final(self).registered_groups() == old(self).registered_groups(),
            old(self).profiles().contains(name@) ==> r == Err::<(), DMError>(
                DMError::ProfileError(ProfileErrorKind::DuplicateCreate)) && *final(self) == *old(self),
            !old(self).profiles().contains(name@) ==> r is Ok && final(self).profiles() == old(self).profiles().push(name@),
    {
        let mut i: usize = 0;
        let n = self.global.registery.profile.len();
        while i < n
            invariant
                n == self.global.registery.profile@.len(),
                i <= n,
                forall|j: int| 0 <= j < i ==> self.global.registery.profile@[j].name@ != name@,
            decreases n - i,
        {
            if self.global.registery.profile[i].name == name {
                proof {
                    assert(self.profiles()[i as int] == name@);
                }
                return Err(DMError::ProfileError(ProfileErrorKind::DuplicateCreate));
            }
            i = i + 1;
        }
        proof {
            if self.profiles().contains(name@) {
                let j = choose|j: int| 0 <= j < self.profiles().len() && self.profiles()[j] == name@;
                assert(self.global.registery.profile@[j].name@ == name@);
            }
        }
        self.global.registery.profile.push(TomlGlobalProfileEntry::new(name));
        proof {
            assert(self.profiles() =~= old(self).profiles().push(name@));
        }
        Ok(())
    }

    fn find_profile(&self, name: &str) -> (r: Option<usize>)
        ensures
            match r {
                Some(i) => i < self.profiles().len() && self.profiles()[i as int] == name@,
                None => !self.profiles().contains(name@),
            },
    {
        let key = String::from_str(name);
        let n = self.global.registery.profile.len();
        let mut i: usize = 0;
        while i < n
            invariant
                n == self.global.registery.profile@.len(),
                i <= n,
                key@ == name@,
                forall|j: int| 0 <= j < i ==> self.global.registery.profile@[j].name@ != name@,
            decreases n - i,
        {
            if self.global.registery.profile[i].name == key {
                return Some(i);
            }
            i = i + 1;
        }
        proof {
            if self.profiles().contains(name@) {
                let j = choose|j: int| 0 <= j < self.profiles().len() && self.profiles()[j] == name@;
                assert(self.global.registery.profile@[j].name@ == name@);
            }
        }
        None
    }

    /// Makes `name` the profile in use, if it exists.
    pub fn use_profile(&self, name: &str, config: &mut DMConfiguration) -> (r: Result<(), DMError>)
        ensures
            self.profiles().contains(name@) ==> r is Ok && final(config).using_profile@ == name@
                && final(config).locale == old(config).locale,
            !self.profiles().contains(name@) ==> r == Err::<(), DMError>(
                DMError::ProfileError(ProfileErrorKind::NotExists)) && *final(config) == *old(config),
    {
        match self.find_profile(name) {
            Some(i) => {
                assert(self.profiles().contains(name@));
                config.using_profile = String::from_str(name);
                Ok(())
            },
            None => Err(DMError::ProfileError(ProfileErrorKind::NotExists)),
        }
    }

    /// Removes profile `name`. The default profile and the profile in use
    /// cannot be removed.
    pub fn delete_profile(&mut self, name: &str, using_profile: &str) -> (r: Result<(), DMError>)
        ensures
            final(self).loaded() == old(self).loaded(),
            final(self).registered_groups() == old(self).registered_groups(),
            r is Err ==> *final(self) == *old(self),
            (name@ == "default"@ || name@ == using_profile@) ==> r == Err::<(), DMError>(
                DMError::ProfileError(ProfileErrorKind::IlleagalOperation)),
            !(name@ == "default"@ || name@ == using_profile@) && !old(self).profiles().contains(name@)
                ==> r == Err::<(), DMError>(DMError::ProfileError(ProfileErrorKind::NotExists)),
            !(name@ == "default"@ || name@ == using_profile@) && old(self).profiles().contains(name@) ==> {
                &&& r is Ok
                &&& exists|i: int| 0 <= i < old(self).profiles().len() && #[trigger] old(self).profiles()[i] == name@
                    && final(self).global_view().registery.profile@ == old(self).global_view().registery.profile@.remove(i)
            },
    {
        let key = String::from_str(name);
        let using = String::from_str(using_profile);
        let default_name = String::from_str("default");
        if key == default_name || key == using {
            return Err(DMError::ProfileError(ProfileErrorKind::IlleagalOperation));
        }
        match self.find_profile(name) {
            Some(i) => {
                let ghost before = self.global.registery.profile@;
                self.global.registery.profile.remove(i);
                assert(old(self).profiles()[i as int] == name@);
                assert(self.global.registery.profile@ == before.remove(i as int));
                Ok(())
            },
            None => Err(DMError::ProfileError(ProfileErrorKind::NotExists)),
        }
    }

    /// Lists group `group` in profile `profile`.
    pub fn add_group_to_profile(&mut self, profile: &str, group: &str) -> (r: Result<(), DMError>)
        ensures
            final(self).loaded() == old(self).loaded(),
            final(self).registered_groups() == old(self).registered_groups(),
            final(self).profiles() == old(self).profiles(),
            !old(self).profiles().contains(profile@) ==> r == Err::<(), DMError>(
                DMError::ProfileError(ProfileErrorKind::NotExists)) && *final(self) == *old(self),
            old(self).profiles().contains(profile@) ==> {
                &&& r is Ok
                &&& exists|i: int| 0 <= i < old(self).profiles().len() && #[trigger] old(self).profiles()[i] == profile@
                    && names_of(final(self).global_view().registery.profile@[i].group@)
                        == names_of(old(self).global_view().registery.profile@[i].group@).push(group@)
            },
    {
        match self.find_profile(profile) {
            Some(i) => {
                let ghost before = self.global.registery.profile@;
                let mut entry = self.global.registery.profile.remove(i);
                entry.group.push(String::from_str(group));
                self.global.registery.profile.insert(i, entry);
                proof {
                    let ps = self.global.registery.profile@;
                    assert forall|j: int| 0 <= j < ps.len() && j != i implies #[trigger] ps[j] == before[j] by {}
                    assert(self.profiles() =~= old(self).profiles());
                    assert(old(self).profiles()[i as int] == profile@);
                    assert(names_of(ps[i as int].group@) =~= names_of(before[i as int].group@).push(group@));
                }
                Ok(())
            },
            None => Err(DMError::ProfileError(ProfileErrorKind::NotExists)),
        }
    }

    /// Sets the description of loaded group `name`.
    pub fn set_group_description(&mut self, name: &str, desc: String) -> (r: Result<(), DMError>)
        requires
            old(self).wf(),
        ensures
            final(self).wf(),
            final(self).global_view() == old(self).global_view(),
            !old(self).loaded_names().contains(name@) ==> r == Err::<(), DMError>(
                DMError::GroupError(GroupErrorKind::NotExists)) && *final(self) == *old(self),
            old(self).loaded_names().contains(name@) ==> {
                let i = old(self).loaded_names().index_of(name@);
                &&& r is Ok
                &&& final(self).loaded().len() == old(self).loaded().len()
                &&& forall|j: int| 0 <= j < old(self).loaded().len() && j != i
                    ==> #[trigger] final(self).loaded()[j] == old(self).loaded()[j]
                &&& final(self).loaded()[i].name == old(self).loaded()[i].name
                &&& final(self).loaded()[i].description == Some(desc)
                &&& final(self).loaded()[i].enable == old(self).loaded()[i].enable
                &&& final(self).loaded()[i].files == old(self).loaded()[i].files
            },
    {
        let i = match self.find_loaded(name) {
            Some(i) => i,
            None => return Err(DMError::GroupError(GroupErrorKind::NotExists)),
        };
        proof {
            let ns = self.loaded_names();
            assert(ns[i as int] == name@);
            assert(ns.contains(name@));
            assert(ns.index_of(name@) == i as int) by {
                let k = ns.index_of(name@);
                if k != i as int {
                    assert(ns[k] == ns[i as int]);
                }
            }
        }
        let ghost before = self.group@;
        let mut g = self.group.remove(i);
        g.description = Some(desc);
        self.group.insert(i, g);
        proof {
            let ns = self.loaded_names();
            let old_ns = group_names(before);
            assert forall|j: int| 0 <= j < before.len() && j != i implies #[trigger] self.group@[j] == before[j] by {}
            assert forall|a: int| 0 <= a < ns.len() implies #[trigger] ns[a] == old_ns[a] by {
                if a != i {
                    assert(self.group@[a] == before[a]);
                }
            }
        }
        Ok(())
    }
}

} // verus!
