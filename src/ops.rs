//! Decisions of the registration, update-sweep and health-check commands.
use vstd::prelude::*;
use vstd::string::*;
use crate::entry::{check_configuration, config_conflict, flag_conflict, has_platform, DMPath, ItemEntryKind, TomlItemEntry};
use crate::error::DMError;
use crate::path_map::{depository_path_of, to_depositiory_path};

verus! {

/// Depository location of a newly registered file: the mapped path, with
/// `.zst` appended for compressed and then `.encrypt` for encrypted objects.
pub open spec fn registered_location(mapped: Seq<char>, compress: bool, encrypt: bool) -> Seq<char> {
    let c = if compress { mapped + ".zst"@ } else { mapped };
    if encrypt { c + ".encrypt"@ } else { c }
}

/// The flags an entry registered with these options has.
pub open spec fn has_flags(
    e: TomlItemEntry,
    hard_link: bool,
    soft_link: bool,
    compress: bool,
    recipient: Option<String>,
) -> bool {
    &&& e.hard_link == hard_link
    &&& e.soft_link == soft_link
    &&& e.compress == compress
    &&& e.encrypt == recipient is Some
    &&& e.encrypt_recipient == recipient
    &&& !e.manual
    &&& e.kind == ItemEntryKind::File
}

/// Builds the entry that registers file `local` (a canonical absolute path)
/// for `platform`. The flags are validated first; then the path is mapped.
pub fn prepare_entry(
    local: &str,
    platform: &str,
    hard_link: bool,
    soft_link: bool,
    compress: bool,
    recipient: Option<String>,
) -> (r: Result<TomlItemEntry, DMError>)
    ensures
        match flag_conflict(recipient is Some, recipient is Some, hard_link, soft_link) {
            Some(k) => r == Err::<TomlItemEntry, DMError>(DMError::Configuration(k)),
            None => match depository_path_of(local@) {
                None => r == Err::<TomlItemEntry, DMError>(DMError::UnsupportedPath),
                Some(mapped) => r matches Ok(e) && {
                    &&& e.wf()
                    &&& has_flags(e, hard_link, soft_link, compress, recipient)
                    &&& e.path@ == registered_location(mapped, compress, recipient is Some)
                    &&& e.install_view().len() == 1
                    &&& e.install_view()[0].0 == platform@
                    &&& e.install_view()[0].1 matches DMPath::Normal(p) && p@ == local@
                },
            },
        },
{
    let mut e = TomlItemEntry::new(ItemEntryKind::File, String::new(), false);
    e.hard_link = hard_link;
    e.soft_link = soft_link;
    e.compress = compress;
    e.encrypt = recipient.is_some();
    e.encrypt_recipient = recipient;
    if let Some(err) = check_configuration(&e) {
        return Err(DMError::Configuration(err.get_kind()));
    }
    let mapped = match to_depositiory_path(local) {
        Ok(m) => m,
        Err(err) => return Err(err),
    };
    let located = if compress { mapped.concat(".zst") } else { mapped };
    let located = if e.encrypt { located.concat(".encrypt") } else { located };
    e.path = located;
    let install = DMPath::Normal(String::from_str(local));
    let ghost wanted = install;
    let ghost before = e;
    e.insert_platform_install_path(platform, install);
    proof {
        let iv = e.install_view();
        let w = choose|i: int| 0 <= i < iv.len() && (#[trigger] iv[i]) == (platform@, wanted);
        assert forall|j: int| 0 <= j < iv.len() implies (#[trigger] iv[j]).0 == platform@ by {
            if iv[j].0 != platform@ {
                assert(has_platform(iv, iv[j].0));
                assert(!has_platform(before.install_view(), iv[j].0));
            }
        }
        if iv.len() > 1 {
            let other = if w == 0 { 1int } else { 0int };
            assert(iv[other].0 == platform@);
            assert(e.install@[other].0@ == iv[other].0 && e.install@[w].0@ == iv[w].0);
        }
        assert(w == 0);
    }
    Ok(e)
}

/// What a health check finds wrong with one registered entry, given whether
/// its depository object exists.
pub fn health_check_entry(entry: &TomlItemEntry, depository_exists: bool) -> (r: Option<DMError>)
    ensures
        !depository_exists ==> r == Some(DMError::DepositoryObjectMissing),
        depository_exists ==> match config_conflict(*entry) {
            Some(k) => r == Some(DMError::Configuration(k)),
            None => r is None,
        },
{
    if !depository_exists {
        return Some(DMError::DepositoryObjectMissing);
    }
    match check_configuration(entry) {
        Some(e) => Some(DMError::Configuration(e.get_kind())),
        None => None,
    }
}

/// The answer to "update this file?" during an update sweep.
#[derive(Debug, Clone, Copy, PartialEq, Eq, Structural)]
pub enum UpdateChoice {
    /// Update this file.
    Yes,
    /// Skip this file.
    No,
    /// Update this file and the rest of its group without asking.
    AllInGroup,
    /// Update this file and every later file without asking.
    All,
}

/// Whether an update sweep still asks before each stale file.
#[derive(Debug, Clone, Copy, PartialEq, Eq, Structural)]
pub struct SweepState {
    /// Every remaining group is updated without asking.
    pub update_all_group: bool,
    /// The rest of the current group is updated without asking.
    pub update_all_file: bool,
}

impl SweepState {
    /// A sweep that asks about every stale file.
    pub fn new() -> (r: SweepState)
        ensures
            !r.update_all_group && !r.update_all_file,
    {
        SweepState { update_all_group: false, update_all_file: false }
    }

    /// Enters the next group: asks again unless every group is confirmed.
    pub fn start_group(&mut self)
        ensures
            final(self).update_all_group == old(self).update_all_group,
            final(self).update_all_file == old(self).update_all_group,
    {
        self.update_all_file = self.update_all_group;
    }

    /// Whether the caller must ask before updating the next stale file.
    pub fn must_ask(&self) -> (r: bool)
        ensures
            r == !self.update_all_file,
    {
        !self.update_all_file
    }

    /// Records the answer about one stale file; returns whether to update it.
    pub fn answer(&mut self, choice: UpdateChoice) -> (r: bool)
        ensures
            r == (choice != UpdateChoice::No),
            final(self).update_all_group == (old(self).update_all_group || choice == UpdateChoice::All),
            final(self).update_all_file == (old(self).update_all_file || choice == UpdateChoice::All
                || choice == UpdateChoice::AllInGroup),
    {
        match choice {
            UpdateChoice::Yes => true,
            UpdateChoice::No => false,
            UpdateChoice::AllInGroup => {
                self.update_all_file = true;
                true
            },
            UpdateChoice::All => {
                self.update_all_group = true;
                self.update_all_file = true;
                true
            },
        }
    }
}

} // verus!
