//! Properties that relate the change detector, the writer and the installer.
use vstd::prelude::*;
use crate::entry::{is_encrypted_mode, is_link_mode, mode_of, TomlItemEntry};
use crate::error::DMError;
use crate::storage::{install_post, needs_sync, sync_post, InstallAction, SyncAction};

verus! {

/// The depository content once the caller has carried out the outcome `r` of
/// a sync: `ciphertext` stands for whatever the encryption tool wrote.
pub open spec fn depository_after(
    r: Result<SyncAction, DMError>,
    before: Option<Seq<u8>>,
    local: Seq<u8>,
    ciphertext: Seq<u8>,
) -> Option<Seq<u8>> {
    match r {
        Ok(SyncAction::MoveAndLink { .. }) => Some(local),
        Ok(SyncAction::Write(b)) => Some(b@),
        Ok(SyncAction::EncryptAndWrite { .. }) => Some(ciphertext),
        _ => before,
    }
}

/// The artifact that the depository holds after the outcome `r` of a sync,
/// as installing reads it (decrypted for encrypted modes).
pub open spec fn stored_artifact(r: Result<SyncAction, DMError>, before: Option<Seq<u8>>) -> Option<Seq<u8>> {
    match r {
        Ok(SyncAction::Write(b)) => Some(b@),
        Ok(SyncAction::EncryptAndWrite { plaintext, .. }) => Some(plaintext@),
        _ => before,
    }
}

/// Syncing an unmodified entry a second time leaves the depository object as
/// the first sync left it; for encrypted modes the second sync encrypts the
/// same artifact again (the tool's ciphertext may differ).
pub proof fn lemma_resync_idempotent(
    e: TomlItemEntry,
    key: Seq<char>,
    local: Seq<u8>,
    dep0: Option<Seq<u8>>,
    cache0: Map<Seq<char>, Seq<char>>,
    r1: Result<SyncAction, DMError>,
    cache1: Map<Seq<char>, Seq<char>>,
    c1: Seq<u8>,
    r2: Result<SyncAction, DMError>,
    cache2: Map<Seq<char>, Seq<char>>,
    c2: Seq<u8>,
)
    requires
        sync_post(e, key, Some(local), dep0, cache0, r1, cache1),
        r1 is Ok,
        sync_post(e, key, Some(local), depository_after(r1, dep0, local, c1), cache1, r2, cache2),
    ensures
        !is_encrypted_mode(mode_of(e)) ==> depository_after(r2, depository_after(r1, dep0, local, c1), local, c2)
            == depository_after(r1, dep0, local, c1),
        is_encrypted_mode(mode_of(e)) && r2 is Ok ==> stored_artifact(r2, depository_after(r1, dep0, local, c1))
            == stored_artifact(r1, dep0),
        cache2 == cache1,
{
}

/// Right after a successful sync, with no local change in between, the
/// detector reports the entry up to date, except for link modes, which it
/// always reports stale.
pub proof fn lemma_sync_converges(
    e: TomlItemEntry,
    key: Seq<char>,
    local: Seq<u8>,
    dep0: Option<Seq<u8>>,
    cache0: Map<Seq<char>, Seq<char>>,
    r1: Result<SyncAction, DMError>,
    cache1: Map<Seq<char>, Seq<char>>,
    ciphertext: Seq<u8>,
)
    requires
        sync_post(e, key, Some(local), dep0, cache0, r1, cache1),
        r1 is Ok,
    ensures
        needs_sync(e, key, Some(local), depository_after(r1, dep0, local, ciphertext), cache1)
            == Ok::<bool, DMError>(is_link_mode(mode_of(e))),
{
}

/// Installing what a successful sync stored restores the local content
/// byte for byte, for every mode but the link modes.
pub proof fn lemma_install_restores(
    e: TomlItemEntry,
    key: Seq<char>,
    local: Seq<u8>,
    dep0: Option<Seq<u8>>,
    cache0: Map<Seq<char>, Seq<char>>,
    r1: Result<SyncAction, DMError>,
    cache1: Map<Seq<char>, Seq<char>>,
    r3: Result<InstallAction, DMError>,
)
    requires
        sync_post(e, key, Some(local), dep0, cache0, r1, cache1),
        r1 is Ok,
        !is_link_mode(mode_of(e)),
        install_post(e, stored_artifact(r1, dep0), r3),
    ensures
        r3 matches Ok(InstallAction::WriteLocal(v)) && v@ == local,
{
}

} // verus!
