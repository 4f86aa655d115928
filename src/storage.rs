use vstd::prelude::*;
use crate::cache::{HashCache, query_file_sha256, insert_or_update_file_sha256};
use crate::compress::{zstd_decode, zstd_decoded, zstd_encode, zstd_frame_of};
use crate::digest::{content_digest, hash_file};
use crate::entry::{config_conflict, is_compressed_mode, is_encrypted_mode, is_link_mode, materialization_mode, mode_of, Mode, TomlItemEntry};
use crate::error::{CfgErrorKind, DMError};

verus! {

/// Compression level of compressed depository objects.
pub const COMPRESSION_LEVEL: i32 = 13;

/// Size of the chunks in which file contents are compared.
pub const COMPARE_CHUNK: usize = 10000;

/// What the caller must do to the depository to finish a sync.
#[derive(Debug)]
pub enum SyncAction {
    /// The depository object is already up to date.
    Nothing,
    /// Move the local file to the depository location, then link the local
    /// path to it (a hard link when `hard`, else a soft link).
    MoveAndLink { hard: bool },
    /// Replace the depository object by these bytes.
    Write(Vec<u8>),
    /// Encrypt these bytes for `recipient` with the external tool and, once
    /// the tool has succeeded, replace the depository object by the result.
    EncryptAndWrite { plaintext: Vec<u8>, recipient: String },
}

/// What the caller must do to the local path to finish an install.
#[derive(Debug)]
pub enum InstallAction {
    /// The local path already resolves to the depository object.
    Nothing,
    /// Replace the local file by these bytes.
    WriteLocal(Vec<u8>),
}

pub open spec fn bytes_of(o: Option<&[u8]>) -> Option<Seq<u8>> {
    match o {
        Some(b) => Some(b@),
        None => None,
    }
}

/// Whether the depository object of an entry is stale.
///
/// `key` is the canonical local path, `local` the local file's content (if it
/// exists), `dep` the depository object's content (if it exists), `cache` the
/// content-hash cache.
pub open spec fn needs_sync(
    e: TomlItemEntry,
    key: Seq<char>,
    local: Option<Seq<u8>>,
    dep: Option<Seq<u8>>,
    cache: Map<Seq<char>, Seq<char>>,
) -> Result<bool, DMError> {
    match config_conflict(e) {
        Some(k) => Err(DMError::Configuration(k)),
        None => {
            let m = mode_of(e);
            if is_link_mode(m) {
                Ok(true)
            } else if dep is None {
                Ok(true)
            } else if local is None {
                Err(DMError::LocalFileMissing)
            } else if is_compressed_mode(m) || is_encrypted_mode(m) {
                Ok(!(cache.contains_key(key) && cache[key] == content_digest(local->Some_0)))
            } else {
                Ok(local->Some_0 != dep->Some_0)
            }
        }
    }
}

/// The artifact that a compressed or encrypted mode stores for `local`
/// (before encryption), when compression succeeded.
pub open spec fn artifact_of(m: Mode, local: Seq<u8>) -> Seq<u8> {
    if is_compressed_mode(m) {
        zstd_frame_of(local, COMPRESSION_LEVEL)
    } else {
        local
    }
}

/// What `update_file` returns and does to the cache, for each outcome of the
/// compressor.
pub open spec fn sync_post(
    e: TomlItemEntry,
    key: Seq<char>,
    local: Option<Seq<u8>>,
    dep: Option<Seq<u8>>,
    cache: Map<Seq<char>, Seq<char>>,
    r: Result<SyncAction, DMError>,
    cache_after: Map<Seq<char>, Seq<char>>,
) -> bool {
    match config_conflict(e) {
        Some(k) => r == Err::<SyncAction, DMError>(DMError::Configuration(k)) && cache_after == cache,
        None => {
            let m = mode_of(e);
            if is_link_mode(m) {
                &&& cache_after == cache
                &&& if dep is Some {
                    r matches Ok(SyncAction::Nothing)
                } else if local is None {
                    r == Err::<SyncAction, DMError>(DMError::LocalFileMissing)
                } else {
                    r matches Ok(SyncAction::MoveAndLink { hard }) && hard == (m == Mode::HardLink)
                }
            } else if local is None {
                r == Err::<SyncAction, DMError>(DMError::LocalFileMissing) && cache_after == cache
            } else if m == Mode::Copy {
                &&& cache_after == cache
                &&& if dep == local {
                    r matches Ok(SyncAction::Nothing)
                } else {
                    r matches Ok(SyncAction::Write(b)) && b@ == local->Some_0
                }
            } else {
                let l = local->Some_0;
                match r {
                    Ok(SyncAction::Write(b)) => {
                        &&& !is_encrypted_mode(m)
                        &&& b@ == artifact_of(m, l)
                        &&& zstd_decoded(b@) == Some(l)
                        &&& cache_after == cache.insert(key, content_digest(l))
                    },
                    Ok(SyncAction::EncryptAndWrite { plaintext, recipient }) => {
                        &&& is_encrypted_mode(m)
                        &&& plaintext@ == artifact_of(m, l)
                        &&& (is_compressed_mode(m) ==> zstd_decoded(plaintext@) == Some(l))
                        &&& e.encrypt_recipient == Some(recipient)
                        &&& cache_after == cache.insert(key, content_digest(l))
                    },
                    Err(err) => {
                        &&& is_compressed_mode(m)
                        &&& err == DMError::Compression
                        &&& cache_after == cache
                    },
                    _ => false,
                }
            }
        }
    }
}

/// What `install_file` returns for depository artifact `art` (the depository
/// object, already decrypted for encrypted modes).
pub open spec fn install_post(
    e: TomlItemEntry,
    art: Option<Seq<u8>>,
    r: Result<InstallAction, DMError>,
) -> bool {
    match config_conflict(e) {
        Some(k) => r == Err::<InstallAction, DMError>(DMError::Configuration(k)),
        None => {
            let m = mode_of(e);
            if is_link_mode(m) {
                r matches Ok(InstallAction::Nothing)
            } else if art is None {
                r == Err::<InstallAction, DMError>(DMError::DepositoryObjectMissing)
            } else if is_compressed_mode(m) {
                match zstd_decoded(art->Some_0) {
                    Some(x) => r matches Ok(InstallAction::WriteLocal(v)) && v@ == x,
                    None => r == Err::<InstallAction, DMError>(DMError::Decompression),
                }
            } else {
                r matches Ok(InstallAction::WriteLocal(v)) && v@ == art->Some_0
            }
        }
    }
}

/// Compares two file contents: lengths first, then chunk by chunk, stopping
/// at the first differing chunk.
pub fn is_file_same(local_file: &[u8], depositiory_file: &[u8]) -> (r: bool)
    ensures
        r == (local_file@ == depositiory_file@),
{
    let n = local_file.len();
    if n != depositiory_file.len() {
        return false;
    }
    let mut start: usize = 0;
    while start < n
        invariant
            n == local_file@.len(),
            n == depositiory_file@.len(),
            start <= n,
            forall|j: int| 0 <= j < start ==> local_file@[j] == depositiory_file@[j],
        decreases n - start,
    {
        let end = if n - start > COMPARE_CHUNK { start + COMPARE_CHUNK } else { n };
        let mut i = start;
        while i < end
            invariant
                n == local_file@.len(),
                n == depositiory_file@.len(),
                start <= i <= end <= n,
                forall|j: int| 0 <= j < i ==> local_file@[j] == depositiory_file@[j],
            decreases end - i,
        {
            if local_file[i] != depositiory_file[i] {
                assert(local_file@[i as int] != depositiory_file@[i as int]);
                return false;
            }
            i = i + 1;
        }
        start = end;
    }
    assert(local_file@ =~= depositiory_file@);
    true
}

/// Change detector: whether the depository object of `config` is stale.
pub fn is_file_updatable(
    config: &TomlItemEntry,
    local_key: &str,
    local: Option<&[u8]>,
    depository: Option<&[u8]>,
    cache: &HashCache,
) -> (r: Result<bool, DMError>)
    requires
        cache.wf(),
    ensures
        r == needs_sync(*config, local_key@, bytes_of(local), bytes_of(depository), cache@),
{
    let mode = match materialization_mode(config) {
        Ok(m) => m,
        Err(k) => return Err(DMError::Configuration(k)),
    };
    if mode == Mode::HardLink || mode == Mode::SoftLink {
        return Ok(true);
    }
    let dep = match depository {
        Some(d) => d,
        None => return Ok(true),
    };
    let content = match local {
        Some(l) => l,
        None => return Err(DMError::LocalFileMissing),
    };
    if mode != Mode::Copy {
        let current = hash_file(content);
        return match query_file_sha256(cache, local_key) {
            Some(recorded) => Ok(!(recorded == current)),
            None => Ok(true),
        };
    }
    Ok(!is_file_same(content, dep))
}

fn copy_bytes(b: &[u8]) -> (r: Vec<u8>)
    ensures
        r@ == b@,
{
    let mut v: Vec<u8> = Vec::new();
    let mut i: usize = 0;
    while i < b.len()
        invariant
            i <= b@.len(),
            v@ == b@.take(i as int),
        decreases b@.len() - i,
    {
        v.push(b[i]);
        i = i + 1;
        assert(v@ =~= b@.take(i as int));
    }
    assert(b@.take(i as int) =~= b@);
    v
}

/// Materialization writer: decides how the depository object of `config` is
/// brought up to date and records the content digest for compressed and
/// encrypted modes. Invalid flags are refused before anything changes.
pub fn update_file(
    config: &TomlItemEntry,
    local_key: &str,
    local: Option<&[u8]>,
    depository: Option<&[u8]>,
    cache: &mut HashCache,
) -> (r: Result<SyncAction, DMError>)
    requires
        old(cache).wf(),
    ensures
        final(cache).wf(),
        sync_post(*config, local_key@, bytes_of(local), bytes_of(depository), old(cache)@, r, final(cache)@),
{
    let mode = match materialization_mode(config) {
        Ok(m) => m,
        Err(k) => return Err(DMError::Configuration(k)),
    };
    if mode == Mode::HardLink || mode == Mode::SoftLink {
        if depository.is_some() {
            return Ok(SyncAction::Nothing);
        }
        if local.is_none() {
            return Err(DMError::LocalFileMissing);
        }
        return Ok(SyncAction::MoveAndLink { hard: mode == Mode::HardLink });
    }
    let content = match local {
        Some(l) => l,
        None => return Err(DMError::LocalFileMissing),
    };
    if mode == Mode::Copy {
        if let Some(d) = depository {
            if is_file_same(content, d) {
                return Ok(SyncAction::Nothing);
            }
        }
        return Ok(SyncAction::Write(copy_bytes(content)));
    }
    let artifact = if mode == Mode::CompressedCopy || mode == Mode::CompressedEncryptedCopy {
        match zstd_encode(content, COMPRESSION_LEVEL) {
            Some(frame) => frame,
            None => return Err(DMError::Compression),
        }
    } else {
        copy_bytes(content)
    };
    let digest = hash_file(content);
    if mode == Mode::CompressedCopy {
        insert_or_update_file_sha256(cache, local_key, digest.as_str());
        return Ok(SyncAction::Write(artifact));
    }
    let recipient = match &config.encrypt_recipient {
        Some(r) => r.clone(),
        None => return Err(DMError::Configuration(CfgErrorKind::MissingRecipient)),
    };
    insert_or_update_file_sha256(cache, local_key, digest.as_str());
    Ok(SyncAction::EncryptAndWrite { plaintext: artifact, recipient })
}

/// Inverse of `update_file`: the content to restore at the local path from
/// the depository artifact `artifact` (already decrypted for encrypted
/// modes). Link modes need nothing.
pub fn install_file(config: &TomlItemEntry, artifact: Option<&[u8]>) -> (r: Result<InstallAction, DMError>)
    ensures
        install_post(*config, bytes_of(artifact), r),
{
    let mode = match materialization_mode(config) {
        Ok(m) => m,
        Err(k) => return Err(DMError::Configuration(k)),
    };
    if mode == Mode::HardLink || mode == Mode::SoftLink {
        return Ok(InstallAction::Nothing);
    }
    let art = match artifact {
        Some(a) => a,
        None => return Err(DMError::DepositoryObjectMissing),
    };
    if mode == Mode::CompressedCopy || mode == Mode::CompressedEncryptedCopy {
        match zstd_decode(art) {
            Some(v) => Ok(InstallAction::WriteLocal(v)),
            None => Err(DMError::Decompression),
        }
    } else {
        Ok(InstallAction::WriteLocal(copy_bytes(art)))
    }
}

} // verus!
