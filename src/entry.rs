use vstd::prelude::*;
use vstd::string::*;
use crate::error::CfgErrorKind;

verus! {

/// Whether an entry stands for a file or a directory.
#[derive(Debug, Clone, Copy, PartialEq, Eq, Structural)]
pub enum ItemEntryKind {
    File,
    Dir,
}

/// An install path: a literal absolute path, or a list of segments whose
/// first one may name a well-known directory (`#name`) or an environment
/// variable (`$name`).
#[derive(Debug, Clone)]
pub enum DMPath {
    Normal(String),
    Dynamic(Vec<String>),
}

/// How an entry's depository object is produced from its local file.
#[derive(Debug, Clone, Copy, PartialEq, Eq, Structural)]
pub enum Mode {
    Copy,
    HardLink,
    SoftLink,
    CompressedCopy,
    EncryptedCopy,
    CompressedEncryptedCopy,
}

/// One registered file of a group.
#[derive(Debug, Clone)]
pub struct TomlItemEntry {
    /// File or directory.
    pub kind: ItemEntryKind,
    /// Location inside the group's depository directory.
    pub path: String,
    /// Synchronised by an external script, never automatically.
    pub manual: bool,
    /// Encrypt the depository object.
    pub encrypt: bool,
    /// Identity the depository object is encrypted for.
    pub encrypt_recipient: Option<String>,
    /// Replace the local file by a hard link into the depository.
    pub hard_link: bool,
    /// Replace the local file by a soft link into the depository.
    pub soft_link: bool,
    /// Compress the depository object.
    pub compress: bool,
    /// Install path per platform identifier, each platform at most once.
    pub install: Vec<(String, DMPath)>,
}

/// The configuration conflict of an entry's flags, if any, in the order in
/// which they are reported.
pub open spec fn config_conflict(e: TomlItemEntry) -> Option<CfgErrorKind> {
    flag_conflict(e.encrypt, e.encrypt_recipient is Some, e.hard_link, e.soft_link)
}

/// The conflict among these flag values, if any, in reporting order.
pub open spec fn flag_conflict(encrypt: bool, has_recipient: bool, hard_link: bool, soft_link: bool) -> Option<
    CfgErrorKind,
> {
    if encrypt && hard_link {
        Some(CfgErrorKind::EncryptWithHardLink)
    } else if encrypt && soft_link {
        Some(CfgErrorKind::EncryptWithSoftLink)
    } else if hard_link && soft_link {
        Some(CfgErrorKind::HardAndSoftLink)
    } else if encrypt && !has_recipient {
        Some(CfgErrorKind::MissingRecipient)
    } else {
        None
    }
}

/// The materialization mode that an entry's flags select.
pub open spec fn mode_of(e: TomlItemEntry) -> Mode {
    if e.hard_link {
        Mode::HardLink
    } else if e.soft_link {
        Mode::SoftLink
    } else if e.compress && e.encrypt {
        Mode::CompressedEncryptedCopy
    } else if e.compress {
        Mode::CompressedCopy
    } else if e.encrypt {
        Mode::EncryptedCopy
    } else {
        Mode::Copy
    }
}

/// Some pair of `install` is for platform `q`.
pub open spec fn has_platform(install: Seq<(Seq<char>, DMPath)>, q: Seq<char>) -> bool {
    exists|i: int| 0 <= i < install.len() && (#[trigger] install[i]).0 == q
}

pub open spec fn is_link_mode(m: Mode) -> bool {
    m == Mode::HardLink || m == Mode::SoftLink
}

pub open spec fn is_compressed_mode(m: Mode) -> bool {
    m == Mode::CompressedCopy || m == Mode::CompressedEncryptedCopy
}

pub open spec fn is_encrypted_mode(m: Mode) -> bool {
    m == Mode::EncryptedCopy || m == Mode::CompressedEncryptedCopy
}

impl TomlItemEntry {
    /// The per-platform install paths, as (platform, path) pairs.
    pub open spec fn install_view(&self) -> Seq<(Seq<char>, DMPath)> {
        self.install@.map_values(|p: (String, DMPath)| (p.0@, p.1))
    }

    pub open spec fn wf(&self) -> bool {
        forall|i: int, j: int|
            0 <= i < self.install@.len() && 0 <= j < self.install@.len() && i != j
                ==> #[trigger] self.install@[i].0@ != #[trigger] self.install@[j].0@
    }

    /// A new entry for depository location `path`, with no flag set and no
    /// install path.
    pub fn new(kind: ItemEntryKind, path: String, manual: bool) -> (r: TomlItemEntry)
        ensures
            r.wf(),
            r.kind == kind,
            r.path == path,
            r.manual == manual,
            !r.encrypt && !r.hard_link && !r.soft_link && !r.compress,
            r.encrypt_recipient is None,
            r.install_view().len() == 0,
    {
        TomlItemEntry {
            kind,
            path,
            manual,
            encrypt: false,
            encrypt_recipient: None,
            hard_link: false,
            soft_link: false,
            compress: false,
            install: Vec::new(),
        }
    }

    /// The install path registered for `platform`.
    pub fn get_platform_install_path(&self, platform: &str) -> (r: Option<&DMPath>)
        requires
            self.wf(),
        ensures
            match r {
                Some(p) => exists|i: int| 0 <= i < self.install_view().len()
                    && (#[trigger] self.install_view()[i]).0 == platform@ && self.install_view()[i].1 == *p,
                None => forall|i: int| 0 <= i < self.install_view().len()
                    ==> (#[trigger] self.install_view()[i]).0 != platform@,
            },
    {
        let key = String::from_str(platform);
        let n = self.install.len();
        let mut i: usize = 0;
        while i < n
            invariant
                n == self.install@.len(),
                key@ == platform@,
                0 <= i <= n,
                forall|j: int| 0 <= j < i ==> (#[trigger] self.install_view()[j]).0 != platform@,
            decreases n - i,
        {
            if self.install[i].0 == key {
                assert(self.install_view()[i as int].0 == platform@);
                return Some(&self.install[i].1);
            }
            i = i + 1;
        }
        None
    }

    /// Sets the install path of `platform`, replacing an earlier one.
    pub fn insert_platform_install_path(&mut self, platform: &str, path: DMPath)
        requires
            old(self).wf(),
        ensures
            final(self).wf(),
            final(self).kind == old(self).kind,
            final(self).path == old(self).path,
            final(self).manual == old(self).manual,
            final(self).encrypt == old(self).encrypt,
            final(self).encrypt_recipient == old(self).encrypt_recipient,
            final(self).hard_link == old(self).hard_link,
            final(self).soft_link == old(self).soft_link,
            final(self).compress == old(self).compress,
            exists|i: int| 0 <= i < final(self).install_view().len()
                && (#[trigger] final(self).install_view()[i]) == (platform@, path),
            forall|q: Seq<char>| q != platform@ ==> (#[trigger] has_platform(final(self).install_view(), q)
                <==> has_platform(old(self).install_view(), q)),
    {
        let key = String::from_str(platform);
        let ghost iv = self.install_view();
        let n = self.install.len();
        let mut i: usize = 0;
        while i < n
            invariant
                n == self.install@.len(),
                iv == self.install_view(),
                *self == *old(self),
                old(self).wf(),
                key@ == platform@,
                0 <= i <= n,
                forall|j: int| 0 <= j < i ==> (#[trigger] iv[j]).0 != platform@,
            decreases n - i,
        {
            if self.install[i].0 == key {
                assert(iv[i as int].0 == platform@);
                let ghost pth = path;
                self.install.set(i, (key, path));
                proof {
                    let nv = self.install_view();
                    assert(nv =~= iv.update(i as int, (platform@, pth)));
                    assert(nv[i as int] == (platform@, pth));
                    assert forall|q: Seq<char>| q != platform@ implies (#[trigger] has_platform(nv, q)
                        <==> has_platform(iv, q)) by {
                        if exists|a: int| 0 <= a < nv.len() && (#[trigger] nv[a]).0 == q {
                            let a = choose|a: int| 0 <= a < nv.len() && (#[trigger] nv[a]).0 == q;
                            assert(iv[a].0 == q);
                        }
                        if exists|b: int| 0 <= b < iv.len() && (#[trigger] iv[b]).0 == q {
                            let b = choose|b: int| 0 <= b < iv.len() && (#[trigger] iv[b]).0 == q;
                            assert(nv[b].0 == q);
                        }
                    }
                    assert forall|a: int, b: int|
                        0 <= a < self.install@.len() && 0 <= b < self.install@.len() && a != b
                        implies #[trigger] self.install@[a].0@ != #[trigger] self.install@[b].0@ by {
                        assert(self.install@[a].0@ == nv[a].0 && self.install@[b].0@ == nv[b].0);
                        assert(old(self).install@[a].0@ == iv[a].0 && old(self).install@[b].0@ == iv[b].0);
                        assert(nv[a].0 == iv[a].0 && nv[b].0 == iv[b].0);
                        assert(old(self).install@[a].0@ != old(self).install@[b].0@);
                    }
                }
                return;
            }
            i = i + 1;
        }
        let ghost pth = path;
        self.install.push((key, path));
        proof {
            let nv = self.install_view();
            assert(nv =~= iv.push((platform@, pth)));
            assert(nv[n as int] == (platform@, pth));
            assert forall|q: Seq<char>| q != platform@ implies (#[trigger] has_platform(nv, q)
                <==> has_platform(iv, q)) by {
                if exists|a: int| 0 <= a < nv.len() && (#[trigger] nv[a]).0 == q {
                    let a = choose|a: int| 0 <= a < nv.len() && (#[trigger] nv[a]).0 == q;
                    assert(a < n);
                    assert(iv[a].0 == q);
                }
                if exists|b: int| 0 <= b < iv.len() && (#[trigger] iv[b]).0 == q {
                    let b = choose|b: int| 0 <= b < iv.len() && (#[trigger] iv[b]).0 == q;
                    assert(nv[b].0 == q);
                }
            }
            assert forall|a: int, b: int|
                0 <= a < self.install@.len() && 0 <= b < self.install@.len() && a != b
                implies #[trigger] self.install@[a].0@ != #[trigger] self.install@[b].0@ by {
                assert(self.install@[a].0@ == nv[a].0 && self.install@[b].0@ == nv[b].0);
                if a < n {
                    assert(nv[a] == iv[a]);
                }
                if b < n {
                    assert(nv[b] == iv[b]);
                }
            }
        }
    }

    /// The (platform, install path) pairs of this entry.
    pub fn install_paths(&self) -> (r: &Vec<(String, DMPath)>)
        ensures
            r@.map_values(|p: (String, DMPath)| (p.0@, p.1)) == self.install_view(),
    {
        &self.install
    }
}

/// Message and kind of a refused entry configuration.
#[derive(Debug, Clone)]
pub struct CfgError {
    kind: CfgErrorKind,
    message: String,
}

impl CfgError {
    pub fn new(kind: CfgErrorKind, message: String) -> (r: CfgError)
        ensures
            r.kind() == kind,
            r.message_view() == message@,
    {
        CfgError { kind, message }
    }

    pub closed spec fn kind(&self) -> CfgErrorKind {
        self.kind
    }

    pub closed spec fn message_view(&self) -> Seq<char> {
        self.message@
    }

    /// What went wrong.
    pub fn get_kind(&self) -> (r: CfgErrorKind)
        ensures
            r == self.kind(),
    {
        self.kind
    }

    /// The human-readable message.
    pub fn message(&self) -> (r: &String)
        ensures
            r@ == self.message_view(),
    {
        &self.message
    }
}

/// Validates an entry's flags: encryption excludes both link kinds, the two
/// link kinds exclude each other, and encryption needs a recipient.
pub fn check_configuration(config: &TomlItemEntry) -> (r: Option<CfgError>)
    ensures
        match config_conflict(*config) {
            Some(k) => r matches Some(e) && e.kind() == k,
            None => r is None,
        },
{
    if config.encrypt {
        if config.hard_link {
            return Some(CfgError::new(CfgErrorKind::EncryptWithHardLink,
                String::from_str("Could not encrypt with hard-link")));
        }
        if config.soft_link {
            return Some(CfgError::new(CfgErrorKind::EncryptWithSoftLink,
                String::from_str("Could not encrypt with soft-link")));
        }
    }
    if config.hard_link && config.soft_link {
        return Some(CfgError::new(CfgErrorKind::HardAndSoftLink,
            String::from_str("Could not use hard link and soft link at same time")));
    }
    if config.encrypt && config.encrypt_recipient.is_none() {
        return Some(CfgError::new(CfgErrorKind::MissingRecipient,
            String::from_str("Could not encrypt without a recipient")));
    }
    None
}

/// The mode of a valid entry, or the conflict that makes it invalid.
pub fn materialization_mode(config: &TomlItemEntry) -> (r: Result<Mode, CfgErrorKind>)
    ensures
        match config_conflict(*config) {
            Some(k) => r == Err::<Mode, CfgErrorKind>(k),
            None => r == Ok::<Mode, CfgErrorKind>(mode_of(*config)),
        },
{
    match check_configuration(config) {
        Some(e) => Err(e.get_kind()),
        None => {
            if config.hard_link {
                Ok(Mode::HardLink)
            } else if config.soft_link {
                Ok(Mode::SoftLink)
            } else if config.compress && config.encrypt {
                Ok(Mode::CompressedEncryptedCopy)
            } else if config.compress {
                Ok(Mode::CompressedCopy)
            } else if config.encrypt {
                Ok(Mode::EncryptedCopy)
            } else {
                Ok(Mode::Copy)
            }
        }
    }
}

} // verus!
