use vstd::prelude::*;

verus! {

/// Why an entry's flags cannot be used together.
#[derive(Debug, Clone, Copy, PartialEq, Eq, Structural)]
pub enum CfgErrorKind {
    /// Encryption requested together with a hard link.
    EncryptWithHardLink,
    /// Encryption requested together with a soft link.
    EncryptWithSoftLink,
    /// Hard link and soft link requested at the same time.
    HardAndSoftLink,
    /// Encryption requested without a recipient identity.
    MissingRecipient,
}

/// Why a profile operation was refused.
#[derive(Debug, Clone, Copy, PartialEq, Eq, Structural)]
pub enum ProfileErrorKind {
    /// A profile of that name already exists.
    DuplicateCreate,
    /// No profile of that name exists.
    NotExists,
    /// The operation is not allowed on that profile.
    IlleagalOperation,
}

/// Why a group operation was refused.
#[derive(Debug, Clone, Copy, PartialEq, Eq, Structural)]
pub enum GroupErrorKind {
    /// A group of that name already exists.
    DuplicateCreate,
    /// No group of that name exists.
    NotExists,
}

/// Why an install path could not be resolved.
#[derive(Debug, Clone, Copy, PartialEq, Eq, Structural)]
pub enum EnvErrorKind {
    /// A dynamic path without any segment.
    EmptyPath,
    /// A segment without any character.
    EmptySegment,
    /// A `#name` segment that names no known directory.
    DirectoryNotFound,
    /// A `$name` segment that names no environment variable.
    VariableNotFound,
    /// A `#name` segment after the first one.
    PrefixNotFirst,
}

/// Failures of the depository engine.
#[derive(Debug, Clone, Copy, PartialEq, Eq, Structural)]
pub enum DMError {
    /// The advisory lock is already present.
    LockHeld,
    /// The entry's flags are contradictory.
    Configuration(CfgErrorKind),
    /// The entry has no install path for the running platform.
    MissingInstallPath,
    /// The path is neither a POSIX nor a drive-letter Windows absolute path.
    UnsupportedPath,
    /// The local file of a registered entry no longer exists.
    LocalFileMissing,
    /// The depository object of an entry does not exist.
    DepositoryObjectMissing,
    /// The compressor failed.
    Compression,
    /// The depository object is not a valid compressed frame.
    Decompression,
    /// A group operation was refused.
    GroupError(GroupErrorKind),
    /// An install path could not be resolved.
    EnvError(EnvErrorKind),
    /// A profile operation was refused.
    ProfileError(ProfileErrorKind),
    /// The group already holds an entry for that path.
    DuplicateFileEntry,
}

} // verus!
