//! The failures an operation can end in.

use vstd::prelude::*;

verus! {

/// What went wrong inside the container layer.
#[derive(Clone, Copy, Debug, PartialEq, Eq, Structural)]
pub enum ArchiveFault {
    /// Reading or writing the underlying bytes failed.
    Io,
    /// The bytes are not a well-formed archive.
    Invalid,
    /// The archive uses a feature that cannot be handled.
    Unsupported,
    /// The container layer looked for a member that is not there.
    NotFound,
    /// A member's name would land outside the destination.
    UnsafeName,
}

/// Why a backup or restore stopped.
#[derive(Clone, Copy, Debug, PartialEq, Eq, Structural)]
pub enum BackupError {
    /// An entry does not lie under the root it was listed for.
    PathError,
    /// The backup source is missing or is not a directory.
    NotADirectory,
    /// Writing or reading the container failed.
    ArchiveError(ArchiveFault),
    /// The requested member is not in the archive.
    MemberNotFound,
    /// The object could not be fetched; `not_found` tells a missing key apart.
    GetFailed { not_found: bool },
    /// The object could not be stored.
    PutFailed,
    /// The bucket could not be created.
    BucketFailed,
}

/// The one-line description of each failure.
pub open spec fn description(error: BackupError) -> Seq<char> {
    match error {
        BackupError::PathError => "entry is not under the backup root"@,
        BackupError::NotADirectory => "backup source is not a directory"@,
        BackupError::ArchiveError(ArchiveFault::Io) => "archive i/o failed"@,
        BackupError::ArchiveError(ArchiveFault::Invalid) => "invalid archive"@,
        BackupError::ArchiveError(ArchiveFault::Unsupported) => "unsupported archive"@,
        BackupError::ArchiveError(ArchiveFault::NotFound) => "file not found in archive"@,
        BackupError::ArchiveError(ArchiveFault::UnsafeName) => "archive member has an unsafe name"@,
        BackupError::MemberNotFound => "member not found in archive"@,
        BackupError::GetFailed { not_found: true } => "object not found"@,
        BackupError::GetFailed { not_found: false } => "object could not be fetched"@,
        BackupError::PutFailed => "object could not be stored"@,
        BackupError::BucketFailed => "bucket could not be created"@,
    }
}

impl BackupError {
    /// A one-line description for the user.
    pub fn describe(&self) -> (text: &'static str)
        ensures
            text@ == description(*self),
    {
        match self {
            BackupError::PathError => "entry is not under the backup root",
            BackupError::NotADirectory => "backup source is not a directory",
            BackupError::ArchiveError(ArchiveFault::Io) => "archive i/o failed",
            BackupError::ArchiveError(ArchiveFault::Invalid) => "invalid archive",
            BackupError::ArchiveError(ArchiveFault::Unsupported) => "unsupported archive",
            BackupError::ArchiveError(ArchiveFault::NotFound) => "file not found in archive",
            BackupError::ArchiveError(ArchiveFault::UnsafeName) => "archive member has an unsafe name",
            BackupError::MemberNotFound => "member not found in archive",
            BackupError::GetFailed { not_found: true } => "object not found",
            BackupError::GetFailed { not_found: false } => "object could not be fetched",
            BackupError::PutFailed => "object could not be stored",
            BackupError::BucketFailed => "bucket could not be created",
        }
    }
}

} // verus!
