//! The ways in which work on one file can fail.

use vstd::prelude::*;

verus! {

/// Why the work on one file stopped. Every failure is confined to the file
/// that it belongs to, except [`Error::RollbackFailed`].
#[derive(Clone, Copy, Debug, PartialEq, Eq, Structural)]
pub enum Error {
    /// A column has a physical type for which there is no typed column.
    UnsupportedType,
    /// The codec could not read the file, or what it delivered does not fit
    /// the counts that the file records.
    DecodeFailed,
    /// The safety copy of the original file could not be made.
    BackupFailed,
    /// The codec or the file system rejected the rewritten file.
    WriteFailed,
    /// The original file could not be restored from its safety copy.
    RollbackFailed,
}

impl Error {
    /// Whether the batch has to stop after this failure: only a failed
    /// rollback leaves a file whose content is no longer known to be whole.
    pub open spec fn spec_halts_batch(self) -> bool {
        self == Error::RollbackFailed
    }

    /// Whether the batch has to stop after this failure.
    #[verifier::when_used_as_spec(spec_halts_batch)]
    pub fn halts_batch(self) -> (halts: bool)
        ensures
            halts == self.spec_halts_batch(),
    {
        match self {
            Error::RollbackFailed => true,
            _ => false,
        }
    }

    /// The name under which the failure is reported.
    pub fn name(self) -> (name: &'static str)
        ensures
            name@ == self.spec_name(),
    {
        match self {
            Error::UnsupportedType => "UnsupportedType",
            Error::DecodeFailed => "DecodeFailed",
            Error::BackupFailed => "BackupFailed",
            Error::WriteFailed => "WriteFailed",
            Error::RollbackFailed => "RollbackFailed",
        }
    }

    /// The name under which the failure is reported.
    pub open spec fn spec_name(self) -> Seq<char> {
        match self {
            Error::UnsupportedType => "UnsupportedType"@,
            Error::DecodeFailed => "DecodeFailed"@,
            Error::BackupFailed => "BackupFailed"@,
            Error::WriteFailed => "WriteFailed"@,
            Error::RollbackFailed => "RollbackFailed"@,
        }
    }
}

} // verus!
