//! Fatal error conditions that unwind a whole release run.

use vstd::prelude::*;

verus! {

/// A condition that aborts the entire run with a reserved high exit code,
/// as opposed to the pipeline's phase-specific status codes.
#[derive(Clone, Copy, Debug, PartialEq, Eq, Structural)]
pub enum FatalError {
    /// An absolute version request was strictly less than the current version.
    UnsupportedVersionReq,
    /// A pre-release track bump would move backwards (e.g. `alpha` after `beta`).
    UnsupportedPrereleaseVersionScheme,
    /// Under the `Error` policy, at least one dependent's requirement does not
    /// accept the new version.
    DependencyVersionConflict,
    /// The registry index did not show the published version within the timeout.
    PublishTimeout,
    /// The version-control tool is not usable.
    GitUnavailable,
    /// Fetching from the upstream remote failed.
    FetchFailed,
    /// Rewriting a manifest on disk failed.
    ManifestEditFailed,
    /// Refreshing the dependency lock state failed.
    LockUpdateFailed,
    /// Applying configured text substitutions failed.
    ReplacementFailed,
    /// A build-metadata string is not a valid dot-separated identifier list.
    InvalidMetadata,
}

impl FatalError {
    /// A short stable name for the condition, for log output.
    pub fn describe(&self) -> (r: &'static str)
        ensures
            r@.len() > 0,
    {
        proof {
            reveal_strlit("unsupported version request");
            reveal_strlit("unsupported pre-release version scheme");
            reveal_strlit("dependency version conflict");
            reveal_strlit("timed out waiting for the registry index");
            reveal_strlit("version-control tool unavailable");
            reveal_strlit("fetch from remote failed");
            reveal_strlit("manifest edit failed");
            reveal_strlit("lock update failed");
            reveal_strlit("replacement failed");
            reveal_strlit("invalid build metadata");
        }
        match self {
            FatalError::UnsupportedVersionReq => "unsupported version request",
            FatalError::UnsupportedPrereleaseVersionScheme => "unsupported pre-release version scheme",
            FatalError::DependencyVersionConflict => "dependency version conflict",
            FatalError::PublishTimeout => "timed out waiting for the registry index",
            FatalError::GitUnavailable => "version-control tool unavailable",
            FatalError::FetchFailed => "fetch from remote failed",
            FatalError::ManifestEditFailed => "manifest edit failed",
            FatalError::LockUpdateFailed => "lock update failed",
            FatalError::ReplacementFailed => "replacement failed",
            FatalError::InvalidMetadata => "invalid build metadata",
        }
    }
}

} // verus!
