use vstd::prelude::*;

verus! {

/// The failure taxonomy of the launcher: every fatal condition of a run is
/// classified as one of these kinds, and every error aborts the run.
#[derive(Clone, Copy, Debug, PartialEq, Eq, Structural)]
pub enum LaunchError {
    /// Temporary-directory or device-node creation failed.
    ResourceError,
    /// A file copy or permission change failed.
    IoError,
    /// Root change or namespace isolation was denied.
    PermissionError,
    /// A malformed auth header or manifest body.
    ProtocolError,
    /// The token endpoint failed or returned no token.
    AuthError,
    /// A transport-level failure on a registry call.
    NetworkError,
    /// Decompression or archive extraction failed.
    UnpackError,
    /// The target command is missing or not executable.
    SpawnError,
}

} // verus!
