//! The error taxonomy of the orchestrator: validation and registry
//! failures, container-runtime failures, transport failures and upstream
//! (model-client) failures.  Command-parse failures are deliberately not
//! here: an unparseable model reply degrades to plain text instead.

use vstd::prelude::*;
use vstd::string::StringExecFns;

verus! {

/// The variety of a [`SorcererError`], without its detail text.
#[derive(PartialEq, Eq, Structural, Clone, Copy, Debug)]
pub enum ErrorKind {
    InvalidName,
    AlreadyExists,
    NotFound,
    NotConnected,
    RuntimeUnavailable,
    ContainerCreateFailed,
    ContainerStopFailed,
    ContainerRemoveFailed,
    RpcUnreachable,
    RpcCallFailed,
    UpstreamCallFailed,
}

/// An error of the orchestrator or of a worker call, carrying the worker
/// name or the downstream detail the message is built from.
#[derive(Debug)]
pub enum SorcererError {
    InvalidName,
    AlreadyExists(String),
    NotFound(String),
    NotConnected(String),
    RuntimeUnavailable(String),
    ContainerCreateFailed(String),
    ContainerStopFailed(String),
    ContainerRemoveFailed(String),
    RpcUnreachable(String),
    RpcCallFailed(String),
    UpstreamCallFailed(String),
}

impl SorcererError {
    /// The variety of this error.
    pub open spec fn kind(self) -> ErrorKind {
        match self {
            SorcererError::InvalidName => ErrorKind::InvalidName,
            SorcererError::AlreadyExists(_) => ErrorKind::AlreadyExists,
            SorcererError::NotFound(_) => ErrorKind::NotFound,
            SorcererError::NotConnected(_) => ErrorKind::NotConnected,
            SorcererError::RuntimeUnavailable(_) => ErrorKind::RuntimeUnavailable,
            SorcererError::ContainerCreateFailed(_) => ErrorKind::ContainerCreateFailed,
            SorcererError::ContainerStopFailed(_) => ErrorKind::ContainerStopFailed,
            SorcererError::ContainerRemoveFailed(_) => ErrorKind::ContainerRemoveFailed,
            SorcererError::RpcUnreachable(_) => ErrorKind::RpcUnreachable,
            SorcererError::RpcCallFailed(_) => ErrorKind::RpcCallFailed,
            SorcererError::UpstreamCallFailed(_) => ErrorKind::UpstreamCallFailed,
        }
    }

    /// The short human-readable message for this error.
    pub fn message(&self) -> (r: String)
        ensures
            r@ == match *self {
                SorcererError::InvalidName => {
                    "Invalid apprentice name. Names must be 1-32 characters, alphanumeric with hyphens/underscores only"@
                },
                SorcererError::AlreadyExists(ref n) => "Apprentice "@ + n@ + " already exists"@,
                SorcererError::NotFound(ref n) => "Apprentice "@ + n@ + " not found"@,
                SorcererError::NotConnected(ref n) => "Apprentice "@ + n@ + " is not connected"@,
                SorcererError::RuntimeUnavailable(ref d) => "Cannot reach container runtime: "@
                    + d@,
                SorcererError::ContainerCreateFailed(ref d) => "Failed to create container: "@
                    + d@,
                SorcererError::ContainerStopFailed(ref d) => "Failed to stop container: "@ + d@,
                SorcererError::ContainerRemoveFailed(ref d) => "Failed to remove container: "@
                    + d@,
                SorcererError::RpcUnreachable(ref d) => "Failed to connect to apprentice: "@ + d@,
                SorcererError::RpcCallFailed(ref d) => "RPC call failed: "@ + d@,
                SorcererError::UpstreamCallFailed(ref d) => "Tell failed: "@ + d@,
            },
    {
        match self {
            SorcererError::InvalidName => String::from_str(
                "Invalid apprentice name. Names must be 1-32 characters, alphanumeric with hyphens/underscores only",
            ),
            SorcererError::AlreadyExists(n) => {
                let mut s = String::from_str("Apprentice ");
                s.append(n.as_str());
                s.append(" already exists");
                s
            },
            SorcererError::NotFound(n) => {
                let mut s = String::from_str("Apprentice ");
                s.append(n.as_str());
                s.append(" not found");
                s
            },
            SorcererError::NotConnected(n) => {
                let mut s = String::from_str("Apprentice ");
                s.append(n.as_str());
                s.append(" is not connected");
                s
            },
            SorcererError::RuntimeUnavailable(d) => {
                let mut s = String::from_str("Cannot reach container runtime: ");
                s.append(d.as_str());
                s
            },
            SorcererError::ContainerCreateFailed(d) => {
                let mut s = String::from_str("Failed to create container: ");
                s.append(d.as_str());
                s
            },
            SorcererError::ContainerStopFailed(d) => {
                let mut s = String::from_str("Failed to stop container: ");
                s.append(d.as_str());
                s
            },
            SorcererError::ContainerRemoveFailed(d) => {
                let mut s = String::from_str("Failed to remove container: ");
                s.append(d.as_str());
                s
            },
            SorcererError::RpcUnreachable(d) => {
                let mut s = String::from_str("Failed to connect to apprentice: ");
                s.append(d.as_str());
                s
            },
            SorcererError::RpcCallFailed(d) => {
                let mut s = String::from_str("RPC call failed: ");
                s.append(d.as_str());
                s
            },
            SorcererError::UpstreamCallFailed(d) => {
                let mut s = String::from_str("Tell failed: ");
                s.append(d.as_str());
                s
            },
        }
    }
}

} // verus!
