//! Which container-runtime endpoints to try, in order: a rootless socket
//! when the session has one, then the system-wide socket, then the local
//! defaults.  The caller dials each in turn and keeps the first endpoint
//! that answers a liveness probe.

use vstd::prelude::*;
use vstd::string::StringExecFns;

verus! {

/// One way to reach a container runtime.
pub enum RuntimeEndpoint {
    /// A Unix socket, as a `unix://` address.
    Socket(String),
    /// Whatever the local environment configures by default.
    LocalDefaults,
}

/// The endpoints to try, in order, given the session's runtime directory
/// if it has one.
pub fn runtime_candidates(xdg_runtime_dir: &Option<String>) -> (r: Vec<RuntimeEndpoint>)
    ensures
        match xdg_runtime_dir {
            Some(dir) => {
                &&& r@.len() == 3
                &&& (r@[0] matches RuntimeEndpoint::Socket(s) && s@ == "unix://"@ + dir@
                    + "/podman/podman.sock"@)
                &&& (r@[1] matches RuntimeEndpoint::Socket(s) && s@
                    == "unix:///run/podman/podman.sock"@)
                &&& r@[2] is LocalDefaults
            },
            None => {
                &&& r@.len() == 2
                &&& (r@[0] matches RuntimeEndpoint::Socket(s) && s@
                    == "unix:///run/podman/podman.sock"@)
                &&& r@[1] is LocalDefaults
            },
        },
{
    let mut out: Vec<RuntimeEndpoint> = Vec::new();
    match xdg_runtime_dir {
        Some(dir) => {
            let mut rootless = String::from_str("unix://");
            rootless.append(dir.as_str());
            rootless.append("/podman/podman.sock");
            out.push(RuntimeEndpoint::Socket(rootless));
        },
        None => {},
    }
    out.push(RuntimeEndpoint::Socket(String::from_str("unix:///run/podman/podman.sock")));
    out.push(RuntimeEndpoint::LocalDefaults);
    out
}

} // verus!
