//! Worker naming: the validation rule for worker names, the container
//! names derived from them, the environment entries a worker container is
//! launched with, and the addresses used to reach a worker's RPC port.

use vstd::prelude::*;
use vstd::string::StrSliceExecFns;
use vstd::string::StringExecFns;
use vstd::string::StringSliceAdditionalSpecFns;

use crate::text::char_alphanumeric;
use crate::text::has_prefix;
use crate::text::all_dec_digits;
use crate::text::dec_value;
use crate::text::spec_dec;
use crate::text::parse_u16;
use crate::text::str_strip_prefix;
use crate::text::u64_to_string;

verus! {

/// The port a worker listens on when its environment names none.
pub const DEFAULT_WORKER_PORT: u16 = 50051;

/// A worker name is valid when it has 1 to 32 bytes, each character
/// alphanumeric, `-` or `_`.
pub open spec fn spec_valid_name(s: &str) -> bool {
    1 <= s.spec_bytes().len() as usize <= 32 && forall|i: int|
        0 <= i < s@.len() ==> char_alphanumeric(#[trigger] s@[i]) || s@[i] == '-' || s@[i] == '_'
}

/// Decides the worker-name rule: 1 to 32 bytes, alphanumeric plus `-`/`_`.
pub fn is_valid_apprentice_name(name: &str) -> (r: bool)
    ensures
        r == spec_valid_name(name),
{
    let bytes = name.len();
    if bytes == 0 || bytes > 32 {
        return false;
    }
    let n = name.unicode_len();
    let mut i: usize = 0;
    while i < n
        invariant
            0 <= i <= n,
            n == name@.len(),
            forall|j: int|
                0 <= j < i ==> char_alphanumeric(#[trigger] name@[j]) || name@[j] == '-'
                    || name@[j] == '_',
        decreases n - i,
    {
        let c = name.get_char(i);
        if !(c.is_alphanumeric() || c == '-' || c == '_') {
            return false;
        }
        i = i + 1;
    }
    true
}

/// The container name a worker of the given name runs under.
pub fn container_name_for(name: &str) -> (r: String)
    ensures
        r@ == "apprentice-"@ + name@,
{
    let mut s = String::from_str("apprentice-");
    s.append(name);
    s
}

/// Recovers a worker name from the `/`-prefixed container name the runtime
/// reports, if the container belongs to this orchestrator.
pub fn apprentice_name_of(container_name: &str) -> (r: Option<String>)
    ensures
        match r {
            Some(t) => has_prefix(container_name@, "/apprentice-"@) && t@ == container_name@.skip(
                "/apprentice-"@.len() as int,
            ),
            None => !has_prefix(container_name@, "/apprentice-"@),
        },
{
    str_strip_prefix(container_name, "/apprentice-")
}

/// One `KEY=value` environment entry.
pub fn env_entry(key: &str, value: &str) -> (r: String)
    ensures
        r@ == key@ + "="@ + value@,
{
    let mut s = String::from_str(key);
    s.append("=");
    s.append(value);
    s
}

/// The `GRPC_PORT=<port>` entry a worker container is launched with.
pub fn port_env_entry(port: u16) -> (r: String)
    ensures
        r@ == "GRPC_PORT="@ + spec_dec(port as nat),
{
    let mut s = String::from_str("GRPC_PORT=");
    let d = u64_to_string(port as u64);
    s.append(d.as_str());
    s
}

/// The port named by a `GRPC_PORT=` value, or the default where the
/// value is not a port number.  A value reads as `str::parse::<u16>`
/// reads it: an optional leading `+`, then digits.
pub open spec fn spec_port_of_value(v: Seq<char>) -> u16 {
    let b = crate::text::u16_digits(v);
    if b.len() > 0 && all_dec_digits(b) && dec_value(b) <= u16::MAX {
        dec_value(b) as u16
    } else {
        DEFAULT_WORKER_PORT
    }
}

/// The port the first `GRPC_PORT=` entry of `env` names, or the default
/// where there is no such entry or its value is not a port number.
pub open spec fn spec_port_from_env(env: Seq<String>) -> u16
    decreases env.len(),
{
    if env.len() == 0 {
        DEFAULT_WORKER_PORT
    } else if has_prefix(env.first()@, "GRPC_PORT="@) {
        spec_port_of_value(env.first()@.skip("GRPC_PORT="@.len() as int))
    } else {
        spec_port_from_env(env.drop_first())
    }
}

/// Reads the configured port out of a container's environment: the first
/// `GRPC_PORT=` entry decides; a missing or malformed entry yields the
/// default.
pub fn port_from_env(env: &Vec<String>) -> (r: u16)
    ensures
        r == spec_port_from_env(env@),
{
    let n = env.len();
    assert(env@.skip(0) =~= env@);
    let mut i: usize = 0;
    while i < n
        invariant
            0 <= i <= n,
            n == env@.len(),
            spec_port_from_env(env@) == spec_port_from_env(env@.skip(i as int)),
        decreases n - i,
    {
        proof {
            assert(env@.skip(i as int).drop_first() =~= env@.skip(i + 1));
            assert(env@.skip(i as int).first() == env@[i as int]);
        }
        match str_strip_prefix(env[i].as_str(), "GRPC_PORT=") {
            Some(value) => {
                return match parse_u16(value.as_str()) {
                    Some(p) => p,
                    None => DEFAULT_WORKER_PORT,
                };
            },
            None => {},
        }
        i = i + 1;
    }
    assert(env@.skip(n as int) =~= Seq::<String>::empty());
    DEFAULT_WORKER_PORT
}

/// The address the orchestrator dials to reach a worker's RPC port.
pub fn grpc_addr(port: u16) -> (r: String)
    ensures
        r@ == "http://127.0.0.1:"@ + spec_dec(port as nat),
{
    let mut s = String::from_str("http://127.0.0.1:");
    let d = u64_to_string(port as u64);
    s.append(d.as_str());
    s
}

/// The address a worker binds its RPC server to.
pub fn listen_addr(port: u16) -> (r: String)
    ensures
        r@ == "0.0.0.0:"@ + spec_dec(port as nat),
{
    let mut s = String::from_str("0.0.0.0:");
    let d = u64_to_string(port as u64);
    s.append(d.as_str());
    s
}

} // verus!
