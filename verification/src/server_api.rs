//! Data shapes and computations of the REST surface: request and response
//! records, the advertised binding table, and the cache key derivation.
//! The HTTP plumbing itself runs outside.

use vstd::prelude::*;
use vstd::string::StringExecFns;
use vstd::utf8::encode_utf8;
use crate::pow::{hex_encode, hex_of, sha256_digest, sha256_of};

verus! {

/// Execution stages of the fault-handling pipeline.
#[derive(Debug, Clone, Copy, PartialEq, Eq, Structural)]
pub enum FaultStage {
    Panic,
    Exception,
    Warning,
    Silent,
}

/// Capability advertisement of one language binding.
#[derive(Debug, Clone)]
pub struct BindingMetadata {
    pub binding: String,
    pub capabilities: Vec<String>,
    pub semverx: String,
    pub stage: u8,
    pub p2p_enabled: bool,
}

/// A cache bust request from the API surface.
#[derive(Debug, Clone)]
pub struct BustRequest {
    pub target: String,
    pub strategy: Option<String>,
    pub binding: Option<String>,
    pub fault_tolerance: Option<u8>,
}

/// The answer to a bust request.
#[derive(Debug, Clone)]
pub struct BustResponse {
    pub status: String,
    pub cache_key: String,
    pub delegate: String,
    pub fault_stage: u8,
    pub execution_time_ms: u64,
}

/// Status of one registered binding.
#[derive(Debug, Clone)]
pub struct BindingStatus {
    pub status: String,
    pub version: Option<String>,
}

/// One logged fault observation.
#[derive(Debug, Clone)]
pub struct FaultEvent {
    pub timestamp: String,
    pub binding: String,
    pub fault_stage: u8,
    pub message: String,
}

/// A daemon status snapshot for the API surface.
#[derive(Debug, Clone)]
pub struct StatusResponse {
    pub daemon_pid: u32,
    pub bindings: Vec<(String, BindingStatus)>,
    pub cache_size: String,
    pub fault_history: Vec<FaultEvent>,
}

/// The stock binding table advertised by the server.
pub fn default_bindings() -> (r: Vec<BindingMetadata>)
    ensures
        r@.len() == 2,
        r@[0].binding@ == "pybustcall"@,
        r@[0].stage == 3,
        r@[0].p2p_enabled,
        r@[1].binding@ == "napi-bustcall"@,
        r@[1].stage == 1,
        r@[1].p2p_enabled,
{
    let mut py_caps: Vec<String> = Vec::new();
    py_caps.push(String::from_str("daemon"));
    py_caps.push(String::from_str("cache.bust"));
    py_caps.push(String::from_str("watch.fs"));
    let mut napi_caps: Vec<String> = Vec::new();
    napi_caps.push(String::from_str("daemon"));
    napi_caps.push(String::from_str("cache.bust"));
    let mut bindings: Vec<BindingMetadata> = Vec::new();
    bindings.push(
        BindingMetadata {
            binding: String::from_str("pybustcall"),
            capabilities: py_caps,
            semverx: String::from_str("v0.1.3"),
            stage: 3,
            p2p_enabled: true,
        },
    );
    bindings.push(
        BindingMetadata {
            binding: String::from_str("napi-bustcall"),
            capabilities: napi_caps,
            semverx: String::from_str("v0.1.3"),
            stage: 1,
            p2p_enabled: true,
        },
    );
    bindings
}

/// The cache key of a bust target: the SHA-256 digest of the target name,
/// hex encoded, behind a scheme prefix.
pub fn compute_cache_key(target: &str) -> (r: String)
    ensures
        r@ == "sha256:"@ + hex_of(sha256_of(encode_utf8(target@))),
{
    let bytes = target.as_bytes();
    let mut data: Vec<u8> = Vec::new();
    let mut i: usize = 0;
    while i < bytes.len()
        invariant
            i <= bytes@.len(),
            data@ =~= bytes@.subrange(0, i as int),
        decreases bytes@.len() - i,
    {
        data.push(bytes[i]);
        i += 1;
    }
    proof {
        assert(data@ =~= encode_utf8(target@));
    }
    let digest = sha256_digest(&data);
    let digest_hex = hex_encode(&digest);
    String::from_str("sha256:").concat(digest_hex.as_str())
}

/// Fault events at or below this stage are logged.
pub fn should_log_fault(fault_stage: u8) -> (r: bool)
    ensures
        r == (fault_stage <= 6),
{
    fault_stage <= 6
}

/// The binding a bust request is routed to: the requested one, or the
/// default python binding.
pub fn select_binding(requested: &Option<String>) -> (r: String)
    ensures
        requested matches Some(b) ==> r@ == b@,
        requested is None ==> r@ == "pybustcall"@,
{
    match requested {
        Some(b) => b.clone(),
        None => String::from_str("pybustcall"),
    }
}

} // verus!
