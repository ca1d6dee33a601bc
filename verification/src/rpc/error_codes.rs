//! The error codes of the host protocol: the JSON-RPC ones and the host's own.
use vstd::prelude::*;

verus! {

pub const PARSE_ERROR: i32 = -32700i32;
pub const INVALID_REQUEST: i32 = -32600i32;
pub const METHOD_NOT_FOUND: i32 = -32601i32;
pub const INVALID_PARAMS: i32 = -32602i32;
pub const INTERNAL_ERROR: i32 = -32603i32;
pub const CAPABILITY_DENIED: i32 = -32001i32;
pub const TOPIC_UNDECLARED: i32 = -32002i32;
pub const RATE_LIMITED: i32 = -32003i32;
pub const HANDSHAKE_FAILED: i32 = -32004i32;

} // verus!
