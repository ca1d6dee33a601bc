//! JSON-RPC pieces shared by the host and every plugin.
use vstd::prelude::*;

pub mod error_codes;

verus! {

/// A JSON-RPC request id.
#[derive(Debug, Clone, PartialEq, Eq, Hash)]
pub enum Id {
    Number(i64),
    String(String),
}

/// The version string every message carries.
pub open spec fn jsonrpc_version() -> Seq<char> {
    "2.0"@
}

pub fn jsonrpc_version_text() -> (r: String)
    ensures
        r@ == jsonrpc_version(),
{
    "2.0".to_owned()
}

/// An input source the host can list.
#[derive(Debug, Clone, PartialEq, Eq)]
pub struct AudioSource {
    pub name: String,
    pub description: String,
}

} // verus!
