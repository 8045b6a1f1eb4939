//! JSON-RPC 2.0 error codes, standard and of this server.

use vstd::prelude::*;

verus! {

pub const PARSE_ERROR: i32 = -32700;

pub const INVALID_REQUEST: i32 = -32600;

pub const METHOD_NOT_FOUND: i32 = -32601;

pub const INVALID_PARAMS: i32 = -32602;

pub const INTERNAL_ERROR: i32 = -32603;

/// The session named in a request does not exist.
pub const SESSION_NOT_FOUND: i32 = -32001;

/// The search itself failed.
pub const SEARCH_ERROR: i32 = -32000;

} // verus!
