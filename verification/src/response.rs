//! The uniform result envelope handed to the dispatch layer: a success flag,
//! a payload, and a human-readable error string that is empty on success.

use vstd::prelude::*;

verus! {

/// Value payload of a preference read: either a text value or a flag.
pub enum ResponseValue {
    String(String),
    Bool(bool),
}

/// Uniform envelope wrapped around every operation's result. `error` is empty
/// on success; failures carry a short human-readable reason, never a raw
/// OS-specific code.
pub struct ResponseResult<T> {
    pub success: bool,
    pub result: T,
    pub error: String,
}

} // verus!
