//! Client-side core for a publish/subscribe broker protocol.
//!
//! The crate manages the resource-owning layer that sits on top of a native
//! broker-protocol engine: configuration assembly, client-handle lifecycle,
//! topic and partition-list management, the produce path and the consume path.
//! Native handles are modelled as ownership-tagged integer ids; every call
//! into the native engine is described by a plan or interpreted from a plain
//! status value, so the decision logic here is verified for every outcome the
//! engine can produce.

use vstd::prelude::*;

pub mod config;
pub mod consumer;
pub mod message;
pub mod ops;
pub mod producer;

verus! {

/// Translates a native status code into an optional failure description.
///
/// Zero is the canonical "no error" sentinel; any other code is a failure and
/// carries the description that the native engine resolved for it.  Every
/// native-call site routes its status through this one function.
pub fn get_error_str(code: i32, description: String) -> (r: Option<String>)
    ensures
        code == 0 <==> r is None,
        code != 0 ==> r == Some(description),
{
    if code == 0 {
        None
    } else {
        Some(description)
    }
}

} // verus!
