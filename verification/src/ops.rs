//! The vocabulary of calls into the native broker-protocol engine.
//!
//! Lifecycle operations that must happen in a fixed order are described as a
//! sequence of these operations; the contracts of the functions that produce
//! such a plan pin the order down, so ordering properties (release before
//! destroy, never two live assignment lists) are proved rather than assumed.

use vstd::prelude::*;

verus! {

/// One call into the native engine, over ownership-tagged handle ids.
#[derive(Debug, Clone, PartialEq, Eq)]
pub enum NativeOp {
    /// Destroy a topic-partition assignment list.
    DestroyAssignment { list: u64 },
    /// Create a fresh topic-partition assignment list sized for `size` entries.
    CreateAssignment { size: i32 },
    /// Add one (topic, partition) entry to the assignment list just created.
    AddTopic { topic: String, partition: i32 },
    /// Subscribe the client to the assignment list just filled.
    SubscribeClient { client: u64 },
    /// Signal the consumer client to leave its group gracefully.
    CloseConsumer { client: u64 },
    /// Destroy the native client handle itself.
    DestroyClient { client: u64 },
    /// Destroy one per-topic native handle.
    DestroyTopic { topic: u64 },
}

/// The mathematical image of a [`NativeOp`]: topic names become character
/// sequences.
#[verifier::ext_equal]
pub enum NativeOpV {
    DestroyAssignment { list: u64 },
    CreateAssignment { size: i32 },
    AddTopic { topic: Seq<char>, partition: i32 },
    SubscribeClient { client: u64 },
    CloseConsumer { client: u64 },
    DestroyClient { client: u64 },
    DestroyTopic { topic: u64 },
}

impl View for NativeOp {
    type V = NativeOpV;

    open spec fn view(&self) -> NativeOpV {
        match self {
            NativeOp::DestroyAssignment { list } => NativeOpV::DestroyAssignment { list: *list },
            NativeOp::CreateAssignment { size } => NativeOpV::CreateAssignment { size: *size },
            NativeOp::AddTopic { topic, partition } => NativeOpV::AddTopic {
                topic: topic@,
                partition: *partition,
            },
            NativeOp::SubscribeClient { client } => NativeOpV::SubscribeClient { client: *client },
            NativeOp::CloseConsumer { client } => NativeOpV::CloseConsumer { client: *client },
            NativeOp::DestroyClient { client } => NativeOpV::DestroyClient { client: *client },
            NativeOp::DestroyTopic { topic } => NativeOpV::DestroyTopic { topic: *topic },
        }
    }
}

impl DeepView for NativeOp {
    type V = NativeOpV;

    open spec fn deep_view(&self) -> NativeOpV {
        self.view()
    }
}

} // verus!
