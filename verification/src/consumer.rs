//! The Consumer role: a client handle that holds at most one partition
//! assignment list, replaced wholesale on each subscription and released
//! before the client handle is ever destroyed.

use vstd::prelude::*;
use crate::message::Messages;
use crate::ops::{NativeOp, NativeOpV};

verus! {

/// The partition selector meaning "any partition".
pub const PARTITION_ANY: i32 = -1;

/// One (topic, partition) entry of an assignment list.
#[derive(Debug, Clone, PartialEq, Eq)]
pub struct TopicPartition {
    /// Name of the subscribed topic.
    pub topic: String,
    /// Partition selector; [`PARTITION_ANY`] leaves the choice to the broker.
    pub partition: i32,
}

impl View for TopicPartition {
    type V = (Seq<char>, i32);

    open spec fn view(&self) -> (Seq<char>, i32) {
        (self.topic@, self.partition)
    }
}

impl DeepView for TopicPartition {
    type V = (Seq<char>, i32);

    open spec fn deep_view(&self) -> (Seq<char>, i32) {
        self.view()
    }
}

/// The one active assignment list a consumer may hold: the native list handle
/// together with the entries that were added to it.
#[derive(Debug, Clone, PartialEq, Eq)]
pub struct Assignment {
    /// Id of the native topic-partition list handle.
    pub list: u64,
    /// The entries the list was filled with, in order.
    pub entries: Vec<TopicPartition>,
}

/// Mathematical image of an [`Assignment`].
#[verifier::ext_equal]
pub struct AssignmentView {
    pub list: u64,
    pub entries: Seq<(Seq<char>, i32)>,
}

impl View for Assignment {
    type V = AssignmentView;

    open spec fn view(&self) -> AssignmentView {
        AssignmentView { list: self.list, entries: self.entries.deep_view() }
    }
}

/// A broker client in the Consumer role.  It owns the native client handle
/// for its lifetime and at most one assignment list at a time.
#[derive(Debug, Clone, PartialEq, Eq)]
pub struct Consumer {
    /// Id of the native client handle this consumer owns.
    pub rk: u64,
    /// The active assignment list, if any.
    pub assignment: Option<Assignment>,
}

/// Mathematical image of a [`Consumer`].
#[verifier::ext_equal]
pub struct ConsumerView {
    pub client: u64,
    pub assignment: Option<AssignmentView>,
}

impl View for Consumer {
    type V = ConsumerView;

    open spec fn view(&self) -> ConsumerView {
        ConsumerView {
            client: self.rk,
            assignment: match self.assignment {
                Some(a) => Some(a@),
                None => None,
            },
        }
    }
}

/// A failure of the Consumer role.
#[derive(Debug, Clone, PartialEq, Eq)]
pub enum ConsumerError {
    /// The graceful-leave signal failed during teardown, with the translated
    /// native description.  Teardown must still destroy the client handle.
    CloseError(String),
    /// The native subscribe call rejected the new assignment, with the
    /// translated native description.
    SubscribeError(String),
}

/// The assignment entries a subscription to `topics` installs: every topic at
/// any partition, in the order given.
pub open spec fn spec_entries(topics: Seq<Seq<char>>) -> Seq<(Seq<char>, i32)> {
    topics.map_values(|t: Seq<char>| (t, PARTITION_ANY))
}

/// The consumer state after a subscription to `topics` was committed with the
/// fresh native list handle `new_list`.
pub open spec fn spec_subscribe(
    v: ConsumerView,
    topics: Seq<Seq<char>>,
    new_list: u64,
) -> ConsumerView {
    ConsumerView {
        client: v.client,
        assignment: Some(AssignmentView { list: new_list, entries: spec_entries(topics) }),
    }
}

/// The ordered native calls a subscription must make: release the prior list
/// first, then create a list, fill it, and subscribe the client to it.
pub open spec fn spec_subscribe_plan(
    client: u64,
    prior: Option<u64>,
    topics: Seq<Seq<char>>,
) -> Seq<NativeOpV> {
    let release = match prior {
        Some(list) => seq![NativeOpV::DestroyAssignment { list }],
        None => Seq::<NativeOpV>::empty(),
    };
    release + seq![NativeOpV::CreateAssignment { size: topics.len() as i32 }]
        + topics.map_values(|t: Seq<char>| NativeOpV::AddTopic { topic: t, partition: PARTITION_ANY })
        + seq![NativeOpV::SubscribeClient { client }]
}

/// The ordered native calls teardown must make: release the assignment list
/// if one is held, signal the graceful leave, and destroy the client handle
/// last of all.  The plan does not depend on how the leave signal turns out:
/// the destroy step stands in it unconditionally.
pub open spec fn spec_teardown_plan(client: u64, prior: Option<u64>) -> Seq<NativeOpV> {
    let release = match prior {
        Some(list) => seq![NativeOpV::DestroyAssignment { list }],
        None => Seq::<NativeOpV>::empty(),
    };
    release + seq![NativeOpV::CloseConsumer { client }, NativeOpV::DestroyClient { client }]
}

/// The list handle of the active assignment, if any.
pub open spec fn spec_assignment_list(v: ConsumerView) -> Option<u64> {
    match v.assignment {
        Some(a) => Some(a.list),
        None => None,
    }
}

impl Consumer {
    /// A consumer owning the native client handle `rk`, holding no assignment
    /// yet.
    pub fn new(rk: u64) -> (r: Consumer)
        ensures
            r == (Consumer { rk, assignment: None }),
    {
        Consumer { rk, assignment: None }
    }

    /// The ordered native calls that subscribe this consumer to `topics`;
    /// the prior list, if any, is released before anything else.
    pub fn subscribe_plan(&self, topics: &Vec<String>) -> (r: Vec<NativeOp>)
        requires
            topics@.len() <= i32::MAX,
        ensures
            r.deep_view() == spec_subscribe_plan(
                self@.client,
                spec_assignment_list(self@),
                topics.deep_view(),
            ),
    {
        let mut ops: Vec<NativeOp> = Vec::new();
        match &self.assignment {
            Some(a) => ops.push(NativeOp::DestroyAssignment { list: a.list }),
            None => (),
        }
        let ghost k: int = ops@.len() as int;
        ops.push(NativeOp::CreateAssignment { size: topics.len() as i32 });
        let ghost plan = spec_subscribe_plan(
            self@.client,
            spec_assignment_list(self@),
            topics.deep_view(),
        );
        let n = topics.len();
        let mut i: usize = 0;
        while i < n
            invariant
                n == topics@.len(),
                i <= n,
                ops.deep_view().len() == k + 1 + i,
                forall|j: int| 0 <= j < k + 1 + i ==> ops.deep_view()[j] == plan[j],
                plan == spec_subscribe_plan(
                    self@.client,
                    spec_assignment_list(self@),
                    topics.deep_view(),
                ),
                k == (if self@.assignment is Some { 1int } else { 0int }),
            decreases n - i,
        {
            ops.push(NativeOp::AddTopic { topic: topics[i].clone(), partition: PARTITION_ANY });
            i = i + 1;
        }
        ops.push(NativeOp::SubscribeClient { client: self.rk });
        proof {
            assert(ops.deep_view() =~= plan);
        }
        ops
    }

    /// Commits a subscription: installs the fresh list handle `new_list`,
    /// filled with every topic at any partition, as the one active
    /// assignment, replacing whatever was held before.
    pub fn subscribe(&mut self, topics: &Vec<String>, new_list: u64)
        ensures
            final(self)@ == spec_subscribe(old(self)@, topics.deep_view(), new_list),
    {
        let mut entries: Vec<TopicPartition> = Vec::new();
        let n = topics.len();
        let mut i: usize = 0;
        while i < n
            invariant
                n == topics@.len(),
                i <= n,
                entries@.len() == i,
                forall|j: int| 0 <= j < i ==> (#[trigger] entries@[j]).topic@ == topics@[j]@
                    && entries@[j].partition == PARTITION_ANY,
            decreases n - i,
        {
            entries.push(TopicPartition { topic: topics[i].clone(), partition: PARTITION_ANY });
            i = i + 1;
        }
        proof {
            assert forall|j: int| 0 <= j < n implies entries.deep_view()[j] == spec_entries(
                topics.deep_view(),
            )[j] by {
                assert(entries.deep_view()[j] == entries@[j].deep_view());
                assert(topics.deep_view()[j] == topics@[j]@);
            }
            assert(entries.deep_view() =~= spec_entries(topics.deep_view()));
        }
        self.assignment = Some(Assignment { list: new_list, entries });
        proof {
            assert(self@ =~= spec_subscribe(old(self)@, topics.deep_view(), new_list));
        }
    }

    /// The message sequence over this consumer's client handle, one record
    /// per poll window of `poll_timeout_ms`.
    pub fn get_messages(&self, poll_timeout_ms: i32) -> (r: Result<Messages, ConsumerError>)
        ensures
            r == Ok::<Messages, ConsumerError>(Messages { rk: self.rk, poll_timeout_ms }),
    {
        Ok(Messages::new(self.rk, poll_timeout_ms))
    }

    /// Interprets the native status of the subscribe call: zero means the
    /// new assignment was accepted, anything else the translated
    /// subscription failure.  Every native status is checked; none is
    /// silently discarded.
    pub fn subscribe_result(status: i32, description: String) -> (r: Result<(), ConsumerError>)
        ensures
            status == 0 <==> r is Ok,
            status != 0 ==> r == Err::<(), ConsumerError>(
                ConsumerError::SubscribeError(description),
            ),
    {
        match crate::get_error_str(status, description) {
            Some(text) => Err(ConsumerError::SubscribeError(text)),
            None => Ok(()),
        }
    }

    /// Interprets the native status of the graceful-leave signal: zero is a
    /// clean close, anything else the translated close failure.
    pub fn close_result(status: i32, description: String) -> (r: Result<(), ConsumerError>)
        ensures
            status == 0 <==> r is Ok,
            status != 0 ==> r == Err::<(), ConsumerError>(ConsumerError::CloseError(description)),
    {
        match crate::get_error_str(status, description) {
            Some(text) => Err(ConsumerError::CloseError(text)),
            None => Ok(()),
        }
    }

    /// The ordered native calls of teardown; the assignment list, if held, is
    /// released first, and the client handle is destroyed last, whatever the
    /// graceful-leave signal returns in between.
    pub fn teardown_plan(&self) -> (r: Vec<NativeOp>)
        ensures
            r.deep_view() == spec_teardown_plan(self@.client, spec_assignment_list(self@)),
    {
        let mut ops: Vec<NativeOp> = Vec::new();
        match &self.assignment {
            Some(a) => ops.push(NativeOp::DestroyAssignment { list: a.list }),
            None => (),
        }
        ops.push(NativeOp::CloseConsumer { client: self.rk });
        ops.push(NativeOp::DestroyClient { client: self.rk });
        proof {
            assert(ops.deep_view() =~= spec_teardown_plan(
                self@.client,
                spec_assignment_list(self@),
            ));
        }
        ops
    }
}

/// Law: re-subscribing replaces the whole assignment.  After subscribing to
/// `first` and then to `second`, exactly one assignment is active; it is the
/// second list, it contains exactly the topics of `second` at any partition,
/// and the plan of the second subscription releases the first list before any
/// other native call.
pub proof fn lemma_resubscribe_replaces_assignment(
    v: ConsumerView,
    first: Seq<Seq<char>>,
    first_list: u64,
    second: Seq<Seq<char>>,
    second_list: u64,
)
    requires
        second.len() <= i32::MAX,
    ensures
        ({
            let v1 = spec_subscribe(v, first, first_list);
            let v2 = spec_subscribe(v1, second, second_list);
            let plan = spec_subscribe_plan(v1.client, spec_assignment_list(v1), second);
            &&& v2.assignment == Some(
                AssignmentView { list: second_list, entries: spec_entries(second) },
            )
            &&& spec_entries(second).len() == second.len()
            &&& forall|i: int| 0 <= i < second.len() ==> spec_entries(second)[i] == (
                second[i],
                PARTITION_ANY,
            )
            &&& plan[0] == NativeOpV::DestroyAssignment { list: first_list }
        }),
{
}

/// Law: teardown always releases the assignment before destroying the client
/// handle.  In every teardown plan the destroy step is the final operation,
/// it occurs exactly once, and when an assignment is held its release is the
/// very first operation; the plan is the same whatever the graceful-leave
/// signal later returns.
pub proof fn lemma_teardown_releases_before_destroy(client: u64, prior: Option<u64>)
    ensures
        ({
            let plan = spec_teardown_plan(client, prior);
            &&& plan.len() > 0
            &&& plan.last() == NativeOpV::DestroyClient { client }
            &&& forall|i: int|
                0 <= i < plan.len() - 1 ==> !(#[trigger] plan[i] matches NativeOpV::DestroyClient {
                    ..
                })
            &&& prior matches Some(list) ==> plan[0] == NativeOpV::DestroyAssignment { list }
        }),
{
    let plan = spec_teardown_plan(client, prior);
    assert(plan.last() == NativeOpV::DestroyClient { client });
}

} // verus!
