//! The Producer role: a client handle with a name-keyed registry of native
//! topic handles, the synchronous enqueue path, and the poll/flush calls that
//! drive asynchronous delivery processing.

use vstd::prelude::*;
use crate::consumer::PARTITION_ANY;
use crate::ops::{NativeOp, NativeOpV};

verus! {

/// One registry entry: a topic name and the native topic handle created for
/// it.
#[derive(Debug, Clone, PartialEq, Eq)]
pub struct TopicEntry {
    /// The topic name the handle is keyed by.
    pub name: String,
    /// Id of the native per-topic handle.
    pub handle: u64,
}

impl View for TopicEntry {
    type V = (Seq<char>, u64);

    open spec fn view(&self) -> (Seq<char>, u64) {
        (self.name@, self.handle)
    }
}

impl DeepView for TopicEntry {
    type V = (Seq<char>, u64);

    open spec fn deep_view(&self) -> (Seq<char>, u64) {
        self.view()
    }
}

/// A broker client in the Producer role.  It owns the native client handle
/// and one native topic handle per registered topic name.
#[derive(Debug, Clone, PartialEq, Eq)]
pub struct Producer {
    /// Id of the native client handle this producer owns.
    pub rk: u64,
    /// The topic registry, keyed by name; names are unique.
    pub rkt: Vec<TopicEntry>,
}

/// A failure of the Producer role.
#[derive(Debug, Clone, PartialEq, Eq)]
pub enum ProducerError {
    /// The topic was never registered; nothing was handed to the native
    /// engine.
    UnregisteredTopic,
    /// The native engine rejected the enqueue synchronously, with the
    /// translated description.
    SendError(String),
}

/// An enqueue whose ownership passes to the native engine: the registered
/// topic handle, the partition selector, and the payload copied into a buffer
/// of its own.
#[derive(Debug, Clone, PartialEq, Eq)]
pub struct ProduceRequest {
    /// Id of the native topic handle to produce to.
    pub topic_handle: u64,
    /// Partition selector; [`PARTITION_ANY`] leaves the choice to the broker.
    pub partition: i32,
    /// The buffer handed to the native engine, which frees it once the send
    /// completes or fails; after a successful enqueue this side must not touch
    /// it again.
    pub payload: Vec<u8>,
}

/// A non-blocking drive of the native engine's event and callback processing.
#[derive(Debug, Clone, Copy, PartialEq, Eq)]
pub struct PollCall {
    /// Id of the native client handle to poll.
    pub client: u64,
    /// How long the call may block; always zero for the producer's poll.
    pub timeout_ms: i32,
}

/// A bounded wait for every enqueued message to be delivered or given up.
#[derive(Debug, Clone, Copy, PartialEq, Eq)]
pub struct FlushCall {
    /// Id of the native client handle to flush.
    pub client: u64,
    /// Upper bound, in milliseconds, on how long the wait may block.
    pub timeout_ms: i32,
}

/// True when `name` is a key of the registry.
pub open spec fn spec_has_topic(ts: Seq<(Seq<char>, u64)>, name: Seq<char>) -> bool {
    exists|i: int| 0 <= i < ts.len() && ts[i].0 == name
}

/// The handle registered under `name`, when the registry has unique keys.
pub open spec fn spec_topic_handle(ts: Seq<(Seq<char>, u64)>, name: Seq<char>) -> u64
    recommends
        spec_has_topic(ts, name),
{
    ts[choose|i: int| 0 <= i < ts.len() && ts[i].0 == name].1
}

/// Registry well-formedness: no topic name occurs twice.
pub open spec fn spec_unique_names(ts: Seq<(Seq<char>, u64)>) -> bool {
    forall|i: int, j: int| 0 <= i < j < ts.len() ==> ts[i].0 != ts[j].0
}

/// How many registry entries carry `name`; idempotent registration keeps this
/// at one.
pub open spec fn spec_count_name(ts: Seq<(Seq<char>, u64)>, name: Seq<char>) -> nat
    decreases ts.len(),
{
    if ts.len() == 0 {
        0
    } else {
        spec_count_name(ts.drop_last(), name) + if ts.last().0 == name {
            1nat
        } else {
            0nat
        }
    }
}

/// The registry after the fresh names are added with their new handles.
pub open spec fn spec_register(
    ts: Seq<(Seq<char>, u64)>,
    names: Seq<Seq<char>>,
    handles: Seq<u64>,
) -> Seq<(Seq<char>, u64)>
    recommends
        names.len() == handles.len(),
{
    ts + names.map(|i: int, n: Seq<char>| (n, handles[i]))
}

/// The ordered native calls of producer teardown: destroy every registered
/// topic handle, then destroy the client handle, last of all.
pub open spec fn spec_producer_teardown(v: ProducerView) -> Seq<NativeOpV> {
    v.topics.map_values(|p: (Seq<char>, u64)| NativeOpV::DestroyTopic { topic: p.1 }) + seq![
        NativeOpV::DestroyClient { client: v.client },
    ]
}

/// Whether a flush may return: every enqueued message has been resolved (the
/// outbound queue is empty) or the allotted time has elapsed.
pub open spec fn spec_flush_done(outq_len: usize, elapsed_ms: i32, timeout_ms: i32) -> bool {
    outq_len == 0 || elapsed_ms >= timeout_ms
}

/// Mathematical image of a [`Producer`].
#[verifier::ext_equal]
pub struct ProducerView {
    pub client: u64,
    pub topics: Seq<(Seq<char>, u64)>,
}

impl View for Producer {
    type V = ProducerView;

    open spec fn view(&self) -> ProducerView {
        ProducerView { client: self.rk, topics: self.rkt.deep_view() }
    }
}

impl Producer {
    /// Registry invariant: topic names are unique keys.
    pub open spec fn well_formed(&self) -> bool {
        spec_unique_names(self@.topics)
    }

    /// A producer owning the native client handle `rk`, with an empty topic
    /// registry.
    pub fn new(rk: u64) -> (r: Producer)
        ensures
            r@.client == rk,
            r@.topics == Seq::<(Seq<char>, u64)>::empty(),
            r.well_formed(),
    {
        let p = Producer { rk, rkt: Vec::new() };
        proof {
            assert(p@.topics =~= Seq::<(Seq<char>, u64)>::empty());
        }
        p
    }

    /// True when a native topic handle is already registered under `name`.
    pub fn has_topic(&self, name: &String) -> (r: bool)
        ensures
            r == spec_has_topic(self@.topics, name@),
    {
        let n = self.rkt.len();
        let mut i: usize = 0;
        while i < n
            invariant
                n == self.rkt@.len(),
                i <= n,
                forall|j: int| 0 <= j < i ==> self@.topics[j].0 != name@,
            decreases n - i,
        {
            if self.rkt[i].name == *name {
                proof {
                    assert(self@.topics[i as int].0 == name@);
                }
                return true;
            }
            i = i + 1;
        }
        false
    }

    /// The names of `topics` that have no handle yet, each once, in first
    /// appearance order: exactly the names a registration pass must create
    /// handles for.
    pub fn topics_to_register(&self, topics: &Vec<String>) -> (r: Vec<String>)
        ensures
            forall|i: int|
                0 <= i < r.deep_view().len() ==> !spec_has_topic(
                    self@.topics,
                    #[trigger] r.deep_view()[i],
                ),
            forall|i: int, j: int|
                0 <= i < j < r.deep_view().len() ==> r.deep_view()[i] != r.deep_view()[j],
            forall|i: int|
                0 <= i < r.deep_view().len() ==> topics.deep_view().contains(
                    #[trigger] r.deep_view()[i],
                ),
            forall|k: int|
                0 <= k < topics.deep_view().len() ==> spec_has_topic(
                    self@.topics,
                    #[trigger] topics.deep_view()[k],
                ) || r.deep_view().contains(topics.deep_view()[k]),
    {
        let mut fresh: Vec<String> = Vec::new();
        let n = topics.len();
        let mut i: usize = 0;
        while i < n
            invariant
                n == topics@.len(),
                i <= n,
                forall|a: int|
                    0 <= a < fresh.deep_view().len() ==> !spec_has_topic(
                        self@.topics,
                        #[trigger] fresh.deep_view()[a],
                    ),
                forall|a: int, b: int|
                    0 <= a < b < fresh.deep_view().len() ==> fresh.deep_view()[a]
                        != fresh.deep_view()[b],
                forall|a: int|
                    0 <= a < fresh.deep_view().len() ==> topics.deep_view().contains(
                        #[trigger] fresh.deep_view()[a],
                    ),
                forall|k: int|
                    0 <= k < i ==> spec_has_topic(self@.topics, #[trigger] topics.deep_view()[k])
                        || fresh.deep_view().contains(topics.deep_view()[k]),
            decreases n - i,
        {
            let name = &topics[i];
            if !self.has_topic(name) && !contains_name(&fresh, name) {
                let ghost prev = fresh.deep_view();
                fresh.push(name.clone());
                proof {
                    assert forall|j: int| 0 <= j < prev.len() implies fresh.deep_view()[j]
                        == prev[j] by {
                        assert(fresh.deep_view()[j] == fresh@[j].deep_view());
                    }
                    assert(fresh.deep_view()[prev.len() as int] == name@);
                    assert(fresh.deep_view() =~= prev.push(name@));
                    assert forall|x: Seq<char>| prev.contains(x) implies fresh
                        .deep_view()
                        .contains(x) by {
                        let w = choose|w: int| 0 <= w < prev.len() && prev[w] == x;
                        assert(fresh.deep_view()[w] == x);
                    }
                    assert(fresh.deep_view().contains(topics.deep_view()[i as int]));
                }
            }
            proof {
                assert(topics.deep_view()[i as int] == topics@[i as int]@);
            }
            i = i + 1;
        }
        fresh
    }

    /// Registers every fresh name with its newly created native handle.
    /// Already-registered names never reach this commit: registration is
    /// idempotent per name, so no topic ever gets a second handle.
    pub fn set_topics(&mut self, names: &Vec<String>, handles: &Vec<u64>)
        requires
            old(self).well_formed(),
            names.deep_view().len() == handles@.len(),
            forall|i: int, j: int|
                0 <= i < j < names.deep_view().len() ==> names.deep_view()[i]
                    != names.deep_view()[j],
            forall|i: int|
                0 <= i < names.deep_view().len() ==> !spec_has_topic(
                    old(self)@.topics,
                    #[trigger] names.deep_view()[i],
                ),
        ensures
            final(self)@.client == old(self)@.client,
            final(self)@.topics == spec_register(
                old(self)@.topics,
                names.deep_view(),
                handles@,
            ),
            final(self).well_formed(),
    {
        let ghost base = self@.topics;
        let n = names.len();
        let mut i: usize = 0;
        while i < n
            invariant
                n == names@.len(),
                names.deep_view().len() == handles@.len(),
                i <= n,
                self.rk == old(self).rk,
                self@.topics.len() == base.len() + i,
                forall|j: int| 0 <= j < base.len() ==> self@.topics[j] == base[j],
                forall|j: int|
                    base.len() <= j < base.len() + i ==> #[trigger] self@.topics[j] == (
                        names.deep_view()[j - base.len()],
                        handles@[j - base.len()],
                    ),
            decreases n - i,
        {
            let ghost prev = self@.topics;
            let entry = TopicEntry { name: names[i].clone(), handle: handles[i] };
            proof {
                assert(entry.deep_view() == (names.deep_view()[i as int], handles@[i as int]));
            }
            let ghost ev = entry.deep_view();
            self.rkt.push(entry);
            proof {
                assert forall|j: int| 0 <= j < prev.len() implies self@.topics[j] == prev[j] by {
                    assert(self@.topics[j] == self.rkt@[j].deep_view());
                }
                assert(self@.topics[prev.len() as int] == self.rkt@[prev.len() as int].deep_view());
                assert(self@.topics =~= prev.push(ev));
            }
            i = i + 1;
        }
        proof {
            let full = spec_register(base, names.deep_view(), handles@);
            assert forall|j: int| 0 <= j < full.len() implies self@.topics[j] == full[j] by {
                if j >= base.len() {
                    assert(self@.topics[j] == (names.deep_view()[j - base.len()], handles@[j
                        - base.len()]));
                }
            }
            assert(self@.topics =~= full);
            assert forall|a: int, b: int| 0 <= a < b < full.len() implies full[a].0 != full[b].0 by {
                if b < base.len() {
                } else if a < base.len() {
                    assert(!spec_has_topic(base, names.deep_view()[b - base.len()]));
                    assert(full[a] == base[a]);
                } else {
                    assert(names.deep_view()[a - base.len()] != names.deep_view()[b - base.len()]);
                }
            }
        }
    }

    /// The enqueue decision: an unregistered topic fails immediately, before
    /// anything is handed to the native engine; a registered one yields the
    /// produce call to make, with the payload copied into a buffer whose
    /// ownership transfers to the engine.
    pub fn send(&self, payload: &Vec<u8>, topic: &String, partition: Option<i32>) -> (r: Result<
        ProduceRequest,
        ProducerError,
    >)
        requires
            self.well_formed(),
        ensures
            r is Err <==> !spec_has_topic(self@.topics, topic@),
            r is Err ==> r == Err::<ProduceRequest, ProducerError>(
                ProducerError::UnregisteredTopic,
            ),
            r matches Ok(req) ==> {
                &&& req.topic_handle == spec_topic_handle(self@.topics, topic@)
                &&& req.partition == (match partition {
                    Some(p) => p,
                    None => PARTITION_ANY,
                })
                &&& req.payload@ == payload@
            },
    {
        let n = self.rkt.len();
        let mut i: usize = 0;
        while i < n
            invariant
                n == self.rkt@.len(),
                i <= n,
                self.well_formed(),
                forall|j: int| 0 <= j < i ==> self@.topics[j].0 != topic@,
            decreases n - i,
        {
            if self.rkt[i].name == *topic {
                proof {
                    assert(self@.topics[i as int].0 == topic@);
                    let k = choose|k: int|
                        0 <= k < self@.topics.len() && self@.topics[k].0 == topic@;
                    assert(k == i);
                }
                return Ok(
                    ProduceRequest {
                        topic_handle: self.rkt[i].handle,
                        partition: match partition {
                            Some(p) => p,
                            None => PARTITION_ANY,
                        },
                        payload: copy_bytes(payload),
                    },
                );
            }
            i = i + 1;
        }
        Err(ProducerError::UnregisteredTopic)
    }

    /// Interprets the native enqueue status: the failure sentinel together
    /// with a nonzero last-error code is the translated send rejection (and
    /// the buffer's ownership reverts to the caller); everything else is a
    /// successful hand-off.
    pub fn send_result(status: i32, last_error: i32, description: String) -> (r: Result<
        (),
        ProducerError,
    >)
        ensures
            r is Err <==> status == -1 && last_error != 0,
            status == -1 && last_error != 0 ==> r == Err::<(), ProducerError>(
                ProducerError::SendError(description),
            ),
    {
        if status == -1 {
            match crate::get_error_str(last_error, description) {
                Some(text) => Err(ProducerError::SendError(text)),
                None => Ok(()),
            }
        } else {
            Ok(())
        }
    }

    /// The non-blocking drive of delivery-callback processing: always a
    /// zero-timeout poll of this producer's client handle.
    pub fn poll(&self) -> (r: PollCall)
        ensures
            r == (PollCall { client: self@.client, timeout_ms: 0i32 }),
    {
        PollCall { client: self.rk, timeout_ms: 0 }
    }

    /// The bounded wait for outstanding deliveries, against this producer's
    /// client handle, blocking for at most `timeout_ms`.
    pub fn flush(&self, timeout_ms: i32) -> (r: FlushCall)
        ensures
            r == (FlushCall { client: self@.client, timeout_ms }),
    {
        FlushCall { client: self.rk, timeout_ms }
    }

    /// Whether a flush wait may return, given the outbound-queue length and
    /// the time already elapsed: immediately once the queue is empty, and in
    /// any case once the timeout has elapsed.
    pub fn flush_done(outq_len: usize, elapsed_ms: i32, timeout_ms: i32) -> (r: bool)
        ensures
            r == spec_flush_done(outq_len, elapsed_ms, timeout_ms),
    {
        outq_len == 0 || elapsed_ms >= timeout_ms
    }

    /// The ordered native calls of teardown: every registered topic handle is
    /// destroyed, each exactly once, and the client handle is destroyed last
    /// of all.
    pub fn teardown_plan(&self) -> (r: Vec<NativeOp>)
        ensures
            r.deep_view() == spec_producer_teardown(self@),
    {
        let mut ops: Vec<NativeOp> = Vec::new();
        let n = self.rkt.len();
        let mut i: usize = 0;
        while i < n
            invariant
                n == self.rkt@.len(),
                i <= n,
                ops.deep_view().len() == i,
                forall|j: int|
                    0 <= j < i ==> ops.deep_view()[j] == (NativeOpV::DestroyTopic {
                        topic: self@.topics[j].1,
                    }),
            decreases n - i,
        {
            let ghost prev = ops.deep_view();
            let h = self.rkt[i].handle;
            ops.push(NativeOp::DestroyTopic { topic: h });
            proof {
                assert forall|j: int| 0 <= j < prev.len() implies ops.deep_view()[j]
                    == prev[j] by {
                    assert(ops.deep_view()[j] == ops@[j].deep_view());
                }
                assert(ops.deep_view()[i as int] == ops@[i as int].deep_view());
                assert(ops.deep_view() =~= prev.push(NativeOpV::DestroyTopic { topic: h }));
            }
            i = i + 1;
        }
        let ghost whole = ops.deep_view();
        ops.push(NativeOp::DestroyClient { client: self.rk });
        proof {
            assert forall|j: int| 0 <= j < whole.len() implies ops.deep_view()[j] == whole[j] by {
                assert(ops.deep_view()[j] == ops@[j].deep_view());
            }
            assert(ops.deep_view()[whole.len() as int] == ops@[whole.len() as int].deep_view());
            assert(ops.deep_view() =~= whole.push(NativeOpV::DestroyClient { client: self.rk }));
            assert(ops.deep_view() =~= spec_producer_teardown(self@));
        }
        ops
    }
}

/// True when some element of `names` reads as `name`.
fn contains_name(names: &Vec<String>, name: &String) -> (r: bool)
    ensures
        r == names.deep_view().contains(name@),
{
    let n = names.len();
    let mut i: usize = 0;
    while i < n
        invariant
            n == names@.len(),
            i <= n,
            forall|j: int| 0 <= j < i ==> names.deep_view()[j] != name@,
        decreases n - i,
    {
        if names[i] == *name {
            proof {
                assert(names.deep_view()[i as int] == name@);
            }
            return true;
        }
        i = i + 1;
    }
    proof {
        assert(forall|j: int| 0 <= j < names.deep_view().len() ==> names.deep_view()[j] != name@);
    }
    false
}

/// Copies `bytes` into a fresh buffer of its own.
fn copy_bytes(bytes: &Vec<u8>) -> (r: Vec<u8>)
    ensures
        r@ == bytes@,
{
    let mut out: Vec<u8> = Vec::new();
    let n = bytes.len();
    let mut i: usize = 0;
    while i < n
        invariant
            n == bytes@.len(),
            i <= n,
            out@ == bytes@.take(i as int),
        decreases n - i,
    {
        out.push(bytes[i]);
        proof {
            assert(out@ =~= bytes@.take(i + 1));
        }
        i = i + 1;
    }
    proof {
        assert(out@ =~= bytes@);
    }
    out
}

/// Law: registering a name that already has a handle is a no-op for that
/// name.  A registration pass only ever adds names that have no handle yet,
/// so a registry with unique names keeps exactly one handle alive per name,
/// however often the name is registered.
pub proof fn lemma_register_idempotent(
    ts: Seq<(Seq<char>, u64)>,
    names: Seq<Seq<char>>,
    handles: Seq<u64>,
    name: Seq<char>,
)
    requires
        spec_unique_names(ts),
        spec_has_topic(ts, name),
        names.len() == handles.len(),
        forall|i: int| 0 <= i < names.len() ==> !spec_has_topic(ts, #[trigger] names[i]),
    ensures
        spec_count_name(ts, name) == 1,
        spec_count_name(spec_register(ts, names, handles), name) == 1,
{
    lemma_unique_count_one(ts, name);
    lemma_count_register(ts, names, handles, name);
}

/// A registry with unique names holds any present name exactly once.
proof fn lemma_unique_count_one(ts: Seq<(Seq<char>, u64)>, name: Seq<char>)
    requires
        spec_unique_names(ts),
        spec_has_topic(ts, name),
    ensures
        spec_count_name(ts, name) == 1,
    decreases ts.len(),
{
    let i = choose|i: int| 0 <= i < ts.len() && ts[i].0 == name;
    if i == ts.len() - 1 {
        assert(forall|j: int| 0 <= j < ts.len() - 1 ==> ts[j].0 != name);
        lemma_absent_count_zero(ts.drop_last(), name);
    } else {
        assert(ts.last().0 != name);
        assert(ts.drop_last()[i] == ts[i]);
        lemma_unique_count_one(ts.drop_last(), name);
    }
}

/// A name no entry carries is counted zero times.
proof fn lemma_absent_count_zero(ts: Seq<(Seq<char>, u64)>, name: Seq<char>)
    requires
        forall|i: int| 0 <= i < ts.len() ==> ts[i].0 != name,
    ensures
        spec_count_name(ts, name) == 0,
    decreases ts.len(),
{
    if ts.len() > 0 {
        lemma_absent_count_zero(ts.drop_last(), name);
    }
}

/// Registering names that all lack handles does not change how often any
/// already-present name occurs.
proof fn lemma_count_register(
    ts: Seq<(Seq<char>, u64)>,
    names: Seq<Seq<char>>,
    handles: Seq<u64>,
    name: Seq<char>,
)
    requires
        spec_has_topic(ts, name),
        names.len() == handles.len(),
        forall|i: int| 0 <= i < names.len() ==> !spec_has_topic(ts, #[trigger] names[i]),
    ensures
        spec_count_name(spec_register(ts, names, handles), name) == spec_count_name(ts, name),
    decreases names.len(),
{
    if names.len() == 0 {
        assert(spec_register(ts, names, handles) =~= ts);
    } else {
        let shorter = spec_register(ts, names.drop_last(), handles.drop_last());
        assert(spec_register(ts, names, handles).drop_last() =~= shorter);
        assert(spec_register(ts, names, handles).last().0 == names.last());
        assert(names.last() != name);
        lemma_count_register(ts, names.drop_last(), handles.drop_last(), name);
    }
}

/// Law: a flush with the outbound queue already empty completes with no time
/// elapsed, whatever its timeout; in particular a zero-timeout flush of an
/// empty queue returns immediately.
pub proof fn lemma_flush_empty_queue_immediate(elapsed_ms: i32, timeout_ms: i32)
    ensures
        spec_flush_done(0, elapsed_ms, timeout_ms),
        spec_flush_done(0, 0, 0),
{
}

} // verus!
