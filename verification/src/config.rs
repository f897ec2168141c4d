//! The configuration builder: a key/value mapping with unique keys and
//! last-write-wins updates, and the step-wise application of its entries
//! against the native configuration object, short-circuiting on the first
//! rejection with the offending key and value attributed.

use vstd::prelude::*;
use vstd::pervasive::VecAdditionalExecFns;
use crate::consumer::Consumer;
use crate::producer::Producer;

verus! {

/// One configuration option: a key and the value last written for it.
#[derive(Debug, Clone, PartialEq, Eq)]
pub struct ConfigEntry {
    /// The option's key.
    pub key: String,
    /// The option's value.
    pub value: String,
}

impl View for ConfigEntry {
    type V = (Seq<char>, Seq<char>);

    open spec fn view(&self) -> (Seq<char>, Seq<char>) {
        (self.key@, self.value@)
    }
}

impl DeepView for ConfigEntry {
    type V = (Seq<char>, Seq<char>);

    open spec fn deep_view(&self) -> (Seq<char>, Seq<char>) {
        self.view()
    }
}

/// A failed configuration build: either an entry the native layer rejected
/// (carrying its key, value and the native reason), or a client-construction
/// failure, which carries only the native reason and leaves key and value
/// empty.
#[derive(Debug, Clone, PartialEq, Eq)]
pub struct ConfigError {
    /// The rejected key; empty for a construction failure.
    pub key: String,
    /// The rejected value; empty for a construction failure.
    pub value: String,
    /// The native-reported reason.
    pub reason: String,
}

/// True when `k` is a key of the mapping.
pub open spec fn spec_has_key(m: Seq<(Seq<char>, Seq<char>)>, k: Seq<char>) -> bool {
    exists|i: int| 0 <= i < m.len() && m[i].0 == k
}

/// The position of `k` in the mapping, when keys are unique.
pub open spec fn spec_index_of(m: Seq<(Seq<char>, Seq<char>)>, k: Seq<char>) -> int
    recommends
        spec_has_key(m, k),
{
    choose|i: int| 0 <= i < m.len() && m[i].0 == k
}

/// Mapping well-formedness: no key occurs twice.
pub open spec fn spec_unique_keys(m: Seq<(Seq<char>, Seq<char>)>) -> bool {
    forall|i: int, j: int| 0 <= i < j < m.len() ==> m[i].0 != m[j].0
}

/// How many entries carry key `k`; a well-formed mapping keeps this at one
/// per written key, so a build applies each key exactly once.
pub open spec fn spec_count_key(m: Seq<(Seq<char>, Seq<char>)>, k: Seq<char>) -> nat
    decreases m.len(),
{
    if m.len() == 0 {
        0
    } else {
        spec_count_key(m.drop_last(), k) + if m.last().0 == k {
            1nat
        } else {
            0nat
        }
    }
}

/// The mapping after `set(k, v)`: the value under `k` is replaced in place
/// when the key exists, else the pair is appended.  Last write wins, and the
/// application order of the other entries is untouched.
pub open spec fn spec_set(
    m: Seq<(Seq<char>, Seq<char>)>,
    k: Seq<char>,
    v: Seq<char>,
) -> Seq<(Seq<char>, Seq<char>)> {
    if spec_has_key(m, k) {
        m.update(spec_index_of(m, k), (k, v))
    } else {
        m.push((k, v))
    }
}

/// Accumulates configuration options in memory; nothing touches the native
/// layer until the mapping is built.
#[derive(Debug, Clone, PartialEq, Eq)]
pub struct Config {
    /// The accumulated options; keys are unique, last write wins.
    pub conf_map: Vec<ConfigEntry>,
}

impl View for Config {
    type V = Seq<(Seq<char>, Seq<char>)>;

    open spec fn view(&self) -> Seq<(Seq<char>, Seq<char>)> {
        self.conf_map.deep_view()
    }
}

impl Config {
    /// Mapping invariant: keys are unique.
    pub open spec fn well_formed(&self) -> bool {
        spec_unique_keys(self@)
    }

    /// An empty configuration.
    pub fn new() -> (r: Config)
        ensures
            r@ == Seq::<(Seq<char>, Seq<char>)>::empty(),
            r.well_formed(),
    {
        let c = Config { conf_map: Vec::new() };
        proof {
            assert(c@ =~= Seq::<(Seq<char>, Seq<char>)>::empty());
        }
        c
    }

    /// Writes one option: pure in-memory accumulation that always succeeds,
    /// replacing the value when the key was written before.  Returns the
    /// builder again so calls can be chained.
    pub fn set(&mut self, name: &str, value: &str) -> (r: &mut Config)
        requires
            old(self).well_formed(),
        ensures
            (*r)@ == spec_set(old(self)@, name@, value@),
            (*r).well_formed(),
            *final(self) == *final(r),
    {
        let key: String = name.to_owned();
        let n = self.conf_map.len();
        let mut i: usize = 0;
        while i < n
            invariant
                n == self.conf_map@.len(),
                i <= n,
                self == old(self),
                self.well_formed(),
                key@ == name@,
                forall|j: int| 0 <= j < i ==> self@[j].0 != name@,
            decreases n - i,
        {
            if self.conf_map[i].key == key {
                proof {
                    assert(self@[i as int].0 == name@);
                    assert(spec_index_of(self@, name@) == i);
                }
                self.conf_map.set(i, ConfigEntry { key, value: value.to_owned() });
                proof {
                    assert forall|j: int| 0 <= j < self@.len() implies self@[j] == spec_set(
                        old(self)@,
                        name@,
                        value@,
                    )[j] by {
                        assert(self@[j] == self.conf_map@[j].deep_view());
                    }
                    assert(self@ =~= spec_set(old(self)@, name@, value@));
                }
                return self;
            }
            i = i + 1;
        }
        let ghost prev = self@;
        self.conf_map.push(ConfigEntry { key, value: value.to_owned() });
        proof {
            assert(!spec_has_key(prev, name@));
            assert forall|j: int| 0 <= j < prev.len() implies self@[j] == prev[j] by {
                assert(self@[j] == self.conf_map@[j].deep_view());
            }
            assert(self@[prev.len() as int] == self.conf_map@[prev.len() as int].deep_view());
            assert(self@ =~= prev.push((name@, value@)));
            assert forall|a: int, b: int| 0 <= a < b < self@.len() implies self@[a].0
                != self@[b].0 by {
                if b == prev.len() {
                    assert(!spec_has_key(prev, name@));
                    assert(self@[a] == prev[a]);
                }
            }
        }
        self
    }

    /// Consumes the accumulated mapping into its application plan: the
    /// entries are handed over for one-by-one application against the native
    /// configuration object, and the builder cannot be reused.
    pub fn begin_build(self) -> (r: ConfigApply)
        ensures
            r.entries.deep_view() == self@,
            r.next == 0,
    {
        ConfigApply { entries: self.conf_map, next: 0 }
    }
}

/// The one-by-one application of a consumed configuration against the native
/// configuration object: `entries[..next]` have been applied, the rest have
/// not, and the first rejection aborts the build with the offending entry
/// attributed.
#[derive(Debug, Clone, PartialEq, Eq)]
pub struct ConfigApply {
    /// The full application plan, in order.
    pub entries: Vec<ConfigEntry>,
    /// How many entries have been applied so far.
    pub next: usize,
}

impl ConfigApply {
    /// The entry to apply next, if any remains.
    pub fn next_entry(&self) -> (r: Option<&ConfigEntry>)
        ensures
            r is Some <==> self.next < self.entries@.len(),
            r matches Some(e) ==> *e == self.entries@[self.next as int],
    {
        if self.next < self.entries.len() {
            Some(&self.entries[self.next])
        } else {
            None
        }
    }

    /// True once every entry has been applied.
    pub fn done(&self) -> (r: bool)
        ensures
            r == (self.next == self.entries@.len()),
    {
        self.next == self.entries.len()
    }

    /// Records the native outcome of applying the current entry.  An empty
    /// reason accepts the entry and moves on, so each entry is applied
    /// exactly once; a nonempty reason aborts the build with exactly this
    /// entry's key and value and the native reason attributed.
    pub fn step(&mut self, reason: String) -> (r: Result<(), ConfigError>)
        requires
            old(self).next < old(self).entries@.len(),
        ensures
            final(self).entries == old(self).entries,
            reason@.len() == 0 ==> r is Ok && final(self).next == old(self).next + 1,
            reason@.len() != 0 ==> {
                &&& final(self).next == old(self).next
                &&& r matches Err(e)
                &&& e.key == old(self).entries@[old(self).next as int].key
                &&& e.value == old(self).entries@[old(self).next as int].value
                &&& e.reason == reason
            },
    {
        let len = self.entries.len();
        if reason.as_str().is_empty() {
            proof {
                assert(self.next < len);
            }
            self.next = self.next + 1;
            Ok(())
        } else {
            let entry = &self.entries[self.next];
            Err(ConfigError { key: entry.key.clone(), value: entry.value.clone(), reason })
        }
    }

    /// Finishes the build in the Consumer role from the native construction
    /// outcome: an empty error string yields a consumer owning the fresh
    /// client handle, a nonempty one the construction-failure error, which
    /// carries only the native reason, with no key or value attributed.
    pub fn build_consumer(self, err: String, rk: u64) -> (r: Result<Consumer, ConfigError>)
        requires
            self.next == self.entries@.len(),
        ensures
            err@.len() == 0 ==> r == Ok::<Consumer, ConfigError>(
                Consumer { rk, assignment: None },
            ),
            err@.len() != 0 ==> {
                &&& r matches Err(e)
                &&& e.key@ == Seq::<char>::empty()
                &&& e.value@ == Seq::<char>::empty()
                &&& e.reason == err
            },
    {
        if err.as_str().is_empty() {
            Ok(Consumer::new(rk))
        } else {
            Err(ConfigError { key: String::new(), value: String::new(), reason: err })
        }
    }

    /// Finishes the build in the Producer role, as [`Self::build_consumer`]
    /// does for the Consumer role.
    pub fn build_producer(self, err: String, rk: u64) -> (r: Result<Producer, ConfigError>)
        requires
            self.next == self.entries@.len(),
        ensures
            err@.len() == 0 ==> {
                &&& r matches Ok(p)
                &&& p@.client == rk
                &&& p@.topics == Seq::<(Seq<char>, u64)>::empty()
                &&& p.well_formed()
            },
            err@.len() != 0 ==> {
                &&& r matches Err(e)
                &&& e.key@ == Seq::<char>::empty()
                &&& e.value@ == Seq::<char>::empty()
                &&& e.reason == err
            },
    {
        if err.as_str().is_empty() {
            Ok(Producer::new(rk))
        } else {
            Err(ConfigError { key: String::new(), value: String::new(), reason: err })
        }
    }
}

/// Law: a build from a well-formed mapping applies every written key exactly
/// once: each key of the plan stands at exactly one position, and the stepping
/// of the plan visits each position exactly once.
pub proof fn lemma_build_applies_each_key_once(m: Seq<(Seq<char>, Seq<char>)>, k: Seq<char>)
    requires
        spec_unique_keys(m),
        spec_has_key(m, k),
    ensures
        spec_count_key(m, k) == 1,
    decreases m.len(),
{
    let i = choose|i: int| 0 <= i < m.len() && m[i].0 == k;
    if i == m.len() - 1 {
        assert(forall|j: int| 0 <= j < m.len() - 1 ==> m[j].0 != k);
        lemma_absent_key_count_zero(m.drop_last(), k);
    } else {
        assert(m.last().0 != k);
        assert(m.drop_last()[i] == m[i]);
        lemma_build_applies_each_key_once(m.drop_last(), k);
    }
}

/// A key no entry carries is counted zero times.
proof fn lemma_absent_key_count_zero(m: Seq<(Seq<char>, Seq<char>)>, k: Seq<char>)
    requires
        forall|i: int| 0 <= i < m.len() ==> m[i].0 != k,
    ensures
        spec_count_key(m, k) == 0,
    decreases m.len(),
{
    if m.len() > 0 {
        lemma_absent_key_count_zero(m.drop_last(), k);
    }
}

/// Law: writing a key again replaces its value and nothing else: the keys
/// and their order are unchanged, the written key holds the new value, and
/// every other entry is untouched.
pub proof fn lemma_set_last_write_wins(
    m: Seq<(Seq<char>, Seq<char>)>,
    k: Seq<char>,
    v: Seq<char>,
)
    requires
        spec_unique_keys(m),
        spec_has_key(m, k),
    ensures
        spec_set(m, k, v).len() == m.len(),
        forall|j: int| 0 <= j < m.len() ==> (#[trigger] spec_set(m, k, v)[j]).0 == m[j].0,
        forall|j: int| 0 <= j < m.len() && m[j].0 != k ==> #[trigger] spec_set(m, k, v)[j] == m[j],
        spec_set(m, k, v)[spec_index_of(m, k)] == (k, v),
{
}

} // verus!
