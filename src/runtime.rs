//! Runtime requirement flags and the containers keyed by a runtime set.
use vstd::prelude::*;

use crate::order::{sort_u64s, sorted_u64, strictly_sorted_u64};

verus! {

/// Bit set of runtime globals that generated code needs injected.
#[derive(Clone, Copy, Debug, PartialEq, Eq, Hash, Structural)]
pub struct RuntimeGlobals {
    pub bits: u64,
}

impl RuntimeGlobals {
    pub fn empty() -> (r: Self)
        ensures
            r.bits == 0,
    {
        RuntimeGlobals { bits: 0 }
    }

    pub fn from_bits(bits: u64) -> (r: Self)
        ensures
            r.bits == bits,
    {
        RuntimeGlobals { bits }
    }

    /// Bitwise union of two flag sets.
    pub fn union(self, other: Self) -> (r: Self)
        ensures
            r.bits == self.bits | other.bits,
    {
        RuntimeGlobals { bits: self.bits | other.bits }
    }

    /// Adds every flag of `other` to `self`.
    pub fn insert(&mut self, other: Self)
        ensures
            final(self).bits == old(self).bits | other.bits,
    {
        self.bits = self.bits | other.bits;
    }

    /// Whether every flag of `other` is set in `self`.
    pub fn contains(self, other: Self) -> (r: bool)
        ensures
            r == (self.bits & other.bits == other.bits),
    {
        self.bits & other.bits == other.bits
    }
}

/// A set of runtime names (interned as integers), kept in strictly
/// increasing order so that equal sets have equal representations.
#[derive(Clone, Debug)]
pub struct RuntimeSpec {
    names: Vec<u64>,
}

impl View for RuntimeSpec {
    type V = Seq<u64>;

    closed spec fn view(&self) -> Seq<u64> {
        self.names@
    }
}

impl RuntimeSpec {
    /// Canonical form: strictly increasing names.
    pub open spec fn wf(&self) -> bool {
        strictly_sorted_u64(self@)
    }

    /// The set of runtime names.
    pub open spec fn names(&self) -> Set<u64> {
        self@.to_set()
    }

    /// Builds the runtime set holding exactly the given names.
    pub fn from_names(names: Vec<u64>) -> (r: Self)
        ensures
            r.wf(),
            r.names() == names@.to_set(),
    {
        let mut sorted = names;
        sort_u64s(&mut sorted);
        proof {
            assert forall|x: u64| sorted@.contains(x) <==> names@.contains(x) by {
                broadcast use vstd::multiset::group_multiset_axioms;
                broadcast use vstd::seq_lib::group_to_multiset_ensures;

                assert(sorted@.contains(x) <==> sorted@.to_multiset().count(x) > 0);
                assert(names@.contains(x) <==> names@.to_multiset().count(x) > 0);
            }
        }
        let mut out: Vec<u64> = Vec::new();
        let mut i: usize = 0;
        while i < sorted.len()
            invariant
                i <= sorted@.len(),
                sorted_u64(sorted@),
                strictly_sorted_u64(out@),
                forall|x: u64| out@.contains(x) <==> sorted@.take(i as int).contains(x),
                i > 0 ==> out@.len() > 0 && out@.last() == sorted@[i - 1],
                i == 0 ==> out@.len() == 0,
            decreases sorted@.len() - i,
        {
            let x = sorted[i];
            let ghost prev = out@;
            if out.len() == 0 || out[out.len() - 1] != x {
                out.push(x);
            }
            proof {
                broadcast use vstd::seq_lib::lemma_seq_contains_after_push;

                assert(sorted@.take(i + 1) =~= sorted@.take(i as int).push(x));
                assert forall|y: u64| out@.contains(y) <==> sorted@.take(i + 1).contains(y) by {
                    if out@.len() > prev.len() {
                        assert(out@ == prev.push(x));
                        if out@.contains(y) && y != x {
                            let k = choose|k: int| 0 <= k < out@.len() && #[trigger] out@[k] == y;
                            assert(prev[k] == y);
                        }
                    } else {
                        assert(prev.contains(x)) by {
                            assert(prev[prev.len() - 1] == x);
                        }
                    }
                    assert(sorted@.take(i + 1).contains(y) <==> (sorted@.take(i as int).contains(y) || y == x));
                }
            }
            i = i + 1;
        }
        proof {
            assert(sorted@.take(sorted@.len() as int) =~= sorted@);
            assert(out@.to_set() =~= names@.to_set());
        }
        RuntimeSpec { names: out }
    }

    /// The runtime set of a single name.
    pub fn single(name: u64) -> (r: Self)
        ensures
            r.wf(),
            r@ == seq![name],
    {
        let mut names: Vec<u64> = Vec::new();
        names.push(name);
        RuntimeSpec { names }
    }

    /// A copy with the same names.
    pub fn duplicate(&self) -> (r: Self)
        ensures
            r@ == self@,
    {
        let mut out: Vec<u64> = Vec::new();
        let mut i: usize = 0;
        while i < self.names.len()
            invariant
                i <= self.names@.len(),
                out@ == self.names@.take(i as int),
            decreases self.names@.len() - i,
        {
            out.push(self.names[i]);
            proof {
                assert(self.names@.take(i + 1) =~= self.names@.take(i as int).push(self.names@[i as int]));
            }
            i = i + 1;
        }
        proof {
            assert(self.names@.take(self.names@.len() as int) =~= self.names@);
        }
        RuntimeSpec { names: out }
    }

    /// Exact equality of the two runtime sets.
    pub fn same_as(&self, other: &RuntimeSpec) -> (r: bool)
        ensures
            r == (self@ == other@),
    {
        if self.names.len() != other.names.len() {
            return false;
        }
        let mut i: usize = 0;
        while i < self.names.len()
            invariant
                i <= self.names@.len(),
                self.names@.len() == other.names@.len(),
                forall|k: int| 0 <= k < i ==> self.names@[k] == other.names@[k],
            decreases self.names@.len() - i,
        {
            if self.names[i] != other.names[i] {
                return false;
            }
            i = i + 1;
        }
        proof {
            assert(self.names@ =~= other.names@);
        }
        true
    }

    /// Whether `name` is one of the runtimes.
    pub fn contains_name(&self, name: u64) -> (r: bool)
        ensures
            r == self@.contains(name),
    {
        let mut i: usize = 0;
        while i < self.names.len()
            invariant
                i <= self.names@.len(),
                forall|k: int| 0 <= k < i ==> self.names@[k] != name,
            decreases self.names@.len() - i,
        {
            if self.names[i] == name {
                return true;
            }
            i = i + 1;
        }
        false
    }
}

/// The map that a list of entries denotes (a later entry for a key wins).
pub open spec fn entries_map(s: Seq<(RuntimeSpec, RuntimeGlobals)>) -> Map<Seq<u64>, u64>
    decreases s.len(),
{
    if s.len() == 0 {
        Map::empty()
    } else {
        entries_map(s.drop_last()).insert(s.last().0@, s.last().1.bits)
    }
}

/// No two entries share a key.
pub open spec fn keys_unique(s: Seq<(RuntimeSpec, RuntimeGlobals)>) -> bool {
    forall|i: int, j: int| 0 <= i < j < s.len() ==> s[i].0@ != s[j].0@
}

proof fn lemma_entries_map_absent(s: Seq<(RuntimeSpec, RuntimeGlobals)>, k: Seq<u64>)
    requires
        forall|i: int| 0 <= i < s.len() ==> s[i].0@ != k,
    ensures
        !entries_map(s).contains_key(k),
    decreases s.len(),
{
    if s.len() > 0 {
        lemma_entries_map_absent(s.drop_last(), k);
    }
}

proof fn lemma_entries_map_at(s: Seq<(RuntimeSpec, RuntimeGlobals)>, j: int)
    requires
        keys_unique(s),
        0 <= j < s.len(),
    ensures
        entries_map(s).contains_key(s[j].0@),
        entries_map(s)[s[j].0@] == s[j].1.bits,
    decreases s.len(),
{
    if j < s.len() - 1 {
        lemma_entries_map_at(s.drop_last(), j);
    }
}

proof fn lemma_entries_map_update(
    s: Seq<(RuntimeSpec, RuntimeGlobals)>,
    j: int,
    e: (RuntimeSpec, RuntimeGlobals),
)
    requires
        keys_unique(s),
        0 <= j < s.len(),
        e.0@ == s[j].0@,
    ensures
        entries_map(s.update(j, e)) == entries_map(s).insert(e.0@, e.1.bits),
    decreases s.len(),
{
    if j == s.len() - 1 {
        assert(s.update(j, e).drop_last() =~= s.drop_last());
        assert(entries_map(s.update(j, e)) =~= entries_map(s).insert(e.0@, e.1.bits));
    } else {
        assert(s.update(j, e).drop_last() =~= s.drop_last().update(j, e));
        lemma_entries_map_update(s.drop_last(), j, e);
        assert(entries_map(s.update(j, e)) =~= entries_map(s).insert(e.0@, e.1.bits));
    }
}

/// Requirement flags stored per runtime set, with exact-key lookup.
#[derive(Clone, Debug)]
pub struct RuntimeSpecMap {
    entries: Vec<(RuntimeSpec, RuntimeGlobals)>,
}

impl View for RuntimeSpecMap {
    type V = Map<Seq<u64>, u64>;

    closed spec fn view(&self) -> Map<Seq<u64>, u64> {
        entries_map(self.entries@)
    }
}

impl RuntimeSpecMap {
    /// At most one entry per runtime set.
    pub closed spec fn wf(&self) -> bool {
        keys_unique(self.entries@)
    }

    pub fn new() -> (r: Self)
        ensures
            r.wf(),
            r@ == Map::<Seq<u64>, u64>::empty(),
    {
        RuntimeSpecMap { entries: Vec::new() }
    }

    fn position(&self, runtime: &RuntimeSpec) -> (r: Option<usize>)
        ensures
            match r {
                Some(j) => j < self.entries@.len() && self.entries@[j as int].0@ == runtime@,
                None => forall|i: int|
                    0 <= i < self.entries@.len() ==> self.entries@[i].0@ != runtime@,
            },
    {
        let mut i: usize = 0;
        while i < self.entries.len()
            invariant
                i <= self.entries@.len(),
                forall|k: int| 0 <= k < i ==> self.entries@[k].0@ != runtime@,
            decreases self.entries@.len() - i,
        {
            if self.entries[i].0.same_as(runtime) {
                return Some(i);
            }
            i = i + 1;
        }
        None
    }

    /// The flags stored under exactly this runtime set.
    pub fn get(&self, runtime: &RuntimeSpec) -> (r: Option<RuntimeGlobals>)
        requires
            self.wf(),
        ensures
            match r {
                Some(g) => self@.contains_key(runtime@) && g.bits == self@[runtime@],
                None => !self@.contains_key(runtime@),
            },
    {
        match self.position(runtime) {
            Some(j) => {
                proof {
                    lemma_entries_map_at(self.entries@, j as int);
                }
                Some(self.entries[j].1)
            },
            None => {
                proof {
                    lemma_entries_map_absent(self.entries@, runtime@);
                }
                None
            },
        }
    }

    /// Stores `value` under `runtime`, replacing what was there.
    pub fn set(&mut self, runtime: &RuntimeSpec, value: RuntimeGlobals)
        requires
            old(self).wf(),
        ensures
            final(self).wf(),
            final(self)@ == old(self)@.insert(runtime@, value.bits),
    {
        let key = runtime.duplicate();
        match self.position(runtime) {
            Some(j) => {
                proof {
                    lemma_entries_map_update(self.entries@, j as int, (key, value));
                }
                self.entries.set(j, (key, value));
            },
            None => {
                self.entries.push((key, value));
                proof {
                    assert(self.entries@.drop_last() =~= old(self).entries@);
                }
            },
        }
    }

    /// Number of runtime sets with an entry.
    pub fn len(&self) -> (r: usize)
        requires
            self.wf(),
        ensures
            r == self@.len(),
    {
        proof {
            lemma_entries_map_len(self.entries@);
        }
        self.entries.len()
    }
}

proof fn lemma_entries_map_len(s: Seq<(RuntimeSpec, RuntimeGlobals)>)
    requires
        keys_unique(s),
    ensures
        entries_map(s).dom().finite(),
        entries_map(s).len() == s.len(),
    decreases s.len(),
{
    if s.len() > 0 {
        lemma_entries_map_len(s.drop_last());
        lemma_entries_map_absent(s.drop_last(), s.last().0@);
    }
}

/// A set of runtime sets.
#[derive(Clone, Debug)]
pub struct RuntimeSpecSet {
    items: Vec<RuntimeSpec>,
}

impl View for RuntimeSpecSet {
    type V = Set<Seq<u64>>;

    closed spec fn view(&self) -> Set<Seq<u64>> {
        Set::new(|k: Seq<u64>| exists|i: int| 0 <= i < self.items@.len() && #[trigger] self.items@[i]@ == k)
    }
}

impl RuntimeSpecSet {
    /// No runtime set is held twice.
    pub closed spec fn wf(&self) -> bool {
        forall|i: int, j: int| 0 <= i < j < self.items@.len() ==> self.items@[i]@ != self.items@[j]@
    }

    pub fn new() -> (r: Self)
        ensures
            r.wf(),
            r@ == Set::<Seq<u64>>::empty(),
    {
        let r = RuntimeSpecSet { items: Vec::new() };
        proof {
            assert(r@ =~= Set::<Seq<u64>>::empty());
        }
        r
    }

    /// Whether this runtime set is held.
    pub fn contains(&self, runtime: &RuntimeSpec) -> (r: bool)
        ensures
            r == self@.contains(runtime@),
    {
        let mut i: usize = 0;
        while i < self.items.len()
            invariant
                i <= self.items@.len(),
                forall|k: int| 0 <= k < i ==> self.items@[k]@ != runtime@,
            decreases self.items@.len() - i,
        {
            if self.items[i].same_as(runtime) {
                return true;
            }
            i = i + 1;
        }
        false
    }

    /// Adds a runtime set.
    pub fn set(&mut self, runtime: RuntimeSpec)
        requires
            old(self).wf(),
        ensures
            final(self).wf(),
            final(self)@ == old(self)@.insert(runtime@),
    {
        if !self.contains(&runtime) {
            self.items.push(runtime);
        }
        proof {
            assert(self@ =~= old(self)@.insert(runtime@)) by {
                if old(self)@.contains(runtime@) {
                    assert(self.items@ == old(self).items@);
                } else {
                    let n = old(self).items@.len() as int;
                    assert(self.items@[n]@ == runtime@);
                    assert forall|k: Seq<u64>| old(self)@.contains(k) implies self@.contains(k) by {
                        let i = choose|i: int| 0 <= i < old(self).items@.len() && #[trigger] old(self).items@[i]@ == k;
                        assert(self.items@[i]@ == k);
                    }
                }
            }
        }
    }

    /// Number of runtime sets held.
    pub fn len(&self) -> (r: usize)
        requires
            self.wf(),
        ensures
            r == self@.len(),
    {
        proof {
            let vs = self.items@.map_values(|r: RuntimeSpec| r@);
            assert(vs.no_duplicates());
            vs.unique_seq_to_set();
            assert(vs.to_set() =~= self@) by {
                assert forall|k: Seq<u64>| self@.contains(k) implies vs.to_set().contains(k) by {
                    let i = choose|i: int| 0 <= i < self.items@.len() && #[trigger] self.items@[i]@ == k;
                    assert(vs[i] == k);
                }
            }
        }
        self.items.len()
    }
}

} // verus!
