use std::collections::BTreeMap;
use vstd::prelude::*;
use vstd::std_specs::cmp::OrdSpec;
use vstd::std_specs::iter::IteratorSpec;

verus! {

broadcast use {vstd::std_specs::btree::group_btree_axioms, vstd::laws_cmp::group_laws_cmp};

/// Ordered mapping from a keyframe's timestamp (milliseconds) to its byte
/// offset.
#[derive(Debug, Clone)]
pub struct KeyframeIndex {
    keyframes: BTreeMap<u32, u64>,
}

impl View for KeyframeIndex {
    type V = Map<u32, u64>;

    closed spec fn view(&self) -> Map<u32, u64> {
        self.keyframes@
    }
}

/// The offset that a map gives for timestamp `k`, if any.
pub open spec fn lookup(m: Map<u32, u64>, k: u32) -> Option<u64> {
    if m.contains_key(k) {
        Some(m[k])
    } else {
        None
    }
}

/// The offset that zipping `times` with `positions` leaves for timestamp `k`:
/// where a timestamp repeats, the last pair wins.
pub open spec fn zip_lookup(times: Seq<u32>, positions: Seq<u64>, k: u32) -> Option<u64>
    decreases times.len(),
{
    if times.len() == 0 {
        None
    } else if times.last() == k {
        Some(positions[times.len() - 1])
    } else {
        zip_lookup(times.drop_last(), positions, k)
    }
}

impl KeyframeIndex {
    /// An index with no keyframe.
    pub fn new() -> (r: KeyframeIndex)
        ensures
            r@ == Map::<u32, u64>::empty(),
    {
        KeyframeIndex { keyframes: BTreeMap::new() }
    }

    /// Number of keyframes.
    pub fn len(&self) -> (r: usize)
        ensures
            r == self@.len(),
    {
        self.keyframes.len()
    }

    /// Maps `ts` to `offset`, replacing an earlier offset for the same timestamp.
    pub fn insert(&mut self, ts: u32, offset: u64)
        ensures
            final(self)@ == old(self)@.insert(ts, offset),
    {
        self.keyframes.insert(ts, offset);
    }

    /// Zips `times` with `positions` pair by pair, stopping at the shorter one;
    /// a repeated timestamp keeps its last offset.
    pub fn from_pairs(times: &[u32], positions: &[u64]) -> (r: KeyframeIndex)
        ensures
            forall|k: u32| #[trigger]
                lookup(r@, k) == zip_lookup(
                    times@.take(
                        if times@.len() <= positions@.len() {
                            times@.len() as int
                        } else {
                            positions@.len() as int
                        },
                    ),
                    positions@,
                    k,
                ),
    {
        let n = if times.len() <= positions.len() {
            times.len()
        } else {
            positions.len()
        };
        let mut index = KeyframeIndex::new();
        let mut i: usize = 0;
        assert forall|k: u32| #[trigger] lookup(index@, k) == zip_lookup(times@.take(0), positions@, k) by {}
        while i < n
            invariant
                i <= n,
                n <= times@.len(),
                n <= positions@.len(),
                forall|k: u32| #[trigger]
                    lookup(index@, k) == zip_lookup(times@.take(i as int), positions@, k),
            decreases n - i,
        {
            let ghost before = index@;
            index.insert(times[i], positions[i]);
            i = i + 1;
            assert(times@.take(i as int).drop_last() =~= times@.take(i - 1));
            assert forall|k: u32| #[trigger]
                lookup(index@, k) == zip_lookup(times@.take(i as int), positions@, k) by {
                assert(times@.take(i as int).last() == times@[i - 1]);
                assert(lookup(before, k) == zip_lookup(times@.take(i - 1), positions@, k));
            }
        }
        index
    }

    /// The keyframe with the greatest timestamp at or before `timestamp`, or
    /// `None` when every keyframe is later (or there is none).
    pub fn seek(&self, timestamp: u32) -> (r: Option<(u32, u64)>)
        ensures
            r is None <==> (forall|k: u32| #[trigger] self@.contains_key(k) ==> k > timestamp),
            r is Some ==> {
                let (k, v) = r->Some_0;
                &&& k <= timestamp
                &&& self@.contains_key(k)
                &&& self@[k] == v
                &&& forall|k2: u32| #[trigger] self@.contains_key(k2) && k2 <= timestamp ==> k2 <= k
            },
    {
        let ghost m = self.keyframes@;
        assert(self@ == m);
        let it = self.keyframes.iter();
        let ghost items = it.remaining();
        proof {
            let keys = items.map_values(|kv: (&u32, &u64)| *kv.0);
            assert(vstd::std_specs::btree::key_obeys_cmp_spec::<u32>());
            assert(vstd::std_specs::btree::increasing_seq(keys));
            assert forall|a: int, b: int| 0 <= a < b < items.len() implies *items[a].0
                < *items[b].0 by {
                assert(keys[a] == *items[a].0 && keys[b] == *items[b].0);
                assert(keys[a].cmp_spec(&keys[b]) is Less);
            }
            assert forall|k: u32| #[trigger] m.contains_key(k) implies (exists|j: int|
                0 <= j < items.len() && #[trigger] *items[j].0 == k) by {
                assert(items.contains((&k, &m[k])));
                let j = choose|j: int| 0 <= j < items.len() && items[j] == (&k, &m[k]);
                assert(*items[j].0 == k);
            }
        }
        let mut target: Option<(u32, u64)> = None;
        for kv in iter: it
            invariant
                m == self.keyframes@,
                iter.seq() == items,
                iter.seq().len() == m.dom().len(),
                forall|j: int| 0 <= j < iter.seq().len() ==> m.contains_key(*iter.seq()[j].0)
                    && m[*iter.seq()[j].0] == *iter.seq()[j].1,
                forall|k: u32| #[trigger] m.contains_key(k) ==> iter.seq().contains((&k, &m[k])),
                forall|a: int, b: int| 0 <= a < b < iter.seq().len() ==> *iter.seq()[a].0
                    < *iter.seq()[b].0,
                forall|j: int| 0 <= j < iter.index() ==> *iter.seq()[j].0 < timestamp,
                target is None <==> iter.index() == 0,
                target is Some ==> m.contains_key(target->Some_0.0) && m[target->Some_0.0]
                    == target->Some_0.1 && target->Some_0.0 < timestamp,
                iter.index() > 0 ==> target == Some(
                    (*iter.seq()[iter.index() - 1].0, *iter.seq()[iter.index() - 1].1),
                ),
                forall|k: u32| #[trigger]
                    m.contains_key(k) ==> (exists|j: int|
                        iter.index() <= j < iter.seq().len() && #[trigger] *iter.seq()[j].0 == k) || (
                    target is Some && k <= target->Some_0.0),
        {
            let (ts, offset) = kv;
            if *ts < timestamp {
                proof {
                    let items = iter.seq();
                    let i = iter.index();
                    assert forall|k: u32| #[trigger] m.contains_key(k) implies (exists|j: int|
                        i + 1 <= j < items.len() && #[trigger] *items[j].0 == k) || k <= *ts by {
                        if exists|j: int| i <= j < items.len() && #[trigger] *items[j].0 == k {
                            let j = choose|j: int| i <= j < items.len() && #[trigger] *items[j].0 == k;
                            if j > i {
                                assert(i + 1 <= j < items.len() && *items[j].0 == k);
                            }
                        } else if i > 0 {
                            assert(*items[i - 1].0 < *items[i].0);
                        }
                    }
                }
                target = Some((*ts, *offset));
            } else if *ts > timestamp {
                proof {
                    let items = iter.seq();
                    let i = iter.index();
                    assert forall|k: u32| #[trigger] m.contains_key(k) && k <= timestamp implies (i > 0
                        && k <= *items[i - 1].0) by {
                        let j = choose|j: int| 0 <= j < items.len() && items[j] == (&k, &m[k]);
                        if j >= i {
                            if j > i {
                                assert(*items[i].0 < *items[j].0);
                            }
                        } else if j < i - 1 {
                            assert(*items[j].0 < *items[i - 1].0);
                        }
                    }
                }
                assert(target is Some ==> self@.contains_key(target->Some_0.0));
                return target;
            } else {
                assert(self@.contains_key(*ts) && m[*ts] == *offset);
                return Some((timestamp, *offset));
            }
        }
        proof {
            assert forall|k: u32| #[trigger] m.contains_key(k) implies target is Some && k
                <= target->Some_0.0 && k < timestamp by {
            }
            assert(target is Some ==> self@.contains_key(target->Some_0.0));
        }
        target
    }
}

} // verus!
