use vstd::prelude::*;

verus! {

/// A logical position in a stream whose byte offset can be remembered.
#[derive(Debug, Clone, Copy, PartialEq, Eq, Structural, PartialOrd, Ord, Hash)]
pub enum FlvSeekFrom {
    Header,
    MetaData,
    /// The pre-tag-size marker with this ordinal.
    PreTagSize(i64),
    /// The tag with this ordinal.
    Tag(i64),
}

/// Remembers byte offsets of positions already found. A miss is always a
/// valid answer: it only means the position is found again.
pub trait IndexCache {
    fn get(&self, key: FlvSeekFrom) -> Option<u64>;

    fn put(&mut self, key: FlvSeekFrom, offset: u64);
}

/// The cache that remembers nothing.
impl IndexCache for () {
    fn get(&self, key: FlvSeekFrom) -> (r: Option<u64>)
        ensures
            r is None,
    {
        None
    }

    fn put(&mut self, key: FlvSeekFrom, offset: u64) {
    }
}

/// Each position occurs at most once.
pub open spec fn unique_keys(s: Seq<(FlvSeekFrom, u64)>) -> bool {
    forall|i: int, j: int| 0 <= i < j < s.len() ==> (#[trigger] s[i]).0 != (#[trigger] s[j]).0
}

/// The offset recorded for `k`, if any.
pub open spec fn recorded(s: Seq<(FlvSeekFrom, u64)>, k: FlvSeekFrom) -> Option<u64> {
    if exists|i: int| 0 <= i < s.len() && (#[trigger] s[i]).0 == k {
        Some(s[choose|i: int| 0 <= i < s.len() && (#[trigger] s[i]).0 == k].1)
    } else {
        None
    }
}

proof fn lemma_recorded_at(s: Seq<(FlvSeekFrom, u64)>, i: int)
    requires
        unique_keys(s),
        0 <= i < s.len(),
    ensures
        recorded(s, s[i].0) == Some(s[i].1),
{
    let k = s[i].0;
    assert(exists|j: int| 0 <= j < s.len() && (#[trigger] s[j]).0 == k);
    let j = choose|j: int| 0 <= j < s.len() && (#[trigger] s[j]).0 == k;
    if j != i {
        if j < i {
            assert(s[j].0 != s[i].0);
        } else {
            assert(s[i].0 != s[j].0);
        }
    }
}

/// A cache that keeps every offset recorded in it for the whole session.
#[derive(Debug, Clone)]
pub struct FlvIndexCache {
    cache: Vec<(FlvSeekFrom, u64)>,
}

impl FlvIndexCache {
    /// The recorded positions and offsets.
    pub closed spec fn entries(&self) -> Seq<(FlvSeekFrom, u64)> {
        self.cache@
    }

    pub open spec fn wf(&self) -> bool {
        unique_keys(self.entries())
    }

    /// An empty cache.
    pub fn new() -> (r: FlvIndexCache)
        ensures
            r.wf(),
            r.entries() == Seq::<(FlvSeekFrom, u64)>::empty(),
    {
        FlvIndexCache { cache: Vec::new() }
    }

    /// An empty cache with room for `capacity` entries.
    pub fn with_capacity(capacity: usize) -> (r: FlvIndexCache)
        ensures
            r.wf(),
            r.entries() == Seq::<(FlvSeekFrom, u64)>::empty(),
    {
        FlvIndexCache { cache: Vec::with_capacity(capacity) }
    }

    /// Position of `key` in the entries, if it is there.
    fn find(&self, key: FlvSeekFrom) -> (r: Option<usize>)
        ensures
            r is None ==> forall|i: int| 0 <= i < self.entries().len() ==> (#[trigger] self.entries()[i]).0 != key,
            r is Some ==> r->Some_0 < self.entries().len() && self.entries()[r->Some_0 as int].0 == key,
    {
        let mut i: usize = 0;
        while i < self.cache.len()
            invariant
                i <= self.cache@.len(),
                forall|j: int| 0 <= j < i ==> (#[trigger] self.cache@[j]).0 != key,
            decreases self.cache@.len() - i,
        {
            if self.cache[i].0 == key {
                return Some(i);
            }
            i = i + 1;
        }
        None
    }
}

impl IndexCache for FlvIndexCache {
    fn get(&self, key: FlvSeekFrom) -> (r: Option<u64>)
        ensures
            self.wf() ==> r == recorded(self.entries(), key),
    {
        match self.find(key) {
            Some(i) => {
                proof {
                    if self.wf() {
                        lemma_recorded_at(self.entries(), i as int);
                    }
                }
                Some(self.cache[i].1)
            },
            None => None,
        }
    }

    fn put(&mut self, key: FlvSeekFrom, offset: u64)
        ensures
            old(self).wf() ==> final(self).wf(),
            old(self).wf() ==> forall|k: FlvSeekFrom| #[trigger]
                recorded(final(self).entries(), k) == if k == key {
                    Some(offset)
                } else {
                    recorded(old(self).entries(), k)
                },
    {
        let ghost s = self.cache@;
        match self.find(key) {
            Some(i) => {
                self.cache.set(i, (key, offset));
                let ghost n = self.cache@;
                proof {
                    if unique_keys(s) {
                        assert(unique_keys(n)) by {
                            assert forall|a: int, b: int| 0 <= a < b < n.len() implies (#[trigger] n[a]).0 != (#[trigger] n[b]).0 by {
                                assert(s[a].0 != s[b].0);
                            }
                        }
                        assert forall|k: FlvSeekFrom| #[trigger]
                            recorded(n, k) == if k == key {
                                Some(offset)
                            } else {
                                recorded(s, k)
                            } by {
                            lemma_recorded_at(n, i as int);
                            if k != key {
                                if exists|j: int| 0 <= j < s.len() && (#[trigger] s[j]).0 == k {
                                    let j = choose|j: int| 0 <= j < s.len() && (#[trigger] s[j]).0 == k;
                                    lemma_recorded_at(s, j);
                                    lemma_recorded_at(n, j);
                                } else {
                                    assert(!exists|j: int| 0 <= j < n.len() && (#[trigger] n[j]).0 == k) by {
                                        if exists|j: int| 0 <= j < n.len() && (#[trigger] n[j]).0 == k {
                                            let j = choose|j: int| 0 <= j < n.len() && (#[trigger] n[j]).0 == k;
                                            assert(s[j].0 == k);
                                        }
                                    }
                                }
                            }
                        }
                    }
                }
            },
            None => {
                self.cache.push((key, offset));
                let ghost n = self.cache@;
                proof {
                    if unique_keys(s) {
                        assert(forall|j: int| 0 <= j < s.len() ==> #[trigger] n[j] == s[j]);
                        assert(unique_keys(n)) by {
                            assert forall|a: int, b: int| 0 <= a < b < n.len() implies (#[trigger] n[a]).0 != (#[trigger] n[b]).0 by {
                                if b < s.len() {
                                    assert(s[a].0 != s[b].0);
                                }
                            }
                        }
                        assert forall|k: FlvSeekFrom| #[trigger]
                            recorded(n, k) == if k == key {
                                Some(offset)
                            } else {
                                recorded(s, k)
                            } by {
                            lemma_recorded_at(n, s.len() as int);
                            if k != key {
                                if exists|j: int| 0 <= j < s.len() && (#[trigger] s[j]).0 == k {
                                    let j = choose|j: int| 0 <= j < s.len() && (#[trigger] s[j]).0 == k;
                                    lemma_recorded_at(s, j);
                                    lemma_recorded_at(n, j);
                                } else {
                                    assert(!exists|j: int| 0 <= j < n.len() && (#[trigger] n[j]).0 == k) by {
                                        if exists|j: int| 0 <= j < n.len() && (#[trigger] n[j]).0 == k {
                                            let j = choose|j: int| 0 <= j < n.len() && (#[trigger] n[j]).0 == k;
                                            if j < s.len() {
                                                assert(s[j].0 == k);
                                            }
                                        }
                                    }
                                }
                            }
                        }
                    }
                }
            },
        }
    }
}

} // verus!
