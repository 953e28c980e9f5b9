//! Searches over a sampled coefficient table (reflectivity or absorptivity
//! against frequency).
//!
//! The samples are sorted by the key of their abscissa, stably, and a query
//! is then placed below the table, above it, or within one interval of it.
use vstd::prelude::*;
use crate::history::nondecreasing;

verus! {

/// Sample `a` comes before sample `b` in a stable sort by key: its key is
/// smaller, or the keys are equal and it came first.
pub open spec fn precedes(keys: Seq<u64>, a: usize, b: usize) -> bool {
    keys[a as int] < keys[b as int] || (keys[a as int] == keys[b as int] && a < b)
}

/// Index `k` occurs in `order`.
pub open spec fn lists(order: Seq<usize>, k: int) -> bool {
    exists|i: int| 0 <= i < order.len() && #[trigger] order[i] == k
}

/// `order` lists every index of `keys` once, in the order of a stable sort by
/// key.
pub open spec fn stable_order(keys: Seq<u64>, order: Seq<usize>) -> bool {
    &&& order.len() == keys.len()
    &&& forall|i: int| 0 <= i < order.len() ==> #[trigger] order[i] < keys.len()
    &&& forall|i: int, j: int| 0 <= i < j < order.len() ==> precedes(keys, #[trigger] order[i], #[trigger] order[j])
    &&& forall|k: int| 0 <= k < keys.len() ==> #[trigger] lists(order, k)
}

/// The order in which a stable sort by key puts the samples with these keys.
pub fn sort_order(keys: &Vec<u64>) -> (r: Vec<usize>)
    ensures
        stable_order(keys@, r@),
{
    let n = keys.len();
    let mut order: Vec<usize> = Vec::new();
    let mut j: usize = 0;
    while j < n
        invariant
            n == keys@.len(),
            j <= n,
            order@.len() == j,
            forall|i: int| 0 <= i < order@.len() ==> #[trigger] order@[i] < j,
            forall|a: int, b: int| 0 <= a < b < order@.len() ==> precedes(keys@, #[trigger] order@[a], #[trigger] order@[b]),
            forall|k: int| 0 <= k < j ==> #[trigger] lists(order@, k),
        decreases n - j,
    {
        let key = keys[j];
        // samples already placed whose key is at most `key` come first
        let mut pos: usize = 0;
        while pos < order.len() && keys[order[pos]] <= key
            invariant
                n == keys@.len(),
                j < n,
                key == keys@[j as int],
                order@.len() == j,
                pos <= order@.len(),
                forall|i: int| 0 <= i < order@.len() ==> #[trigger] order@[i] < j,
                forall|i: int| 0 <= i < pos ==> keys@[#[trigger] order@[i] as int] <= key,
            decreases order@.len() - pos,
        {
            pos = pos + 1;
        }
        let ghost before = order@;
        proof {
            assert forall|i: int| pos <= i < before.len() implies key < keys@[#[trigger] before[i] as int] by {
                if i > pos {
                    assert(precedes(keys@, before[pos as int], before[i]));
                }
            }
        }
        order.insert(pos, j);
        proof {
            assert forall|a: int, b: int| 0 <= a < b < order@.len() implies precedes(keys@, #[trigger] order@[a], #[trigger] order@[b]) by {
                if b < pos {
                    assert(order@[a] == before[a] && order@[b] == before[b]);
                } else if b == pos {
                    assert(order@[a] == before[a]);
                } else if a < pos {
                    assert(order@[a] == before[a] && order@[b] == before[b - 1]);
                    assert(precedes(keys@, before[a], before[b - 1]));
                } else if a == pos {
                    assert(order@[b] == before[b - 1]);
                } else {
                    assert(order@[a] == before[a - 1] && order@[b] == before[b - 1]);
                    assert(precedes(keys@, before[a - 1], before[b - 1]));
                }
            }
            assert forall|k: int| 0 <= k < j + 1 implies #[trigger] lists(order@, k) by {
                if k == j {
                    assert(order@[pos as int] == k);
                } else {
                    assert(lists(before, k));
                    let i0 = choose|i: int| 0 <= i < before.len() && #[trigger] before[i] == k;
                    if i0 < pos {
                        assert(order@[i0] == k);
                    } else {
                        assert(order@[i0 + 1] == k);
                    }
                }
            }
        }
        j = j + 1;
    }
    order
}

/// Where a query falls against a table's abscissae.
#[derive(Clone, Copy, Debug, PartialEq, Eq, Structural)]
pub enum Span {
    /// At or below the first abscissa.
    Below,
    /// At or above the last abscissa, and above the first.
    Above,
    /// Strictly inside the table, in the interval that starts at the index:
    /// above its start and at most its end.
    Within(usize),
}

/// `r` is where `key` falls against the sorted abscissa keys `keys`.
pub open spec fn spans(keys: Seq<u64>, key: u64, r: Span) -> bool {
    match r {
        Span::Below => key <= keys[0],
        Span::Above => keys[0] < key && keys[keys.len() - 1] <= key,
        Span::Within(i) => {
            &&& key < keys[keys.len() - 1]
            &&& i + 1 < keys.len()
            &&& keys[i as int] < key
            &&& key <= keys[i + 1]
        },
    }
}

/// Where the query with key `key` falls against the sorted, non-empty
/// abscissa keys `keys`.
pub fn span(keys: &Vec<u64>, key: u64) -> (r: Span)
    requires
        keys@.len() > 0,
        nondecreasing(keys@),
    ensures
        spans(keys@, key, r),
{
    let n = keys.len();
    if key <= keys[0] {
        return Span::Below;
    }
    if keys[n - 1] <= key {
        return Span::Above;
    }
    // first index whose key is at least `key`
    let mut lo: usize = 1;
    let mut hi: usize = n - 1;
    while lo < hi
        invariant
            n == keys@.len(),
            nondecreasing(keys@),
            1 <= lo <= hi <= n - 1,
            forall|j: int| 0 <= j < lo ==> keys@[j] < key,
            forall|j: int| hi <= j < n ==> key <= keys@[j],
        decreases hi - lo,
    {
        let mid = lo + (hi - lo) / 2;
        if keys[mid] < key {
            lo = mid + 1;
        } else {
            hi = mid;
        }
    }
    Span::Within(lo - 1)
}

/// A table needs at least two samples, and one abscissa key per sample.
#[derive(Clone, Copy, Debug, PartialEq, Eq, Structural)]
pub enum TableError {
    /// Fewer than two samples.
    TooFewSamples,
    /// The number of keys differs from the number of samples.
    KeyCountMismatch,
}

/// Samples of type `S` of a tabulated coefficient, sorted by the key of their
/// abscissa.
pub struct SampleTable<S> {
    keys: Vec<u64>,
    samples: Vec<S>,
}

/// `sorted` is `items` taken in the order `order`.
pub open spec fn reordered<T>(items: Seq<T>, order: Seq<usize>, sorted: Seq<T>) -> bool {
    &&& sorted.len() == order.len()
    &&& forall|i: int| 0 <= i < order.len() ==> sorted[i] == items[#[trigger] order[i] as int]
}

impl<S: Copy> SampleTable<S> {
    /// The abscissa keys, in ascending order.
    pub closed spec fn keys(&self) -> Seq<u64> {
        self.keys@
    }

    /// The samples, in the order of their keys.
    pub closed spec fn samples(&self) -> Seq<S> {
        self.samples@
    }

    /// At least two samples, one key each, keys in ascending order.
    pub open spec fn wf(&self) -> bool {
        &&& self.keys().len() >= 2
        &&& self.keys().len() == self.samples().len()
        &&& nondecreasing(self.keys())
    }

    /// The table of `samples`, the sample `i` with abscissa key `keys[i]`,
    /// sorted stably by key.
    pub fn from_samples(keys: &Vec<u64>, samples: &Vec<S>) -> (r: Result<Self, TableError>)
        ensures
            r is Err <==> (keys@.len() != samples@.len() || samples@.len() < 2),
            r matches Err(e) ==> (e == TableError::KeyCountMismatch <==> keys@.len() != samples@.len()),
            r matches Ok(t) ==> t.wf() && exists|order: Seq<usize>|
                stable_order(keys@, order) && reordered(keys@, order, t.keys()) && reordered(
                    samples@,
                    order,
                    t.samples(),
                ),
    {
        if keys.len() != samples.len() {
            return Err(TableError::KeyCountMismatch);
        }
        if samples.len() < 2 {
            return Err(TableError::TooFewSamples);
        }
        let order = sort_order(keys);
        let mut sorted_keys: Vec<u64> = Vec::new();
        let mut sorted_samples: Vec<S> = Vec::new();
        let mut i: usize = 0;
        while i < order.len()
            invariant
                stable_order(keys@, order@),
                keys@.len() == samples@.len(),
                i <= order@.len(),
                sorted_keys@.len() == i,
                sorted_samples@.len() == i,
                forall|m: int| 0 <= m < i ==> sorted_keys@[m] == keys@[#[trigger] order@[m] as int],
                forall|m: int| 0 <= m < i ==> sorted_samples@[m] == samples@[#[trigger] order@[m] as int],
            decreases order@.len() - i,
        {
            let k = order[i];
            sorted_keys.push(keys[k]);
            sorted_samples.push(samples[k]);
            i = i + 1;
        }
        let t = SampleTable { keys: sorted_keys, samples: sorted_samples };
        proof {
            assert forall|a: int, b: int| 0 <= a <= b < t.keys().len() implies t.keys()[a] <= t.keys()[b] by {
                if a < b {
                    assert(precedes(keys@, order@[a], order@[b]));
                }
            }
            assert(reordered(keys@, order@, t.keys()));
            assert(reordered(samples@, order@, t.samples()));
        }
        Ok(t)
    }

    /// Number of samples.
    pub fn len(&self) -> (r: usize)
        requires
            self.wf(),
        ensures
            r == self.samples().len(),
    {
        self.samples.len()
    }

    /// Sample `i` in key order.
    pub fn sample(&self, i: usize) -> (r: S)
        requires
            self.wf(),
            i < self.samples().len(),
        ensures
            r == self.samples()[i as int],
    {
        self.samples[i]
    }

    /// The first sample.
    pub fn first(&self) -> (r: S)
        requires
            self.wf(),
        ensures
            r == self.samples()[0],
    {
        self.samples[0]
    }

    /// The last sample.
    pub fn last(&self) -> (r: S)
        requires
            self.wf(),
        ensures
            r == self.samples().last(),
    {
        self.samples[self.samples.len() - 1]
    }

    /// Where the query with key `key` falls against the table.
    pub fn locate(&self, key: u64) -> (r: Span)
        requires
            self.wf(),
        ensures
            spans(self.keys(), key, r),
    {
        span(&self.keys, key)
    }
}

/// At most one span places a key against non-decreasing keys.
pub proof fn lemma_spans_unique(keys: Seq<u64>, key: u64, a: Span, b: Span)
    requires
        keys.len() > 0,
        nondecreasing(keys),
        spans(keys, key, a),
        spans(keys, key, b),
    ensures
        a == b,
{
}

} // verus!
