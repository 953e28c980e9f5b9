//! The append-only trajectory history and its retarded-time lookup.
//!
//! Records are kept in the order they were appended, each under the key of
//! its time (see [`crate::time_key`]). Keys never decrease, so a lookup by
//! time is a binary search.
use vstd::prelude::*;

verus! {

/// Keys that never decrease along the sequence.
pub open spec fn nondecreasing(keys: Seq<u64>) -> bool {
    forall|i: int, j: int| 0 <= i <= j < keys.len() ==> keys[i] <= keys[j]
}

/// Where a time falls among the recorded times.
#[derive(Clone, Copy, Debug, PartialEq, Eq, Structural)]
pub enum Bracket {
    /// The time is recorded; the index is the last record made at that time.
    At(usize),
    /// The time lies strictly between the record at the index and the next one.
    Within(usize),
    /// The time is before the first record or after the last one, or nothing
    /// is recorded.
    Outside,
}

/// `r` is where `key` falls among `keys`.
pub open spec fn locates(keys: Seq<u64>, key: u64, r: Bracket) -> bool {
    match r {
        Bracket::At(i) => {
            &&& i < keys.len()
            &&& keys[i as int] == key
            &&& (i + 1 == keys.len() || key < keys[i + 1])
        },
        Bracket::Within(i) => {
            &&& i + 1 < keys.len()
            &&& keys[i as int] < key
            &&& key < keys[i + 1]
        },
        Bracket::Outside => keys.len() == 0 || key < keys[0] || keys[keys.len() - 1] < key,
    }
}

/// The log refuses a record whose time is before the last recorded time.
#[derive(Clone, Copy, Debug, PartialEq, Eq, Structural)]
pub struct OutOfOrder;

/// Records of type `R` in the order they were made, each under a time key.
pub struct HistoryLog<R> {
    keys: Vec<u64>,
    records: Vec<R>,
}

impl<R> HistoryLog<R> {
    /// The time keys, oldest first.
    pub closed spec fn keys(&self) -> Seq<u64> {
        self.keys@
    }

    /// The records, oldest first.
    pub closed spec fn records(&self) -> Seq<R> {
        self.records@
    }

    /// One key per record, and keys that never decrease.
    pub open spec fn wf(&self) -> bool {
        &&& self.keys().len() == self.records().len()
        &&& nondecreasing(self.keys())
    }

    /// An empty log.
    pub fn new() -> (r: Self)
        ensures
            r.wf(),
            r.keys().len() == 0,
    {
        HistoryLog { keys: Vec::new(), records: Vec::new() }
    }

    /// Number of records.
    pub fn len(&self) -> (r: usize)
        requires
            self.wf(),
        ensures
            r == self.records().len(),
    {
        self.records.len()
    }

    /// Appends `record` under `key`, or refuses it when `key` is below the
    /// last recorded key.
    pub fn append(&mut self, key: u64, record: R) -> (r: Result<(), OutOfOrder>)
        requires
            old(self).wf(),
        ensures
            final(self).wf(),
            r is Ok <==> (old(self).keys().len() == 0 || old(self).keys().last() <= key),
            r is Ok ==> final(self).keys() == old(self).keys().push(key)
                && final(self).records() == old(self).records().push(record),
            r is Err ==> final(self).keys() == old(self).keys()
                && final(self).records() == old(self).records(),
    {
        let n = self.keys.len();
        if n > 0 && key < self.keys[n - 1] {
            return Err(OutOfOrder);
        }
        self.keys.push(key);
        self.records.push(record);
        Ok(())
    }

    /// Key of record `i`.
    pub fn key(&self, i: usize) -> (r: u64)
        requires
            self.wf(),
            i < self.keys().len(),
        ensures
            r == self.keys()[i as int],
    {
        self.keys[i]
    }

    /// Record `i`.
    pub fn record(&self, i: usize) -> (r: &R)
        requires
            self.wf(),
            i < self.records().len(),
        ensures
            *r == self.records()[i as int],
    {
        &self.records[i]
    }

    /// The most recent record, if any.
    pub fn last(&self) -> (r: Option<&R>)
        requires
            self.wf(),
        ensures
            self.records().len() == 0 ==> r is None,
            self.records().len() > 0 ==> r == Some(&self.records().last()),
    {
        let n = self.records.len();
        if n == 0 {
            None
        } else {
            Some(&self.records[n - 1])
        }
    }

    /// Where the time with key `key` falls among the recorded times.
    ///
    /// A recorded time gives [`Bracket::At`] with the last record made at
    /// that time, so its value is read as it was recorded.
    pub fn locate(&self, key: u64) -> (r: Bracket)
        requires
            self.wf(),
        ensures
            locates(self.keys(), key, r),
    {
        let n = self.keys.len();
        // first index whose key is above `key`
        let mut lo: usize = 0;
        let mut hi: usize = n;
        while lo < hi
            invariant
                self.wf(),
                n == self.keys().len(),
                lo <= hi <= n,
                forall|j: int| 0 <= j < lo ==> self.keys()[j] <= key,
                forall|j: int| hi <= j < n ==> key < self.keys()[j],
            decreases hi - lo,
        {
            let mid = lo + (hi - lo) / 2;
            if self.keys[mid] <= key {
                lo = mid + 1;
            } else {
                hi = mid;
            }
        }
        if lo == 0 {
            Bracket::Outside
        } else if self.keys[lo - 1] == key {
            Bracket::At(lo - 1)
        } else if lo < n {
            Bracket::Within(lo - 1)
        } else {
            Bracket::Outside
        }
    }
}

/// At most one bracket locates a key among non-decreasing keys.
pub proof fn lemma_locates_unique(keys: Seq<u64>, key: u64, a: Bracket, b: Bracket)
    requires
        nondecreasing(keys),
        locates(keys, key, a),
        locates(keys, key, b),
    ensures
        a == b,
{
}

/// A recorded time is located at a record made at that time; when no two
/// records share a time, at that very record.
pub proof fn lemma_recorded_time_located(keys: Seq<u64>, i: int, r: Bracket)
    requires
        nondecreasing(keys),
        0 <= i < keys.len(),
        locates(keys, keys[i], r),
    ensures
        r is At,
        keys[r->At_0 as int] == keys[i],
        (forall|j: int| 0 <= j < keys.len() && j != i ==> keys[j] != keys[i]) ==> r == Bracket::At(
            i as usize,
        ),
{
}

} // verus!
