//! The progress registry (which items are in flight, and how far each got)
//! and the byte count of one running transfer.

use std::collections::HashMap;
use vstd::prelude::*;

verus! {

broadcast use vstd::std_specs::hash::group_hash_axioms;

/// How far one transfer got: bytes written so far, and the total that the
/// server declared, when it declared one.
#[derive(Clone, Copy, Debug, PartialEq, Eq)]
pub struct TransferProgress {
    pub done: u64,
    pub total: Option<u64>,
}

/// Map from item id to the progress of its running transfer. An item has an
/// entry exactly while a transfer of it is in flight.
pub struct ProgressRegistry {
    entries: HashMap<u64, TransferProgress>,
}

impl View for ProgressRegistry {
    type V = Map<u64, TransferProgress>;

    closed spec fn view(&self) -> Map<u64, TransferProgress> {
        self.entries@
    }
}

impl ProgressRegistry {
    /// A registry with no transfer in flight.
    pub fn new() -> (r: ProgressRegistry)
        ensures
            r@ == Map::<u64, TransferProgress>::empty(),
    {
        ProgressRegistry { entries: HashMap::new() }
    }

    /// Sets the progress of item `id`, adding the entry when it is missing.
    pub fn record(&mut self, id: u64, done: u64, total: Option<u64>)
        ensures
            final(self)@ == old(self)@.insert(id, (TransferProgress { done, total })),
    {
        self.entries.insert(id, TransferProgress { done, total });
    }

    /// Removes the entry of item `id`, if any.
    pub fn clear(&mut self, id: u64)
        ensures
            final(self)@ == old(self)@.remove(id),
    {
        self.entries.remove(&id);
    }

    /// The progress of item `id`, when a transfer of it is in flight.
    pub fn snapshot(&self, id: u64) -> (r: Option<TransferProgress>)
        ensures
            r == (if self@.contains_key(id) { Some(self@[id]) } else { None::<TransferProgress> }),
    {
        match self.entries.get(&id) {
            Some(p) => Some(*p),
            None => None,
        }
    }

    /// Whether a transfer of item `id` is in flight.
    pub fn is_in_flight(&self, id: u64) -> (r: bool)
        ensures
            r == self@.contains_key(id),
    {
        self.entries.contains_key(&id)
    }
}

/// Sum of chunk sizes.
pub open spec fn total_of(chunks: Seq<nat>) -> nat
    decreases chunks.len(),
{
    if chunks.len() == 0 {
        0
    } else {
        total_of(chunks.drop_last()) + chunks.last()
    }
}

/// The values reported after each chunk: the running byte counts.
pub open spec fn reports_of(chunks: Seq<nat>) -> Seq<nat> {
    Seq::new(chunks.len(), |i: int| total_of(chunks.take(i + 1)))
}

/// A finished transfer whose byte count differs from the total that the
/// server declared.
#[derive(Clone, Copy, Debug, PartialEq, Eq)]
pub struct LengthMismatch {
    pub done: u64,
    pub declared: u64,
}

/// Byte count of one running transfer: the chunks written so far and the
/// total that the server declared.
pub struct TransferTracker {
    pub done: u64,
    pub total: Option<u64>,
    pub chunks: Ghost<Seq<nat>>,
}

impl TransferTracker {
    /// The count equals the sum of the chunks written.
    pub open spec fn wf(&self) -> bool {
        self.done == total_of(self.chunks@)
    }

    /// A tracker before the first chunk.
    pub fn new(total: Option<u64>) -> (r: TransferTracker)
        ensures
            r.wf(),
            r.done == 0,
            r.total == total,
            r.chunks@ == Seq::<nat>::empty(),
    {
        TransferTracker { done: 0, total, chunks: Ghost(Seq::empty()) }
    }

    /// Counts a chunk of `n` bytes that was written, and returns the new
    /// count: the value handed to observers after this chunk.
    pub fn on_chunk(&mut self, n: u64) -> (r: u64)
        requires
            old(self).wf(),
            old(self).done + n <= u64::MAX,
        ensures
            final(self).wf(),
            final(self).total == old(self).total,
            final(self).chunks@ == old(self).chunks@.push(n as nat),
            final(self).done == old(self).done + n,
            r == final(self).done,
    {
        let ghost prev = self.chunks@;
        self.done = self.done + n;
        self.chunks = Ghost(prev.push(n as nat));
        assert(self.chunks@.drop_last() =~= prev);
        self.done
    }

    /// The outcome of a transfer whose body has ended: the byte count when
    /// no total was declared or the count equals it, else the mismatch.
    pub fn finish(&self) -> (r: Result<u64, LengthMismatch>)
        ensures
            r is Ok <==> (self.total is None || self.total == Some(self.done)),
            r matches Ok(d) ==> d == self.done,
            r matches Err(e) ==> self.total == Some(e.declared) && e.done == self.done,
    {
        match self.total {
            Some(t) => {
                if self.done == t {
                    Ok(self.done)
                } else {
                    Err(LengthMismatch { done: self.done, declared: t })
                }
            },
            None => Ok(self.done),
        }
    }

    /// Whether the server declared a total and the count has reached it.
    pub fn is_complete(&self) -> (r: bool)
        ensures
            r == (self.total matches Some(t) && self.done == t),
    {
        match self.total {
            Some(t) => self.done == t,
            None => false,
        }
    }
}

proof fn lemma_total_take_monotone(chunks: Seq<nat>, i: int, j: int)
    requires
        0 <= i <= j <= chunks.len(),
    ensures
        total_of(chunks.take(i)) <= total_of(chunks.take(j)),
    decreases j - i,
{
    if i < j {
        lemma_total_take_monotone(chunks, i, j - 1);
        assert(chunks.take(j).drop_last() =~= chunks.take(j - 1));
    }
}

/// The values reported by one transfer never decrease, the last one is the
/// number of bytes written, and it equals the declared total whenever the
/// body delivered that many bytes.
pub proof fn lemma_reports_monotone(chunks: Seq<nat>, declared: Option<nat>)
    requires
        declared matches Some(t) ==> total_of(chunks) == t,
    ensures
        forall|i: int, j: int|
            0 <= i <= j < chunks.len() ==> #[trigger] reports_of(chunks)[i] <= #[trigger] reports_of(
                chunks,
            )[j],
        chunks.len() > 0 ==> reports_of(chunks).last() == total_of(chunks),
        chunks.len() > 0 && declared is Some ==> reports_of(chunks).last() == declared->0,
{
    assert forall|i: int, j: int| 0 <= i <= j < chunks.len() implies #[trigger] reports_of(
        chunks,
    )[i] <= #[trigger] reports_of(chunks)[j] by {
        lemma_total_take_monotone(chunks, i + 1, j + 1);
    }
    if chunks.len() > 0 {
        assert(chunks.take(chunks.len() as int) =~= chunks);
    }
}

/// A transfer that `finish` accepts with a declared total above zero made at
/// least one report, and its last report is that total.
pub proof fn lemma_accepted_reports_total(t: TransferTracker)
    requires
        t.wf(),
        t.total == Some(t.done),
    ensures
        t.done > 0 ==> t.chunks@.len() > 0 && reports_of(t.chunks@).last() == t.total->0,
{
    if t.done > 0 {
        if t.chunks@.len() == 0 {
            assert(total_of(t.chunks@) == 0);
        }
        lemma_reports_monotone(t.chunks@, Some(t.done as nat));
    }
}

/// A first chunk that carries bytes is reported as progress above zero.
pub proof fn lemma_first_report_positive(chunks: Seq<nat>)
    requires
        chunks.len() > 0,
        chunks[0] > 0,
    ensures
        reports_of(chunks)[0] > 0,
{
    assert(chunks.take(1).drop_last() =~= Seq::<nat>::empty());
}

} // verus!
