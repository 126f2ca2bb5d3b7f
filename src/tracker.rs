use vstd::prelude::*;

verus! {

/// State of a generation run: it stops once every column has a frame or the
/// source has no more frames.
#[derive(Debug, Clone, Copy, PartialEq, Eq, Structural)]
pub enum Phase {
    Running,
    Done,
}

/// Counts, per timeline column, how many frames have landed in it.
pub struct CompletionTracker {
    pub done: Vec<u64>,
}

/// Number of the first `n` counters that are at least one.
pub open spec fn filled(done: Seq<u64>, n: nat) -> nat
    decreases n,
{
    if n == 0 {
        0
    } else {
        filled(done, (n - 1) as nat) + if done[n - 1] >= 1 {
            1nat
        } else {
            0nat
        }
    }
}

/// A counter after one more frame; it stays at its maximum once there.
pub open spec fn bumped(n: u64) -> u64 {
    if n < u64::MAX {
        (n + 1) as u64
    } else {
        n
    }
}

proof fn lemma_filled_bound(done: Seq<u64>, n: nat)
    ensures
        filled(done, n) <= n,
    decreases n,
{
    if n > 0 {
        lemma_filled_bound(done, (n - 1) as nat);
    }
}

impl CompletionTracker {
    /// Every column has at least one frame.
    pub open spec fn complete_spec(&self) -> bool {
        forall|i: int| 0 <= i < self.done@.len() ==> #[trigger] self.done@[i] >= 1
    }

    /// A tracker for `width` columns, none of them filled.
    pub fn new(width: usize) -> (r: CompletionTracker)
        ensures
            r.done@.len() == width,
            forall|i: int| 0 <= i < width ==> r.done@[i] == 0,
    {
        CompletionTracker { done: vec![0u64; width] }
    }

    /// Counts one more frame for column `i`.
    pub fn record(&mut self, i: usize)
        requires
            i < old(self).done@.len(),
        ensures
            final(self).done@ == old(self).done@.update(i as int, bumped(old(self).done@[i as int])),
    {
        let n = self.done[i];
        if n < u64::MAX {
            self.done[i] = n + 1;
        }
    }

    /// Whether every column has at least one frame.
    pub fn is_complete(&self) -> (r: bool)
        ensures
            r == self.complete_spec(),
    {
        let mut i: usize = 0;
        while i < self.done.len()
            invariant
                i <= self.done@.len(),
                forall|j: int| 0 <= j < i ==> #[trigger] self.done@[j] >= 1,
            decreases self.done@.len() - i,
        {
            if self.done[i] == 0 {
                return false;
            }
            i = i + 1;
        }
        true
    }

    /// Number of columns that have at least one frame.
    pub fn columns_done(&self) -> (r: usize)
        ensures
            r == filled(self.done@, self.done@.len()),
    {
        let mut count: usize = 0;
        let mut i: usize = 0;
        while i < self.done.len()
            invariant
                i <= self.done@.len(),
                count == filled(self.done@, i as nat),
            decreases self.done@.len() - i,
        {
            proof {
                lemma_filled_bound(self.done@, i as nat);
            }
            if self.done[i] >= 1 {
                count = count + 1;
            }
            i = i + 1;
        }
        count
    }

    /// The phase after a pull from the source: done once every column is
    /// filled or the source is exhausted.
    pub fn phase(&self, exhausted: bool) -> (r: Phase)
        ensures
            r == Phase::Done <==> (exhausted || self.complete_spec()),
    {
        if exhausted || self.is_complete() {
            Phase::Done
        } else {
            Phase::Running
        }
    }
}

} // verus!
