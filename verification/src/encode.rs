//! Encode jobs and their progress.
use vstd::prelude::*;

use crate::codec::EncodeRecipe;

verus! {

/// One file to encode: input path, output path, recipe, and whether an
/// existing output file may be replaced.
#[derive(Debug, Clone)]
pub struct EncodeJob {
    pub input: String,
    pub output: String,
    pub recipe: EncodeRecipe,
    pub overwrite: bool,
}

impl EncodeJob {
    pub fn new(input: String, output: String, recipe: EncodeRecipe, overwrite: bool) -> (r: Self)
        ensures
            r.input@ == input@,
            r.output@ == output@,
            r.recipe == recipe,
            r.overwrite == overwrite,
    {
        EncodeJob { input, output, recipe, overwrite }
    }
}

/// Progress of one encode job: the number of frames to process (known once
/// the input is read) and the number processed so far.
#[derive(Debug)]
pub struct JobProgress {
    processed: u64,
    total: u64,
}

impl JobProgress {
    /// Frames processed so far.
    pub closed spec fn spec_processed(&self) -> u64 {
        self.processed
    }

    /// Frames to process.
    pub closed spec fn spec_total(&self) -> u64 {
        self.total
    }

    /// No frames to process yet, none processed.
    pub fn new() -> (r: Self)
        ensures
            r.spec_processed() == 0,
            r.spec_total() == 0,
    {
        JobProgress { processed: 0, total: 0 }
    }

    /// Sets the number of frames to process.
    pub fn set_total(&mut self, total: u64)
        ensures
            final(self).spec_total() == total,
            final(self).spec_processed() == old(self).spec_processed(),
    {
        self.total = total;
    }

    /// Counts `count` more processed frames (wrapping at 2^64).
    pub fn add_processed(&mut self, count: u64)
        ensures
            final(self).spec_processed() == (old(self).spec_processed() + count) % 0x1_0000_0000_0000_0000,
            final(self).spec_total() == old(self).spec_total(),
    {
        self.processed = self.processed.wrapping_add(count);
    }

    /// The progress as a fraction `numerator / denominator` between 0 and
    /// 1: processed frames capped at the total, over the total; 0 / 1 while
    /// the total is unknown (0).
    pub fn ratio_parts(&self) -> (r: (u64, u64))
        ensures
            r == (if self.spec_total() == 0 {
                (0u64, 1u64)
            } else if self.spec_processed() < self.spec_total() {
                (self.spec_processed(), self.spec_total())
            } else {
                (self.spec_total(), self.spec_total())
            }),
            r.0 <= r.1,
            r.1 > 0,
    {
        if self.total == 0 {
            (0, 1)
        } else if self.processed < self.total {
            (self.processed, self.total)
        } else {
            (self.total, self.total)
        }
    }
}

/// Sum of the counts.
pub open spec fn count_sum(counts: Seq<u64>) -> nat
    decreases counts.len(),
{
    if counts.len() == 0 {
        0
    } else {
        count_sum(counts.drop_last()) + counts.last() as nat
    }
}

/// The processed count after `add_processed` was called with each of
/// `counts` in turn, starting from `k`.
pub open spec fn processed_after(k: nat, counts: Seq<u64>) -> nat
    decreases counts.len(),
{
    if counts.len() == 0 {
        k
    } else {
        ((processed_after(k, counts.drop_last()) + counts.last()) % 0x1_0000_0000_0000_0000) as nat
    }
}

/// No count is lost: after calls of `add_processed` with `counts`, the
/// processed count is the starting count plus their sum, as long as that
/// sum fits in 64 bits.
pub proof fn lemma_processed_counts_every_call(k: u64, counts: Seq<u64>)
    requires
        k + count_sum(counts) <= u64::MAX,
    ensures
        processed_after(k as nat, counts) == k + count_sum(counts),
    decreases counts.len(),
{
    if counts.len() > 0 {
        lemma_processed_counts_every_call(k, counts.drop_last());
    }
}

impl Default for JobProgress {
    fn default() -> (r: Self)
        ensures
            r.spec_processed() == 0,
            r.spec_total() == 0,
    {
        JobProgress::new()
    }
}

} // verus!
