//! A "set if larger" ratchet over a `u64` cell, and the client watermark
//! built from two such cells: the highest log id and log term the client has
//! observed. The watermark never decreases over the client's lifetime.

use vstd::prelude::*;

verus! {

/// The larger of two counters.
pub open spec fn larger(a: u64, b: u64) -> u64 {
    if b > a {
        b
    } else {
        a
    }
}

/// Advance `cell` to `value` when `value` is larger; otherwise leave it
/// alone. The cell never decreases.
pub fn swap_when_larger(cell: &mut u64, value: u64)
    ensures
        *final(cell) == larger(*old(cell), value),
{
    if value > *cell {
        *cell = value;
    }
}

/// The highest `(log id, log term)` pair the client has observed, advanced
/// only upward, each field independently.
pub struct Watermark {
    pub last_log_id: u64,
    pub last_log_term: u64,
}

impl Watermark {
    /// The watermark after ratcheting against a server-reported pair.
    pub open spec fn advanced(self, reported_term: u64, reported_id: u64) -> Watermark {
        Watermark {
            last_log_id: larger(self.last_log_id, reported_id),
            last_log_term: larger(self.last_log_term, reported_term),
        }
    }

    /// `other` is no fresher than `self` on either field.
    pub open spec fn dominates(self, other: Watermark) -> bool {
        other.last_log_id <= self.last_log_id && other.last_log_term <= self.last_log_term
    }

    pub fn new() -> (r: Watermark)
        ensures
            r.last_log_id == 0,
            r.last_log_term == 0,
    {
        Watermark { last_log_id: 0, last_log_term: 0 }
    }

    /// Ratchet both fields to the per-field maximum of the current and the
    /// server-reported values.
    pub fn advance(&mut self, reported_term: u64, reported_id: u64)
        ensures
            *final(self) == old(self).advanced(reported_term, reported_id),
            final(self).dominates(*old(self)),
    {
        swap_when_larger(&mut self.last_log_id, reported_id);
        swap_when_larger(&mut self.last_log_term, reported_term);
    }
}

/// Session consistency: once a successful query reports `(term, id)`, the
/// ratcheted watermark dominates both that report and the watermark held
/// before — so every later request, which carries the current watermark,
/// asks for state at least as fresh as what that query observed.
pub proof fn lemma_success_watermark_dominates(w: Watermark, reported_term: u64, reported_id: u64)
    ensures
        w.advanced(reported_term, reported_id).dominates(
            Watermark { last_log_id: reported_id, last_log_term: reported_term },
        ),
        w.advanced(reported_term, reported_id).dominates(w),
{
}

/// The value of a cell after a sequence of ratchet proposals has been applied
/// in order.
pub open spec fn fold_ratchet(init: u64, proposals: Seq<u64>) -> u64
    decreases proposals.len(),
{
    if proposals.len() == 0 {
        init
    } else {
        fold_ratchet(larger(init, proposals[0]), proposals.drop_first())
    }
}

/// The largest proposal in a sequence (zero when there is none).
pub open spec fn largest_of(proposals: Seq<u64>) -> u64
    decreases proposals.len(),
{
    if proposals.len() == 0 {
        0u64
    } else {
        larger(proposals[0], largest_of(proposals.drop_first()))
    }
}

/// Ratchet monotonicity: whatever order proposals arrive in, applying them
/// all leaves the cell at the maximum ever proposed (or at its initial value,
/// when that already dominates every proposal). In particular a smaller
/// proposal after a larger one changes nothing.
pub proof fn lemma_ratchet_reaches_maximum(init: u64, proposals: Seq<u64>)
    ensures
        fold_ratchet(init, proposals) == larger(init, largest_of(proposals)),
    decreases proposals.len(),
{
    if proposals.len() > 0 {
        lemma_ratchet_reaches_maximum(larger(init, proposals[0]), proposals.drop_first());
    }
}

} // verus!
