//! Cycle accounting of the embedded filter: the ticks that one update took,
//! read off the 24-bit SysTick down-counter, and whether all updates took
//! the same number of ticks.
use vstd::prelude::*;

verus! {

/// The SysTick reload value: the counter counts down through 24 bits.
pub const SYST_RELOAD: u32 = 0x00FF_FFFF;

/// The ticks between two readings of the down-counter (`before` taken
/// first), modulo the counter's 24-bit period.
pub fn elapsed_ticks(before: u32, after: u32) -> (r: u32)
    ensures
        r as int == (before as int - after as int) % 0x100_0000,
{
    let d = before.wrapping_sub(after);
    let r = d & SYST_RELOAD;
    assert(d == (if before >= after { before - after } else { before + 0x1_0000_0000 - after }));
    assert(r == d % 0x100_0000) by (bit_vector)
        requires
            r == d & 0x00FF_FFFFu32,
    ;
    assert(d as int % 0x100_0000 == (before as int - after as int) % 0x100_0000) by (nonlinear_arith)
        requires
            d == (if before >= after { before - after } else { before + 0x1_0000_0000 - after }),
    ;
    r
}

/// The least of `s`, or `u32::MAX` for no element.
pub open spec fn seq_min(s: Seq<u32>) -> u32
    decreases s.len(),
{
    if s.len() == 0 {
        u32::MAX
    } else {
        let m = seq_min(s.drop_last());
        if s.last() < m {
            s.last()
        } else {
            m
        }
    }
}

/// The greatest of `s`, or 0 for no element.
pub open spec fn seq_max(s: Seq<u32>) -> u32
    decreases s.len(),
{
    if s.len() == 0 {
        0
    } else {
        let m = seq_max(s.drop_last());
        if s.last() > m {
            s.last()
        } else {
            m
        }
    }
}

/// How the updates' tick counts spread.
#[derive(Debug, Clone, Copy, PartialEq, Eq, Structural)]
pub enum TickSummary {
    /// Every update took exactly `ticks` ticks.
    Flat { ticks: u32 },
    /// The updates took between `min` and `max` ticks; `spread` is the
    /// difference.
    Variable { min: u32, max: u32, spread: u32 },
}

/// The least and greatest tick counts seen so far.
pub struct TickStats {
    min: u32,
    max: u32,
    seen: Ghost<Seq<u32>>,
}

impl TickStats {
    /// The least and greatest fields always agree with the counts recorded.
    #[verifier::type_invariant]
    spec fn tracks_samples(self) -> bool {
        self.min == seq_min(self.seen@) && self.max == seq_max(self.seen@)
    }

    /// The tick counts recorded so far, in order; the least and greatest are
    /// `seq_min` and `seq_max` of them.
    pub closed spec fn samples(&self) -> Seq<u32> {
        self.seen@
    }

    /// No tick count recorded yet.
    pub fn new() -> (r: TickStats)
        ensures
            r.samples() == Seq::<u32>::empty(),
    {
        TickStats { min: u32::MAX, max: 0, seen: Ghost(Seq::empty()) }
    }

    /// Records the tick count of one more update.
    pub fn record(&mut self, ticks: u32)
        ensures
            final(self).samples() == old(self).samples().push(ticks),
    {
        proof {
            use_type_invariant(&*self);
        }
        let min = if ticks < self.min {
            ticks
        } else {
            self.min
        };
        let max = if ticks > self.max {
            ticks
        } else {
            self.max
        };
        let ghost seen = self.seen@.push(ticks);
        assert(seen.drop_last() =~= self.seen@);
        *self = TickStats { min, max, seen: Ghost(seen) };
    }

    /// The least tick count recorded (`u32::MAX` when none is).
    pub fn min(&self) -> (r: u32)
        ensures
            r == seq_min(self.samples()),
    {
        proof {
            use_type_invariant(self);
        }
        self.min
    }

    /// The greatest tick count recorded (0 when none is).
    pub fn max(&self) -> (r: u32)
        ensures
            r == seq_max(self.samples()),
    {
        proof {
            use_type_invariant(self);
        }
        self.max
    }

    /// Flat when every recorded update took the same number of ticks,
    /// otherwise the range.
    pub fn summary(&self) -> (r: TickSummary)
        requires
            self.samples().len() > 0,
        ensures
            r == (if seq_min(self.samples()) == seq_max(self.samples()) {
                TickSummary::Flat { ticks: seq_min(self.samples()) }
            } else {
                TickSummary::Variable {
                    min: seq_min(self.samples()),
                    max: seq_max(self.samples()),
                    spread: (seq_max(self.samples()) - seq_min(self.samples())) as u32,
                }
            }),
    {
        proof {
            use_type_invariant(self);
            lemma_min_max_bounds(self.seen@);
        }
        if self.min == self.max {
            TickSummary::Flat { ticks: self.min }
        } else {
            TickSummary::Variable { min: self.min, max: self.max, spread: self.max - self.min }
        }
    }
}

/// Every element lies between the least and the greatest, and both are
/// elements.
pub proof fn lemma_min_max_bounds(s: Seq<u32>)
    requires
        s.len() > 0,
    ensures
        forall|i: int| 0 <= i < s.len() ==> seq_min(s) <= #[trigger] s[i] <= seq_max(s),
        s.contains(seq_min(s)),
        s.contains(seq_max(s)),
    decreases s.len(),
{
    if s.len() > 1 {
        lemma_min_max_bounds(s.drop_last());
        assert forall|i: int| 0 <= i < s.len() implies seq_min(s) <= #[trigger] s[i] <= seq_max(s) by {
            if i < s.len() - 1 {
                assert(s[i] == s.drop_last()[i]);
            }
        }
        let a = choose|k: int| 0 <= k < s.drop_last().len() && s.drop_last()[k] == seq_min(s.drop_last());
        let b = choose|k: int| 0 <= k < s.drop_last().len() && s.drop_last()[k] == seq_max(s.drop_last());
        assert(s[a] == s.drop_last()[a]);
        assert(s[b] == s.drop_last()[b]);
        assert(s[s.len() - 1] == s.last());
        if s.last() < seq_min(s.drop_last()) {
            assert(s[s.len() - 1] == seq_min(s));
        } else {
            assert(s[a] == seq_min(s));
        }
        if s.last() > seq_max(s.drop_last()) {
            assert(s[s.len() - 1] == seq_max(s));
        } else {
            assert(s[b] == seq_max(s));
        }
    } else {
        assert(s.drop_last().len() == 0);
        assert(s[0] == s.last());
        assert(seq_min(s.drop_last()) == u32::MAX);
        assert(seq_max(s.drop_last()) == 0);
        assert(s[0] == seq_min(s));
        assert(s[0] == seq_max(s));
    }
}

/// A summary is flat exactly when all recorded tick counts are equal.
pub proof fn lemma_flat_iff_all_equal(s: Seq<u32>)
    requires
        s.len() > 0,
    ensures
        (seq_min(s) == seq_max(s)) <==> (forall|i: int| 0 <= i < s.len() ==> #[trigger] s[i] == s[0]),
{
    lemma_min_max_bounds(s);
    if forall|i: int| 0 <= i < s.len() ==> #[trigger] s[i] == s[0] {
        let a = choose|k: int| 0 <= k < s.len() && s[k] == seq_min(s);
        let b = choose|k: int| 0 <= k < s.len() && s[k] == seq_max(s);
        assert(s[a] == s[0] && s[b] == s[0]);
    }
}

} // verus!
