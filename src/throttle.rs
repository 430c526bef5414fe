//! A reference arbiter that throttles a run by yielding on every `every`-th
//! decision.
use vstd::prelude::*;

use crate::driver::{Arbiter, Decision};
use crate::frame::Frame;

verus! {

/// Yields on every `every`-th decision and allows the others; `ticks` counts
/// the decisions since the last yield. A period below 2 never yields, since
/// yielding on every decision would hold the frame still forever.
#[derive(Debug, Clone, Copy)]
pub struct EveryNthYield {
    pub every: u32,
    pub ticks: u32,
}

impl EveryNthYield {
    /// Whether the next decision is a yield.
    pub open spec fn yields_next(&self) -> bool {
        self.every >= 2 && self.ticks >= self.every - 1
    }

    /// An arbiter that yields on decisions `every`, `2 * every`, ...
    pub fn new(every: u32) -> (r: Self)
        ensures
            r.every == every,
            r.ticks == 0,
    {
        EveryNthYield { every, ticks: 0 }
    }
}

impl<M> Arbiter<M> for EveryNthYield {
    open spec fn next_decision(&self, frame: &Frame<M>) -> Decision {
        if self.yields_next() {
            Decision::Yield
        } else {
            Decision::Allow
        }
    }

    open spec fn after_decision(&self, frame: &Frame<M>) -> Self {
        if self.yields_next() {
            EveryNthYield { ticks: 0, ..*self }
        } else if self.every >= 2 {
            EveryNthYield { ticks: (self.ticks + 1) as u32, ..*self }
        } else {
            *self
        }
    }

    open spec fn yield_bound(&self) -> nat {
        if self.yields_next() {
            1
        } else {
            0
        }
    }

    fn decide(&mut self, _frame: &Frame<M>) -> (d: Decision) {
        if self.every < 2 {
            Decision::Allow
        } else if self.ticks >= self.every - 1 {
            self.ticks = 0;
            Decision::Yield
        } else {
            self.ticks = self.ticks + 1;
            Decision::Allow
        }
    }
}

} // verus!
