//! The result envelope returned by every scheduling step.
use vstd::prelude::*;

verus! {

/// What one call of a step did.
#[derive(Debug, Clone, Copy, PartialEq, Eq, Structural)]
pub enum StepOutcome {
    Advanced,
    Yielded,
    Finished,
}

/// Why a run reached its end.
#[derive(Debug, Clone, Copy, PartialEq, Eq, Structural)]
pub enum StopReason {
    MaxTokens,
    Eos,
    Cancelled,
    BackendError,
}

/// An observability record attached to a step result; it has no effect on
/// the run.
#[derive(Debug, Clone)]
pub struct Receipt {
    pub kind: &'static str,
    pub value_u64: u64,
}

/// The envelope that every scheduling step returns.
#[derive(Debug, Clone)]
pub struct StepResult {
    pub outcome: StepOutcome,
    pub emitted_token: Option<u32>,
    pub stop_reason: Option<StopReason>,
    pub receipts: Vec<Receipt>,
}

impl StepResult {
    /// The result reports progress, emitting `token` if one is given, and
    /// carries no stop reason and no receipts.
    pub open spec fn is_advanced_with(&self, token: Option<u32>) -> bool {
        &&& self.outcome == StepOutcome::Advanced
        &&& self.emitted_token == token
        &&& self.stop_reason.is_none()
        &&& self.receipts@.len() == 0
    }

    /// The result reports the end of the run for `reason`, with no token and
    /// no receipts.
    pub open spec fn is_finished_with(&self, reason: StopReason) -> bool {
        &&& self.outcome == StepOutcome::Finished
        &&& self.emitted_token.is_none()
        &&& self.stop_reason == Some(reason)
        &&& self.receipts@.len() == 0
    }

    /// The result reports a step skipped by the arbiter: no token, no stop
    /// reason, and the single receipt `arbiter.yield` with value 1.
    pub open spec fn is_yield_report(&self) -> bool {
        &&& self.outcome == StepOutcome::Yielded
        &&& self.emitted_token.is_none()
        &&& self.stop_reason.is_none()
        &&& self.receipts@.len() == 1
        &&& self.receipts@[0].kind@ == "arbiter.yield"@
        &&& self.receipts@[0].value_u64 == 1
    }

    /// Two results report the same thing.
    pub open spec fn same_report(&self, other: &StepResult) -> bool {
        &&& self.outcome == other.outcome
        &&& self.emitted_token == other.emitted_token
        &&& self.stop_reason == other.stop_reason
        &&& self.receipts@ == other.receipts@
    }

    /// A result that reports progress, emitting `token` if one is given.
    pub fn advanced(token: Option<u32>) -> (r: Self)
        ensures
            r.is_advanced_with(token),
    {
        StepResult {
            outcome: StepOutcome::Advanced,
            emitted_token: token,
            stop_reason: None,
            receipts: Vec::new(),
        }
    }

    /// A result that reports the end of the run for `reason`.
    pub fn finished(reason: StopReason) -> (r: Self)
        ensures
            r.is_finished_with(reason),
    {
        StepResult {
            outcome: StepOutcome::Finished,
            emitted_token: None,
            stop_reason: Some(reason),
            receipts: Vec::new(),
        }
    }

    /// The result of a step that the arbiter skipped.
    pub fn yielded() -> (r: Self)
        ensures
            r.is_yield_report(),
    {
        let receipt = Receipt { kind: "arbiter.yield", value_u64: 1 };
        proof {
            reveal_strlit("arbiter.yield");
        }
        StepResult {
            outcome: StepOutcome::Yielded,
            emitted_token: None,
            stop_reason: None,
            receipts: vec![receipt],
        }
    }
}

} // verus!
