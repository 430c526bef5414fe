//! Laws of the scheduling step, stated over any run of driver steps.
use vstd::prelude::*;

use crate::driver::{decision_step, scheduled_step, terminal_reason, Decision, Driver, NoArbiter};
use crate::frame::{Frame, FrameState};
use crate::noop::{noop_log, NoopMem, NoopStepper};
use crate::result::{StepOutcome, StepResult, StopReason};

verus! {

/// `frames[i + 1]` and `results[i]` are what the `i`-th call of
/// [`crate::Driver::step`] left and returned, starting from `frames[0]`.
pub open spec fn is_run<M>(frames: Seq<Frame<M>>, results: Seq<Result<StepResult, String>>) -> bool {
    &&& frames.len() == results.len() + 1
    &&& forall|i: int|
        0 <= i < results.len() ==> scheduled_step(frames[i], frames[i + 1], #[trigger] results[i])
}

proof fn lemma_terminal_at<M>(
    frames: Seq<Frame<M>>,
    results: Seq<Result<StepResult, String>>,
    k: int,
)
    requires
        is_run(frames, results),
        frames[0].is_terminal(),
        0 <= k < frames.len(),
    ensures
        frames[k] == frames[0],
        k < results.len() ==> results[k] is Ok && results[k]->Ok_0.is_finished_with(
            terminal_reason(frames[0].state),
        ),
    decreases k,
{
    if k > 0 {
        lemma_terminal_at(frames, results, k - 1);
    }
    if k < results.len() {
        assert(scheduled_step(frames[k], frames[k + 1], results[k]));
    }
}

/// Once a frame is terminal, every further step leaves it unchanged and
/// returns the same finished report.
pub proof fn lemma_terminal_steps_are_idempotent<M>(
    frames: Seq<Frame<M>>,
    results: Seq<Result<StepResult, String>>,
)
    requires
        is_run(frames, results),
        frames[0].is_terminal(),
    ensures
        forall|i: int| 0 <= i < frames.len() ==> #[trigger] frames[i] == frames[0],
        forall|i: int|
            0 <= i < results.len() ==> {
                &&& #[trigger] results[i] is Ok
                &&& results[i]->Ok_0.is_finished_with(terminal_reason(frames[0].state))
                &&& results[i]->Ok_0.same_report(&results[0]->Ok_0)
            },
{
    assert forall|i: int| 0 <= i < frames.len() implies #[trigger] frames[i] == frames[0] by {
        lemma_terminal_at(frames, results, i);
    }
    assert forall|i: int| 0 <= i < results.len() implies {
        &&& #[trigger] results[i] is Ok
        &&& results[i]->Ok_0.is_finished_with(terminal_reason(frames[0].state))
        &&& results[i]->Ok_0.same_report(&results[0]->Ok_0)
    } by {
        lemma_terminal_at(frames, results, i);
        lemma_terminal_at(frames, results, 0);
        assert(results[i]->Ok_0.receipts@ =~= results[0]->Ok_0.receipts@);
    }
}

proof fn lemma_cursor_between<M>(
    frames: Seq<Frame<M>>,
    results: Seq<Result<StepResult, String>>,
    i: int,
    j: int,
)
    requires
        is_run(frames, results),
        0 <= i <= j < frames.len(),
    ensures
        frames[i].cursor.position <= frames[j].cursor.position,
    decreases j - i,
{
    if i < j {
        lemma_cursor_between(frames, results, i, j - 1);
        assert(scheduled_step(frames[j - 1], frames[j], results[j - 1]));
    }
}

/// The cursor position never decreases along a run.
pub proof fn lemma_cursor_monotone<M>(
    frames: Seq<Frame<M>>,
    results: Seq<Result<StepResult, String>>,
)
    requires
        is_run(frames, results),
    ensures
        forall|i: int, j: int|
            0 <= i <= j < frames.len() ==> #[trigger] frames[i].cursor.position
                <= #[trigger] frames[j].cursor.position,
{
    assert forall|i: int, j: int| 0 <= i <= j < frames.len() implies #[trigger] frames[
        i
    ].cursor.position <= #[trigger] frames[j].cursor.position by {
        lemma_cursor_between(frames, results, i, j);
    }
}

proof fn lemma_wf_at<M>(frames: Seq<Frame<M>>, results: Seq<Result<StepResult, String>>, k: int)
    requires
        is_run(frames, results),
        frames[0].wf(),
        0 <= k < frames.len(),
    ensures
        frames[k].wf(),
    decreases k,
{
    if k > 0 {
        lemma_wf_at(frames, results, k - 1);
        assert(scheduled_step(frames[k - 1], frames[k], results[k - 1]));
    }
}

/// Along a run from a well-formed frame, the token counter equals the
/// length of the output log after every call.
pub proof fn lemma_counter_consistent<M>(
    frames: Seq<Frame<M>>,
    results: Seq<Result<StepResult, String>>,
)
    requires
        is_run(frames, results),
        frames[0].wf(),
    ensures
        forall|i: int|
            0 <= i < frames.len() ==> #[trigger] frames[i].tokens_generated
                == frames[i].generated_token_ids@.len(),
{
    assert forall|i: int| 0 <= i < frames.len() implies #[trigger] frames[i].tokens_generated
        == frames[i].generated_token_ids@.len() by {
        lemma_wf_at(frames, results, i);
    }
}

/// A step that reports a yield has left the frame unchanged.
pub proof fn lemma_yield_is_pure<M>(old: Frame<M>, new: Frame<M>, r: Result<StepResult, String>)
    requires
        scheduled_step(old, new, r),
        r is Ok,
        r->Ok_0.outcome == StepOutcome::Yielded,
    ensures
        new == old,
{
}

proof fn lemma_yield_at<M>(frames: Seq<Frame<M>>, results: Seq<Result<StepResult, String>>, k: int)
    requires
        is_run(frames, results),
        forall|i: int|
            0 <= i < results.len() ==> #[trigger] results[i] is Ok && results[i]->Ok_0.outcome
                == StepOutcome::Yielded,
        0 <= k < frames.len(),
    ensures
        frames[k] == frames[0],
    decreases k,
{
    if k > 0 {
        lemma_yield_at(frames, results, k - 1);
        assert(results[k - 1] is Ok);
        lemma_yield_is_pure(frames[k - 1], frames[k], results[k - 1]);
    }
}

/// A run in which every step yields leaves the frame as it started.
pub proof fn lemma_yields_keep_frame<M>(
    frames: Seq<Frame<M>>,
    results: Seq<Result<StepResult, String>>,
)
    requires
        is_run(frames, results),
        forall|i: int|
            0 <= i < results.len() ==> #[trigger] results[i] is Ok && results[i]->Ok_0.outcome
                == StepOutcome::Yielded,
    ensures
        forall|i: int| 0 <= i < frames.len() ==> #[trigger] frames[i] == frames[0],
{
    assert forall|i: int| 0 <= i < frames.len() implies #[trigger] frames[i] == frames[0] by {
        lemma_yield_at(frames, results, i);
    }
}

/// Refusing a running frame cancels it and reports cancellation; every
/// later step leaves it cancelled and repeats that report.
pub proof fn lemma_refuse_is_final<M>(
    old: Frame<M>,
    r: Result<StepResult, String>,
    frames: Seq<Frame<M>>,
    results: Seq<Result<StepResult, String>>,
)
    requires
        !old.is_terminal(),
        decision_step(old, Decision::Refuse, frames[0], r),
        is_run(frames, results),
    ensures
        frames[0].state == FrameState::Cancelled,
        r is Ok && r->Ok_0.is_finished_with(StopReason::Cancelled),
        forall|i: int| 0 <= i < frames.len() ==> #[trigger] frames[i] == frames[0],
        forall|i: int|
            0 <= i < results.len() ==> #[trigger] results[i] is Ok && results[i]->Ok_0.same_report(
                &r->Ok_0,
            ),
{
    lemma_terminal_steps_are_idempotent(frames, results);
    assert forall|i: int| 0 <= i < results.len() implies #[trigger] results[i] is Ok
        && results[i]->Ok_0.same_report(&r->Ok_0) by {
        assert(results[i]->Ok_0.receipts@ =~= r->Ok_0.receipts@);
    }
}

/// The no-op driver with the always-allow arbiter.
pub type NoopDriver = Driver<NoopMem, NoopStepper, NoArbiter>;

/// Where the `k`-th driver of a no-op run from a fresh frame with limit `n`
/// stands: in prefill at first, then in decode with `k - 1` tokens, and
/// finished with all `n` tokens after `n + 2` steps.
pub open spec fn noop_run_at(f: Frame<NoopMem>, k: int, n: nat) -> bool {
    &&& f.limits.max_tokens == n
    &&& if k == 0 {
        &&& f.state == FrameState::Prefill
        &&& f.cursor.position == 0
        &&& f.tokens_generated == 0
        &&& f.generated_token_ids@.len() == 0
    } else if k <= n + 1 {
        &&& f.state == FrameState::Decode
        &&& f.cursor.position == k - 1
        &&& f.tokens_generated == k - 1
        &&& f.generated_token_ids@ == noop_log((k - 1) as nat)
    } else {
        &&& f.state == FrameState::Finished
        &&& f.cursor.position == n
        &&& f.tokens_generated == n
        &&& f.generated_token_ids@ == noop_log(n)
    }
}

proof fn lemma_noop_run_at(
    drivers: Seq<NoopDriver>,
    results: Seq<Result<StepResult, String>>,
    r: Result<(), String>,
    k: int,
)
    requires
        NoopDriver::completed_run(drivers, results, r),
        noop_run_at(drivers[0].frame, 0, drivers[0].frame.limits.max_tokens as nat),
        drivers[0].frame.limits.max_tokens <= u32::MAX,
        0 <= k < drivers.len(),
    ensures
        k <= drivers[0].frame.limits.max_tokens + 2,
        noop_run_at(drivers[k].frame, k, drivers[0].frame.limits.max_tokens as nat),
        k >= 1 ==> (results[k - 1] is Ok && (results[k - 1]->Ok_0.outcome == StepOutcome::Finished
            <==> k == drivers[0].frame.limits.max_tokens + 2)),
    decreases k,
{
    let n = drivers[0].frame.limits.max_tokens as nat;
    if k > 0 {
        lemma_noop_run_at(drivers, results, r, k - 1);
        let j = k - 1;
        assert(NoopDriver::step_spec(drivers[j], drivers[j + 1], results[j]));
        let f0 = drivers[j].frame;
        let f1 = drivers[k].frame;
        if j == n + 2 {
            lemma_noop_run_at(drivers, results, r, j);
            assert(results[j - 1] is Ok && results[j - 1]->Ok_0.outcome
                != StepOutcome::Finished);
        } else if j == 0 {
            assert(f1.generated_token_ids@ =~= noop_log(0));
        } else if j <= n {
            assert(f1.generated_token_ids@ =~= noop_log((k - 1) as nat));
        }
    }
}

/// A run to completion of the no-op backend under the always-allow arbiter,
/// from a fresh frame with limit `n`, succeeds after exactly `n + 2` steps
/// and leaves the frame finished with tokens `0, 1, ..., n - 1` (each taken
/// modulo 256) and the cursor at `n`.
pub proof fn lemma_noop_run_to_completion(
    drivers: Seq<NoopDriver>,
    results: Seq<Result<StepResult, String>>,
    r: Result<(), String>,
)
    requires
        NoopDriver::completed_run(drivers, results, r),
        noop_run_at(drivers[0].frame, 0, drivers[0].frame.limits.max_tokens as nat),
        drivers[0].frame.limits.max_tokens <= u32::MAX,
    ensures
        r is Ok,
        results.len() == drivers[0].frame.limits.max_tokens + 2,
        drivers.last().frame.state == FrameState::Finished,
        drivers.last().frame.generated_token_ids@ == noop_log(
            drivers[0].frame.limits.max_tokens as nat,
        ),
        drivers.last().frame.tokens_generated == drivers[0].frame.limits.max_tokens,
        drivers.last().frame.cursor.position == drivers[0].frame.limits.max_tokens,
{
    let last = results.len() as int;
    lemma_noop_run_at(drivers, results, r, last);
}

} // verus!
