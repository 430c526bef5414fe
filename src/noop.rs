//! A tiny deterministic backend: one prefill step, then one token per step
//! until the token limit is reached.
use vstd::prelude::*;

use crate::driver::{backend_step, emitted, FrameStepper};
use crate::frame::{Frame, FrameState};
use crate::result::{StepResult, StopReason};

verus! {

/// The no-op backend.
#[derive(Debug, Default)]
pub struct NoopStepper;

/// The memory handle of the no-op backend; it holds nothing.
#[derive(Debug, Default)]
pub struct NoopMem;

/// How many more tokens the frame may generate.
pub open spec fn tokens_left<M>(frame: &Frame<M>) -> nat {
    if frame.tokens_generated < frame.limits.max_tokens {
        (frame.limits.max_tokens - frame.tokens_generated) as nat
    } else {
        0
    }
}

/// The token the no-op backend emits at cursor position `position`.
pub open spec fn noop_token(position: u32) -> u32 {
    position % 256
}

/// The output log of the no-op backend after `m` tokens.
pub open spec fn noop_log(m: nat) -> Seq<u32> {
    Seq::new(m, |i: int| (i % 256) as u32)
}

/// What one step of the no-op backend does to a well-formed frame and
/// returns.
pub open spec fn noop_steps(old: Frame<NoopMem>, new: Frame<NoopMem>, r: Result<StepResult, String>) -> bool {
    &&& r is Ok
    &&& match old.state {
        FrameState::Prefill => {
            &&& new == (Frame { state: FrameState::Decode, ..old })
            &&& r->Ok_0.is_advanced_with(None)
        },
        FrameState::Decode => if old.tokens_generated >= old.limits.max_tokens {
            &&& new == (Frame { state: FrameState::Finished, ..old })
            &&& r->Ok_0.is_finished_with(StopReason::MaxTokens)
        } else {
            let tok = noop_token(old.cursor.position);
            &&& new.state == FrameState::Decode
            &&& new.generated_token_ids@ == old.generated_token_ids@.push(tok)
            &&& new.tokens_generated == old.tokens_generated + 1
            &&& new.cursor.position == (if old.cursor.position < u32::MAX {
                old.cursor.position + 1
            } else {
                old.cursor.position as int
            })
            &&& new.limits == old.limits
            &&& new.prompt_token_ids == old.prompt_token_ids
            &&& new.prompt_index == old.prompt_index
            &&& r->Ok_0.is_advanced_with(Some(tok))
        },
        FrameState::Finished => new == old && r->Ok_0.is_finished_with(StopReason::MaxTokens),
        FrameState::Cancelled => new == old && r->Ok_0.is_finished_with(StopReason::Cancelled),
    }
}

/// Every step of the no-op backend keeps the backend contract.
proof fn lemma_noop_step_is_backend_step(
    old: Frame<NoopMem>,
    new: Frame<NoopMem>,
    r: Result<StepResult, String>,
)
    requires
        old.wf(),
        noop_steps(old, new, r),
    ensures
        backend_step(old, new, r),
{
    let g0 = old.generated_token_ids@;
    let g1 = new.generated_token_ids@;
    assert(g0 + emitted(r->Ok_0) =~= g1);
    assert(g0 =~= g1.subrange(0, g0.len() as int));
}

impl FrameStepper<NoopMem> for NoopStepper {
    /// Two steps for a frame in prefill, one in decode, plus one per token
    /// still allowed.
    open spec fn fuel(&self, frame: &Frame<NoopMem>) -> nat {
        match frame.state {
            FrameState::Prefill => tokens_left(frame) + 2,
            FrameState::Decode => tokens_left(frame) + 1,
            _ => 0,
        }
    }

    open spec fn steps(&self, old: Frame<NoopMem>, new: Frame<NoopMem>, r: Result<StepResult, String>) -> bool {
        noop_steps(old, new, r)
    }

    fn step(&mut self, frame: &mut Frame<NoopMem>) -> (r: Result<StepResult, String>) {
        let ghost start = *frame;
        let r = match frame.state {
            FrameState::Prefill => {
                frame.state = FrameState::Decode;
                Ok(StepResult::advanced(None))
            },
            FrameState::Decode => {
                if frame.tokens_generated >= frame.limits.max_tokens {
                    frame.state = FrameState::Finished;
                    Ok(StepResult::finished(StopReason::MaxTokens))
                } else {
                    let tok: u32 = frame.cursor.position % 256;
                    frame.generated_token_ids.push(tok);
                    frame.tokens_generated += 1;
                    frame.cursor.position = frame.cursor.position.saturating_add(1);
                    Ok(StepResult::advanced(Some(tok)))
                }
            },
            FrameState::Finished => Ok(StepResult::finished(StopReason::MaxTokens)),
            FrameState::Cancelled => Ok(StepResult::finished(StopReason::Cancelled)),
        };
        proof {
            lemma_noop_step_is_backend_step(start, *frame, r);
        }
        r
    }
}

} // verus!
