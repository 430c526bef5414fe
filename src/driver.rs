//! The decision protocol, the backend contract and the scheduling driver.
use vstd::prelude::*;

use crate::frame::{Frame, FrameState};
use crate::result::{StepOutcome, StepResult, StopReason};

verus! {

/// The arbiter's verdict for one step.
#[derive(Debug, Clone, Copy, PartialEq, Eq, Structural)]
pub enum Decision {
    Allow,
    Yield,
    Refuse,
}

/// Policy oracle, consulted once per non-terminal driver step. It sees the
/// frame read-only.
pub trait Arbiter<M>: Sized {
    /// The decision this arbiter returns for `frame`; by default `Allow`.
    open spec fn next_decision(&self, frame: &Frame<M>) -> Decision {
        Decision::Allow
    }

    /// The arbiter as it stands after deciding on `frame`; by default
    /// unchanged.
    open spec fn after_decision(&self, frame: &Frame<M>) -> Self {
        *self
    }

    /// A bound on how many more decisions in a row may be `Yield`; by
    /// default none may.
    open spec fn yield_bound(&self) -> nat {
        0
    }

    fn decide(&mut self, frame: &Frame<M>) -> (d: Decision)
        ensures
            d == old(self).next_decision(frame),
            *final(self) == old(self).after_decision(frame),
            d == Decision::Yield ==> final(self).yield_bound() < old(self).yield_bound(),
    ;
}

/// The arbiter that always allows.
#[derive(Debug, Default, Clone, Copy)]
pub struct NoArbiter;

impl<M> Arbiter<M> for NoArbiter {
    fn decide(&mut self, _frame: &Frame<M>) -> (d: Decision)
        ensures
            d == Decision::Allow,
    {
        Decision::Allow
    }
}

/// The tokens that a result reports as emitted.
pub open spec fn emitted(res: StepResult) -> Seq<u32> {
    match res.emitted_token {
        Some(t) => seq![t],
        None => Seq::empty(),
    }
}

/// What one backend step may do to a well-formed frame: keep it well
/// formed, never move the cursor back, only append to the output log and
/// leave the limits alone. A terminal frame is left as it is and reported
/// finished. Otherwise the state only moves forward along Prefill, Decode,
/// Finished; a successful result is never a yield, is finished exactly when
/// the frame is, names a reason other than cancellation when it is, and
/// accounts for each appended token.
pub open spec fn backend_step<M>(old: Frame<M>, new: Frame<M>, r: Result<StepResult, String>) -> bool {
    &&& new.wf()
    &&& old.cursor.position <= new.cursor.position
    &&& old.generated_token_ids@.is_prefix_of(new.generated_token_ids@)
    &&& new.limits == old.limits
    &&& old.is_terminal() ==> {
        &&& new == old
        &&& r is Ok
        &&& r->Ok_0.outcome == StepOutcome::Finished
        &&& old.state == FrameState::Cancelled ==> r->Ok_0.is_finished_with(StopReason::Cancelled)
    }
    &&& !old.is_terminal() ==> {
        &&& old.state.rank() <= new.state.rank()
        &&& new.state != FrameState::Cancelled
        &&& r is Ok ==> {
            let res = r->Ok_0;
            &&& res.outcome != StepOutcome::Yielded
            &&& (res.outcome == StepOutcome::Finished <==> new.state == FrameState::Finished)
            &&& res.outcome == StepOutcome::Finished ==> {
                &&& res.stop_reason is Some
                &&& res.stop_reason != Some(StopReason::Cancelled)
            }
            &&& res.outcome == StepOutcome::Advanced ==> res.stop_reason is None
            &&& new.generated_token_ids@ == old.generated_token_ids@ + emitted(res)
        }
    }
}

/// Backend stepper: performs exactly one bounded unit of work on a frame.
pub trait FrameStepper<M> {
    /// A bound on how many more successful non-finishing steps this backend
    /// can take on `frame`; by default none.
    open spec fn fuel(&self, frame: &Frame<M>) -> nat {
        0
    }

    /// What this backend's step does: `new` and `r` are the frame it leaves
    /// and the result it returns when stepping `old`. By default nothing
    /// beyond the general backend contract is stated.
    open spec fn steps(&self, old: Frame<M>, new: Frame<M>, r: Result<StepResult, String>) -> bool {
        true
    }

    fn step(&mut self, frame: &mut Frame<M>) -> (r: Result<StepResult, String>)
        requires
            old(frame).wf(),
        ensures
            backend_step(*old(frame), *final(frame), r),
            old(self).steps(*old(frame), *final(frame), r),
            (r is Ok && r->Ok_0.outcome != StepOutcome::Finished) ==> final(self).fuel(
                &*final(frame),
            ) < old(self).fuel(&*old(frame)),
    ;
}

/// The stop reason reported for a frame that is already terminal.
pub open spec fn terminal_reason(state: FrameState) -> StopReason {
    if state == FrameState::Cancelled {
        StopReason::Cancelled
    } else {
        StopReason::MaxTokens
    }
}

/// One scheduling step on a non-terminal frame under decision `d`: `Allow`
/// hands the frame to the backend, `Yield` leaves it untouched and reports a
/// skip, `Refuse` cancels it and reports cancellation.
pub open spec fn decision_step<M>(
    old: Frame<M>,
    d: Decision,
    new: Frame<M>,
    r: Result<StepResult, String>,
) -> bool {
    match d {
        Decision::Allow => backend_step(old, new, r),
        Decision::Yield => new == old && r is Ok && r->Ok_0.is_yield_report(),
        Decision::Refuse => {
            &&& new == (Frame { state: FrameState::Cancelled, ..old })
            &&& r is Ok
            &&& r->Ok_0.is_finished_with(StopReason::Cancelled)
        },
    }
}

/// One call of [`Driver::step`]: a terminal frame is left as it is and
/// reported finished; any other frame goes through one of the three
/// decisions.
pub open spec fn scheduled_step<M>(old: Frame<M>, new: Frame<M>, r: Result<StepResult, String>) -> bool {
    if old.is_terminal() {
        &&& new == old
        &&& r is Ok
        &&& r->Ok_0.is_finished_with(terminal_reason(old.state))
    } else {
        ||| decision_step(old, Decision::Allow, new, r)
        ||| decision_step(old, Decision::Yield, new, r)
        ||| decision_step(old, Decision::Refuse, new, r)
    }
}

/// Owns the scheduling loop around one frame, one backend and one arbiter.
pub struct Driver<M, S, A = NoArbiter> where S: FrameStepper<M>, A: Arbiter<M> {
    pub frame: Frame<M>,
    pub stepper: S,
    pub arbiter: A,
}

impl<M, S> Driver<M, S, NoArbiter> where S: FrameStepper<M> {
    /// A driver with the always-allow arbiter.
    pub fn new(frame: Frame<M>, stepper: S) -> (r: Self)
        ensures
            r.frame == frame,
            r.stepper == stepper,
    {
        Driver { frame, stepper, arbiter: NoArbiter }
    }
}

impl<M, S, A> Driver<M, S, A> where S: FrameStepper<M>, A: Arbiter<M> {
    /// The pair that strictly decreases, lexicographically, on each step that
    /// does not finish: the backend's fuel, then the arbiter's yield bound.
    pub open spec fn progress_drops(&self, next: &Self) -> bool {
        ||| next.stepper.fuel(&next.frame) < self.stepper.fuel(&self.frame)
        ||| (next.stepper.fuel(&next.frame) == self.stepper.fuel(&self.frame)
            && next.arbiter.yield_bound() < self.arbiter.yield_bound())
    }

    /// One call of [`Driver::step`] on the whole driver: a terminal frame
    /// leaves everything as it is and is reported finished; otherwise the
    /// arbiter's decision for the frame is carried out, the arbiter moves on,
    /// and under `Allow` the frame and result are the backend's own.
    pub open spec fn step_spec(old: Self, new: Self, r: Result<StepResult, String>) -> bool {
        if old.frame.is_terminal() {
            &&& new == old
            &&& r is Ok
            &&& r->Ok_0.is_finished_with(terminal_reason(old.frame.state))
        } else {
            let d = old.arbiter.next_decision(&old.frame);
            &&& decision_step(old.frame, d, new.frame, r)
            &&& new.arbiter == old.arbiter.after_decision(&old.frame)
            &&& d == Decision::Allow ==> old.stepper.steps(old.frame, new.frame, r)
            &&& d != Decision::Allow ==> new.stepper == old.stepper
        }
    }

    /// `drivers` and `results` record a whole call of
    /// [`Driver::run_to_completion`] that returned `r`: consecutive steps
    /// from `drivers[0]`, each one's result in `results`; every result but
    /// the last is a success that did not finish; the call succeeds exactly
    /// when the last result is a finishing success, and otherwise returns
    /// the last result's error.
    pub open spec fn completed_run(
        drivers: Seq<Self>,
        results: Seq<Result<StepResult, String>>,
        r: Result<(), String>,
    ) -> bool {
        &&& results.len() >= 1
        &&& drivers.len() == results.len() + 1
        &&& forall|i: int|
            0 <= i < results.len() ==> Self::step_spec(drivers[i], drivers[i + 1], #[trigger] results[i])
        &&& forall|i: int|
            0 <= i < results.len() - 1 ==> #[trigger] results[i] is Ok && results[i]->Ok_0.outcome
                != StepOutcome::Finished
        &&& (r is Ok <==> (results.last() is Ok && results.last()->Ok_0.outcome == StepOutcome::Finished))
        &&& r is Err ==> results.last() == Err::<StepResult, String>(r->Err_0)
    }

    pub fn with_arbiter(frame: Frame<M>, stepper: S, arbiter: A) -> (r: Self)
        ensures
            r.frame == frame,
            r.stepper == stepper,
            r.arbiter == arbiter,
    {
        Driver { frame, stepper, arbiter }
    }

    /// The report for a terminal frame, or `None` for a frame still running.
    fn terminal_report(&self) -> (r: Option<StepResult>)
        ensures
            r is Some <==> self.frame.is_terminal(),
            r is Some ==> r->Some_0.is_finished_with(terminal_reason(self.frame.state)),
    {
        match self.frame.state {
            FrameState::Finished => Some(StepResult::finished(StopReason::MaxTokens)),
            FrameState::Cancelled => Some(StepResult::finished(StopReason::Cancelled)),
            _ => None,
        }
    }

    /// Carries out decision `d` on a frame still running.
    fn apply(&mut self, d: Decision) -> (r: Result<StepResult, String>)
        requires
            old(self).frame.wf(),
            !old(self).frame.is_terminal(),
        ensures
            decision_step(old(self).frame, d, final(self).frame, r),
            final(self).arbiter == old(self).arbiter,
            d != Decision::Allow ==> final(self).stepper == old(self).stepper,
            d == Decision::Allow ==> old(self).stepper.steps(old(self).frame, final(self).frame, r),
            (d == Decision::Allow && r is Ok && r->Ok_0.outcome != StepOutcome::Finished)
                ==> final(self).stepper.fuel(&final(self).frame) < old(self).stepper.fuel(
                &old(self).frame,
            ),
    {
        match d {
            Decision::Allow => self.stepper.step(&mut self.frame),
            Decision::Yield => Ok(StepResult::yielded()),
            Decision::Refuse => {
                self.frame.cancel();
                Ok(StepResult::finished(StopReason::Cancelled))
            },
        }
    }

    /// Runs one step as if the arbiter had returned `d`: a terminal frame is
    /// reported without change, any other goes through decision `d`.
    pub fn step_with(&mut self, d: Decision) -> (r: Result<StepResult, String>)
        requires
            old(self).frame.wf(),
        ensures
            old(self).frame.is_terminal() ==> *final(self) == *old(self) && r is Ok
                && r->Ok_0.is_finished_with(terminal_reason(old(self).frame.state)),
            !old(self).frame.is_terminal() ==> decision_step(
                old(self).frame,
                d,
                final(self).frame,
                r,
            ),
            final(self).arbiter == old(self).arbiter,
    {
        match self.terminal_report() {
            Some(res) => Ok(res),
            None => self.apply(d),
        }
    }

    /// One scheduling decision: a terminal frame is reported without
    /// consulting the arbiter or the backend; otherwise the arbiter decides
    /// and the decision is carried out.
    pub fn step(&mut self) -> (r: Result<StepResult, String>)
        requires
            old(self).frame.wf(),
        ensures
            Self::step_spec(*old(self), *final(self), r),
            scheduled_step(old(self).frame, final(self).frame, r),
            (r is Ok && r->Ok_0.outcome != StepOutcome::Finished) ==> old(self).progress_drops(
                &*final(self),
            ),
    {
        match self.terminal_report() {
            Some(res) => Ok(res),
            None => {
                let d = self.arbiter.decide(&self.frame);
                self.apply(d)
            },
        }
    }

    /// Steps until a step reports `Finished`, stopping at the first backend
    /// error, which is returned unchanged.
    pub fn run_to_completion(&mut self) -> (r: Result<(), String>)
        requires
            old(self).frame.wf(),
        ensures
            exists|drivers: Seq<Self>, results: Seq<Result<StepResult, String>>|
                {
                    &&& drivers[0] == *old(self)
                    &&& drivers.last() == *final(self)
                    &&& Self::completed_run(drivers, results, r)
                },
            final(self).frame.wf(),
            old(self).frame.cursor.position <= final(self).frame.cursor.position,
            old(self).frame.generated_token_ids@.is_prefix_of(final(self).frame.generated_token_ids@),
            r is Ok ==> final(self).frame.is_terminal(),
            old(self).frame.is_terminal() ==> *final(self) == *old(self) && r is Ok,
    {
        let ghost mut drivers: Seq<Self> = seq![*self];
        let ghost mut results: Seq<Result<StepResult, String>> = Seq::empty();
        loop
            invariant
                self.frame.wf(),
                old(self).frame.cursor.position <= self.frame.cursor.position,
                old(self).frame.generated_token_ids@.is_prefix_of(self.frame.generated_token_ids@),
                old(self).frame.is_terminal() ==> *self == *old(self) && results.len() == 0,
                drivers.len() == results.len() + 1,
                drivers[0] == *old(self),
                drivers.last() == *self,
                forall|i: int|
                    0 <= i < results.len() ==> Self::step_spec(
                        drivers[i],
                        drivers[i + 1],
                        #[trigger] results[i],
                    ),
                forall|i: int|
                    0 <= i < results.len() ==> #[trigger] results[i] is Ok
                        && results[i]->Ok_0.outcome != StepOutcome::Finished,
            decreases self.stepper.fuel(&self.frame), self.arbiter.yield_bound(),
        {
            let r = self.step();
            proof {
                drivers = drivers.push(*self);
                results = results.push(r);
            }
            match r {
                Err(e) => {
                    assert(Self::completed_run(drivers, results, Err(e)));
                    return Err(e);
                },
                Ok(res) => match res.outcome {
                    StepOutcome::Finished => {
                        assert(Self::completed_run(drivers, results, Ok(())));
                        return Ok(());
                    },
                    _ => {},
                },
            }
        }
    }
}

} // verus!
