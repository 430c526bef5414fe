use nsc_frame::{
    Arbiter, Decision, Driver, EveryNthYield, Frame, FrameState, FrameStepper, NoArbiter, NoopMem, NoopStepper,
    StepOutcome, StepResult, StopReason,
};

struct AlwaysYield;

impl Arbiter<NoopMem> for AlwaysYield {
    fn decide(&mut self, _frame: &Frame<NoopMem>) -> Decision {
        Decision::Yield
    }
}

struct AlwaysRefuse;

impl Arbiter<NoopMem> for AlwaysRefuse {
    fn decide(&mut self, _frame: &Frame<NoopMem>) -> Decision {
        Decision::Refuse
    }
}

/// A backend that fails on every step.
struct FailingStepper;

impl FrameStepper<NoopMem> for FailingStepper {
    fn step(&mut self, _frame: &mut Frame<NoopMem>) -> Result<StepResult, String> {
        Err("backend failed".to_string())
    }
}

fn assert_advanced(r: &StepResult, token: Option<u32>) {
    assert_eq!(r.outcome, StepOutcome::Advanced);
    assert_eq!(r.emitted_token, token);
    assert_eq!(r.stop_reason, None);
    assert!(r.receipts.is_empty());
}

fn assert_finished(r: &StepResult, reason: StopReason) {
    assert_eq!(r.outcome, StepOutcome::Finished);
    assert_eq!(r.emitted_token, None);
    assert_eq!(r.stop_reason, Some(reason));
    assert!(r.receipts.is_empty());
}

fn assert_yielded(r: &StepResult) {
    assert_eq!(r.outcome, StepOutcome::Yielded);
    assert_eq!(r.emitted_token, None);
    assert_eq!(r.stop_reason, None);
    assert_eq!(r.receipts.len(), 1);
    assert_eq!(r.receipts[0].kind, "arbiter.yield");
    assert_eq!(r.receipts[0].value_u64, 1);
}

#[test]
fn noop_backend_with_three_tokens() {
    let mut d = Driver::new(Frame::new(NoopMem, 3), NoopStepper);
    let r = d.step().unwrap();
    assert_advanced(&r, None);
    assert_eq!(d.frame.state, FrameState::Decode);
    for k in 0..3u32 {
        let r = d.step().unwrap();
        assert_advanced(&r, Some(k));
        assert_eq!(d.frame.cursor.position, k + 1);
    }
    let r = d.step().unwrap();
    assert_finished(&r, StopReason::MaxTokens);
    assert_eq!(d.frame.state, FrameState::Finished);
    assert_eq!(d.frame.generated_token_ids, vec![0, 1, 2]);
    assert_eq!(d.frame.tokens_generated, 3);
}

#[test]
fn every_third_decision_yields() {
    let mut d = Driver::with_arbiter(Frame::new(NoopMem, 8), NoopStepper, EveryNthYield::new(3));
    for call in 1..=9u32 {
        let state = d.frame.state;
        let position = d.frame.cursor.position;
        let generated = d.frame.generated_token_ids.clone();
        let r = d.step().unwrap();
        if call % 3 == 0 {
            assert_yielded(&r);
            assert_eq!(d.frame.state, state);
            assert_eq!(d.frame.cursor.position, position);
            assert_eq!(d.frame.generated_token_ids, generated);
        } else {
            assert_eq!(r.outcome, StepOutcome::Advanced);
        }
    }
}

#[test]
fn yields_do_not_change_allowed_step_count() {
    let mut plain = Driver::new(Frame::new(NoopMem, 8), NoopStepper);
    let mut plain_calls = 0u32;
    loop {
        plain_calls += 1;
        if plain.step().unwrap().outcome == StepOutcome::Finished {
            break;
        }
    }
    let mut ticking =
        Driver::with_arbiter(Frame::new(NoopMem, 8), NoopStepper, EveryNthYield::new(3));
    let mut calls = 0u32;
    let mut yields = 0u32;
    loop {
        calls += 1;
        let r = ticking.step().unwrap();
        if r.outcome == StepOutcome::Yielded {
            yields += 1;
        }
        if r.outcome == StepOutcome::Finished {
            break;
        }
    }
    assert_eq!(plain_calls, 10);
    assert_eq!(calls - yields, plain_calls);
    assert!(yields > 0);
    assert_eq!(ticking.frame.generated_token_ids, plain.frame.generated_token_ids);
    assert_eq!(ticking.frame.generated_token_ids, vec![0, 1, 2, 3, 4, 5, 6, 7]);
}

#[test]
fn zero_token_limit_finishes_after_two_calls() {
    let mut d = Driver::new(Frame::new(NoopMem, 0), NoopStepper);
    let r = d.step().unwrap();
    assert_advanced(&r, None);
    assert_eq!(d.frame.state, FrameState::Decode);
    let r = d.step().unwrap();
    assert_finished(&r, StopReason::MaxTokens);
    assert!(d.frame.generated_token_ids.is_empty());

    let mut d = Driver::new(Frame::new(NoopMem, 0), NoopStepper);
    assert!(d.run_to_completion().is_ok());
    assert_eq!(d.frame.state, FrameState::Finished);
    assert_eq!(d.frame.tokens_generated, 0);
    assert!(d.frame.generated_token_ids.is_empty());
    assert_eq!(d.frame.cursor.position, 0);
}

#[test]
fn run_to_completion_generates_all_tokens() {
    let mut d = Driver::with_arbiter(Frame::new(NoopMem, 5), NoopStepper, EveryNthYield::new(3));
    assert!(d.run_to_completion().is_ok());
    assert_eq!(d.frame.state, FrameState::Finished);
    assert_eq!(d.frame.generated_token_ids, vec![0, 1, 2, 3, 4]);
    assert_eq!(d.frame.cursor.position, 5);
    // A second run on a finished frame returns at once and changes nothing.
    assert!(d.run_to_completion().is_ok());
    assert_eq!(d.frame.generated_token_ids, vec![0, 1, 2, 3, 4]);
}

#[test]
fn finished_frame_repeats_its_report() {
    let mut d = Driver::new(Frame::new(NoopMem, 1), NoopStepper);
    d.run_to_completion().unwrap();
    let tokens = d.frame.generated_token_ids.clone();
    let position = d.frame.cursor.position;
    for _ in 0..4 {
        let r = d.step().unwrap();
        assert_finished(&r, StopReason::MaxTokens);
        assert_eq!(d.frame.state, FrameState::Finished);
        assert_eq!(d.frame.generated_token_ids, tokens);
        assert_eq!(d.frame.cursor.position, position);
    }
}

#[test]
fn always_yield_keeps_starting_frame() {
    let mut d = Driver::with_arbiter(Frame::new(NoopMem, 4), NoopStepper, AlwaysYield);
    for _ in 0..20 {
        let r = d.step().unwrap();
        assert_yielded(&r);
        assert_eq!(d.frame.state, FrameState::Prefill);
        assert_eq!(d.frame.cursor.position, 0);
        assert!(d.frame.generated_token_ids.is_empty());
        assert_eq!(d.frame.tokens_generated, 0);
    }
}

#[test]
fn refuse_cancels_and_stays_cancelled() {
    let mut d = Driver::with_arbiter(Frame::new(NoopMem, 4), NoopStepper, AlwaysRefuse);
    let r = d.step().unwrap();
    assert_finished(&r, StopReason::Cancelled);
    assert_eq!(d.frame.state, FrameState::Cancelled);
    for _ in 0..3 {
        let r = d.step().unwrap();
        assert_finished(&r, StopReason::Cancelled);
        assert_eq!(d.frame.state, FrameState::Cancelled);
        assert!(d.frame.generated_token_ids.is_empty());
    }
    assert!(d.run_to_completion().is_ok());
}

#[test]
fn refuse_mid_decode_keeps_output() {
    let mut d = Driver::new(Frame::new(NoopMem, 4), NoopStepper);
    d.step().unwrap();
    d.step().unwrap();
    d.step().unwrap();
    let r = d.step_with(Decision::Refuse).unwrap();
    assert_finished(&r, StopReason::Cancelled);
    assert_eq!(d.frame.state, FrameState::Cancelled);
    assert_eq!(d.frame.generated_token_ids, vec![0, 1]);
    assert_eq!(d.frame.cursor.position, 2);
    let r = d.step_with(Decision::Allow).unwrap();
    assert_finished(&r, StopReason::Cancelled);
    assert_eq!(d.frame.generated_token_ids, vec![0, 1]);
}

#[test]
fn step_with_yield_reports_skip() {
    let mut d = Driver::new(Frame::new(NoopMem, 2), NoopStepper);
    let r = d.step_with(Decision::Yield).unwrap();
    assert_yielded(&r);
    assert_eq!(d.frame.state, FrameState::Prefill);
    let r = d.step_with(Decision::Allow).unwrap();
    assert_advanced(&r, None);
    assert_eq!(d.frame.state, FrameState::Decode);
}

#[test]
fn external_cancel_is_idempotent() {
    let mut d = Driver::new(Frame::new(NoopMem, 3), NoopStepper);
    d.step().unwrap();
    d.frame.cancel();
    d.frame.cancel();
    assert_eq!(d.frame.state, FrameState::Cancelled);
    let r = d.step().unwrap();
    assert_finished(&r, StopReason::Cancelled);

    let mut f = Frame::new(NoopMem, 3);
    f.state = FrameState::Finished;
    f.cancel();
    assert_eq!(f.state, FrameState::Cancelled);
}

#[test]
fn backend_error_is_forwarded() {
    let mut d = Driver::new(Frame::new(NoopMem, 3), FailingStepper);
    assert_eq!(d.step().unwrap_err(), "backend failed");
    assert_eq!(d.run_to_completion().unwrap_err(), "backend failed");
    let mut d = Driver::with_arbiter(Frame::new(NoopMem, 3), FailingStepper, AlwaysYield);
    assert_yielded(&d.step().unwrap());
}

#[test]
fn counter_matches_log_after_every_call() {
    let mut d = Driver::with_arbiter(Frame::new(NoopMem, 6), NoopStepper, EveryNthYield::new(3));
    let mut last_position = 0u32;
    for _ in 0..15 {
        d.step().unwrap();
        assert_eq!(d.frame.tokens_generated, d.frame.generated_token_ids.len());
        assert!(d.frame.cursor.position >= last_position);
        last_position = d.frame.cursor.position;
    }
    assert_eq!(d.frame.state, FrameState::Finished);
}

#[test]
fn frames_start_fresh() {
    let f = Frame::new(NoopMem, 7);
    assert_eq!(f.state, FrameState::Prefill);
    assert_eq!(f.cursor.position, 0);
    assert_eq!(f.limits.max_tokens, 7);
    assert!(f.prompt_token_ids.is_empty());
    assert_eq!(f.prompt_index, 0);
    assert!(f.generated_token_ids.is_empty());
    assert_eq!(f.tokens_generated, 0);

    let f = Frame::with_prompt(NoopMem, 2, vec![5, 6, 7]);
    assert_eq!(f.state, FrameState::Prefill);
    assert_eq!(f.prompt_token_ids, vec![5, 6, 7]);
    assert_eq!(f.prompt_index, 0);
    assert_eq!(f.limits.max_tokens, 2);
    assert!(f.generated_token_ids.is_empty());
}

#[test]
fn result_constructors() {
    assert_advanced(&StepResult::advanced(Some(9)), Some(9));
    assert_advanced(&StepResult::advanced(None), None);
    assert_finished(&StepResult::finished(StopReason::Eos), StopReason::Eos);
    assert_yielded(&StepResult::yielded());
}

#[test]
fn noop_tokens_wrap_at_256() {
    let mut f = Frame::new(NoopMem, 5);
    f.state = FrameState::Decode;
    f.cursor.position = 255;
    let mut s = NoopStepper;
    assert_eq!(s.step(&mut f).unwrap().emitted_token, Some(255));
    assert_eq!(s.step(&mut f).unwrap().emitted_token, Some(0));
    assert_eq!(f.cursor.position, 257);

    f.cursor.position = u32::MAX;
    assert_eq!(s.step(&mut f).unwrap().emitted_token, Some(255));
    assert_eq!(f.cursor.position, u32::MAX);
    assert_eq!(f.generated_token_ids, vec![255, 0, 255]);
}

#[test]
fn always_allow_arbiter_allows() {
    let f = Frame::new(NoopMem, 1);
    let mut a = NoArbiter;
    assert_eq!(a.decide(&f), Decision::Allow);
}

#[test]
fn every_nth_yield_pattern() {
    let f = Frame::new(NoopMem, 1);
    let mut a = EveryNthYield::new(3);
    let got: Vec<Decision> = (0..7).map(|_| a.decide(&f)).collect();
    assert_eq!(got, vec![Decision::Allow, Decision::Allow, Decision::Yield, Decision::Allow, Decision::Allow, Decision::Yield, Decision::Allow]);

    let mut a = EveryNthYield::new(2);
    let got: Vec<Decision> = (0..4).map(|_| a.decide(&f)).collect();
    assert_eq!(got, vec![Decision::Allow, Decision::Yield, Decision::Allow, Decision::Yield]);

    for every in [0u32, 1] {
        let mut a = EveryNthYield::new(every);
        for _ in 0..5 {
            assert_eq!(a.decide(&f), Decision::Allow);
        }
    }
}

#[test]
fn throttled_run_counts_yields() {
    let mut d = Driver::with_arbiter(Frame::new(NoopMem, 8), NoopStepper, EveryNthYield::new(3));
    let mut calls = 0u32;
    let mut yields = 0u32;
    loop {
        calls += 1;
        let r = d.step().unwrap();
        if r.outcome == StepOutcome::Yielded {
            yields += 1;
        }
        if r.outcome == StepOutcome::Finished {
            break;
        }
    }
    assert_eq!(calls, 14);
    assert_eq!(yields, 4);
    assert_eq!(d.frame.generated_token_ids, vec![0, 1, 2, 3, 4, 5, 6, 7]);
}

#[test]
fn run_to_completion_with_limit_n() {
    for n in [0usize, 1, 3, 300] {
        let mut d = Driver::new(Frame::new(NoopMem, n), NoopStepper);
        assert!(d.run_to_completion().is_ok());
        assert_eq!(d.frame.state, FrameState::Finished);
        assert_eq!(d.frame.tokens_generated, n);
        assert_eq!(d.frame.cursor.position as usize, n);
        let expected: Vec<u32> = (0..n).map(|i| (i % 256) as u32).collect();
        assert_eq!(d.frame.generated_token_ids, expected);
    }
}
