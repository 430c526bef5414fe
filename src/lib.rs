//! Deterministic frame-based execution law.
//!
//! A backend implements [`FrameStepper`] and performs exactly one bounded
//! step per call; the [`Driver`] owns the scheduling loop, consults an
//! [`Arbiter`] before each step, and reports a uniform [`StepResult`].
//! The [`laws`] module states what holds along any run of driver steps.

pub mod driver;
pub mod frame;
pub mod laws;
pub mod noop;
pub mod result;
pub mod throttle;

pub use driver::{
    backend_step, decision_step, emitted, scheduled_step, terminal_reason, Arbiter, Decision,
    Driver, FrameStepper, NoArbiter,
};
pub use frame::{Frame, FrameCursor, FrameLimits, FrameState};
pub use noop::{NoopMem, NoopStepper};
pub use result::{Receipt, StepOutcome, StepResult, StopReason};
pub use throttle::EveryNthYield;
