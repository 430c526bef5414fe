//! The mutable execution context of one generation run.
use vstd::prelude::*;

verus! {

/// Where a frame stands in its life; `Finished` and `Cancelled` are
/// terminal and absorbing.
#[derive(Debug, Clone, Copy, PartialEq, Eq, Structural)]
pub enum FrameState {
    Prefill,
    Decode,
    Finished,
    Cancelled,
}

impl FrameState {
    pub open spec fn is_terminal(self) -> bool {
        self == FrameState::Finished || self == FrameState::Cancelled
    }

    /// The rank of a state along the forward path Prefill, Decode, Finished.
    pub open spec fn rank(self) -> nat {
        match self {
            FrameState::Prefill => 0,
            FrameState::Decode => 1,
            FrameState::Finished => 2,
            FrameState::Cancelled => 3,
        }
    }
}

/// The position of a frame in its run; it never decreases.
#[derive(Debug, Clone)]
pub struct FrameCursor {
    pub position: u32,
}

impl Default for FrameCursor {
    fn default() -> (r: Self)
        ensures
            r.position == 0,
    {
        FrameCursor { position: 0 }
    }
}

/// The configured ceilings of a run.
#[derive(Debug, Clone)]
pub struct FrameLimits {
    pub max_tokens: usize,
}

/// The execution context of one generation run, generic over an opaque
/// backend-owned memory handle `M`.
#[derive(Debug)]
pub struct Frame<M> {
    pub state: FrameState,
    pub cursor: FrameCursor,
    pub limits: FrameLimits,
    pub mem: M,
    pub prompt_token_ids: Vec<u32>,
    pub prompt_index: usize,
    /// Output log of token ids, append-only.
    pub generated_token_ids: Vec<u32>,
    pub tokens_generated: usize,
}

impl<M> Frame<M> {
    /// The frame's invariants: the prompt index stays within the prompt and
    /// the counter matches the output log.
    pub open spec fn wf(&self) -> bool {
        &&& self.prompt_index <= self.prompt_token_ids@.len()
        &&& self.tokens_generated == self.generated_token_ids@.len()
    }

    pub open spec fn is_terminal(&self) -> bool {
        self.state.is_terminal()
    }

    /// A fresh frame in `Prefill` with `prompt` and empty output.
    pub open spec fn is_fresh(&self, mem: M, max_tokens: usize, prompt: Seq<u32>) -> bool {
        &&& self.state == FrameState::Prefill
        &&& self.cursor.position == 0
        &&& self.limits.max_tokens == max_tokens
        &&& self.mem == mem
        &&& self.prompt_token_ids@ == prompt
        &&& self.prompt_index == 0
        &&& self.generated_token_ids@.len() == 0
        &&& self.tokens_generated == 0
    }

    /// A fresh frame with an empty prompt.
    pub fn new(mem: M, max_tokens: usize) -> (r: Self)
        ensures
            r.is_fresh(mem, max_tokens, Seq::empty()),
            r.wf(),
    {
        Frame {
            state: FrameState::Prefill,
            cursor: FrameCursor::default(),
            limits: FrameLimits { max_tokens },
            mem,
            prompt_token_ids: Vec::new(),
            prompt_index: 0,
            generated_token_ids: Vec::new(),
            tokens_generated: 0,
        }
    }

    /// Moves the frame to `Cancelled`, whatever its state; nothing else
    /// changes.
    pub fn cancel(&mut self)
        ensures
            *final(self) == (Frame { state: FrameState::Cancelled, ..*old(self) }),
    {
        self.state = FrameState::Cancelled;
    }

    /// A fresh frame seeded with a prompt.
    pub fn with_prompt(mem: M, max_tokens: usize, prompt_token_ids: Vec<u32>) -> (r: Self)
        ensures
            r.is_fresh(mem, max_tokens, prompt_token_ids@),
            r.wf(),
    {
        Frame {
            state: FrameState::Prefill,
            cursor: FrameCursor::default(),
            limits: FrameLimits { max_tokens },
            mem,
            prompt_token_ids,
            prompt_index: 0,
            generated_token_ids: Vec::new(),
            tokens_generated: 0,
        }
    }
}

} // verus!
