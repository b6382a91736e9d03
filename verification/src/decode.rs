use vstd::prelude::*;

verus! {

/// Hard cap on the number of tokens one generation run may accumulate.
pub const MAX_GENERATED: usize = 1000;

/// A finished token sequence is well formed when it respects the two stop
/// conditions: the end-of-turn id appears at most once, only as the last
/// token, and the sequence never exceeds the cap.
pub open spec fn wf_generated(tokens: Seq<u32>, eos: u32) -> bool {
    &&& tokens.len() <= MAX_GENERATED
    &&& forall|i: int| 0 <= i < tokens.len() - 1 ==> tokens[i] != eos
}

/// A finished sequence additionally halted for one of the two admissible
/// reasons: its last token is the end-of-turn id, or it reached the cap.
pub open spec fn halted_generated(tokens: Seq<u32>, eos: u32) -> bool {
    &&& wf_generated(tokens, eos)
    &&& tokens.len() > 0
    &&& (tokens.last() == eos || tokens.len() == MAX_GENERATED)
}

/// The state of one autoregressive decode session. Created for a single
/// generation run and discarded afterwards; never persisted.
pub struct DecodeState {
    /// Tokens accumulated so far, in sampling order.
    pub tokens: Vec<u32>,
    /// The end-of-turn token id that terminates the session.
    pub eos: u32,
    /// Absolute position of the next token to be consumed by the model:
    /// the KV cache holds exactly the positions below `pos`.
    pub pos: usize,
    /// Whether a stop condition has been reached.
    pub done: bool,
}

impl DecodeState {
    /// Session invariant, established at creation and preserved by every
    /// step: the accumulator respects the cap, holds the end-of-turn id
    /// nowhere but last, and `done` reflects the stop conditions exactly.
    pub open spec fn wf(self) -> bool {
        &&& self.tokens@.len() <= MAX_GENERATED
        &&& forall|i: int| 0 <= i < self.tokens@.len() - 1 ==> self.tokens@[i] != self.eos
        &&& self.done <==> (self.tokens@.len() == MAX_GENERATED || (self.tokens@.len() > 0
            && self.tokens@.last() == self.eos))
    }

    /// Opens a session after the prompt has been consumed: the cache covers
    /// the whole prompt, so decoding starts at position `prompt_len`.
    pub fn new_session(prompt_len: usize, eos: u32) -> (r: DecodeState)
        ensures
            r.wf(),
            r.tokens@ == Seq::<u32>::empty(),
            r.eos == eos,
            r.pos == prompt_len,
            !r.done,
    {
        DecodeState { tokens: Vec::new(), eos, pos: prompt_len, done: false }
    }

    /// Appends one sampled token to the accumulator and then evaluates the
    /// stop conditions, in order: first the end-of-turn check, then the
    /// length cap. Returns whether the session is over. The end-of-turn
    /// token itself stays in the accumulator.
    pub fn push_token(&mut self, token: u32) -> (stop: bool)
        requires
            old(self).wf(),
            !old(self).done,
        ensures
            final(self).wf(),
            final(self).tokens@ == old(self).tokens@.push(token),
            final(self).eos == old(self).eos,
            final(self).pos == old(self).pos,
            final(self).done == (token == old(self).eos || old(self).tokens@.len() + 1
                == MAX_GENERATED),
            stop == final(self).done,
    {
        self.tokens.push(token);
        if token == self.eos {
            self.done = true;
        } else if self.tokens.len() >= MAX_GENERATED {
            self.done = true;
        }
        self.done
    }

    /// Advances the position counter by one after the model has consumed
    /// one more token: the counter strictly increases within a session.
    pub fn advance(&mut self)
        requires
            old(self).wf(),
            old(self).pos < usize::MAX,
        ensures
            final(self).wf(),
            final(self).pos == old(self).pos + 1,
            final(self).tokens@ == old(self).tokens@,
            final(self).eos == old(self).eos,
            final(self).done == old(self).done,
    {
        self.pos = self.pos + 1;
    }

    /// Hands the accumulated tokens out, consuming the session.
    pub fn into_tokens(self) -> (r: Vec<u32>)
        ensures
            r@ == self.tokens@,
    {
        self.tokens
    }
}

/// Every session that respects the invariant yields a sequence of at most
/// the cap, and generation halts at or immediately after the first
/// end-of-turn token: no token before the last one is the end-of-turn id,
/// so the first occurrence, if any, is the final token, where the session
/// stops.
pub proof fn lemma_generation_bounded(s: DecodeState)
    requires
        s.wf(),
    ensures
        s.tokens@.len() <= MAX_GENERATED,
        forall|i: int|
            0 <= i < s.tokens@.len() && s.tokens@[i] == s.eos ==> i == s.tokens@.len() - 1
                && s.done,
{
}

/// A halted session is exactly a well-formed non-empty sequence whose last
/// token is the end-of-turn id or whose length is the cap.
pub proof fn lemma_halt_reason(s: DecodeState)
    requires
        s.wf(),
        s.done,
    ensures
        halted_generated(s.tokens@, s.eos),
{
}

} // verus!
