use vstd::prelude::*;

use crate::decode::{halted_generated, lemma_halt_reason, DecodeState, MAX_GENERATED};
use crate::errors::GenerationError;
use crate::prompt::build_chat_prompt;

verus! {

#[verifier::external_type_specification]
#[verifier::external_body]
pub struct ExTokenizer(tokenizers::Tokenizer);

#[verifier::external_type_specification]
#[verifier::external_body]
pub struct ExDevice(candle_core::Device);

#[verifier::external_type_specification]
#[verifier::external_body]
pub struct ExTensor(candle_core::Tensor);

#[verifier::external_type_specification]
#[verifier::external_body]
pub struct ExCandleError(candle_core::Error);

#[verifier::external_type_specification]
#[verifier::external_body]
pub struct ExModelWeights(candle_transformers::models::quantized_qwen2::ModelWeights);

#[verifier::external_type_specification]
#[verifier::external_body]
pub struct ExLogitsProcessor(candle_transformers::generation::LogitsProcessor);

/// Relies on candle's Tensor::new over a slice of token ids, and on
/// Tensor::unsqueeze(0) to add the batch dimension the model expects.
#[verifier::external_body]
fn input_tensor(ids: &Vec<u32>, device: &candle_core::Device) -> Result<
    candle_core::Tensor,
    candle_core::Error,
> {
    candle_core::Tensor::new(ids.as_slice(), device)?.unsqueeze(0)
}

/// Relies on quantized_qwen2::ModelWeights::forward: consumes the input
/// tokens as the positions starting at `index_pos`, extends the private
/// per-layer KV cache for exactly those positions, and returns the logits
/// of the last position; Tensor::squeeze(0) then drops the batch
/// dimension. Deterministic in weights, cache state, input and position.
#[verifier::external_body]
fn forward_logits(
    model: &mut candle_transformers::models::quantized_qwen2::ModelWeights,
    input: &candle_core::Tensor,
    index_pos: usize,
) -> Result<candle_core::Tensor, candle_core::Error> {
    model.forward(input, index_pos)?.squeeze(0)
}

/// Relies on LogitsProcessor::sample: draws one token id from the softmax
/// of the logits under the processor's temperature and nucleus settings,
/// advancing its seeded generator. Which id comes back depends on the
/// processor state, so nothing more is promised of the result.
#[verifier::external_body]
fn sample_token(
    processor: &mut candle_transformers::generation::LogitsProcessor,
    logits: &candle_core::Tensor,
) -> Result<u32, candle_core::Error> {
    processor.sample(logits)
}

/// Relies on the Display impl of candle's Error: a human-readable
/// description of the failure.
#[verifier::external_body]
fn candle_error_text(e: &candle_core::Error) -> String {
    e.to_string()
}

/// Relies on Tokenizer::encode with special tokens added: the ordered
/// token ids of the text, or the tokenizer's failure message.
#[verifier::external_body]
fn encode_ids(t: &tokenizers::Tokenizer, text: &str) -> Result<Vec<u32>, String> {
    match t.encode(text, true) {
        Ok(e) => Ok(e.get_ids().to_vec()),
        Err(e) => Err(e.to_string()),
    }
}

/// Relies on Tokenizer::decode with special-token markup stripped: the
/// text of the ids, or the tokenizer's failure message.
#[verifier::external_body]
fn decode_ids(t: &tokenizers::Tokenizer, ids: &Vec<u32>) -> Result<String, String> {
    match t.decode(ids.as_slice(), true) {
        Ok(s) => Ok(s),
        Err(e) => Err(e.to_string()),
    }
}

/// Relies on Tokenizer::get_vocab over the full vocabulary: the id the
/// given special-token name maps to, when the vocabulary holds that name.
#[verifier::external_body]
fn vocab_lookup(t: &tokenizers::Tokenizer, name: &str) -> Option<u32> {
    t.get_vocab(true).get(name).copied()
}

/// The fixed fallback id for the end-of-turn token, used when the
/// vocabulary does not list it under its name.
pub const DEFAULT_EOT_ID: u32 = 151645;

/// Resolves a special-token lookup: the found id, or the fixed default.
pub fn special_or_default(found: Option<u32>) -> (r: u32)
    ensures
        found matches Some(id) ==> r == id,
        found is None ==> r == DEFAULT_EOT_ID,
{
    match found {
        Some(id) => id,
        None => DEFAULT_EOT_ID,
    }
}

fn generation_failure(e: &candle_core::Error) -> GenerationError {
    GenerationError { message: candle_error_text(e) }
}

/// The inference engine: quantized weights, tokenizer and device, loaded
/// once at startup and read-only thereafter but for the model's private
/// KV cache, which only one decode session at a time may drive.
pub struct LlmEngine {
    pub model: candle_transformers::models::quantized_qwen2::ModelWeights,
    pub tokenizer: tokenizers::Tokenizer,
    pub device: candle_core::Device,
}

impl LlmEngine {
    /// Assembles an engine from already-loaded parts; obtaining them from
    /// disk is the caller's I/O.
    pub fn from_parts(
        model: candle_transformers::models::quantized_qwen2::ModelWeights,
        tokenizer: tokenizers::Tokenizer,
        device: candle_core::Device,
    ) -> (r: LlmEngine)
        ensures
            r.model == model && r.tokenizer == tokenizer && r.device == device,
    {
        LlmEngine { model, tokenizer, device }
    }

    /// Looks the end-of-turn id up by name, falling back to the fixed
    /// default when the vocabulary lacks it. The lookup's outcome rides
    /// along as a ghost value, so the fallback relation stands in the
    /// contract although the vocabulary itself is opaque.
    pub fn lookup_special(&self, name: &str) -> (r: (u32, Ghost<Option<u32>>))
        ensures
            r.1@ matches Some(id) ==> r.0 == id,
            r.1@ is None ==> r.0 == DEFAULT_EOT_ID,
    {
        let found = vocab_lookup(&self.tokenizer, name);
        let id = special_or_default(found);
        (id, Ghost(found))
    }

    /// The autoregressive decode loop. One forward call consumes the whole
    /// prompt and builds the cache; afterwards one token is sampled per
    /// iteration, appended before the stop conditions are evaluated, with
    /// the position advancing by exactly one per consumed token. The loop
    /// stops at the first end-of-turn token (which stays in the output) or
    /// when the output reaches the cap, whichever comes first; no other
    /// interruption path exists.
    pub fn run_decode_loop(
        &mut self,
        sampler: &mut candle_transformers::generation::LogitsProcessor,
        prompt_ids: &Vec<u32>,
        eos: u32,
    ) -> (r: Result<Vec<u32>, GenerationError>)
        requires
            prompt_ids@.len() > 0,
            prompt_ids@.len() + 1001 <= usize::MAX,
        ensures
            r matches Ok(toks) ==> halted_generated(toks@, eos),
    {
        let input = match input_tensor(prompt_ids, &self.device) {
            Ok(t) => t,
            Err(e) => {
                return Err(generation_failure(&e));
            },
        };
        let logits = match forward_logits(&mut self.model, &input, 0) {
            Ok(t) => t,
            Err(e) => {
                return Err(generation_failure(&e));
            },
        };
        let mut next = match sample_token(sampler, &logits) {
            Ok(t) => t,
            Err(e) => {
                return Err(generation_failure(&e));
            },
        };
        let mut st = DecodeState::new_session(prompt_ids.len(), eos);
        let mut stop = false;
        while !stop
            invariant
                st.wf(),
                st.eos == eos,
                stop == st.done,
                !stop ==> st.pos == prompt_ids@.len() + st.tokens@.len(),
                prompt_ids@.len() + 1001 <= usize::MAX,
            decreases MAX_GENERATED - st.tokens@.len(),
        {
            stop = st.push_token(next);
            if !stop {
                let step = vec![next];
                let input = match input_tensor(&step, &self.device) {
                    Ok(t) => t,
                    Err(e) => {
                        return Err(generation_failure(&e));
                    },
                };
                let logits = match forward_logits(&mut self.model, &input, st.pos) {
                    Ok(t) => t,
                    Err(e) => {
                        return Err(generation_failure(&e));
                    },
                };
                next = match sample_token(sampler, &logits) {
                    Ok(t) => t,
                    Err(e) => {
                        return Err(generation_failure(&e));
                    },
                };
                st.advance();
            }
        }
        proof {
            lemma_halt_reason(st);
        }
        Ok(st.into_tokens())
    }

    /// One full generation: builds the role-tagged prompt, encodes it,
    /// runs the decode loop, and decodes the accumulated tokens with
    /// special-token markup stripped. Any tokenizer or forward-pass
    /// failure aborts the run as a GenerationError. The accumulated token
    /// sequence and the end-of-turn id ride along as a ghost value: on
    /// success that sequence obeys the stop-condition law — at most the
    /// cap, the end-of-turn id nowhere but last, halted for one of the two
    /// admissible reasons. The decoded text itself depends on the
    /// tokenizer value, of which nothing further can be promised.
    pub fn generate(
        &mut self,
        sampler: &mut candle_transformers::generation::LogitsProcessor,
        system: &str,
        user: &str,
    ) -> (r: (Result<String, GenerationError>, Ghost<(Seq<u32>, u32)>))
        ensures
            r.0 is Ok ==> halted_generated(r.1@.0, r.1@.1),
    {
        let ghost none: (Seq<u32>, u32) = (Seq::<u32>::empty(), 0u32);
        let prompt = build_chat_prompt(system, user);
        let prompt_ids = match encode_ids(&self.tokenizer, prompt.as_str()) {
            Ok(v) => v,
            Err(m) => {
                return (Err(GenerationError { message: m }), Ghost(none));
            },
        };
        if prompt_ids.len() == 0 {
            return (Err(GenerationError { message: "empty prompt encoding".to_owned() }), Ghost(none));
        }
        if prompt_ids.len() > usize::MAX - 1001 {
            return (Err(GenerationError { message: "prompt too long".to_owned() }), Ghost(none));
        }
        let (eos, _) = self.lookup_special("<|im_end|>");
        let tokens = match self.run_decode_loop(sampler, &prompt_ids, eos) {
            Ok(t) => t,
            Err(e) => {
                return (Err(e), Ghost(none));
            },
        };
        match decode_ids(&self.tokenizer, &tokens) {
            Ok(text) => (Ok(text), Ghost((tokens@, eos))),
            Err(m) => (Err(GenerationError { message: m }), Ghost((tokens@, eos))),
        }
    }
}

} // verus!
