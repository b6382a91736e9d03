//! A legal-judgment analysis engine: an autoregressive inference core —
//! prompt construction, a KV-cache decoding loop with a hard output cap,
//! single-flight admission — and the case pipeline that fetches a judgment,
//! asks the model for structured analysis, parses and validates it, and
//! renders a compilable report source. I/O lives with the caller; the
//! library holds the logic, with contracts over its exact behaviour.

pub mod case;
pub mod decode;
pub mod digits;
pub mod engine;
pub mod errors;
pub mod flight;
pub mod parse;
pub mod pipeline;
pub mod prompt;
pub mod search;
pub mod text;
