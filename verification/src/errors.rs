use vstd::prelude::*;
use vstd::string::StringExecFns;

verus! {

/// Failure of the document source: the page could not be fetched.
#[derive(Debug, Clone)]
pub struct FetchError {
    pub message: String,
}

/// Failure of the model or tokenizer during a generation run.
#[derive(Debug, Clone)]
pub struct GenerationError {
    pub message: String,
}

/// Failure of the parse stage: the model output held no well-formed
/// structured span, or the span failed schema validation.
#[derive(Debug, Clone)]
pub enum ParseError {
    /// No structured span was found, or the span is not valid structured data.
    InvalidJson { message: String },
    /// A field was present but had the wrong shape.
    BadField { field: String },
}

/// Failure of the render stage: the case misses a field the report requires.
#[derive(Debug, Clone)]
pub struct RenderError {
    pub missing_field: String,
}

/// Failure of the external document compiler (non-zero exit).
#[derive(Debug, Clone)]
pub struct CompileError {
    pub message: String,
}

impl ParseError {
    pub fn message(&self) -> (r: String)
        ensures
            r@.len() > 0,
    {
        let mut m = String::new();
        match self {
            ParseError::InvalidJson { message } => {
                m.append("failed to parse structured model output: ");
                m.append(message.as_str());
            },
            ParseError::BadField { field } => {
                m.append("model output field has the wrong shape: ");
                m.append(field.as_str());
            },
        }
        proof {
            reveal_strlit("failed to parse structured model output: ");
            reveal_strlit("model output field has the wrong shape: ");
        }
        m
    }
}

} // verus!
