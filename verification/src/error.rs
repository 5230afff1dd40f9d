//! The typed failures of one function-call turn. Recoverable per-item
//! conditions are absorbed during decoding; these are the
//! conversation-level conditions surfaced to the caller.

use vstd::prelude::*;
use vstd::string::StringExecFns;

verus! {

/// Why a function-call turn failed.
#[derive(Clone, Debug)]
pub enum OllamaError {
    /// The chat transport failed; its report is carried unchanged.
    TransportError(String),
    /// No recognisable call was found in an otherwise successful reply.
    ParseFailure,
    /// One call's argument payload was not structurally valid.
    ArgumentDecodeError(String),
    /// A decoded signature named a tool absent from the supplied set.
    ToolNotFound(String),
    /// The named tool itself reported a failure.
    ToolExecutionError(String),
}

/// The report text of each failure.
pub open spec fn error_text(e: OllamaError) -> Seq<char> {
    match e {
        OllamaError::TransportError(d) => "Transport error: "@ + d@,
        OllamaError::ParseFailure => "Error parsing function call"@,
        OllamaError::ArgumentDecodeError(d) => "Error parsing function arguments: "@ + d@,
        OllamaError::ToolNotFound(n) => "Tool not found: "@ + n@,
        OllamaError::ToolExecutionError(d) => "Tool execution failed: "@ + d@,
    }
}

impl OllamaError {
    /// The report text of this failure.
    pub fn message(&self) -> (r: String)
        ensures
            r@ == error_text(*self),
    {
        match self {
            OllamaError::TransportError(d) => {
                let mut m = String::from_str("Transport error: ");
                m.append(d.as_str());
                m
            },
            OllamaError::ParseFailure => String::from_str("Error parsing function call"),
            OllamaError::ArgumentDecodeError(d) => {
                let mut m = String::from_str("Error parsing function arguments: ");
                m.append(d.as_str());
                m
            },
            OllamaError::ToolNotFound(n) => {
                let mut m = String::from_str("Tool not found: ");
                m.append(n.as_str());
                m
            },
            OllamaError::ToolExecutionError(d) => {
                let mut m = String::from_str("Tool execution failed: ");
                m.append(d.as_str());
                m
            },
        }
    }
}

} // verus!
