//! Function-call extraction and dispatch for chat models.
//!
//! The library recognises tool-call instructions embedded in raw model
//! output, turns them into typed call signatures, renders the system
//! prompt that advertises the available tools, and drives the decision
//! steps of a function-call turn over a persisted conversation history.

pub mod chat;
pub mod error;
pub mod json;
pub mod llama;
pub mod ollama;
pub mod scan;
pub mod text;
pub mod tool;

use vstd::prelude::*;

verus! {

} // verus!
