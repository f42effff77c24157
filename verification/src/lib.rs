use vstd::prelude::*;

pub mod analyze;
pub mod cli;
pub mod config;
pub mod error;
pub mod gemini;
pub mod mcp;
pub mod text;
pub mod types;

verus! {
} // verus!
