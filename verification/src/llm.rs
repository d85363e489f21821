//! What an agent that is driven by a language model keeps and computes.

pub mod ability;
pub mod llm;
pub mod storage;
