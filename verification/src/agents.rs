//! The agents that live in the server's own process.

pub mod chatgpt;
