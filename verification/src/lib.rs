//! A persistent collaboration space: participants hold sessions, exchange
//! messages, declare and call abilities, and read one totally ordered
//! timeline of events, live or by page.

pub mod bytes;
pub mod api;
pub mod kvstore;
pub mod tim_storage;
pub mod channel;
pub mod tim_space;
pub mod secret;
pub mod tim_timite;
pub mod tim_session;
pub mod text;
pub mod tim_message;
pub mod tim_ability;
pub mod tim_api;
pub mod laws;
pub mod lines;
pub mod app;
pub mod gpt;
pub mod updates;
pub mod flows;
pub mod services;
pub mod session;
pub mod agents;
pub mod crawler;
pub mod tim_client;
pub mod client;
pub mod llm;
