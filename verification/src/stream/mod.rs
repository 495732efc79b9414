//! Streaming: chunk types, fixed-text streaming agents, and the decisions of
//! the streaming tool loops.
pub mod chunk;
pub mod collector;
pub mod agents;
pub mod turn;
pub mod loop_event;
pub mod tool_dispatch;
