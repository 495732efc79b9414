use vstd::prelude::*;

pub mod agent;
pub mod caching;
pub mod error;
pub mod json;
pub mod llama;
pub mod logging;
pub mod message;
pub mod retry;
pub mod schema;
pub mod stream;
pub mod structured;
pub mod templates;
pub mod text;
pub mod tool;
pub mod tool_parser;
pub mod tool_loop;
pub mod tool_response;
pub mod usage;

verus! {

} // verus!
