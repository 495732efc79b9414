//! Chat templates and prompt formatting for local model backends.
pub mod helpers;
pub mod template;
pub mod chatml;
pub mod gemma4;
pub mod llama3;
pub mod calendar;
pub mod mistral;
pub mod kind;
pub mod scan;
pub mod calls;
pub mod prompt;
pub mod grammar;
