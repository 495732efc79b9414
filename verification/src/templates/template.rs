//! The [`ChatTemplate`] trait: formats messages into a model-specific prompt.
use vstd::prelude::*;

use crate::message::Message;

verus! {

/// Formats conversation messages into a model-specific prompt string.
pub trait ChatTemplate: Send + Sync {
    fn format(&self, messages: &[Message]) -> String;

    fn stop_tokens(&self) -> &'static [&'static str];

    /// Post-processes raw model output; templates whose models emit
    /// reasoning markers strip them here.
    fn clean_response(&self, text: &str) -> String;

    /// The stable leading part of `format()`'s output when the first message
    /// is `System(system)`; `None` when the template moves the system text
    /// into a later turn.
    fn format_system_prefix(&self, system: &str) -> Option<String>;
}

} // verus!
