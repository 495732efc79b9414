//! Usage metrics of agent responses and streams.
use vstd::prelude::*;

verus! {

/// Token counts, timing, and cost of an agent call. The estimated cost is
/// kept as the decimal text of its value.
#[derive(Debug, Default, PartialEq)]
pub struct UsageMetrics {
    pub input_tokens: Option<u64>,
    pub output_tokens: Option<u64>,
    pub total_tokens: Option<u64>,
    pub estimated_cost: Option<String>,
    pub processing_time_ms: Option<u128>,
    /// Time to first token; only streaming backends set it.
    pub ttft_ms: Option<u128>,
}

impl Clone for UsageMetrics {
    fn clone(&self) -> (r: Self)
        ensures
            r.input_tokens == self.input_tokens,
            r.output_tokens == self.output_tokens,
            r.total_tokens == self.total_tokens,
            r.estimated_cost matches Some(c) ==> self.estimated_cost matches Some(d) && c@ == d@,
            r.estimated_cost is None <==> self.estimated_cost is None,
            r.processing_time_ms == self.processing_time_ms,
            r.ttft_ms == self.ttft_ms,
    {
        UsageMetrics {
            input_tokens: self.input_tokens,
            output_tokens: self.output_tokens,
            total_tokens: self.total_tokens,
            estimated_cost: match &self.estimated_cost {
                Some(c) => Some(c.clone()),
                None => None,
            },
            processing_time_ms: self.processing_time_ms,
            ttft_ms: self.ttft_ms,
        }
    }
}

impl UsageMetrics {
    pub fn new() -> (r: Self)
        ensures
            r.input_tokens is None && r.output_tokens is None && r.total_tokens is None,
            r.estimated_cost is None && r.processing_time_ms is None && r.ttft_ms is None,
    {
        UsageMetrics {
            input_tokens: None,
            output_tokens: None,
            total_tokens: None,
            estimated_cost: None,
            processing_time_ms: None,
            ttft_ms: None,
        }
    }

    /// Sets the token counts and their total.
    pub fn with_tokens(self, input: u64, output: u64) -> (r: Self)
        requires
            input + output <= u64::MAX,
        ensures
            r.input_tokens == Some(input),
            r.output_tokens == Some(output),
            r.total_tokens == Some((input + output) as u64),
            r.estimated_cost == self.estimated_cost,
            r.processing_time_ms == self.processing_time_ms,
            r.ttft_ms == self.ttft_ms,
    {
        UsageMetrics { input_tokens: Some(input), output_tokens: Some(output), total_tokens: Some(input + output), ..self }
    }

    pub fn with_processing_time_ms(self, ms: u128) -> (r: Self)
        ensures
            r.processing_time_ms == Some(ms),
            r.input_tokens == self.input_tokens && r.output_tokens == self.output_tokens,
            r.total_tokens == self.total_tokens && r.estimated_cost == self.estimated_cost,
            r.ttft_ms == self.ttft_ms,
    {
        UsageMetrics { processing_time_ms: Some(ms), ..self }
    }

    pub fn with_ttft_ms(self, ms: u128) -> (r: Self)
        ensures
            r.ttft_ms == Some(ms),
            r.input_tokens == self.input_tokens && r.output_tokens == self.output_tokens,
            r.total_tokens == self.total_tokens && r.estimated_cost == self.estimated_cost,
            r.processing_time_ms == self.processing_time_ms,
    {
        UsageMetrics { ttft_ms: Some(ms), ..self }
    }
}

} // verus!
