//! Speech-to-text engine descriptions and the events a recognition session
//! sends out. The engines themselves live in the application.

use vstd::prelude::*;

verus! {

/// What an engine can do, shown in the user interface.
#[derive(Debug, Clone)]
pub struct EngineCapabilities {
    /// Streams partial results.
    pub streaming: bool,
    /// Accepts a hotword list.
    pub hotwords: bool,
    /// Can run on a GPU.
    pub gpu: bool,
    /// Works fully offline.
    pub offline: bool,
    pub languages: Vec<String>,
}

/// An engine as listed to the user interface.
#[derive(Debug, Clone)]
pub struct EngineInfo {
    pub id: String,
    pub display_name: String,
    pub capabilities: EngineCapabilities,
    pub is_ready: bool,
}

/// A recognition result.
#[derive(Debug, Clone)]
pub struct Transcript {
    pub text: String,
    pub latency_ms: u32,
}

/// What a session reports: partial results while it runs (streaming engines
/// only), then the final one.
#[derive(Debug, Clone)]
pub enum SttEvent {
    Partial { text: String },
    Final { text: String, latency_ms: u32 },
}

} // verus!
