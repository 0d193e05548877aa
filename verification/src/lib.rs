//! Verified core of the Kotone voice-chat assistant.
use vstd::prelude::*;

pub mod text;
pub mod hotkey;
pub mod runtime;
pub mod vad;
pub mod interaction;
pub mod connection;
pub mod settings;
pub mod profile;
pub mod eval;
pub mod process_log;
pub mod diagnostics;
pub mod audio;
pub mod stt;
pub mod cli;
pub mod desktop;
pub mod history;
pub mod orchestrator;
pub mod postprocess;
pub mod wav;
pub mod json;

verus! {
} // verus!
