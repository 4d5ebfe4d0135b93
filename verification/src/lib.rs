//! OSC cue bridge: decodes control-surface OSC traffic addressed to numbered
//! sequence controls, parses cue identifier slugs, tracks per-sequence cue and
//! fader state, and plans the outbound console commands and remote-registry
//! actions that each inbound message calls for.

pub mod cue;
pub mod dispatch;
pub mod error;
pub mod hardware;
pub mod laws;
pub mod osc;
pub mod sequence;
pub mod text;
pub mod util;

pub use error::BridgeError;
