//! Verified core of a multi-channel audio soundcheck tool.
//!
//! The library resolves which output channels of a spatial-audio
//! installation are actively routed (a five-stage filter chain over six
//! remote collections), builds the channel -> label map that drives the
//! per-channel verification playback, and plans that playback: one spoken
//! label per channel, all other channels muted.
//!
//! Network, device and file handling live outside the library; they hand
//! in plain records and take plain values back.

pub mod chain;
pub mod channel_map;
pub mod device;
pub mod gain;
pub mod model;
pub mod player;
pub mod resolver;
pub mod text;
