//! Verified core of a minimal waveform audio player: the text formats it
//! reads and writes, the playback state machine, the window controller and
//! the waveform layout.

pub mod text;
pub mod numbers;
pub mod playback;
pub mod player;
pub mod config;
pub mod paths;
pub mod ipc;
pub mod desktop;
pub mod display;
pub mod waveform;
