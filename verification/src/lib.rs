//! Integer-side logic of an audio-reactive cloud-tunnel visualiser: scene and
//! director modes, bake-size presets, playback state, beat-grid indexing,
//! bloom-chain scheduling, GPU readback layout and the encoder command line.
//! Everything here is proved by Verus; the floating-point audio analysis,
//! GPU work and windowing live in the application around this library.

pub mod bake;
pub mod beats;
pub mod bloom;
pub mod hash;
pub mod modes;
pub mod playback;
pub mod text;
pub mod window;
