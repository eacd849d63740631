//! A tracker-style music engine core: a song model edited through validated
//! operations, a double-buffered snapshot for lock-free hand-off to an audio
//! worker, a playback state machine, fixed-point sample voices, and parsers
//! for the Impulse module format.

pub mod note_event;
pub mod pattern;
pub mod sample;
pub mod song;
pub mod left_right;
pub mod file_format;
pub mod voice;
pub mod playback;
pub mod live_audio;
pub mod manager;

use vstd::prelude::*;

verus! {

/// Greatest number of channels a pattern row can address.
pub const MAX_CHANNELS: usize = 64;

} // verus!
