//! The sounds the game asks for.
use vstd::prelude::*;

verus! {

/// A sound to play.
#[derive(Clone, Copy, Debug, PartialEq, Eq, Structural)]
pub enum RakeAudioMessage {
    EatFood,
    Die,
    Buy,
}

/// The game's audio player; it plays what it is sent.
pub struct RakeAudio;

} // verus!
