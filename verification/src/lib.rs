//! An agent for a multiplayer trick-taking card game: the phase controller that
//! follows the server's snapshots, the resolution of the cards to play when a
//! trick has to be followed, and the decoding of the server's compressed frames.

pub mod cards;
pub mod play;
pub mod play_lemmas;
pub mod random;
pub mod phase;
pub mod phase_lemmas;
pub mod transport;
