//! The state of a song in the player.
use vstd::prelude::*;

verus! {

/// Where a song stands: nothing done yet, being looked up, being
/// downloaded, downloaded, in the cache, or playing.
#[derive(Debug, Clone, Copy, PartialEq, Eq, Structural)]
pub enum SongState {
    Idle,
    Fetching,
    Downloading,
    Downloaded,
    Cached,
    Playing,
}

impl SongState {
    /// A song starts with nothing done.
    pub fn default() -> (r: Self)
        ensures
            r == SongState::Idle,
    {
        SongState::Idle
    }
}

} // verus!
