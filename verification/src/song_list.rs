//! A list of songs shown a page at a time.
use vstd::prelude::*;

verus! {

/// A list of songs with the size of its pages and the page shown.
#[derive(Debug, Clone)]
pub struct PagedSongList<T> {
    pub songs: Vec<T>,
    song_per_page: usize,
    current_index: usize,
}

} // verus!
