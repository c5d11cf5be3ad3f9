//! A tree-based music queue: song operations, their playback trackers,
//! the editable operation constructor, search selection and cache bookkeeping.

pub mod song_operations;
pub mod chance;
pub mod unique_ids;
pub mod user_input;
pub mod response_types;
pub mod search_window;
pub mod key_sets;
pub mod player;
pub mod caching;
pub mod cache_handlers;
pub mod playlist;
pub mod thumbnails;
pub mod backend_handler;
pub mod song;
pub mod song_list;
