# ytm-rs

A tree-based music queue for songs found on YouTube Music, with its logic
verified by Verus.

A playlist is a tree of groups (`SongOpConstructor`): each group says how
its songs are played (once, looped N times, each song repeated N times,
looped forever, shuffled, one picked at random, picked at random forever).
Building the tree gives a `RecursiveSongOp`, and a `SongOpTracker` walks it
song by song, forwards and backwards.

## Layout

- `src/song_operations/`: the operations, their trackers and the editable
  constructor, with the laws that tie them together (a tracker's current
  path leads to a song of the playlist, a well-formed tracker can always
  move and stays well-formed, moving back undoes moving next (for lists,
  loops, stretches and random plays, as long as no random play sits below
  a node that replays the same child), setting the
  current song and reading it back round-trips, popping takes out the item
  at the path, and so on).
- `src/user_input.rs`, `src/search_window.rs`: list selection with shift and
  control clicks, and the search results window; `src/song.rs` and
  `src/song_list.rs` hold the plain song state and paged list types.
- `src/player.rs`, `src/key_sets.rs`, `src/playlist.rs`: the player's
  decisions (starting playback at a clicked song, the next or previous
  song, the keys in use, what the caches may drop).
- `src/caching.rs`, `src/cache_handlers.rs`, `src/thumbnails.rs`,
  `src/backend_handler.rs`: cache index bookkeeping and file places (paths
  are held as text), square thumbnails through `image`, whether a query is
  a URL, and the backend launch decision.
- `src/chance.rs`, `src/unique_ids.rs`: the calls into `rand` and `uuid`.
- `app/`: a command-line front end that does the file and network work.
