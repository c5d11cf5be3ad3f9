use vstd::prelude::*;

use crate::key_sets::{add_key, key_views};
use crate::search_window::{derefs, SearchWindow};
use crate::song_operations::recursive_song_op::RecursiveSongOp;
use crate::song_operations::song_op_constructor::{
    law_built_song_paths, path_deque, ConstructorItem, ItemId, SongKey, SongOpConstructor,
};
use crate::song_operations::song_op_tracker::{
    law_current_path_leads_to_song, lemma_back_keeps_wf, lemma_fresh_tracker_is_well_formed, lemma_next_keeps_wf,
    lemma_set_keeps_wf, lemma_wf_back_ok, lemma_wf_next_ok, lemma_wf_path_ok, BackResult, NextResult, SongOpTracker,
};

verus! {

/// The periodic ticks of the player, each on or off with its period in
/// seconds: cache clean-up, backend polling, and the playback position
/// while a song plays.
#[derive(Debug)]
pub struct Tickers {
    pub cache: (bool, u64),
    pub backend_status: (bool, u64),
    pub playing_status: (bool, u64),
}

impl Tickers {
    /// Cache clean-up every 20 s and backend polling every 10 s are on;
    /// the playback ticker (every second) waits for a song.
    pub fn default() -> (r: Self)
        ensures
            r.cache == (true, 20u64),
            r.backend_status == (true, 10u64),
            r.playing_status == (false, 1u64),
    {
        Tickers { cache: (true, 20), backend_status: (true, 10), playing_status: (false, 1) }
    }

    /// Turns the playback ticker on while playing and off while paused.
    pub fn set_playing(&mut self, playing: bool)
        ensures
            final(self).playing_status == (playing, old(self).playing_status.1),
            final(self).cache == old(self).cache,
            final(self).backend_status == old(self).backend_status,
    {
        self.playing_status.0 = playing;
    }
}

/// What the player does after a step through its queue.
#[derive(Debug)]
pub enum PlayStep {
    /// Play the song that these indexes lead to.
    PlayAt(Vec<usize>),
    /// Play the current song again from its beginning.
    Restart,
    /// The queue has ended: pause where it stands.
    Pause,
}

/// Where playback stands in the playlist.
#[derive(Debug)]
pub struct PlayerState {
    pub tracker: SongOpTracker,
}

impl PlayerState {
    /// Starts playback at the clicked item: the playlist's operation is
    /// built, and a fresh tracker for it is set along the path to the item.
    pub fn song_clicked(constructor: &SongOpConstructor, wid: &ItemId) -> (r: PlayerState)
        requires
            constructor.spec_path_to_id(*wid) is Some,
            forall|op: RecursiveSongOp| #[trigger] constructor.builds(op) ==> op.choices_nonempty(),
        ensures
            exists|op: RecursiveSongOp, t: SongOpTracker| #[trigger] constructor.builds(op) && #[trigger] t.tracks(op)
                && t.set_rel(constructor.spec_path_to_id(*wid).unwrap(), r.tracker) && (op.playable()
                && op.counts_fit() ==> r.tracker.wf()),
    {
        let path = match constructor.path_to_id(wid) {
            Some(p) => p,
            None => {
                return PlayerState { tracker: SongOpTracker::SinglePlay };
            },
        };
        let song_op = constructor.build();
        assert(constructor.builds(song_op));
        proof {
            assert forall|t: SongOpTracker| #[trigger] t.tracks(song_op) implies t.set_ok(path@) by {
                lemma_path_to_id_settable(*constructor, song_op, *wid, t);
            }
        }
        let tracker = SongOpTracker::from_song_op(&song_op, path_deque(&path));
        proof {
            let t = choose|t: SongOpTracker| #[trigger] t.tracks(song_op) && t.set_rel(path@, tracker);
            if song_op.playable() && song_op.counts_fit() {
                lemma_fresh_tracker_is_well_formed(t, song_op);
                lemma_path_to_id_settable(*constructor, song_op, *wid, t);
                lemma_set_keeps_wf(t, path@, tracker);
            }
        }
        PlayerState { tracker }
    }
}

impl PlayerState {
    /// Moves on once a song has ended or "next" was pressed: the song the
    /// tracker moves to is played, or playback pauses when the queue ends.
    pub fn play_next_song(&mut self) -> (r: PlayStep)
        requires
            old(self).tracker.wf(),
        ensures
            final(self).tracker.wf(),
            old(self).tracker.next_rel(final(self).tracker),
            old(self).tracker.next_result() == NextResult::Current ==> (r matches PlayStep::PlayAt(p) && p@
                == final(self).tracker.spec_path()),
            old(self).tracker.next_result() == NextResult::Ended ==> r is Pause,
    {
        proof {
            lemma_wf_next_ok(self.tracker);
        }
        let ghost before = self.tracker;
        let res = self.tracker.move_next();
        proof {
            lemma_next_keeps_wf(before, self.tracker);
            lemma_wf_path_ok(self.tracker);
        }
        match res {
            NextResult::Current => PlayStep::PlayAt(self.tracker.get_current()),
            NextResult::Ended => PlayStep::Pause,
        }
    }

    /// Moves back to the previous song: the song the tracker moves to is
    /// played, or the current song restarts when the queue is at its start.
    pub fn play_previous_song(&mut self) -> (r: PlayStep)
        requires
            old(self).tracker.wf(),
        ensures
            final(self).tracker.wf(),
            old(self).tracker.back_rel(final(self).tracker),
            old(self).tracker.back_result() == BackResult::Current ==> (r matches PlayStep::PlayAt(p) && p@
                == final(self).tracker.spec_path()),
            old(self).tracker.back_result() == BackResult::Rewound ==> r is Restart,
    {
        proof {
            lemma_wf_back_ok(self.tracker);
        }
        let ghost before = self.tracker;
        let res = self.tracker.move_back();
        proof {
            lemma_back_keeps_wf(before, self.tracker);
            lemma_wf_path_ok(self.tracker);
        }
        match res {
            BackResult::Current => PlayStep::PlayAt(self.tracker.get_current()),
            BackResult::Rewound => PlayStep::Restart,
        }
    }

    /// "Previous" pressed: a song that has played for a while restarts;
    /// early in a song, playback moves back to the previous one.
    pub fn rewind(&mut self, played_a_while: bool) -> (r: PlayStep)
        requires
            old(self).tracker.wf(),
        ensures
            final(self).tracker.wf(),
            played_a_while ==> r is Restart && final(self).tracker == old(self).tracker,
            !played_a_while ==> {
                &&& old(self).tracker.back_rel(final(self).tracker)
                &&& old(self).tracker.back_result() == BackResult::Current ==> (r matches PlayStep::PlayAt(p) && p@
                    == final(self).tracker.spec_path())
                &&& old(self).tracker.back_result() == BackResult::Rewound ==> r is Restart
            },
    {
        if played_a_while {
            PlayStep::Restart
        } else {
            self.play_previous_song()
        }
    }
}

/// The key of the song that a path of indexes leads to in the playlist.
pub fn song_key_at(constructor: &SongOpConstructor, path: &Vec<usize>) -> (r: Option<SongKey>)
    ensures
        r == match constructor.spec_item_at(path@) {
            Some(ConstructorItem::Song(k, _)) => Some(k),
            _ => None,
        },
{
    match constructor.item_at_path(path_deque(path)) {
        Some(ConstructorItem::Song(k, _)) => Some(k.clone()),
        _ => None,
    }
}

/// The keys that the search window lists or the playlist holds, each once.
pub fn all_used_keys(search: &SearchWindow, constructor: &SongOpConstructor) -> (r: Vec<String>)
    ensures
        key_views(r@).no_duplicates(),
        forall|t: Seq<char>| #[trigger] key_views(r@).contains(t) <==> (key_views(
            search.search_type.spec_used(),
        ).contains(t) || key_views(constructor.song_keys()).contains(t)),
{
    let from_search = search.used_keys();
    let from_constr = constructor.all_song_keys_rec();
    let ghost a = search.search_type.spec_used();
    let ghost b = constructor.song_keys();
    let mut r: Vec<String> = Vec::new();
    let mut i: usize = 0;
    while i < from_search.len()
        invariant
            i <= from_search@.len(),
            derefs(from_search@) == a,
            key_views(r@).no_duplicates(),
            forall|t: Seq<char>| #[trigger] key_views(r@).contains(t) <==> key_views(a.subrange(0, i as int)).contains(t),
        decreases from_search@.len() - i,
    {
        let k: &String = from_search[i];
        proof {
            lemma_views_push(a.subrange(0, i as int), a[i as int]);
            assert(a.subrange(0, i + 1) == a.subrange(0, i as int).push(a[i as int]));
        }
        add_key(&mut r, k.clone());
        i = i + 1;
    }
    assert(a.subrange(0, a.len() as int) == a);
    let mut j: usize = 0;
    while j < from_constr.len()
        invariant
            j <= from_constr@.len(),
            from_constr@ == b,
            key_views(r@).no_duplicates(),
            forall|t: Seq<char>| #[trigger] key_views(r@).contains(t) <==> (key_views(a).contains(t) || key_views(
                b.subrange(0, j as int),
            ).contains(t)),
        decreases from_constr@.len() - j,
    {
        proof {
            lemma_views_push(b.subrange(0, j as int), b[j as int]);
            assert(b.subrange(0, j + 1) == b.subrange(0, j as int).push(b[j as int]));
        }
        add_key(&mut r, from_constr[j].clone());
        j = j + 1;
    }
    assert(b.subrange(0, b.len() as int) == b);
    r
}

/// Adding a key at the end adds its text to the texts held.
proof fn lemma_views_push(s: Seq<String>, k: String)
    ensures
        forall|t: Seq<char>| #[trigger] key_views(s.push(k)).contains(t) <==> (key_views(s).contains(t) || t == k@),
{
    let a = key_views(s);
    let b = key_views(s.push(k));
    assert forall|t: Seq<char>| #[trigger] b.contains(t) <==> (a.contains(t) || t == k@) by {
        if a.contains(t) {
            let j = choose|j: int| 0 <= j < a.len() && a[j] == t;
            assert(b[j] == t);
        }
        if b.contains(t) && t != k@ {
            let j = choose|j: int| 0 <= j < b.len() && b[j] == t;
            assert(a[j] == t);
        }
        if t == k@ {
            assert(b[a.len() as int] == t);
        }
    }
}

/// A path found among the items from `i` on names an existing child at
/// every step in any fresh tracker of the built operation.
proof fn lemma_find_from_settable(c: SongOpConstructor, op: RecursiveSongOp, id: ItemId, i: int, t: SongOpTracker)
    requires
        c.builds(op),
        t.tracks(op),
        c.find_from(id, i) is Some,
    ensures
        t.set_ok(c.find_from(id, i).unwrap()),
        t.path_fits(c.find_from(id, i).unwrap()),
    decreases c, c.list@.len() - i,
{
    let p = c.find_from(id, i).unwrap();
    assert(c.list@.len() == c.list.len());
    let item = c.list@[i];
    let here = match item {
        ConstructorItem::Song(_, sid) => if sid == id {
            Some(Seq::<usize>::empty())
        } else {
            None
        },
        ConstructorItem::Operation(g) => if g.id == id {
            Some(Seq::<usize>::empty())
        } else {
            g.find_from(id, 0)
        },
    };
    match here {
        Some(q) => {
            assert(p == seq![i as usize] + q);
            assert(p.drop_first() == q);
            assert(t.kids().len() == op.kids().len());
            if q.len() > 0 {
                if let ConstructorItem::Operation(g) = item {
                    assert(g.builds(op.kids()[i]));
                    assert(t.kids()[i].tracks(op.kids()[i]));
                    lemma_find_from_settable(g, op.kids()[i], id, 0, t.kids()[i]);
                }
            }
            assert(t.kids()[i].path_fits(q));
            assert(p[0] == i);
        },
        None => {
            lemma_find_from_settable(c, op, id, i + 1, t);
        },
    }
}

/// The path to an identifier names an existing child at every step in any
/// fresh tracker of the built operation.
proof fn lemma_path_to_id_settable(c: SongOpConstructor, op: RecursiveSongOp, id: ItemId, t: SongOpTracker)
    requires
        c.builds(op),
        t.tracks(op),
        c.spec_path_to_id(id) is Some,
    ensures
        t.set_ok(c.spec_path_to_id(id).unwrap()),
        t.path_fits(c.spec_path_to_id(id).unwrap()),
{
    if c.id != id {
        lemma_find_from_settable(c, op, id, 0, t);
    }
}

/// The song that a tracker of the playlist's operation currently points at
/// is a song entry of the playlist, with the key of that song.
pub proof fn law_current_song_is_in_playlist(c: SongOpConstructor, op: RecursiveSongOp, t: SongOpTracker)
    requires
        c.builds(op),
        t.follows(op),
        t.path_ok(),
    ensures
        c.spec_item_at(t.spec_path()) matches Some(ConstructorItem::Song(k, _)) && op.song_at(t.spec_path()) == Some(k),
{
    law_current_path_leads_to_song(t, op);
    assert(!(op is SinglePlay));
    assert(!(t is SinglePlay));
    assert(t.spec_path().len() > 0);
    law_built_song_paths(c, op, t.spec_path());
}

} // verus!
