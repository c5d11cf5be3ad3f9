use vstd::prelude::*;

use crate::response_types::{YTIEKey, YTSearchEntry};
use crate::key_sets::{add_key, key_views};
use crate::user_input::{items_between, span_entries, SelectionMode, SelectionView};

verus! {

/// An entry of a search result list: a song, or a page of songs.
#[derive(Debug, Clone)]
pub enum SearchEntry {
    Song { id: String, title: Option<String>, url: String },
    Tab { id: String, title: Option<String>, url: String },
}

/// A search result of a kind that the list cannot show.
#[derive(Debug)]
pub struct InvalidKind;

/// The entry that shows a search result of a known kind.
pub open spec fn entry_of(e: YTSearchEntry) -> SearchEntry {
    match e.ie_key {
        YTIEKey::YoutubeTab => SearchEntry::Tab { id: e.id, title: e.title, url: e.url },
        _ => SearchEntry::Song { id: e.id, title: e.title, url: e.url },
    }
}

impl SearchEntry {
    /// The entry for a search result: a video becomes a song, a page a tab;
    /// a music search page is refused.
    pub fn new(entry: YTSearchEntry) -> (r: Result<Self, InvalidKind>)
        ensures
            entry.ie_key == YTIEKey::YoutubeMusicSearchURL <==> r is Err,
            r matches Ok(e) ==> e == entry_of(entry),
    {
        match entry.ie_key {
            YTIEKey::Youtube => Ok(SearchEntry::Song { id: entry.id, title: entry.title, url: entry.url }),
            YTIEKey::YoutubeTab => Ok(SearchEntry::Tab { id: entry.id, title: entry.title, url: entry.url }),
            YTIEKey::YoutubeMusicSearchURL => Err(InvalidKind),
        }
    }
}

/// What the search window shows.
#[derive(Debug, Clone)]
pub enum SearchType {
    Song(String),
    Tab(Vec<String>, SelectionMode),
    Search(Vec<SearchEntry>),
}

/// The ids of the song entries of a list, in order.
pub open spec fn song_ids(entries: Seq<SearchEntry>) -> Seq<String>
    decreases entries.len(),
{
    if entries.len() == 0 {
        Seq::empty()
    } else {
        let rest = song_ids(entries.drop_last());
        match entries.last() {
            SearchEntry::Song { id, .. } => rest.push(id),
            SearchEntry::Tab { .. } => rest,
        }
    }
}

/// The keys at the given indexes, skipping the indexes past the end.
pub open spec fn keys_at(keys: Seq<String>, idxs: Seq<usize>) -> Seq<String>
    decreases idxs.len(),
{
    if idxs.len() == 0 {
        Seq::empty()
    } else {
        let rest = keys_at(keys, idxs.drop_last());
        if idxs.last() < keys.len() {
            rest.push(keys[idxs.last() as int])
        } else {
            rest
        }
    }
}

/// The keys that a list of references points at.
pub open spec fn derefs(s: Seq<&String>) -> Seq<String> {
    s.map_values(|k: &String| *k)
}

/// Collects the keys at the given indexes, skipping those past the end.
fn collect_keys<'a>(keys: &'a Vec<String>, idxs: &Vec<usize>) -> (r: Vec<&'a String>)
    ensures
        derefs(r@) == keys_at(keys@, idxs@),
{
    let mut r: Vec<&String> = Vec::new();
    let mut i: usize = 0;
    while i < idxs.len()
        invariant
            i <= idxs@.len(),
            derefs(r@) == keys_at(keys@, idxs@.subrange(0, i as int)),
        decreases idxs@.len() - i,
    {
        let j = idxs[i];
        assert(idxs@.subrange(0, i + 1).drop_last() == idxs@.subrange(0, i as int));
        if j < keys.len() {
            r.push(&keys[j]);
            assert(derefs(r@) == keys_at(keys@, idxs@.subrange(0, i as int)).push(keys@[j as int]));
        }
        i = i + 1;
    }
    assert(idxs@.subrange(0, idxs@.len() as int) == idxs@);
    r
}

impl SearchType {
    /// The keys that the view lists.
    pub open spec fn spec_used(self) -> Seq<String> {
        match self {
            SearchType::Song(s) => seq![s],
            SearchType::Tab(v, _) => v@,
            SearchType::Search(v) => song_ids(v@),
        }
    }

    /// The keys that are selected: a song is its own selection, a tab
    /// selects the listed keys at the selected indexes (none when nothing
    /// is selected, or when a single selected index is past the end), and
    /// search results have no selection.
    pub open spec fn spec_selected(self) -> Option<Seq<String>> {
        match self {
            SearchType::Song(s) => Some(seq![s]),
            SearchType::Tab(s, mode) => match mode@ {
                SelectionView::Nothing => None,
                SelectionView::One(i) => if i < s@.len() {
                    Some(seq![s@[i as int]])
                } else {
                    None
                },
                SelectionView::Many(v) => Some(keys_at(s@, v)),
                SelectionView::Span { start, end, exhausted, .. } => Some(
                    keys_at(s@, span_entries(start, end, exhausted)),
                ),
            },
            SearchType::Search(_) => None,
        }
    }

    /// A tab of songs, nothing selected.
    pub fn new_tab(songs: Vec<String>) -> (r: Self)
        ensures
            r matches SearchType::Tab(v, mode) && v@ == songs@ && mode@ == SelectionView::Nothing,
    {
        SearchType::Tab(songs, SelectionMode::Empty)
    }

    /// Returns the selected keys.
    pub fn selected_keys(&self) -> (r: Option<Vec<&String>>)
        ensures
            r is Some <==> self.spec_selected() is Some,
            r matches Some(v) ==> derefs(v@) == self.spec_selected().unwrap(),
    {
        match self {
            SearchType::Song(s) => {
                let mut v: Vec<&String> = Vec::new();
                v.push(s);
                assert(derefs(v@) =~= seq![*s]);
                Some(v)
            },
            SearchType::Tab(s, mode) => match mode {
                SelectionMode::Empty => None,
                SelectionMode::Single(idx) => if *idx < s.len() {
                    let mut v: Vec<&String> = Vec::new();
                    v.push(&s[*idx]);
                    assert(derefs(v@) =~= seq![s@[*idx as int]]);
                    Some(v)
                } else {
                    None
                },
                SelectionMode::Multiple(v) => Some(collect_keys(s, v)),
                SelectionMode::Range { first: _, r } => {
                    let idxs = if r.is_empty() {
                        Vec::new()
                    } else {
                        items_between(*r.start(), *r.end())
                    };
                    Some(collect_keys(s, &idxs))
                },
            },
            SearchType::Search(_) => None,
        }
    }

    /// Returns the keys that the view lists.
    pub fn used_keys(&self) -> (r: Vec<&String>)
        ensures
            derefs(r@) == self.spec_used(),
    {
        match self {
            SearchType::Song(song) => {
                let mut v: Vec<&String> = Vec::new();
                v.push(song);
                assert(derefs(v@) =~= seq![*song]);
                v
            },
            SearchType::Tab(keys, _) => {
                let mut v: Vec<&String> = Vec::new();
                let mut i: usize = 0;
                while i < keys.len()
                    invariant
                        i <= keys@.len(),
                        derefs(v@) == keys@.subrange(0, i as int),
                    decreases keys@.len() - i,
                {
                    let ghost before = v@;
                    v.push(&keys[i]);
                    assert(v@ == before.push(&keys@[i as int]));
                    assert(derefs(v@) =~= derefs(before).push(keys@[i as int]));
                    assert(derefs(v@) =~= keys@.subrange(0, i + 1));
                    i = i + 1;
                }
                assert(keys@.subrange(0, keys@.len() as int) == keys@);
                v
            },
            SearchType::Search(entries) => {
                let mut v: Vec<&String> = Vec::new();
                let mut i: usize = 0;
                while i < entries.len()
                    invariant
                        i <= entries@.len(),
                        derefs(v@) == song_ids(entries@.subrange(0, i as int)),
                    decreases entries@.len() - i,
                {
                    assert(entries@.subrange(0, i + 1).drop_last() == entries@.subrange(0, i as int));
                    match &entries[i] {
                        SearchEntry::Song { id, .. } => {
                            v.push(id);
                            assert(derefs(v@) =~= song_ids(entries@.subrange(0, i as int)).push(*id));
                        },
                        SearchEntry::Tab { .. } => {},
                    }
                    i = i + 1;
                }
                assert(entries@.subrange(0, entries@.len() as int) == entries@);
                v
            },
        }
    }
}

/// What the search window reports.
#[derive(Debug, Clone)]
pub enum SWMessage {
    SearchQueryChanged(String),
    SearchQuerySubmitted,
    SimpleSelectSong(usize),
    SelectSong(usize),
}

/// The search box and what it shows.
#[derive(Debug, Clone)]
pub struct SearchWindow {
    pub query: String,
    pub search_type: SearchType,
}

impl SearchWindow {
    /// An empty query over an empty tab.
    pub fn default() -> (r: Self)
        ensures
            r.query@ == Seq::<char>::empty(),
            r.search_type matches SearchType::Tab(v, mode) && v@.len() == 0 && mode@ == SelectionView::Nothing,
    {
        SearchWindow { query: String::new(), search_type: SearchType::Tab(Vec::new(), SelectionMode::Empty) }
    }

    /// Returns the keys that the window lists.
    pub fn used_keys(&self) -> (r: Vec<&String>)
        ensures
            derefs(r@) == self.search_type.spec_used(),
    {
        self.search_type.used_keys()
    }

    /// Returns the selected keys.
    pub fn selected_keys(&self) -> (r: Option<Vec<&String>>)
        ensures
            r is Some <==> self.search_type.spec_selected() is Some,
            r matches Some(v) ==> derefs(v@) == self.search_type.spec_selected().unwrap(),
    {
        self.search_type.selected_keys()
    }

    /// `update` can handle the message: a click on a tab entry with
    /// modifiers held must be one that the selection can take.
    pub open spec fn update_ok(self, msg: SWMessage, shift: bool, control: bool) -> bool {
        msg matches SWMessage::SelectSong(_) ==> (self.search_type matches SearchType::Tab(_, mode)
            ==> mode@.click_ok(shift, control))
    }

    /// Handles a message of the window, with shift or control held or
    /// neither.
    pub fn update(&mut self, msg: SWMessage, shift: bool, control: bool)
        requires
            old(self).update_ok(msg, shift, control),
        ensures
            match msg {
                SWMessage::SearchQueryChanged(s) => final(self).query == s && final(self).search_type
                    == old(self).search_type,
                SWMessage::SearchQuerySubmitted => *final(self) == *old(self),
                SWMessage::SimpleSelectSong(idx) => {
                    &&& final(self).query == old(self).query
                    &&& match old(self).search_type {
                        SearchType::Tab(v, mode) => final(self).search_type matches SearchType::Tab(v2, mode2)
                            && v2 == v && if mode@ is Nothing || mode@ is One {
                            mode2@ == SelectionView::One(idx)
                        } else {
                            mode2 == mode
                        },
                        other => final(self).search_type == other,
                    }
                },
                SWMessage::SelectSong(idx) => {
                    &&& final(self).query == old(self).query
                    &&& match old(self).search_type {
                        SearchType::Tab(v, mode) => final(self).search_type matches SearchType::Tab(v2, mode2)
                            && v2 == v && mode2@ == mode@.clicked(idx, shift, control),
                        other => final(self).search_type == other,
                    }
                },
            },
    {
        match msg {
            SWMessage::SimpleSelectSong(idx) => {
                match &mut self.search_type {
                    SearchType::Tab(_, mode) => {
                        let plain = matches!(mode, SelectionMode::Empty | SelectionMode::Single(_));
                        if plain {
                            *mode = SelectionMode::Single(idx);
                        }
                    },
                    _ => {},
                }
            },
            SWMessage::SelectSong(idx) => {
                match &mut self.search_type {
                    SearchType::Tab(_, mode) => {
                        let mut m = SelectionMode::Empty;
                        std::mem::swap(&mut m, mode);
                        *mode = m.update_selection(idx, shift, control);
                    },
                    _ => {},
                }
            },
            SWMessage::SearchQueryChanged(s) => {
                self.query = s;
            },
            SWMessage::SearchQuerySubmitted => {},
        }
    }

    /// Shows the results of a search, and returns the keys of the songs
    /// among them, each once.
    pub fn show_search_results(&mut self, entries: Vec<YTSearchEntry>) -> (keys: Vec<String>)
        requires
            forall|i: int| 0 <= i < entries@.len() ==> (#[trigger] entries@[i]).ie_key != YTIEKey::YoutubeMusicSearchURL,
        ensures
            final(self).query == old(self).query,
            final(self).search_type matches SearchType::Search(v) && v@ == entries@.map_values(
                |e: YTSearchEntry| entry_of(e),
            ),
            key_views(keys@).no_duplicates(),
            forall|t: Seq<char>| #[trigger] key_views(keys@).contains(t) <==> key_views(
                song_ids(entries@.map_values(|e: YTSearchEntry| entry_of(e))),
            ).contains(t),
    {
        let ghost shown = entries@.map_values(|e: YTSearchEntry| entry_of(e));
        let mut list: Vec<SearchEntry> = Vec::new();
        let mut keys: Vec<String> = Vec::new();
        let mut i: usize = 0;
        while i < entries.len()
            invariant
                i <= entries@.len(),
                shown == entries@.map_values(|e: YTSearchEntry| entry_of(e)),
                forall|j: int| 0 <= j < entries@.len() ==> (#[trigger] entries@[j]).ie_key != YTIEKey::YoutubeMusicSearchURL,
                list@ == shown.subrange(0, i as int),
                key_views(keys@).no_duplicates(),
                forall|t: Seq<char>| #[trigger] key_views(keys@).contains(t) <==> key_views(
                    song_ids(shown.subrange(0, i as int)),
                ).contains(t),
            decreases entries@.len() - i,
        {
            let e = &entries[i];
            let title = match &e.title {
                Some(t) => Some(t.clone()),
                None => None,
            };
            let copy = YTSearchEntry { id: e.id.clone(), title, ie_key: e.ie_key, url: e.url.clone() };
            assert(copy == entries@[i as int]);
            let entry = match SearchEntry::new(copy) {
                Ok(x) => x,
                Err(_) => {
                    return keys;
                },
            };
            let ghost before = song_ids(shown.subrange(0, i as int));
            assert(shown.subrange(0, i + 1).drop_last() == shown.subrange(0, i as int));
            assert(shown.subrange(0, i + 1).last() == entry);
            match &entry {
                SearchEntry::Song { id, .. } => {
                    let ghost kv = id@;
                    assert(song_ids(shown.subrange(0, i + 1)) == before.push(*id));
                    assert(key_views(before.push(*id)) == key_views(before).push(kv));
                    add_key(&mut keys, id.clone());
                    assert forall|t: Seq<char>| #[trigger] key_views(before.push(*id)).contains(t) <==> (key_views(
                        before,
                    ).contains(t) || t == kv) by {
                        let a = key_views(before);
                        let b = key_views(before.push(*id));
                        if a.contains(t) {
                            let j = choose|j: int| 0 <= j < a.len() && a[j] == t;
                            assert(b[j] == t);
                        }
                        if b.contains(t) && t != kv {
                            let j = choose|j: int| 0 <= j < b.len() && b[j] == t;
                            assert(a[j] == t);
                        }
                        if t == kv {
                            assert(b[a.len() as int] == t);
                        }
                    }
                },
                SearchEntry::Tab { .. } => {
                    assert(song_ids(shown.subrange(0, i + 1)) == before);
                },
            }
            list.push(entry);
            i = i + 1;
        }
        assert(shown.subrange(0, entries@.len() as int) == shown);
        self.search_type = SearchType::Search(list);
        keys
    }
}

} // verus!
