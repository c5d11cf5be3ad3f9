//! Which cache files belong to which key, and where they are.
use vstd::prelude::*;

use crate::caching::{
    bare_name, is_separator, join_text, lemma_hyphenated_is_bare, plain_folder, plain_part, with_extension_text,
};
use crate::key_sets::key_views;
use crate::song_operations::recursive_song_op::IDKey;
use crate::unique_ids::random_uuid;

verus! {

/// A fresh random name for a cache file.
pub fn generate_cache_id() -> (r: String)
    ensures
        crate::unique_ids::is_hyphenated(r@),
        bare_name(r@),
{
    let r = random_uuid();
    proof {
        lemma_hyphenated_is_bare(r@);
    }
    r
}

/// The cache files of one key: its thumbnail, its song and its colour,
/// each once it has been made.
#[derive(Debug, Clone)]
pub struct CacheHandleItem {
    pub thumbnail_path: Option<String>,
    pub song_path: Option<String>,
    pub primary_color: Option<String>,
}

/// `p` is `dir`, one separator, then `rest`.
pub open spec fn after_separator(dir: Seq<char>, rest: Seq<char>, p: Seq<char>) -> bool {
    &&& is_separator(p[dir.len() as int])
    &&& p == dir + seq![p[dir.len() as int]] + rest
}

/// `p` is the file `name` in the folder `dir` with the extension `ext`,
/// as far as holds on every platform: for a plain folder and a plain name,
/// the folder, one separator, then the name with its extension (if it had
/// one) replaced by `ext`.
pub open spec fn file_place(dir: Seq<char>, name: Seq<char>, ext: Seq<char>, p: Seq<char>) -> bool {
    plain_folder(dir) && plain_part(name) ==> {
        &&& bare_name(name) ==> after_separator(dir, name + seq!['.'] + ext, p)
        &&& forall|i: int| 0 < i < name.len() && #[trigger] name[i] == '.' && bare_name(name.take(i)) && bare_name(
            name.skip(i + 1),
        ) ==> after_separator(dir, name.take(i) + seq!['.'] + ext, p)
    }
}

/// `source` with the file name `name` and the extension `ext`: the name
/// takes the extension, then goes into the folder.
fn file_in(source: &String, name: &String, ext: &str) -> (r: String)
    requires
        plain_part(ext@),
    ensures
        file_place(source@, name@, ext@, r@),
{
    let named = with_extension_text(name.as_str(), ext);
    proof {
        if plain_part(name@) {
            if bare_name(name@) {
                assert(named@ == name@ + seq!['.'] + ext@);
                assert(plain_part(named@)) by {
                    assert forall|i: int| 0 <= i < named@.len() implies !is_separator(#[trigger] named@[i])
                        && named@[i] != ':' by {
                        if i < name@.len() {
                            assert(named@[i] == name@[i]);
                        } else if i > name@.len() {
                            assert(named@[i] == ext@[i - name@.len() - 1]);
                        }
                    }
                }
            }
            assert forall|i: int| 0 < i < name@.len() && #[trigger] name@[i] == '.' && bare_name(name@.take(i))
                && bare_name(name@.skip(i + 1)) implies plain_part(named@) && named@ == name@.take(i) + seq!['.']
                + ext@ by {
                assert(named@ == name@.take(i) + seq!['.'] + ext@);
                assert forall|q: int| 0 <= q < named@.len() implies !is_separator(#[trigger] named@[q])
                    && named@[q] != ':' by {
                    if q < i {
                        assert(named@[q] == name@.take(i)[q]);
                    } else if q > i {
                        assert(named@[q] == ext@[q - i - 1]);
                    }
                }
            }
        }
    }
    let r = join_text(source.as_str(), named.as_str());
    r
}

impl CacheHandleItem {
    /// An item with no files yet.
    pub fn default() -> (r: Self)
        ensures
            r.thumbnail_path is None,
            r.song_path is None,
            r.primary_color is None,
    {
        CacheHandleItem { thumbnail_path: None, song_path: None, primary_color: None }
    }

    /// The thumbnail's file in the folder `source` (a `.jpg`), once it has
    /// a name.
    pub fn get_thumbnail(&self, source: &String) -> (r: Option<String>)
        ensures
            r is Some <==> self.thumbnail_path is Some,
            r matches Some(p) ==> file_place(source@, self.thumbnail_path.unwrap()@, "jpg"@, p@),
    {
        match &self.thumbnail_path {
            Some(name) => {
                proof {
                    reveal_strlit("jpg");
                }
                Some(file_in(source, name, "jpg"))
            },
            None => None,
        }
    }

    /// The song's file in the folder `source` (an `.mp3`), once it has a
    /// name.
    pub fn get_song(&self, source: &String) -> (r: Option<String>)
        ensures
            r is Some <==> self.song_path is Some,
            r matches Some(p) ==> file_place(source@, self.song_path.unwrap()@, "mp3"@, p@),
    {
        match &self.song_path {
            Some(name) => {
                proof {
                    reveal_strlit("mp3");
                }
                Some(file_in(source, name, "mp3"))
            },
            None => None,
        }
    }

    /// Gives the thumbnail a fresh name unless it has one, and returns the
    /// name.
    pub fn ensure_thumbnail(&mut self) -> (r: String)
        ensures
            final(self).thumbnail_path == Some(r),
            old(self).thumbnail_path is None ==> bare_name(r@),
            old(self).thumbnail_path matches Some(p) ==> r == p,
            final(self).song_path == old(self).song_path,
            final(self).primary_color == old(self).primary_color,
    {
        match &self.thumbnail_path {
            Some(p) => p.clone(),
            None => {
                let p = generate_cache_id();
                self.thumbnail_path = Some(p.clone());
                p
            },
        }
    }

    /// Gives the song a fresh name unless it has one, and returns the name.
    pub fn ensure_song(&mut self) -> (r: String)
        ensures
            final(self).song_path == Some(r),
            old(self).song_path is None ==> bare_name(r@),
            old(self).song_path matches Some(p) ==> r == p,
            final(self).thumbnail_path == old(self).thumbnail_path,
            final(self).primary_color == old(self).primary_color,
    {
        match &self.song_path {
            Some(p) => p.clone(),
            None => {
                let p = generate_cache_id();
                self.song_path = Some(p.clone());
                p
            },
        }
    }

    /// A copy of the item.
    pub fn duplicate(&self) -> (r: Self)
        ensures
            r == *self,
    {
        let thumbnail_path = match &self.thumbnail_path {
            Some(p) => Some(p.clone()),
            None => None,
        };
        let song_path = match &self.song_path {
            Some(p) => Some(p.clone()),
            None => None,
        };
        let primary_color = match &self.primary_color {
            Some(c) => Some(c.clone()),
            None => None,
        };
        CacheHandleItem { thumbnail_path, song_path, primary_color }
    }

    /// The item agrees with the folder: each named file was found.
    pub open spec fn consistent(self, thumb_found: bool, song_found: bool) -> bool {
        &&& (self.thumbnail_path is Some) == (self.thumbnail_path is Some && thumb_found)
        &&& (self.song_path is Some) == (self.song_path is Some && song_found)
    }

    /// The repair of an item whose named files were not all found (whether
    /// its thumbnail and song files exist is given): `None` for an item
    /// with no files or with all of them found; otherwise the item keeps
    /// only the files that were found, under their full place in the
    /// folder, and its colour.
    pub fn validated(&self, source: &String, thumb_found: bool, song_found: bool) -> (r: Option<CacheHandleItem>)
        ensures
            r is None <==> ((self.thumbnail_path is None && self.song_path is None) || self.consistent(
                thumb_found,
                song_found,
            )),
            r matches Some(fixed) ==> {
                &&& (fixed.thumbnail_path is Some <==> (self.thumbnail_path is Some && thumb_found))
                &&& (fixed.song_path is Some <==> (self.song_path is Some && song_found))
                &&& fixed.thumbnail_path matches Some(p) ==> file_place(
                    source@,
                    self.thumbnail_path.unwrap()@,
                    "jpg"@,
                    p@,
                )
                &&& fixed.song_path matches Some(p) ==> file_place(source@, self.song_path.unwrap()@, "mp3"@, p@)
                &&& fixed.primary_color == self.primary_color
            },
    {
        if self.thumbnail_path.is_none() && self.song_path.is_none() {
            return None;
        }
        let exists_thumb = if thumb_found {
            self.get_thumbnail(source)
        } else {
            None
        };
        let exists_song = if song_found {
            self.get_song(source)
        } else {
            None
        };
        if self.thumbnail_path.is_some() == exists_thumb.is_some() && self.song_path.is_some()
            == exists_song.is_some() {
            None
        } else {
            Some(
                CacheHandleItem {
                    thumbnail_path: if self.thumbnail_path.is_some() {
                        exists_thumb
                    } else {
                        None
                    },
                    song_path: if self.song_path.is_some() {
                        exists_song
                    } else {
                        None
                    },
                    primary_color: match &self.primary_color {
                        Some(c) => Some(c.clone()),
                        None => None,
                    },
                },
            )
        }
    }
}

/// The cache items by key, each key once.
#[derive(Debug, Clone)]
pub struct CacheMapper(pub Vec<(IDKey, CacheHandleItem)>);

impl CacheMapper {
    /// The keys, in order.
    pub open spec fn keys(self) -> Seq<IDKey> {
        self.0@.map_values(|e: (IDKey, CacheHandleItem)| e.0)
    }

    /// No key is there twice.
    pub open spec fn wf(self) -> bool {
        key_views(self.keys()).no_duplicates()
    }

    /// An empty mapping.
    pub fn new() -> (r: Self)
        ensures
            r.0@.len() == 0,
            r.wf(),
    {
        CacheMapper(Vec::new())
    }
}

/// The cache folder and what is kept in it.
#[derive(Debug, Clone)]
pub struct CacheHandler {
    pub source: String,
    pub map: CacheMapper,
}

/// One key's cache item, open for changes, with the folder it lives in.
pub struct CacheHandle<'a> {
    pub source: String,
    pub item: &'a mut CacheHandleItem,
}

impl<'a> CacheHandle<'a> {
    /// Gives the thumbnail a name unless it has one, and returns its file.
    pub fn ensure_thumbnail(&mut self) -> (r: String)
        ensures
            final(self).source == old(self).source,
            (*final(self).item).thumbnail_path is Some,
            file_place(old(self).source@, (*final(self).item).thumbnail_path.unwrap()@, "jpg"@, r@),
            old(self).item.thumbnail_path is Some ==> (*final(self).item).thumbnail_path == old(self).item.thumbnail_path,
            (*final(self).item).song_path == old(self).item.song_path,
            (*final(self).item).primary_color == old(self).item.primary_color,
    {
        self.item.ensure_thumbnail();
        match self.item.get_thumbnail(&self.source) {
            Some(p) => p,
            None => String::new(),
        }
    }
}

impl CacheHandler {
    /// A handler of the folder `folder`, with nothing in it yet (the folder
    /// itself is made by the caller).
    pub fn new(folder: String) -> (r: Self)
        ensures
            r.source == folder,
            r.map.0@.len() == 0,
    {
        CacheHandler { source: folder, map: CacheMapper::new() }
    }

    /// Position of the entry of `key`, if there is one.
    fn position(&self, key: &String) -> (r: Option<usize>)
        ensures
            r matches Some(i) ==> i < self.map.0@.len() && self.map.0@[i as int].0@ == key@,
            r is None ==> !key_views(self.map.keys()).contains(key@),
    {
        let mut i: usize = 0;
        while i < self.map.0.len()
            invariant
                i <= self.map.0@.len(),
                forall|j: int| 0 <= j < i ==> self.map.0@[j].0@ != key@,
            decreases self.map.0@.len() - i,
        {
            if self.map.0[i].0 == *key {
                return Some(i);
            }
            i = i + 1;
        }
        proof {
            if key_views(self.map.keys()).contains(key@) {
                let j = choose|j: int| 0 <= j < key_views(self.map.keys()).len() && key_views(self.map.keys())[j] == key@;
                assert(self.map.0@[j].0@ == key@);
            }
        }
        None
    }

    /// The item of `key`, added empty when the key is new, to work on.
    pub fn get(&mut self, key: &str) -> (r: CacheHandle<'_>)
        requires
            old(self).map.wf(),
        ensures
            r.source == old(self).source,
            final(self).source == old(self).source,
            final(self).map.wf(),
            key_views(old(self).map.keys()).contains(key@) ==> exists|i: int| {
                &&& 0 <= i < old(self).map.0@.len()
                &&& #[trigger] old(self).map.0@[i].0@ == key@
                &&& *r.item == old(self).map.0@[i].1
                &&& final(self).map.0@ == old(self).map.0@.update(i, (old(self).map.0@[i].0, *final(r.item)))
            },
            !key_views(old(self).map.keys()).contains(key@) ==> (*r.item).thumbnail_path is None,
            !key_views(old(self).map.keys()).contains(key@) ==> (*r.item).song_path is None,
            !key_views(old(self).map.keys()).contains(key@) ==> (*r.item).primary_color is None,
            !key_views(old(self).map.keys()).contains(key@) ==> final(self).map.0@.len() == old(self).map.0@.len() + 1,
            !key_views(old(self).map.keys()).contains(key@) ==> final(self).map.0@.last().0@ == key@,
            !key_views(old(self).map.keys()).contains(key@) ==> final(self).map.0@ == old(self).map.0@.push(final(self).map.0@.last()),
            !key_views(old(self).map.keys()).contains(key@) ==> final(self).map.0@.last().1 == *final(r.item),
    {
        let k = key.to_owned();
        let idx = match self.position(&k) {
            Some(i) => {
                assert(key_views(self.map.keys())[i as int] == key@);
                i
            },
            None => {
                let ghost before = self.map.0@;
                self.map.0.push((k, CacheHandleItem::default()));
                assert(self.map.0@ == before.push(self.map.0@.last()));
                assert(self.map.0@.last().0@ == key@);
                proof {
                    let ka = key_views(self.map.keys());
                    assert(ka == key_views(old(self).map.keys()).push(key@));
                    assert forall|a: int, b: int| 0 <= a < ka.len() && 0 <= b < ka.len() && a != b implies ka[a]
                        != ka[b] by {
                        if a == ka.len() - 1 {
                            assert(ka[b] == key_views(old(self).map.keys())[b]);
                        } else if b == ka.len() - 1 {
                            assert(ka[a] == key_views(old(self).map.keys())[a]);
                        }
                    }
                }
                self.map.0.len() - 1
            },
        };
        assert(self.map.wf());
        let ghost keys_now = self.map.keys();
        let h = CacheHandle { source: self.source.clone(), item: &mut self.map.0[idx].1 };
        proof {
            assert(after_borrow(self.map).keys() =~= keys_now);
        }
        h
    }

    /// Repairs the items whose files were not all found, given for each
    /// entry in order whether its thumbnail and its song file exist:
    /// `None` when nothing needs repair, else the handler with the repaired
    /// items in place.
    pub fn validate_paths(&self, found: &Vec<(bool, bool)>) -> (r: Option<Self>)
        requires
            found@.len() == self.map.0@.len(),
        ensures
            r is None <==> forall|i: int| 0 <= i < self.map.0@.len() ==> {
                let item = #[trigger] self.map.0@[i].1;
                (item.thumbnail_path is None && item.song_path is None) || item.consistent(
                    found@[i].0,
                    found@[i].1,
                )
            },
            r matches Some(h) ==> {
                &&& h.source == self.source
                &&& h.map.keys() == self.map.keys()
                &&& forall|i: int| 0 <= i < self.map.0@.len() ==> {
                    let item = #[trigger] self.map.0@[i].1;
                    let now = h.map.0@[i].1;
                    if (item.thumbnail_path is None && item.song_path is None) || item.consistent(
                        found@[i].0,
                        found@[i].1,
                    ) {
                        now == item
                    } else {
                        &&& (now.thumbnail_path is Some <==> (item.thumbnail_path is Some && found@[i].0))
                        &&& (now.song_path is Some <==> (item.song_path is Some && found@[i].1))
                        &&& now.primary_color == item.primary_color
                    }
                }
            },
    {
        let mut entries: Vec<(IDKey, CacheHandleItem)> = Vec::new();
        let mut changed = false;
        let mut i: usize = 0;
        while i < self.map.0.len()
            invariant
                i <= self.map.0@.len(),
                found@.len() == self.map.0@.len(),
                entries@.len() == i,
                forall|j: int| 0 <= j < i ==> (#[trigger] entries@[j]).0 == self.map.0@[j].0,
                changed <==> exists|j: int| 0 <= j < i && !({
                    let item = #[trigger] self.map.0@[j].1;
                    (item.thumbnail_path is None && item.song_path is None) || item.consistent(
                        found@[j].0,
                        found@[j].1,
                    )
                }),
                forall|j: int| 0 <= j < i ==> {
                    let item = #[trigger] self.map.0@[j].1;
                    let now = entries@[j].1;
                    if (item.thumbnail_path is None && item.song_path is None) || item.consistent(
                        found@[j].0,
                        found@[j].1,
                    ) {
                        now == item
                    } else {
                        &&& (now.thumbnail_path is Some <==> (item.thumbnail_path is Some && found@[j].0))
                        &&& (now.song_path is Some <==> (item.song_path is Some && found@[j].1))
                        &&& now.primary_color == item.primary_color
                    }
                },
            decreases self.map.0@.len() - i,
        {
            let (k, item) = &self.map.0[i];
            let (thumb_found, song_found) = found[i];
            let fixed = item.validated(&self.source, thumb_found, song_found);
            match fixed {
                Some(f) => {
                    changed = true;
                    entries.push((k.clone(), f));
                },
                None => {
                    entries.push((k.clone(), item.duplicate()));
                },
            }
            i = i + 1;
        }
        if !changed {
            None
        } else {
            let r = CacheHandler { source: self.source.clone(), map: CacheMapper(entries) };
            assert(r.map.keys() =~= self.map.keys());
            Some(r)
        }
    }
}

} // verus!
