use vstd::prelude::*;

use std::collections::VecDeque;
use vstd::multiset::Multiset;
use vstd::string::StrSliceExecFns;

use super::recursive_song_op::RecursiveSongOp;
use crate::unique_ids::{as_u128, new_v4};

verus! {

/// Key of a song in the constructor.
pub type SongKey = String;

/// The operations that a constructor node can build.
#[derive(Debug, Clone, Copy, PartialEq, Eq, Structural)]
pub enum ActualRecursiveOps {
    PlayOnce,
    LoopNTimes,
    Stretch,
    InfiniteLoop,
    RandomPlay,
    SingleRandom,
    InfiniteRandom,
}

impl ActualRecursiveOps {
    /// The label shown for the operation.
    pub open spec fn label(self) -> Seq<char> {
        match self {
            ActualRecursiveOps::PlayOnce => "Play Once"@,
            ActualRecursiveOps::LoopNTimes => "Loop N Times"@,
            ActualRecursiveOps::Stretch => "Stretch"@,
            ActualRecursiveOps::InfiniteLoop => "Infinite Loop"@,
            ActualRecursiveOps::RandomPlay => "Random Play"@,
            ActualRecursiveOps::SingleRandom => "Single Random"@,
            ActualRecursiveOps::InfiniteRandom => "Infinite Random"@,
        }
    }

    /// The label of the operation.
    pub fn as_str(&self) -> (r: &'static str)
        ensures
            r@ == self.label(),
    {
        match self {
            ActualRecursiveOps::PlayOnce => "Play Once",
            ActualRecursiveOps::LoopNTimes => "Loop N Times",
            ActualRecursiveOps::Stretch => "Stretch",
            ActualRecursiveOps::InfiniteLoop => "Infinite Loop",
            ActualRecursiveOps::RandomPlay => "Random Play",
            ActualRecursiveOps::SingleRandom => "Single Random",
            ActualRecursiveOps::InfiniteRandom => "Infinite Random",
        }
    }

    /// The operation whose label is `s`, if any.
    pub fn from_str(s: &'static str) -> (r: Option<ActualRecursiveOps>)
        ensures
            r matches Some(op) ==> op.label() == s@,
            r is None ==> forall|op: ActualRecursiveOps| #[trigger] op.label() != s@,
    {
        let owned = s.to_owned();
        proof {
            reveal_strlit("Play Once");
            reveal_strlit("Loop N Times");
            reveal_strlit("Stretch");
            reveal_strlit("Infinite Loop");
            reveal_strlit("Random Play");
            reveal_strlit("Single Random");
            reveal_strlit("Infinite Random");
        }
        if owned == "Play Once".to_owned() {
            Some(ActualRecursiveOps::PlayOnce)
        } else if owned == "Loop N Times".to_owned() {
            Some(ActualRecursiveOps::LoopNTimes)
        } else if owned == "Stretch".to_owned() {
            Some(ActualRecursiveOps::Stretch)
        } else if owned == "Infinite Loop".to_owned() {
            Some(ActualRecursiveOps::InfiniteLoop)
        } else if owned == "Random Play".to_owned() {
            Some(ActualRecursiveOps::RandomPlay)
        } else if owned == "Single Random".to_owned() {
            Some(ActualRecursiveOps::SingleRandom)
        } else if owned == "Infinite Random".to_owned() {
            Some(ActualRecursiveOps::InfiniteRandom)
        } else {
            proof {
                assert forall|op: ActualRecursiveOps| #[trigger] op.label() != s@ by {
                    match op {
                        _ => {},
                    }
                }
            }
            None
        }
    }
}

/// Identifier of an item of the constructor (a song entry or a group),
/// by which the interface finds it again.
#[derive(Debug, Clone, Copy, PartialEq, Eq, Structural)]
pub struct ItemId(pub u128);

impl ItemId {
    /// A fresh random identifier.
    pub fn new() -> ItemId {
        let id = new_v4();
        ItemId(as_u128(&id))
    }

    /// A fresh random identifier (each default identifier is a new one).
    pub fn default() -> ItemId {
        ItemId::new()
    }
}

/// An entry of a constructor: a song, or a nested group.
#[derive(Debug)]
pub enum ConstructorItem {
    Song(SongKey, ItemId),
    Operation(SongOpConstructor),
}

/// An editable group of songs and nested groups, together with the
/// operation that it builds.
#[derive(Debug)]
pub struct SongOpConstructor {
    pub id: ItemId,
    pub operation: ActualRecursiveOps,
    pub list: Vec<ConstructorItem>,
    pub collapsible: bool,
    pub collapsed: bool,
    /// Used by the operations that repeat, like LoopNTimes and Stretch.
    pub n: u32,
}

impl SongOpConstructor {
    /// A group with the given operation and items, not collapsed, with a
    /// repeat count of 1.
    pub fn new(operation: ActualRecursiveOps, list: Vec<ConstructorItem>) -> (r: Self)
        ensures
            r.operation == operation,
            r.list@ == list@,
            r.collapsible,
            !r.collapsed,
            r.n == 1,
    {
        SongOpConstructor {
            id: ItemId::new(),
            operation,
            list,
            collapsible: true,
            collapsed: false,
            n: 1,
        }
    }

    /// An empty play-once group.
    pub fn default() -> (r: Self)
        ensures
            r.operation == ActualRecursiveOps::PlayOnce,
            r.list@.len() == 0,
            r.collapsible,
            !r.collapsed,
            r.n == 1,
    {
        Self::new(ActualRecursiveOps::PlayOnce, Vec::new())
    }

    /// A play-once group of the given items.
    pub fn from(value: Vec<ConstructorItem>) -> (r: Self)
        ensures
            r.operation == ActualRecursiveOps::PlayOnce,
            r.list@ == value@,
            r.collapsible,
            !r.collapsed,
            r.n == 1,
    {
        Self::new(ActualRecursiveOps::PlayOnce, value)
    }

    /// The song keys of the items from index `i` on, groups expanded in
    /// place, in order.
    pub open spec fn keys_from(self, i: int) -> Seq<SongKey>
        decreases self, self.list@.len() - i,
    {
        if i < 0 || i >= self.list@.len() {
            Seq::empty()
        } else {
            let here = match self.list@[i] {
                ConstructorItem::Song(k, _) => seq![k],
                ConstructorItem::Operation(op) => op.keys_from(0),
            };
            here + self.keys_from(i + 1)
        }
    }

    /// All song keys of the group, nested groups expanded in place.
    pub open spec fn song_keys(self) -> Seq<SongKey> {
        self.keys_from(0)
    }

    /// Returns all the song keys found in this constructor recursively.
    pub fn all_song_keys_rec(&self) -> (r: Vec<SongKey>)
        ensures
            r@ == self.song_keys(),
        decreases self,
    {
        let mut r: Vec<SongKey> = Vec::new();
        let mut i: usize = 0;
        while i < self.list.len()
            invariant
                i <= self.list@.len(),
                r@ + self.keys_from(i as int) == self.keys_from(0),
            decreases self.list@.len() - i,
        {
            let mut more = self.list[i].all_song_keys();
            let ghost before = r@;
            r.append(&mut more);
            assert(before + self.keys_from(i as int) == r@ + self.keys_from(i + 1));
            i = i + 1;
        }
        assert(r@ + self.keys_from(i as int) == r@);
        r
    }

    /// The constructor builds the operation `op`: the same operation (with
    /// this group's count for the repeating ones), one sub-operation per
    /// item, a single play for each song and the built operation of each
    /// nested group.
    pub open spec fn builds(self, op: RecursiveSongOp) -> bool
        decreases self,
    {
        &&& match (self.operation, op) {
            (ActualRecursiveOps::PlayOnce, RecursiveSongOp::PlayOnce(_)) => true,
            (ActualRecursiveOps::LoopNTimes, RecursiveSongOp::LoopNTimes(_, k)) => k == self.n,
            (ActualRecursiveOps::Stretch, RecursiveSongOp::Stretch(_, k)) => k == self.n,
            (ActualRecursiveOps::InfiniteLoop, RecursiveSongOp::InfiniteLoop(_)) => true,
            (ActualRecursiveOps::RandomPlay, RecursiveSongOp::RandomPlay(_)) => true,
            (ActualRecursiveOps::SingleRandom, RecursiveSongOp::SingleRandom(_)) => true,
            (ActualRecursiveOps::InfiniteRandom, RecursiveSongOp::InfiniteRandom(_)) => true,
            _ => false,
        }
        &&& op.kids().len() == self.list@.len()
        &&& forall|i: int| 0 <= i < self.list@.len() ==> match #[trigger] self.list@[i] {
            ConstructorItem::Song(k, _) => op.kids()[i] == RecursiveSongOp::SinglePlay(k),
            ConstructorItem::Operation(c) => c.builds(op.kids()[i]),
        }
    }

    /// Builds the playable operation that the constructor describes.
    pub fn build(&self) -> (r: RecursiveSongOp)
        ensures
            self.builds(r),
        decreases self,
    {
        let mut children: Vec<RecursiveSongOp> = Vec::new();
        let mut i: usize = 0;
        while i < self.list.len()
            invariant
                i <= self.list@.len(),
                children@.len() == i,
                forall|k: int| 0 <= k < i ==> match #[trigger] self.list@[k] {
                    ConstructorItem::Song(key, _) => children@[k] == RecursiveSongOp::SinglePlay(key),
                    ConstructorItem::Operation(c) => c.builds(children@[k]),
                },
            decreases self.list@.len() - i,
        {
            let child = match &self.list[i] {
                ConstructorItem::Song(key, _) => RecursiveSongOp::SinglePlay(key.clone()),
                ConstructorItem::Operation(op) => op.build(),
            };
            children.push(child);
            i = i + 1;
        }
        match self.operation {
            ActualRecursiveOps::PlayOnce => RecursiveSongOp::PlayOnce(children),
            ActualRecursiveOps::LoopNTimes => RecursiveSongOp::LoopNTimes(children, self.n),
            ActualRecursiveOps::Stretch => RecursiveSongOp::Stretch(children, self.n),
            ActualRecursiveOps::InfiniteLoop => RecursiveSongOp::InfiniteLoop(children),
            ActualRecursiveOps::RandomPlay => RecursiveSongOp::RandomPlay(children),
            ActualRecursiveOps::SingleRandom => RecursiveSongOp::SingleRandom(children),
            ActualRecursiveOps::InfiniteRandom => RecursiveSongOp::InfiniteRandom(children),
        }
    }
}

impl SongOpConstructor {
    /// Where the first match for `id` lies among the items from index `i`
    /// on: an item matches when it is a song with that id, a group with
    /// that id, or a group holding a match.
    pub open spec fn find_from(self, id: ItemId, i: int) -> Option<Seq<usize>>
        decreases self, self.list@.len() - i,
    {
        if i < 0 || i >= self.list@.len() {
            None
        } else {
            let here = match self.list@[i] {
                ConstructorItem::Song(_, sid) => if sid == id {
                    Some(Seq::<usize>::empty())
                } else {
                    None
                },
                ConstructorItem::Operation(op) => if op.id == id {
                    Some(Seq::<usize>::empty())
                } else {
                    op.find_from(id, 0)
                },
            };
            match here {
                Some(p) => Some(seq![i as usize] + p),
                None => self.find_from(id, i + 1),
            }
        }
    }

    /// The path of indexes to the item with identifier `id`: empty for the
    /// group itself, else through its first item that matches.
    pub open spec fn spec_path_to_id(self, id: ItemId) -> Option<Seq<usize>> {
        if self.id == id {
            Some(Seq::empty())
        } else {
            self.find_from(id, 0)
        }
    }

    /// Finds the path of indexes to the item with identifier `id`.
    pub fn path_to_id(&self, id: &ItemId) -> (r: Option<Vec<usize>>)
        ensures
            r is None <==> self.spec_path_to_id(*id) is None,
            r matches Some(v) ==> self.spec_path_to_id(*id) == Some(v@),
        decreases self,
    {
        if self.id == *id {
            return Some(Vec::new());
        }
        let mut i: usize = 0;
        while i < self.list.len()
            invariant
                i <= self.list@.len(),
                self.id != *id,
                self.find_from(*id, 0) == self.find_from(*id, i as int),
            decreases self.list@.len() - i,
        {
            if let Some(mut ids) = self.list[i].path_to_id(id) {
                let mut v = Vec::new();
                v.push(i);
                v.append(&mut ids);
                return Some(v);
            }
            i = i + 1;
        }
        None
    }

    /// The item that the path of indexes leads to, starting from the items
    /// of this group (the empty path leads to none).
    pub open spec fn spec_item_at(self, path: Seq<usize>) -> Option<ConstructorItem>
        decreases self,
    {
        if path.len() == 0 || path[0] >= self.list@.len() {
            None
        } else if path.len() == 1 {
            Some(self.list@[path[0] as int])
        } else {
            match self.list@[path[0] as int] {
                ConstructorItem::Song(_, _) => None,
                ConstructorItem::Operation(op) => op.spec_item_at(path.drop_first()),
            }
        }
    }

    /// Returns the item that the path of indexes leads to.
    pub fn item_at_path(&self, pth: VecDeque<usize>) -> (r: Option<&ConstructorItem>)
        ensures
            r is Some <==> self.spec_item_at(pth@) is Some,
            r matches Some(x) ==> *x == self.spec_item_at(pth@).unwrap(),
        decreases self,
    {
        let mut pth = pth;
        if pth.len() == 0 {
            return None;
        }
        let ghost path = pth@;
        let next_idx = match pth.pop_front() {
            Some(i) => i,
            None => {
                return None;
            },
        };
        if next_idx >= self.list.len() {
            return None;
        }
        let subitem = &self.list[next_idx];
        if pth.len() == 0 {
            Some(subitem)
        } else {
            assert(pth@ == path.drop_first());
            subitem.item_at_path(pth)
        }
    }

    /// Inserts an item at index `idx`.
    pub fn insert(&mut self, idx: usize, item: ConstructorItem)
        requires
            idx <= old(self).list@.len(),
        ensures
            final(self).list@ == old(self).list@.insert(idx as int, item),
            final(self).same_header(*old(self)),
    {
        self.list.insert(idx, item)
    }

    /// Same identifier, operation, display flags and count.
    pub open spec fn same_header(self, other: SongOpConstructor) -> bool {
        &&& self.id == other.id
        &&& self.operation == other.operation
        &&& self.collapsible == other.collapsible
        &&& self.collapsed == other.collapsed
        &&& self.n == other.n
    }

    /// Index of the item that a push along a path starting with `idx`
    /// descends into: `idx`, or the last item when `idx` is past it.
    pub open spec fn push_target(self, idx: int) -> int {
        if idx < self.list@.len() - 1 {
            idx
        } else {
            self.list@.len() - 1
        }
    }

    /// `push_to_path` does not panic: each group on the way is non-empty,
    /// and an insertion next to a song stays within the list.
    pub open spec fn push_ok(self, path: Seq<usize>) -> bool
        decreases self,
    {
        if path.len() == 0 {
            true
        } else {
            let j = self.push_target(path[0] as int);
            &&& self.list@.len() > 0
            &&& match self.list@[j] {
                ConstructorItem::Song(_, _) => path[0] <= self.list@.len(),
                ConstructorItem::Operation(op) => op.push_ok(path.drop_first()),
            }
        }
    }

    /// What `push_to_path` makes of a group: with no path left the item is
    /// appended; otherwise, when the targeted item is a song, the new item
    /// is inserted at the path's index, and when it is a group the push
    /// goes on inside that group.
    pub open spec fn push_rel(self, path: Seq<usize>, item: ConstructorItem, new: SongOpConstructor) -> bool
        decreases self,
    {
        &&& new.same_header(self)
        &&& if path.len() == 0 {
            new.list@ == self.list@.push(item)
        } else {
            let j = self.push_target(path[0] as int);
            if 0 <= j < self.list@.len() {
                match self.list@[j] {
                    ConstructorItem::Song(_, _) => new.list@ == self.list@.insert(path[0] as int, item),
                    ConstructorItem::Operation(op) => {
                        &&& new.list@.len() == self.list@.len()
                        &&& new.list@ == self.list@.update(j, new.list@[j])
                        &&& new.list@[j] matches ConstructorItem::Operation(op2)
                        &&& op.push_rel(path.drop_first(), item, op2)
                    },
                }
            } else {
                false
            }
        }
    }

    /// Adds an item along a path of indexes.
    pub fn push_to_path(&mut self, pth: VecDeque<usize>, item: ConstructorItem)
        requires
            old(self).push_ok(pth@),
        ensures
            old(self).push_rel(pth@, item, *final(self)),
        decreases *old(self),
    {
        let mut pth = pth;
        let ghost path = pth@;
        let next_idx = pth.pop_front();
        match next_idx {
            None => {
                self.list.push(item);
            },
            Some(next_idx) => {
                let list_len = self.list.len();
                let j = if next_idx < list_len - 1 {
                    next_idx
                } else {
                    list_len - 1
                };
                let is_song = matches!(self.list[j], ConstructorItem::Song(_, _));
                if is_song {
                    self.insert(next_idx, item);
                } else {
                    assert(pth@ == path.drop_first());
                    self.list[j].push_to_path(pth, item);
                }
            },
        }
    }

    /// `pop_path` does not panic: each index of the path names an item, as
    /// far as the path goes through groups.
    pub open spec fn pop_ok(self, path: Seq<usize>) -> bool
        decreases self,
    {
        if path.len() == 0 {
            true
        } else {
            let idx = path[0] as int;
            &&& idx < self.list@.len()
            &&& path.len() > 1 ==> (self.list@[idx] matches ConstructorItem::Operation(op) ==> op.pop_ok(
                path.drop_first(),
            ))
        }
    }

    /// What `pop_path` takes out and leaves: the item at the path's first
    /// index is removed from this group and handed out when the path ends
    /// there (or when that item is a song, which holds nothing further);
    /// otherwise the group there pops along the rest of the path.
    pub open spec fn pop_rel(self, path: Seq<usize>, new: SongOpConstructor, r: Option<ConstructorItem>) -> bool
        decreases self,
    {
        &&& new.same_header(self)
        &&& if path.len() == 0 {
            r is None && new.list@ == self.list@
        } else {
            let idx = path[0] as int;
            if 0 <= idx < self.list@.len() {
                match self.list@[idx] {
                    ConstructorItem::Operation(op) if path.len() > 1 => {
                        &&& new.list@.len() == self.list@.len()
                        &&& new.list@ == self.list@.update(idx, new.list@[idx])
                        &&& new.list@[idx] matches ConstructorItem::Operation(op2)
                        &&& op.pop_rel(path.drop_first(), op2, r)
                    },
                    _ => r == Some(self.list@[idx]) && new.list@ == self.list@.remove(idx),
                }
            } else {
                false
            }
        }
    }

    /// Removes and returns the item that a path of indexes names.
    pub fn pop_path(&mut self, pth: VecDeque<usize>) -> (r: Option<ConstructorItem>)
        requires
            old(self).pop_ok(pth@),
        ensures
            old(self).pop_rel(pth@, *final(self), r),
        decreases *old(self),
    {
        let mut pth = pth;
        let ghost path = pth@;
        let next_idx = match pth.pop_front() {
            Some(i) => i,
            None => {
                return None;
            },
        };
        let is_song = matches!(self.list[next_idx], ConstructorItem::Song(_, _));
        if is_song || pth.len() == 0 {
            Some(self.list.remove(next_idx))
        } else {
            assert(pth@ == path.drop_first());
            self.list[next_idx].pop_path(pth)
        }
    }
}

impl SongOpConstructor {
    /// `new` is this group with the item that the path of indexes leads to
    /// replaced by `x`.
    pub open spec fn replaced_at(self, path: Seq<usize>, x: ConstructorItem, new: SongOpConstructor) -> bool
        decreases self,
    {
        &&& new.same_header(self)
        &&& path.len() > 0
        &&& path[0] < self.list@.len()
        &&& if path.len() == 1 {
            new.list@ == self.list@.update(path[0] as int, x)
        } else {
            &&& new.list@.len() == self.list@.len()
            &&& new.list@ == self.list@.update(path[0] as int, new.list@[path[0] as int])
            &&& self.list@[path[0] as int] matches ConstructorItem::Operation(op)
            &&& new.list@[path[0] as int] matches ConstructorItem::Operation(op2)
            &&& op.replaced_at(path.drop_first(), x, op2)
        }
    }

    /// Returns the item that the path of indexes leads to, to change it in
    /// place.
    pub fn item_at_path_mut(&mut self, pth: VecDeque<usize>) -> (r: Option<&mut ConstructorItem>)
        ensures
            r is Some <==> old(self).spec_item_at(pth@) is Some,
            r matches Some(e) ==> *e == old(self).spec_item_at(pth@).unwrap() && old(self).replaced_at(
                pth@,
                *final(e),
                *final(self),
            ),
            r is None ==> *final(self) == *old(self),
    {
        let probe = pth.clone();
        assert(probe@ =~= pth@);
        if self.item_at_path(probe).is_none() {
            return None;
        }
        self.descend_mut(pth)
    }

    /// Descends along a path that leads to an item.
    fn descend_mut(&mut self, pth: VecDeque<usize>) -> (r: Option<&mut ConstructorItem>)
        requires
            old(self).spec_item_at(pth@) is Some,
        ensures
            r matches Some(e) && *e == old(self).spec_item_at(pth@).unwrap() && old(self).replaced_at(
                pth@,
                *final(e),
                *final(self),
            ),
        decreases *old(self),
    {
        let mut pth = pth;
        let ghost path = pth@;
        let next_idx = match pth.pop_front() {
            Some(i) => i,
            None => {
                return None;
            },
        };
        if pth.len() == 0 {
            Some(&mut self.list[next_idx])
        } else {
            assert(pth@ == path.drop_first());
            match &mut self.list[next_idx] {
                ConstructorItem::Song(_, _) => None,
                ConstructorItem::Operation(op) => op.descend_mut(pth),
            }
        }
    }
}

impl ConstructorItem {
    /// The song keys of the item: its own key, or those of its group.
    pub open spec fn item_keys(self) -> Seq<SongKey> {
        match self {
            ConstructorItem::Song(k, _) => seq![k],
            ConstructorItem::Operation(op) => op.song_keys(),
        }
    }

    /// Returns the song keys of the item.
    pub fn all_song_keys(&self) -> (r: Vec<SongKey>)
        ensures
            r@ == self.item_keys(),
        decreases self,
    {
        match self {
            ConstructorItem::Song(key, _) => {
                let mut v = Vec::new();
                v.push(key.clone());
                v
            },
            ConstructorItem::Operation(op) => op.all_song_keys_rec(),
        }
    }
}

/// The value of a string of decimal digits.
pub open spec fn decimal_value(ds: Seq<char>) -> int
    decreases ds.len(),
{
    if ds.len() == 0 {
        0
    } else {
        decimal_value(ds.drop_last()) * 10 + (ds.last() as int - '0' as int)
    }
}

/// The digits of a decimal number, after an optional leading `+`.
pub open spec fn number_digits(s: Seq<char>) -> Seq<char> {
    if s.len() > 0 && s[0] == '+' {
        s.drop_first()
    } else {
        s
    }
}

/// The `u32` that a text spells in decimal, as `str::parse` reads it: an
/// optional `+`, then at least one ASCII digit and nothing else, with a
/// value that fits.
pub open spec fn parsed_u32(s: Seq<char>) -> Option<u32> {
    let ds = number_digits(s);
    if ds.len() > 0 && (forall|i: int| 0 <= i < ds.len() ==> '0' <= #[trigger] ds[i] <= '9') && decimal_value(ds)
        <= u32::MAX {
        Some(decimal_value(ds) as u32)
    } else {
        None
    }
}

/// The message for a typed repeat count: the count when the text is a
/// number, else nothing.
pub fn verify_n(txt: &str) -> (r: SongOpMessage)
    ensures
        match parsed_u32(txt@) {
            Some(n) => r == SongOpMessage::ChangeN(n),
            None => r is Null,
        },
{
    let len = txt.unicode_len();
    let ghost s = txt@;
    let start: usize = if len > 0 && txt.get_char(0) == '+' {
        1
    } else {
        0
    };
    let ghost ds = number_digits(s);
    assert(ds == s.subrange(start as int, len as int));
    if start >= len {
        return SongOpMessage::Null;
    }
    let mut val: u64 = 0;
    let mut over = false;
    let mut i: usize = start;
    while i < len
        invariant
            start <= i <= len,
            len == s.len(),
            s == txt@,
            ds == number_digits(s),
            ds == s.subrange(start as int, len as int),
            forall|k: int| start <= k < i ==> '0' <= #[trigger] s[k] <= '9',
            !over ==> val == decimal_value(s.subrange(start as int, i as int)) && val <= u32::MAX,
            over ==> decimal_value(s.subrange(start as int, i as int)) > u32::MAX,
        decreases len - i,
    {
        let c = txt.get_char(i);
        if !('0' <= c && c <= '9') {
            assert(ds[i - start] == c);
            return SongOpMessage::Null;
        }
        let ghost prefix = s.subrange(start as int, i as int);
        assert(s.subrange(start as int, i + 1).drop_last() == prefix);
        assert(s.subrange(start as int, i + 1).last() == c);
        let d = (c as u32 - '0' as u32) as u64;
        if !over {
            let next = val * 10 + d;
            if next > 4294967295u64 {
                over = true;
            } else {
                val = next;
            }
        }
        i = i + 1;
    }
    assert(s.subrange(start as int, len as int) == ds);
    if over {
        SongOpMessage::Null
    } else {
        SongOpMessage::ChangeN(val as u32)
    }
}

/// A message for a nested group of a constructor.
#[derive(Debug)]
pub enum CItemMessage {
    Operation(Box<SongOpMessage>),
}

/// A user action on a constructor.
#[derive(Debug)]
pub enum SongOpMessage {
    // User input
    NewGroup,
    Generate,
    ChangeN(u32),
    Collapse,
    Uncollapse,
    ChangeOperation(ActualRecursiveOps),
    CloseSelf,

    Remove(usize),

    // Drag-n-drop: an item was dropped, and the drop zones under it
    Dropped(ItemId),
    HandleZones(ItemId, Vec<ItemId>),
    SongClicked(ItemId),

    ItemMessage(usize, CItemMessage),

    Null,
}

/// Work that the interface does for a constructor.
#[derive(Debug)]
pub enum ConstructorCommand {
    /// Nothing to do.
    Nothing,
    /// Look up the drop zones under the dropped item `original`; `route`
    /// leads to the group that asked, and the answer goes back to it as a
    /// `HandleZones` message.
    FindZones { original: ItemId, route: Vec<usize> },
}

/// What a constructor update asks of its owner.
#[derive(Debug)]
pub enum UpdateResult {
    Cm(ConstructorCommand),
    SongClicked(ItemId),
    Move(ItemId, ItemId),  // from, to
    NoAction,
}

impl UpdateResult {
    /// `r` is the parent's version of this nested result, the group being
    /// at index `idx`.
    pub open spec fn routed_as(self, idx: usize, r: UpdateResult) -> bool {
        match self {
            UpdateResult::Cm(ConstructorCommand::FindZones { original, route }) => r matches UpdateResult::Cm(
                ConstructorCommand::FindZones { original: o2, route: route2 },
            ) && o2 == original && route2@ == seq![idx] + route@,
            _ => r == self,
        }
    }

    /// Routes a nested group's result through its index in the parent.
    fn route_through(self, idx: usize) -> (r: UpdateResult)
        ensures
            self.routed_as(idx, r),
    {
        match self {
            UpdateResult::Cm(ConstructorCommand::FindZones { original, route }) => {
                let mut route = route;
                let mut full = Vec::new();
                full.push(idx);
                full.append(&mut route);
                UpdateResult::Cm(ConstructorCommand::FindZones { original, route: full })
            },
            other => other,
        }
    }
}

impl SongOpConstructor {
    /// `new` is this group with the given operation, collapsed flag, count
    /// and items.
    pub open spec fn becomes(
        self,
        new: SongOpConstructor,
        operation: ActualRecursiveOps,
        collapsed: bool,
        n: u32,
        list: Seq<ConstructorItem>,
    ) -> bool {
        &&& new.id == self.id
        &&& new.operation == operation
        &&& new.collapsible == self.collapsible
        &&& new.collapsed == collapsed
        &&& new.n == n
        &&& new.list@ == list
    }

    /// `new` is this group with its items replaced.
    pub open spec fn with_list(self, new: SongOpConstructor, list: Seq<ConstructorItem>) -> bool {
        self.becomes(new, self.operation, self.collapsed, self.n, list)
    }

    /// `update` does not panic: removals and nested messages name existing
    /// items, nested messages go to groups, and nested groups can take them.
    pub open spec fn update_ok(self, msg: SongOpMessage) -> bool
        decreases self,
    {
        match msg {
            SongOpMessage::Remove(idx) => idx < self.list@.len(),
            SongOpMessage::ItemMessage(idx, CItemMessage::Operation(m)) => {
                &&& idx < self.list@.len()
                &&& self.list@[idx as int] matches ConstructorItem::Operation(op)
                &&& !(*m is CloseSelf) ==> op.update_ok(*m)
            },
            _ => true,
        }
    }

    /// What `update` does to a group and what it answers.
    pub open spec fn update_rel(self, msg: SongOpMessage, new: SongOpConstructor, res: UpdateResult) -> bool
        decreases self,
    {
        let list = self.list@;
        match msg {
            SongOpMessage::CloseSelf => res == UpdateResult::Cm(ConstructorCommand::Nothing) && new == self,
            SongOpMessage::Remove(idx) => res == UpdateResult::NoAction && self.with_list(new, list.remove(idx as int)),
            SongOpMessage::ItemMessage(idx, CItemMessage::Operation(m)) => {
                if !(0 <= idx < list.len()) {
                    false
                } else {
                    match list[idx as int] {
                        ConstructorItem::Song(_, _) => false,
                        ConstructorItem::Operation(op) => if *m is CloseSelf {
                            res == UpdateResult::NoAction && self.with_list(new, list.remove(idx as int))
                        } else {
                            &&& new.list@.len() == list.len()
                            &&& self.with_list(new, list.update(idx as int, new.list@[idx as int]))
                            &&& new.list@[idx as int] matches ConstructorItem::Operation(op2)
                            &&& exists|r: UpdateResult| #[trigger] r.routed_as(idx, res) && op.update_rel(*m, op2, r)
                        },
                    }
                }
            },
            SongOpMessage::NewGroup => {
                &&& res == UpdateResult::NoAction
                &&& new.list@.len() == list.len() + 1
                &&& self.with_list(new, list.push(new.list@.last()))
                &&& new.list@.last() matches ConstructorItem::Operation(g)
                &&& g.operation == ActualRecursiveOps::PlayOnce
                &&& g.list@.len() == 0
                &&& g.collapsible
                &&& !g.collapsed
                &&& g.n == 1
            },
            SongOpMessage::ChangeOperation(op) => res == UpdateResult::NoAction && self.becomes(
                new,
                op,
                self.collapsed,
                self.n,
                list,
            ),
            SongOpMessage::Dropped(original) => {
                &&& new == self
                &&& res matches UpdateResult::Cm(ConstructorCommand::FindZones { original: o, route })
                &&& o == original
                &&& route@.len() == 0
            },
            SongOpMessage::HandleZones(original, zones) => new == self && res == if zones@.len() > 0
                && zones@.last() != original {
                UpdateResult::Move(original, zones@.last())
            } else {
                UpdateResult::NoAction
            },
            SongOpMessage::Collapse => res == UpdateResult::NoAction && self.becomes(new, self.operation, true, self.n, list),
            SongOpMessage::Uncollapse => res == UpdateResult::NoAction && self.becomes(
                new,
                self.operation,
                false,
                self.n,
                list,
            ),
            SongOpMessage::ChangeN(n) => res == UpdateResult::NoAction && self.becomes(
                new,
                self.operation,
                self.collapsed,
                n,
                list,
            ),
            SongOpMessage::Generate => res == UpdateResult::NoAction && new == self,
            SongOpMessage::Null => res == UpdateResult::NoAction && new == self,
            SongOpMessage::SongClicked(wid) => res == UpdateResult::SongClicked(wid) && new == self,
        }
    }

    /// Handles a user action on the group.
    pub fn update(&mut self, msg: SongOpMessage) -> (res: UpdateResult)
        requires
            old(self).update_ok(msg),
        ensures
            old(self).update_rel(msg, *final(self), res),
        decreases *old(self),
    {
        match msg {
            SongOpMessage::CloseSelf => UpdateResult::Cm(ConstructorCommand::Nothing),
            SongOpMessage::Remove(idx) => {
                self.list.remove(idx);
                UpdateResult::NoAction
            },
            SongOpMessage::ItemMessage(idx, msg) => {
                let CItemMessage::Operation(somsg) = msg;
                let close = matches!(*somsg, SongOpMessage::CloseSelf);
                if close {
                    self.list.remove(idx);
                    UpdateResult::NoAction
                } else {
                    let ghost old_list = self.list@;
                    match &mut self.list[idx] {
                        ConstructorItem::Song(_, _) => UpdateResult::NoAction,
                        ConstructorItem::Operation(op) => {
                            let r = op.update(*somsg);
                            let ghost rr = r;
                            let res = r.route_through(idx);
                            assert(rr.routed_as(idx, res));
                            res
                        },
                    }
                }
            },
            SongOpMessage::NewGroup => {
                self.list.push(ConstructorItem::Operation(SongOpConstructor::default()));
                UpdateResult::NoAction
            },
            SongOpMessage::ChangeOperation(op) => {
                self.operation = op;
                UpdateResult::NoAction
            },
            SongOpMessage::Dropped(original_id) => UpdateResult::Cm(
                ConstructorCommand::FindZones { original: original_id, route: Vec::new() },
            ),
            SongOpMessage::HandleZones(original_id, zones) => {
                // This assumes the last zone was the desired target
                if zones.len() > 0 {
                    let target_id = zones[zones.len() - 1];
                    if original_id != target_id {
                        UpdateResult::Move(original_id, target_id)
                    } else {
                        UpdateResult::NoAction
                    }
                } else {
                    UpdateResult::NoAction
                }
            },
            SongOpMessage::Collapse => {
                self.collapsed = true;
                UpdateResult::NoAction
            },
            SongOpMessage::Uncollapse => {
                self.collapsed = false;
                UpdateResult::NoAction
            },
            SongOpMessage::ChangeN(n) => {
                self.n = n;
                UpdateResult::NoAction
            },
            SongOpMessage::Generate => UpdateResult::NoAction,
            // Pointer for things like inputting a non-integer value into the "N" field.
            SongOpMessage::Null => UpdateResult::NoAction,
            SongOpMessage::SongClicked(wid) => UpdateResult::SongClicked(wid),
        }
    }
}

impl ConstructorItem {
    /// The path of indexes to the item with identifier `id`, starting at
    /// this item.
    pub open spec fn item_path_to_id(self, id: ItemId) -> Option<Seq<usize>> {
        match self {
            ConstructorItem::Song(_, sid) => if sid == id {
                Some(Seq::empty())
            } else {
                None
            },
            ConstructorItem::Operation(op) => op.spec_path_to_id(id),
        }
    }

    /// Finds the path of indexes to the item with identifier `id`.
    pub fn path_to_id(&self, id: &ItemId) -> (r: Option<Vec<usize>>)
        ensures
            r is None <==> self.item_path_to_id(*id) is None,
            r matches Some(v) ==> self.item_path_to_id(*id) == Some(v@),
        decreases self,
    {
        match self {
            ConstructorItem::Song(_, sid) => if *sid == *id {
                Some(Vec::new())
            } else {
                None
            },
            ConstructorItem::Operation(op) => op.path_to_id(id),
        }
    }

    /// The item that a path of indexes leads to from this item: the item
    /// itself for the empty path.
    pub open spec fn item_item_at(self, path: Seq<usize>) -> Option<ConstructorItem> {
        if path.len() == 0 {
            Some(self)
        } else {
            match self {
                ConstructorItem::Song(_, _) => None,
                ConstructorItem::Operation(op) => op.spec_item_at(path),
            }
        }
    }

    /// Returns the item that a path of indexes leads to from this item.
    pub fn item_at_path(&self, pth: VecDeque<usize>) -> (r: Option<&ConstructorItem>)
        ensures
            r is Some <==> self.item_item_at(pth@) is Some,
            r matches Some(x) ==> *x == self.item_item_at(pth@).unwrap(),
        decreases self,
    {
        if pth.len() == 0 {
            return Some(self);
        }
        match self {
            ConstructorItem::Song(_, _) => None,
            ConstructorItem::Operation(op) => op.item_at_path(pth),
        }
    }

    /// `new` is this item with the item that the path leads to (itself for
    /// the empty path) replaced by `x`.
    pub open spec fn item_replaced_at(self, path: Seq<usize>, x: ConstructorItem, new: ConstructorItem) -> bool {
        if path.len() == 0 {
            new == x
        } else {
            &&& self matches ConstructorItem::Operation(op)
            &&& new matches ConstructorItem::Operation(op2)
            &&& op.replaced_at(path, x, op2)
        }
    }

    /// Returns the item that a path of indexes leads to from this item, to
    /// change it in place.
    pub fn item_at_path_mut(&mut self, pth: VecDeque<usize>) -> (r: Option<&mut ConstructorItem>)
        ensures
            r is Some <==> old(self).item_item_at(pth@) is Some,
            r matches Some(e) ==> *e == old(self).item_item_at(pth@).unwrap() && old(self).item_replaced_at(
                pth@,
                *final(e),
                *final(self),
            ),
            r is None ==> *final(self) == *old(self),
    {
        if pth.len() == 0 {
            return Some(self);
        }
        match self {
            ConstructorItem::Song(_, _) => None,
            ConstructorItem::Operation(op) => op.item_at_path_mut(pth),
        }
    }

    /// Adds an item along a path inside this item (a song takes none).
    pub fn push_to_path(&mut self, pth: VecDeque<usize>, item: ConstructorItem)
        requires
            *old(self) matches ConstructorItem::Operation(op) ==> op.push_ok(pth@),
        ensures
            *old(self) is Song ==> *final(self) == *old(self),
            *old(self) matches ConstructorItem::Operation(op) ==> (*final(self) matches ConstructorItem::Operation(op2)
                && op.push_rel(pth@, item, op2)),
        decreases *old(self),
    {
        match self {
            ConstructorItem::Song(_, _) => (),
            ConstructorItem::Operation(op) => op.push_to_path(pth, item),
        }
    }

    /// Removes and returns the item that a path names inside this item (a
    /// song holds none).
    pub fn pop_path(&mut self, pth: VecDeque<usize>) -> (r: Option<ConstructorItem>)
        requires
            *old(self) matches ConstructorItem::Operation(op) ==> op.pop_ok(pth@),
        ensures
            *old(self) is Song ==> *final(self) == *old(self) && r is None,
            *old(self) matches ConstructorItem::Operation(op) ==> (*final(self) matches ConstructorItem::Operation(op2)
                && op.pop_rel(pth@, op2, r)),
        decreases *old(self),
    {
        match self {
            ConstructorItem::Song(_, _) => None,
            ConstructorItem::Operation(op) => op.pop_path(pth),
        }
    }
}

impl ConstructorItem {
    /// The identifier of an item: a song's own, or its group's.
    pub open spec fn item_id(self) -> ItemId {
        match self {
            ConstructorItem::Song(_, id) => id,
            ConstructorItem::Operation(op) => op.id,
        }
    }
}

impl SongOpConstructor {
    /// Checks that `pop_path` can take out the item that a path names.
    pub fn can_pop_path(&self, pth: VecDeque<usize>) -> (r: bool)
        ensures
            r == self.pop_ok(pth@),
        decreases self,
    {
        let mut pth = pth;
        let ghost path = pth@;
        let idx = match pth.pop_front() {
            Some(i) => i,
            None => {
                return true;
            },
        };
        if idx >= self.list.len() {
            return false;
        }
        match &self.list[idx] {
            ConstructorItem::Song(_, _) => true,
            ConstructorItem::Operation(op) => if pth.len() == 0 {
                true
            } else {
                assert(pth@ == path.drop_first());
                op.can_pop_path(pth)
            },
        }
    }

    /// Moves the item with identifier `from` to the place of the item with
    /// identifier `to`: the item is taken out along its path, then pushed
    /// along the path to `to` in what is left. Answers whether it was put
    /// back in; an item that was taken out but whose target is gone is
    /// dropped.
    pub fn move_item(&mut self, from: &ItemId, to: &ItemId) -> (moved: bool)
        ensures
            match old(self).spec_path_to_id(*from) {
                None => !moved && *final(self) == *old(self),
                Some(p) => exists|mid: SongOpConstructor, item: Option<ConstructorItem>| #[trigger]
                    old(self).pop_rel(p, mid, item) && match item {
                        None => !moved && *final(self) == mid,
                        Some(it) => match mid.spec_path_to_id(*to) {
                            None => !moved && *final(self) == mid,
                            Some(q) => moved && mid.push_rel(q, it, *final(self)),
                        },
                    },
            },
    {
        let ghost start = *self;
        let from_path = match self.path_to_id(from) {
            Some(p) => p,
            None => {
                return false;
            },
        };
        let ghost p = from_path@;
        proof {
            law_found_path_fits(start, *from);
            if p.len() > 0 {
                law_pop_takes_the_item_at_path(start, p);
            }
        }
        let item = self.pop_path(path_deque(&from_path));
        let ghost mid = *self;
        assert(start.pop_rel(p, mid, item));
        let item = match item {
            Some(it) => it,
            None => {
                return false;
            },
        };
        let to_path = match self.path_to_id(to) {
            Some(q) => q,
            None => {
                return false;
            },
        };
        proof {
            law_found_path_fits(mid, *to);
        }
        self.push_to_path(path_deque(&to_path), item);
        true
    }
}

/// A path of indexes as a queue, first index in front.
pub fn path_deque(v: &Vec<usize>) -> (d: VecDeque<usize>)
    ensures
        d@ == v@,
{
    let mut d: VecDeque<usize> = VecDeque::new();
    let mut i: usize = 0;
    while i < v.len()
        invariant
            i <= v@.len(),
            d@ == v@.subrange(0, i as int),
        decreases v@.len() - i,
    {
        d.push_back(v[i]);
        i = i + 1;
    }
    d
}

/// A tree of items that can be found by path or by identifier, and changed
/// along paths.
pub trait TreeDirected: Sized {
    /// `push_to_path` can run along this path.
    spec fn push_allowed(&self, path: Seq<usize>) -> bool;

    /// What `push_to_path` makes of the tree.
    spec fn push_relation(&self, path: Seq<usize>, item: ConstructorItem, new: Self) -> bool;

    /// Adds an item along a path of indexes.
    fn push_to_path(&mut self, pth: VecDeque<usize>, item: ConstructorItem)
        requires
            old(self).push_allowed(pth@),
        ensures
            old(self).push_relation(pth@, item, *final(self)),
    ;

    /// `pop_path` can run along this path.
    spec fn pop_allowed(&self, path: Seq<usize>) -> bool;

    /// What `pop_path` makes of the tree and hands out.
    spec fn pop_relation(&self, path: Seq<usize>, new: Self, r: Option<ConstructorItem>) -> bool;

    /// Removes and returns the item that a path of indexes names.
    fn pop_path(&mut self, pth: VecDeque<usize>) -> (r: Option<ConstructorItem>)
        requires
            old(self).pop_allowed(pth@),
        ensures
            old(self).pop_relation(pth@, *final(self), r),
    ;

    /// The path of indexes to the item with identifier `id`.
    spec fn id_path(&self, id: ItemId) -> Option<Seq<usize>>;

    /// Whether the tree holds an item with identifier `id`.
    fn item_has_id(&mut self, id: &ItemId) -> (r: bool)
        ensures
            r == (old(self).id_path(*id) is Some),
            *final(self) == *old(self),
    {
        self.path_to_id(id).is_some()
    }

    /// Finds the path of indexes to the item with identifier `id`.
    fn path_to_id(&self, id: &ItemId) -> (r: Option<Vec<usize>>)
        ensures
            r is None <==> self.id_path(*id) is None,
            r matches Some(v) ==> self.id_path(*id) == Some(v@),
    ;

    /// The item that a path of indexes leads to.
    spec fn item_at(&self, path: Seq<usize>) -> Option<ConstructorItem>;

    /// What writing `x` at the end of a path makes of the tree.
    spec fn write_relation(&self, path: Seq<usize>, x: ConstructorItem, new: Self) -> bool;

    /// Returns the item that a path of indexes leads to.
    fn item_at_path(&self, pth: VecDeque<usize>) -> (r: Option<&ConstructorItem>)
        ensures
            r is Some <==> self.item_at(pth@) is Some,
            r matches Some(x) ==> *x == self.item_at(pth@).unwrap(),
    ;

    /// Returns the item that a path of indexes leads to, to change it in
    /// place.
    fn item_at_path_mut(&mut self, pth: VecDeque<usize>) -> (r: Option<&mut ConstructorItem>)
        ensures
            r is Some <==> old(self).item_at(pth@) is Some,
            r matches Some(e) ==> *e == old(self).item_at(pth@).unwrap() && old(self).write_relation(
                pth@,
                *final(e),
                *final(self),
            ),
            r is None ==> *final(self) == *old(self),
    ;
}

impl TreeDirected for SongOpConstructor {
    open spec fn push_allowed(&self, path: Seq<usize>) -> bool {
        self.push_ok(path)
    }

    open spec fn push_relation(&self, path: Seq<usize>, item: ConstructorItem, new: Self) -> bool {
        self.push_rel(path, item, new)
    }

    fn push_to_path(&mut self, pth: VecDeque<usize>, item: ConstructorItem) {
        SongOpConstructor::push_to_path(self, pth, item)
    }

    open spec fn pop_allowed(&self, path: Seq<usize>) -> bool {
        self.pop_ok(path)
    }

    open spec fn pop_relation(&self, path: Seq<usize>, new: Self, r: Option<ConstructorItem>) -> bool {
        self.pop_rel(path, new, r)
    }

    fn pop_path(&mut self, pth: VecDeque<usize>) -> (r: Option<ConstructorItem>) {
        SongOpConstructor::pop_path(self, pth)
    }

    open spec fn id_path(&self, id: ItemId) -> Option<Seq<usize>> {
        self.spec_path_to_id(id)
    }

    fn path_to_id(&self, id: &ItemId) -> (r: Option<Vec<usize>>) {
        SongOpConstructor::path_to_id(self, id)
    }

    open spec fn item_at(&self, path: Seq<usize>) -> Option<ConstructorItem> {
        self.spec_item_at(path)
    }

    open spec fn write_relation(&self, path: Seq<usize>, x: ConstructorItem, new: Self) -> bool {
        self.replaced_at(path, x, new)
    }

    fn item_at_path(&self, pth: VecDeque<usize>) -> (r: Option<&ConstructorItem>) {
        SongOpConstructor::item_at_path(self, pth)
    }

    fn item_at_path_mut(&mut self, pth: VecDeque<usize>) -> (r: Option<&mut ConstructorItem>) {
        SongOpConstructor::item_at_path_mut(self, pth)
    }
}

impl TreeDirected for ConstructorItem {
    open spec fn push_allowed(&self, path: Seq<usize>) -> bool {
        *self matches ConstructorItem::Operation(op) ==> op.push_ok(path)
    }

    open spec fn push_relation(&self, path: Seq<usize>, item: ConstructorItem, new: Self) -> bool {
        &&& *self is Song ==> new == *self
        &&& *self matches ConstructorItem::Operation(op) ==> (new matches ConstructorItem::Operation(op2)
            && op.push_rel(path, item, op2))
    }

    fn push_to_path(&mut self, pth: VecDeque<usize>, item: ConstructorItem) {
        ConstructorItem::push_to_path(self, pth, item)
    }

    open spec fn pop_allowed(&self, path: Seq<usize>) -> bool {
        *self matches ConstructorItem::Operation(op) ==> op.pop_ok(path)
    }

    open spec fn pop_relation(&self, path: Seq<usize>, new: Self, r: Option<ConstructorItem>) -> bool {
        &&& *self is Song ==> new == *self && r is None
        &&& *self matches ConstructorItem::Operation(op) ==> (new matches ConstructorItem::Operation(op2)
            && op.pop_rel(path, op2, r))
    }

    fn pop_path(&mut self, pth: VecDeque<usize>) -> (r: Option<ConstructorItem>) {
        ConstructorItem::pop_path(self, pth)
    }

    open spec fn id_path(&self, id: ItemId) -> Option<Seq<usize>> {
        self.item_path_to_id(id)
    }

    fn path_to_id(&self, id: &ItemId) -> (r: Option<Vec<usize>>) {
        ConstructorItem::path_to_id(self, id)
    }

    open spec fn item_at(&self, path: Seq<usize>) -> Option<ConstructorItem> {
        self.item_item_at(path)
    }

    open spec fn write_relation(&self, path: Seq<usize>, x: ConstructorItem, new: Self) -> bool {
        self.item_replaced_at(path, x, new)
    }

    fn item_at_path(&self, pth: VecDeque<usize>) -> (r: Option<&ConstructorItem>) {
        ConstructorItem::item_at_path(self, pth)
    }

    fn item_at_path_mut(&mut self, pth: VecDeque<usize>) -> (r: Option<&mut ConstructorItem>) {
        ConstructorItem::item_at_path_mut(self, pth)
    }
}

/// Where the first match for `id` lies among the items from `i` on leads to
/// an item with that identifier, and a push along it does not panic.
proof fn lemma_find_from_leads_to_id(c: SongOpConstructor, id: ItemId, i: int)
    requires
        c.find_from(id, i) is Some,
    ensures
        ({
            let p = c.find_from(id, i).unwrap();
            &&& p.len() > 0
            &&& i <= p[0] < c.list@.len()
            &&& c.spec_item_at(p) matches Some(item) && item.item_id() == id
            &&& c.push_ok(p)
        }),
    decreases c, c.list@.len() - i,
{
    let p = c.find_from(id, i).unwrap();
    assert(c.list@.len() == c.list.len());
    let item = c.list@[i];
    let here = match item {
        ConstructorItem::Song(_, sid) => if sid == id {
            Some(Seq::<usize>::empty())
        } else {
            None
        },
        ConstructorItem::Operation(op) => if op.id == id {
            Some(Seq::<usize>::empty())
        } else {
            op.find_from(id, 0)
        },
    };
    match here {
        Some(q) => {
            assert(p == seq![i as usize] + q);
            assert(p.drop_first() == q);
            assert(c.push_target(p[0] as int) == i);
            if q.len() > 0 {
                if let ConstructorItem::Operation(op) = item {
                    lemma_find_from_leads_to_id(op, id, 0);
                    assert(c.spec_item_at(p) == op.spec_item_at(q));
                    assert(c.push_ok(p) == op.push_ok(q));
                }
            } else {
                assert(c.spec_item_at(p) == Some(item));
                match item {
                    ConstructorItem::Song(_, _) => {
                        assert(c.push_ok(p));
                    },
                    ConstructorItem::Operation(op) => {
                        if op.id != id {
                            lemma_find_from_leads_to_id(op, id, 0);
                        }
                        assert(op.push_ok(q));
                        assert(c.push_ok(p));
                    },
                }
            }
        },
        None => {
            lemma_find_from_leads_to_id(c, id, i + 1);
        },
    }
}

/// The path to an identifier leads to the item with that identifier (the
/// empty path to the group itself), and an item can be pushed along it.
pub proof fn law_found_path_fits(c: SongOpConstructor, id: ItemId)
    requires
        c.spec_path_to_id(id) is Some,
    ensures
        ({
            let p = c.spec_path_to_id(id).unwrap();
            &&& p.len() == 0 ==> c.id == id
            &&& p.len() > 0 ==> (c.spec_item_at(p) matches Some(item) && item.item_id() == id)
            &&& c.push_ok(p)
        }),
{
    if c.id != id {
        lemma_find_from_leads_to_id(c, id, 0);
    }
}

/// A path that leads to a single song in the operation that a constructor
/// builds leads to a song entry in the constructor, with the same key.
pub proof fn law_built_song_paths(c: SongOpConstructor, op: RecursiveSongOp, path: Seq<usize>)
    requires
        c.builds(op),
        path.len() > 0,
        op.leads_to_song(path),
    ensures
        c.spec_item_at(path) matches Some(ConstructorItem::Song(k, _)) && op.song_at(path) == Some(k),
    decreases c,
{
    let j = path[0] as int;
    let rest = path.drop_first();
    let kid = op.kids()[j];
    assert(c.list@[j] == c.list@[j]);
    assert(op.song_at(path) == kid.song_at(rest));
    assert(kid.leads_to_song(rest));
    assert(c.spec_item_at(path) == if path.len() == 1 {
        Some(c.list@[j])
    } else {
        match c.list@[j] {
            ConstructorItem::Song(_, _) => None,
            ConstructorItem::Operation(g) => g.spec_item_at(rest),
        }
    });
    if rest.len() == 0 {
        match c.list@[j] {
            ConstructorItem::Song(k, _) => {
                assert(kid == RecursiveSongOp::SinglePlay(k));
            },
            ConstructorItem::Operation(g) => {
                assert(g.builds(kid));
                assert(kid is SinglePlay);
            },
        }
    } else {
        match c.list@[j] {
            ConstructorItem::Song(k, _) => {
                assert(kid == RecursiveSongOp::SinglePlay(k));
                assert(kid.kids().len() == 0);
            },
            ConstructorItem::Operation(g) => {
                assert(g.builds(kid));
                law_built_song_paths(g, kid, rest);
            },
        }
    }
}

/// Pushing a song at the end of a group and then popping it by its index
/// gives the song back and leaves the group as it was.
pub proof fn law_push_then_pop_restores(
    c: SongOpConstructor,
    key: SongKey,
    sid: ItemId,
    c2: SongOpConstructor,
    c3: SongOpConstructor,
    r: Option<ConstructorItem>,
)
    requires
        c.push_rel(Seq::empty(), ConstructorItem::Song(key, sid), c2),
        c2.pop_rel(seq![c.list@.len() as usize], c3, r),
        c.list@.len() < usize::MAX,
    ensures
        c2.pop_ok(seq![c.list@.len() as usize]),
        r == Some(ConstructorItem::Song(key, sid)),
        c3.list@ == c.list@,
        c3.same_header(c),
{
    let n = c.list@.len();
    assert(c2.list@ == c.list@.push(ConstructorItem::Song(key, sid)));
    assert(c2.list@[n as int] == ConstructorItem::Song(key, sid));
    assert(c2.list@.remove(n as int) =~= c.list@);
}

/// The song keys of a list of items, groups expanded in place, in order.
pub open spec fn items_keys(s: Seq<ConstructorItem>) -> Seq<SongKey>
    decreases s.len(),
{
    if s.len() == 0 {
        Seq::empty()
    } else {
        s[0].item_keys() + items_keys(s.drop_first())
    }
}

/// How many times each song key occurs among a list of items.
pub open spec fn key_counts(s: Seq<ConstructorItem>) -> Multiset<SongKey> {
    items_keys(s).to_multiset()
}

/// The song keys of a group from index `i` on are those of its items
/// from `i` on.
proof fn lemma_keys_from_items(c: SongOpConstructor, i: int)
    requires
        0 <= i <= c.list@.len(),
    ensures
        c.keys_from(i) == items_keys(c.list@.subrange(i, c.list@.len() as int)),
    decreases c.list@.len() - i,
{
    let sub = c.list@.subrange(i, c.list@.len() as int);
    if i < c.list@.len() {
        lemma_keys_from_items(c, i + 1);
        assert(sub.drop_first() == c.list@.subrange(i + 1, c.list@.len() as int));
        assert(sub[0] == c.list@[i]);
    } else {
        assert(sub.len() == 0);
    }
}

/// The song keys of a group are those of its items.
proof fn lemma_song_keys_items(c: SongOpConstructor)
    ensures
        c.song_keys() == items_keys(c.list@),
{
    lemma_keys_from_items(c, 0);
    assert(c.list@.subrange(0, c.list@.len() as int) == c.list@);
}

/// Counting the keys of a list whose first item comes before the rest.
proof fn lemma_counts_split(s: Seq<ConstructorItem>)
    requires
        s.len() > 0,
    ensures
        key_counts(s) == s[0].item_keys().to_multiset().add(key_counts(s.drop_first())),
{
    vstd::seq_lib::lemma_multiset_commutative(s[0].item_keys(), items_keys(s.drop_first()));
}

/// Replacing an item swaps its keys for those of the new item.
proof fn lemma_counts_update(s: Seq<ConstructorItem>, j: int, x: ConstructorItem)
    requires
        0 <= j < s.len(),
    ensures
        key_counts(s.update(j, x)).add(s[j].item_keys().to_multiset()) == key_counts(s).add(
            x.item_keys().to_multiset(),
        ),
    decreases j,
{
    let t = s.update(j, x);
    lemma_counts_split(s);
    lemma_counts_split(t);
    let a = key_counts(t);
    let b = key_counts(s);
    let sj = s[j].item_keys().to_multiset();
    let xm = x.item_keys().to_multiset();
    if j > 0 {
        assert(t.drop_first() == s.drop_first().update(j - 1, x));
        assert(s.drop_first()[j - 1] == s[j]);
        lemma_counts_update(s.drop_first(), j - 1, x);
        assert(t[0] == s[0]);
        let ra = key_counts(t.drop_first());
        let rb = key_counts(s.drop_first());
        let h = s[0].item_keys().to_multiset();
        assert forall|k: SongKey| #[trigger] a.add(sj).count(k) == b.add(xm).count(k) by {
            assert(ra.add(sj).count(k) == rb.add(xm).count(k));
            assert(a.count(k) == h.count(k) + ra.count(k));
            assert(b.count(k) == h.count(k) + rb.count(k));
        }
    } else {
        assert(t.drop_first() == s.drop_first());
        let r = key_counts(s.drop_first());
        assert forall|k: SongKey| #[trigger] a.add(sj).count(k) == b.add(xm).count(k) by {
            assert(a.count(k) == xm.count(k) + r.count(k));
            assert(b.count(k) == sj.count(k) + r.count(k));
        }
    }
    assert(a.add(sj) =~= b.add(xm));
}

/// Removing an item takes out its keys.
proof fn lemma_counts_remove(s: Seq<ConstructorItem>, j: int)
    requires
        0 <= j < s.len(),
    ensures
        key_counts(s.remove(j)).add(s[j].item_keys().to_multiset()) == key_counts(s),
    decreases j,
{
    let t = s.remove(j);
    lemma_counts_split(s);
    if j > 0 {
        lemma_counts_split(t);
        assert(t.drop_first() == s.drop_first().remove(j - 1));
        lemma_counts_remove(s.drop_first(), j - 1);
        assert(t[0] == s[0]);
    } else {
        assert(t == s.drop_first());
    }
    assert(key_counts(t).add(s[j].item_keys().to_multiset()) =~= key_counts(s));
}

/// Inserting an item adds its keys.
proof fn lemma_counts_insert(s: Seq<ConstructorItem>, j: int, x: ConstructorItem)
    requires
        0 <= j <= s.len(),
    ensures
        key_counts(s.insert(j, x)) == key_counts(s).add(x.item_keys().to_multiset()),
    decreases j,
{
    let t = s.insert(j, x);
    lemma_counts_split(t);
    if j > 0 {
        lemma_counts_split(s);
        assert(t.drop_first() == s.drop_first().insert(j - 1, x));
        lemma_counts_insert(s.drop_first(), j - 1, x);
        assert(t[0] == s[0]);
    } else {
        assert(t.drop_first() == s);
        assert(t[0] == x);
    }
    assert(key_counts(t) =~= key_counts(s).add(x.item_keys().to_multiset()));
}

/// The keys of what `pop_path` hands out (none for nothing).
pub open spec fn popped_counts(r: Option<ConstructorItem>) -> Multiset<SongKey> {
    match r {
        Some(it) => it.item_keys().to_multiset(),
        None => Multiset::empty(),
    }
}

/// Popping an item along a path takes out exactly the songs of the item it
/// hands out: what is left and what was handed out hold together every
/// song key as often as before.
pub proof fn law_pop_keeps_songs(c: SongOpConstructor, path: Seq<usize>, new: SongOpConstructor, r: Option<ConstructorItem>)
    requires
        c.pop_rel(path, new, r),
    ensures
        new.song_keys().to_multiset().add(popped_counts(r)) == c.song_keys().to_multiset(),
    decreases c,
{
    lemma_song_keys_items(c);
    lemma_song_keys_items(new);
    if path.len() == 0 {
        assert(new.list@ == c.list@);
        assert(new.song_keys().to_multiset().add(popped_counts(r)) =~= c.song_keys().to_multiset());
    } else {
        let idx = path[0] as int;
        match c.list@[idx] {
            ConstructorItem::Operation(op) if path.len() > 1 => {
                let op2 = new.list@[idx]->Operation_0;
                lemma_counts_update(c.list@, idx, new.list@[idx]);
                assert(new.list@ == c.list@.update(idx, new.list@[idx]));
                lemma_song_keys_items(op);
                lemma_song_keys_items(op2);
                law_pop_keeps_songs(op, path.drop_first(), op2, r);
                let a = key_counts(new.list@);
                let l = key_counts(c.list@);
                let o = key_counts(op.list@);
                let o2 = key_counts(op2.list@);
                let rr = popped_counts(r);
                assert(a.add(o) == l.add(o2));
                assert(o2.add(rr) == o);
                assert(a.add(rr) =~= l) by {
                    assert forall|k: SongKey| #[trigger] a.add(rr).count(k) == l.count(k) by {
                        assert(a.add(o).count(k) == l.add(o2).count(k));
                        assert(o2.add(rr).count(k) == o.count(k));
                    }
                }
            },
            _ => {
                lemma_counts_remove(c.list@, idx);
            },
        }
    }
}

/// Popping along a path that leads to an item takes out exactly that item:
/// it is handed out and removed from the group that held it, every other
/// item of that group staying in order.
pub proof fn law_pop_takes_the_item_at_path(c: SongOpConstructor, path: Seq<usize>)
    requires
        c.spec_item_at(path) is Some,
    ensures
        c.pop_ok(path),
        forall|new: SongOpConstructor, r: Option<ConstructorItem>| #[trigger] c.pop_rel(path, new, r) ==> r
            == c.spec_item_at(path),
    decreases c,
{
    if path.len() > 1 {
        let idx = path[0] as int;
        let op = c.list@[idx]->Operation_0;
        law_pop_takes_the_item_at_path(op, path.drop_first());
        assert forall|new: SongOpConstructor, r: Option<ConstructorItem>| #[trigger] c.pop_rel(path, new, r) implies r
            == c.spec_item_at(path) by {
            let op2 = new.list@[idx]->Operation_0;
            assert(op.pop_rel(path.drop_first(), op2, r));
        }
    }
}

/// Pushing an item along a path adds exactly the songs of that item.
pub proof fn law_push_adds_songs(c: SongOpConstructor, path: Seq<usize>, item: ConstructorItem, new: SongOpConstructor)
    requires
        c.push_ok(path),
        c.push_rel(path, item, new),
    ensures
        new.song_keys().to_multiset() == c.song_keys().to_multiset().add(item.item_keys().to_multiset()),
    decreases c,
{
    lemma_song_keys_items(c);
    lemma_song_keys_items(new);
    if path.len() == 0 {
        assert(c.list@.push(item) == c.list@.insert(c.list@.len() as int, item));
        lemma_counts_insert(c.list@, c.list@.len() as int, item);
    } else {
        let j = c.push_target(path[0] as int);
        match c.list@[j] {
            ConstructorItem::Song(_, _) => {
                lemma_counts_insert(c.list@, path[0] as int, item);
            },
            ConstructorItem::Operation(op) => {
                let op2 = new.list@[j]->Operation_0;
                lemma_counts_update(c.list@, j, new.list@[j]);
                lemma_song_keys_items(op);
                lemma_song_keys_items(op2);
                law_push_adds_songs(op, path.drop_first(), item, op2);
                let a = key_counts(new.list@);
                let l = key_counts(c.list@);
                let o = key_counts(op.list@);
                let o2 = key_counts(op2.list@);
                let i = item.item_keys().to_multiset();
                assert(a.add(o) == l.add(o2));
                assert(o2 == o.add(i));
                assert(a =~= l.add(i)) by {
                    assert forall|k: SongKey| #[trigger] a.count(k) == l.add(i).count(k) by {
                        assert(a.add(o).count(k) == l.add(o2).count(k));
                    }
                }
            },
        }
    }
}

/// Dragging an item to another place keeps every song of the playlist,
/// each as often as before.
pub proof fn law_move_keeps_songs(
    c: SongOpConstructor,
    p: Seq<usize>,
    mid: SongOpConstructor,
    it: ConstructorItem,
    q: Seq<usize>,
    new: SongOpConstructor,
)
    requires
        c.pop_rel(p, mid, Some(it)),
        mid.push_ok(q),
        mid.push_rel(q, it, new),
    ensures
        new.song_keys().to_multiset() == c.song_keys().to_multiset(),
{
    law_pop_keeps_songs(c, p, mid, Some(it));
    law_push_adds_songs(mid, q, it, new);
}

/// Reading an item back where it was written in place gives what was
/// written, and every item elsewhere on the top level stays as it was.
pub proof fn law_write_then_read_item(c: SongOpConstructor, path: Seq<usize>, x: ConstructorItem, new: SongOpConstructor)
    requires
        c.replaced_at(path, x, new),
    ensures
        new.spec_item_at(path) == Some(x),
        forall|i: int| 0 <= i < c.list@.len() && i != path[0] ==> new.list@[i] == c.list@[i],
    decreases c,
{
    if path.len() > 1 {
        let j = path[0] as int;
        let op = c.list@[j]->Operation_0;
        let op2 = new.list@[j]->Operation_0;
        law_write_then_read_item(op, path.drop_first(), x, op2);
    }
}

/// Reading the label of an operation back gives the operation.
pub proof fn law_label_round_trip(a: ActualRecursiveOps, b: ActualRecursiveOps)
    ensures
        a.label() == b.label() <==> a == b,
{
    reveal_strlit("Play Once");
    reveal_strlit("Loop N Times");
    reveal_strlit("Stretch");
    reveal_strlit("Infinite Loop");
    reveal_strlit("Random Play");
    reveal_strlit("Single Random");
    reveal_strlit("Infinite Random");
    if a != b {
        assert(a.label().len() != b.label().len() || a.label()[0] != b.label()[0] || a.label()[1] != b.label()[1]
            || a.label()[5] != b.label()[5]);
    }
}

impl SongOpConstructor {
    /// Some item of the tree, or the group itself, has the identifier.
    pub open spec fn carries(self, id: ItemId) -> bool
        decreases self,
    {
        self.id == id || self.carries_from(id, 0)
    }

    /// Some item from index `i` on, or inside it, has the identifier.
    pub open spec fn carries_from(self, id: ItemId, i: int) -> bool
        decreases self, self.list@.len() - i,
    {
        if i < 0 || i >= self.list@.len() {
            false
        } else {
            let here = match self.list@[i] {
                ConstructorItem::Song(_, sid) => sid == id,
                ConstructorItem::Operation(op) => op.carries(id),
            };
            here || self.carries_from(id, i + 1)
        }
    }
}

/// The search from index `i` finds a path exactly when an item from there
/// on carries the identifier.
proof fn lemma_find_from_iff_carries(c: SongOpConstructor, id: ItemId, i: int)
    requires
        i >= 0,
    ensures
        c.find_from(id, i) is Some <==> c.carries_from(id, i),
    decreases c, c.list@.len() - i,
{
    if i < c.list@.len() {
        if let ConstructorItem::Operation(op) = c.list@[i] {
            lemma_find_from_iff_carries(op, id, 0);
            assert(op.carries(id) == (op.id == id || op.carries_from(id, 0)));
        }
        lemma_find_from_iff_carries(c, id, i + 1);
    }
}

/// Looking for an identifier finds no path exactly when no item of the
/// tree, nor the tree itself, carries it.
pub proof fn law_path_to_id_finds_carried_ids(c: SongOpConstructor, id: ItemId)
    ensures
        c.spec_path_to_id(id) is None <==> !c.carries(id),
{
    lemma_find_from_iff_carries(c, id, 0);
}

/// The operation built from a tree plays its songs in the order in which
/// the tree lists them: the same sequence of keys, groups expanded in
/// place.
pub proof fn law_build_keeps_song_order(c: SongOpConstructor, op: RecursiveSongOp)
    requires
        c.builds(op),
    ensures
        op.songs() == c.song_keys(),
    decreases c,
{
    lemma_build_keeps_song_order_from(c, op, 0);
    assert(!(op is SinglePlay));
}

proof fn lemma_build_keeps_song_order_from(c: SongOpConstructor, op: RecursiveSongOp, i: int)
    requires
        c.builds(op),
        i >= 0,
    ensures
        op.songs_from(i) == c.keys_from(i),
    decreases c, c.list@.len() - i,
{
    if i < c.list@.len() {
        match c.list@[i] {
            ConstructorItem::Song(k, _) => {
                assert(op.kids()[i] == RecursiveSongOp::SinglePlay(k));
                assert(op.kids()[i].songs() == seq![k]);
            },
            ConstructorItem::Operation(g) => {
                assert(g.builds(op.kids()[i]));
                law_build_keeps_song_order(g, op.kids()[i]);
            },
        }
        lemma_build_keeps_song_order_from(c, op, i + 1);
        assert(op.songs_from(i) == op.kids()[i].songs() + op.songs_from(i + 1));
    }
}

/// The message `inner` sent down a path of groups: each group on the way
/// passes it to its item at the next index.
pub open spec fn sent_along(path: Seq<usize>, inner: SongOpMessage) -> SongOpMessage
    decreases path.len(),
{
    if path.len() == 0 {
        inner
    } else {
        SongOpMessage::ItemMessage(
            path[0],
            CItemMessage::Operation(Box::new(sent_along(path.drop_first(), inner))),
        )
    }
}

/// A drop on a nested group asks for the drop zones along the way back to
/// that group: when the drop of `b` reaches, along the path `p`, the group
/// that was dropped on, the root's answer asks to look up the zones of `b`
/// with the route `p`, outer index first. (The path leads to that group.)
pub proof fn law_drop_routes_back_to_its_group(
    c: SongOpConstructor,
    p: Seq<usize>,
    b: ItemId,
    new: SongOpConstructor,
    res: UpdateResult,
)
    requires
        c.update_rel(sent_along(p, SongOpMessage::Dropped(b)), new, res),
    ensures
        res matches UpdateResult::Cm(ConstructorCommand::FindZones { original, route }) && original == b
            && route@ == p,
        p.len() > 0 ==> (c.spec_item_at(p) matches Some(ConstructorItem::Operation(_))),
    decreases p.len(),
{
    if p.len() > 0 {
        let idx = p[0];
        let rest = p.drop_first();
        let inner = sent_along(rest, SongOpMessage::Dropped(b));
        assert(sent_along(p, SongOpMessage::Dropped(b)) == SongOpMessage::ItemMessage(
            idx,
            CItemMessage::Operation(Box::new(inner)),
        ));
        assert(!(inner is CloseSelf)) by {
            if rest.len() > 0 {
            }
        }
        let op = c.list@[idx as int]->Operation_0;
        let op2 = new.list@[idx as int]->Operation_0;
        let r = choose|r: UpdateResult| #[trigger] r.routed_as(idx, res) && op.update_rel(inner, op2, r);
        law_drop_routes_back_to_its_group(op, rest, b, op2, r);
        assert(seq![idx] + rest =~= p);
        if rest.len() > 0 {
            assert(op.spec_item_at(rest) matches Some(ConstructorItem::Operation(_)));
        }
    }
}

} // verus!
