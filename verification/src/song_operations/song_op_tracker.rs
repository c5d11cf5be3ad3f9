use vstd::prelude::*;

use std::collections::VecDeque;

use super::recursive_song_op::RecursiveSongOp;
use crate::chance::{gen_index, shuffle, thread_rng};

verus! {

/// Outcome of moving a tracker backwards.
#[derive(Clone, Debug, PartialEq, Eq, Structural)]
pub enum BackResult {
    /// The tracker was already at its start.
    Rewound,
    /// The tracker now points at an earlier song.
    Current,
}

/// Outcome of moving a tracker forwards.
#[derive(Clone, Debug, PartialEq, Eq, Structural)]
pub enum NextResult {
    /// The tracker now points at a later song.
    Current,
    /// The tracker had no further song.
    Ended,
}

/// Playback position within a `RecursiveSongOp` tree: one node per node of
/// the operation, each holding the index of its current child.
#[derive(Debug)]
pub enum SongOpTracker {
    SinglePlay,
    PlayOnce { current: usize, children: Vec<SongOpTracker> },
    LoopNTimes { current: usize, total_loops: usize, children: Vec<SongOpTracker> },
    Stretch { current: usize, length: usize, children: Vec<SongOpTracker> },
    InfiniteLoop { current: usize, children: Vec<SongOpTracker> },
    RandomPlay { current: usize, randomized_indices: Vec<usize>, children: Vec<SongOpTracker> },
    SingleRandom { current: usize, children: Vec<SongOpTracker> },
    InfiniteRandom { current: usize, children: Vec<SongOpTracker> },
}

impl SongOpTracker {
    /// Child trackers (empty for a single song).
    pub open spec fn kids(self) -> Seq<SongOpTracker> {
        match self {
            SongOpTracker::SinglePlay => Seq::empty(),
            SongOpTracker::PlayOnce { children, .. } => children@,
            SongOpTracker::LoopNTimes { children, .. } => children@,
            SongOpTracker::Stretch { children, .. } => children@,
            SongOpTracker::InfiniteLoop { children, .. } => children@,
            SongOpTracker::RandomPlay { children, .. } => children@,
            SongOpTracker::SingleRandom { children, .. } => children@,
            SongOpTracker::InfiniteRandom { children, .. } => children@,
        }
    }

    /// The `current` counter of a node (0 for a single song).
    pub open spec fn cur(self) -> int {
        match self {
            SongOpTracker::SinglePlay => 0,
            SongOpTracker::PlayOnce { current, .. } => current as int,
            SongOpTracker::LoopNTimes { current, .. } => current as int,
            SongOpTracker::Stretch { current, .. } => current as int,
            SongOpTracker::InfiniteLoop { current, .. } => current as int,
            SongOpTracker::RandomPlay { current, .. } => current as int,
            SongOpTracker::SingleRandom { current, .. } => current as int,
            SongOpTracker::InfiniteRandom { current, .. } => current as int,
        }
    }

    /// The play order of a random play node (empty elsewhere).
    pub open spec fn order(self) -> Seq<usize> {
        match self {
            SongOpTracker::RandomPlay { randomized_indices, .. } => randomized_indices@,
            _ => Seq::empty(),
        }
    }

    /// Index of the child that the counter of the node points at.
    pub open spec fn sel(self) -> int {
        match self {
            SongOpTracker::LoopNTimes { current, children, .. } => (current as int) % (children@.len() as int),
            SongOpTracker::Stretch { current, length, .. } => (current as int) / (length as int),
            SongOpTracker::RandomPlay { current, randomized_indices, .. } => randomized_indices@[current as int] as int,
            _ => self.cur(),
        }
    }

    /// Same kind of node with the same loop count or stretch length.
    pub open spec fn same_kind(self, other: SongOpTracker) -> bool {
        match (self, other) {
            (SongOpTracker::SinglePlay, SongOpTracker::SinglePlay) => true,
            (SongOpTracker::PlayOnce { .. }, SongOpTracker::PlayOnce { .. }) => true,
            (SongOpTracker::LoopNTimes { total_loops: a, .. }, SongOpTracker::LoopNTimes { total_loops: b, .. }) => a == b,
            (SongOpTracker::Stretch { length: a, .. }, SongOpTracker::Stretch { length: b, .. }) => a == b,
            (SongOpTracker::InfiniteLoop { .. }, SongOpTracker::InfiniteLoop { .. }) => true,
            (SongOpTracker::RandomPlay { .. }, SongOpTracker::RandomPlay { .. }) => true,
            (SongOpTracker::SingleRandom { .. }, SongOpTracker::SingleRandom { .. }) => true,
            (SongOpTracker::InfiniteRandom { .. }, SongOpTracker::InfiniteRandom { .. }) => true,
            _ => false,
        }
    }

    /// `new` is `self` with the counter, play order and children replaced.
    pub open spec fn becomes(self, new: SongOpTracker, cur: int, order: Seq<usize>, kids: Seq<SongOpTracker>) -> bool {
        &&& self.same_kind(new)
        &&& new.cur() == cur
        &&& new.order() == order
        &&& new.kids() == kids
    }

    /// Counter value that `to_end` gives a node: the last position of its
    /// sequence (a random choice keeps its choice).
    pub open spec fn end_cur(self) -> int {
        let len = self.kids().len() as int;
        match self {
            SongOpTracker::LoopNTimes { total_loops, .. } => total_loops * len - 1,
            SongOpTracker::Stretch { length, .. } => length * len - 1,
            SongOpTracker::RandomPlay { randomized_indices, .. } => randomized_indices@.len() - 1,
            SongOpTracker::SingleRandom { current, .. } | SongOpTracker::InfiniteRandom { current, .. } => current as int,
            _ => len - 1,
        }
    }

    /// Index of the child that `to_end` moves to its end: the last child
    /// of a list, the last of a random play order, the chosen child of a
    /// random choice.
    pub open spec fn end_child(self) -> int {
        match self {
            SongOpTracker::RandomPlay { randomized_indices, .. } => randomized_indices@.last() as int,
            SongOpTracker::SingleRandom { current, .. } | SongOpTracker::InfiniteRandom { current, .. } => current as int,
            _ => self.kids().len() - 1,
        }
    }

    /// `to_end` does not panic: the children that it moves to their end
    /// exist all the way down and its arithmetic stays within `usize`.
    pub open spec fn end_ok(self) -> bool
        decreases self,
    {
        let kids = self.kids();
        let j = self.end_child();
        match self {
            SongOpTracker::SinglePlay => true,
            _ => {
                &&& (self matches SongOpTracker::LoopNTimes { total_loops, .. } ==> 1 <= total_loops * kids.len()
                    <= usize::MAX)
                &&& (self matches SongOpTracker::Stretch { length, .. } ==> 1 <= length * kids.len() <= usize::MAX)
                &&& (self matches SongOpTracker::RandomPlay { randomized_indices, .. } ==> randomized_indices@.len()
                    >= 1)
                &&& 0 <= j < kids.len()
                &&& kids[j].end_ok()
            },
        }
    }

    /// What `to_end` makes of a tracker: every node on the way moves its
    /// counter to the last position of its sequence and moves the child
    /// there to its end.
    pub open spec fn end_rel(self, new: SongOpTracker) -> bool
        decreases self,
    {
        let kids = self.kids();
        let j = self.end_child();
        match self {
            SongOpTracker::SinglePlay => new == self,
            _ => if 0 <= j < kids.len() && new.kids().len() == kids.len() {
                &&& self.becomes(new, self.end_cur(), self.order(), kids.update(j, new.kids()[j]))
                &&& kids[j].end_rel(new.kids()[j])
            } else {
                false
            },
        }
    }

    /// The counter of the node points at one of its children.
    pub open spec fn sel_ok(self) -> bool {
        let len = self.kids().len();
        match self {
            SongOpTracker::SinglePlay => false,
            SongOpTracker::LoopNTimes { .. } => len > 0,
            SongOpTracker::Stretch { current, length, .. } => length > 0 && (current as int) / (length as int) < len,
            SongOpTracker::RandomPlay { current, randomized_indices, .. } => current < randomized_indices@.len()
                && randomized_indices@[current as int] < len,
            _ => self.cur() < len,
        }
    }

    /// Every counter on the way from the root to the current song points
    /// at a child, so that the current song can be found.
    pub open spec fn path_ok(self) -> bool
        decreases self,
    {
        match self {
            SongOpTracker::SinglePlay => true,
            _ => self.sel_ok() && 0 <= self.sel() < self.kids().len() && self.kids()[self.sel()].path_ok(),
        }
    }

    /// The indexes that lead from the root to the current song.
    pub open spec fn spec_path(self) -> Seq<usize>
        decreases self,
    {
        match self {
            SongOpTracker::SinglePlay => Seq::empty(),
            _ => if 0 <= self.sel() < self.kids().len() {
                seq![self.sel() as usize] + self.kids()[self.sel()].spec_path()
            } else {
                Seq::empty()
            },
        }
    }

    /// The index of the child that the counter points at, when it points at
    /// one.
    pub fn selected(&self) -> (r: Option<usize>)
        ensures
            r matches Some(j) ==> self.sel_ok() && j == self.sel() && j < self.kids().len(),
            r is None ==> !(self.sel_ok() && 0 <= self.sel() < self.kids().len()),
    {
        let (idx, len) = match self {
            SongOpTracker::SinglePlay => {
                return None;
            },
            SongOpTracker::PlayOnce { current, children } => (*current, children.len()),
            SongOpTracker::LoopNTimes { current, children, .. } => {
                if children.len() == 0 {
                    return None;
                }
                (*current % children.len(), children.len())
            },
            SongOpTracker::Stretch { current, length, children } => {
                if *length == 0 {
                    return None;
                }
                (*current / *length, children.len())
            },
            SongOpTracker::InfiniteLoop { current, children } => (*current, children.len()),
            SongOpTracker::RandomPlay { current, randomized_indices, children } => {
                if *current >= randomized_indices.len() {
                    return None;
                }
                (randomized_indices[*current], children.len())
            },
            SongOpTracker::SingleRandom { current, children } => (*current, children.len()),
            SongOpTracker::InfiniteRandom { current, children } => (*current, children.len()),
        };
        if idx < len {
            Some(idx)
        } else {
            None
        }
    }

    /// Checks that `to_start` would not panic.
    pub fn can_start(&self) -> (r: bool)
        ensures
            r == self.start_ok(),
        decreases self,
    {
        match self {
            SongOpTracker::InfiniteLoop { children, .. } => children.len() > 0 && children[0].can_start(),
            SongOpTracker::RandomPlay { randomized_indices, children, .. } => {
                if randomized_indices.len() == 0 {
                    return false;
                }
                let mut k: usize = 0;
                while k < randomized_indices.len()
                    invariant
                        k <= randomized_indices@.len(),
                        self is RandomPlay,
                        self.kids() == children@,
                        self.order() == randomized_indices@,
                        forall|q: int| 0 <= q < k ==> {
                            &&& #[trigger] randomized_indices@[q] < children@.len()
                            &&& children@[randomized_indices@[q] as int].start_ok()
                        },
                    decreases randomized_indices@.len() - k,
                {
                    let j = randomized_indices[k];
                    if j >= children.len() || !children[j].can_start() {
                        assert(self.order()[k as int] == j);
                        return false;
                    }
                    k = k + 1;
                }
                true
            },
            SongOpTracker::SingleRandom { children, .. } | SongOpTracker::InfiniteRandom { children, .. } => {
                if children.len() == 0 {
                    return false;
                }
                let mut i: usize = 0;
                while i < children.len()
                    invariant
                        i <= children@.len(),
                        self is SingleRandom || self is InfiniteRandom,
                        self.kids() == children@,
                        forall|q: int| 0 <= q < i ==> (#[trigger] children@[q]).start_ok(),
                    decreases children@.len() - i,
                {
                    if !children[i].can_start() {
                        assert(!self.kids()[i as int].start_ok());
                        return false;
                    }
                    i = i + 1;
                }
                true
            },
            SongOpTracker::PlayOnce { children, .. }
            | SongOpTracker::LoopNTimes { children, .. }
            | SongOpTracker::Stretch { children, .. } => children.len() == 0 || children[0].can_start(),
            SongOpTracker::SinglePlay => true,
        }
    }

    /// What `move_next` would return.
    pub fn next_outcome(&self) -> (r: NextResult)
        requires
            self.next_ok(),
        ensures
            r == self.next_result(),
        decreases self,
    {
        match self {
            SongOpTracker::SinglePlay => NextResult::Ended,
            SongOpTracker::InfiniteLoop { .. } | SongOpTracker::InfiniteRandom { .. } => NextResult::Current,
            SongOpTracker::SingleRandom { current, children } => children[*current].next_outcome(),
            _ => {
                let j = match self.selected() {
                    Some(j) => j,
                    None => {
                        return NextResult::Ended;
                    },
                };
                let child = match self {
                    SongOpTracker::PlayOnce { children, .. } => &children[j],
                    SongOpTracker::LoopNTimes { children, .. } => &children[j],
                    SongOpTracker::Stretch { children, .. } => &children[j],
                    SongOpTracker::RandomPlay { children, .. } => &children[j],
                    _ => {
                        return NextResult::Ended;
                    },
                };
                if child.next_outcome() == NextResult::Current {
                    NextResult::Current
                } else if self.at_last_position() {
                    NextResult::Ended
                } else {
                    NextResult::Current
                }
            },
        }
    }

    /// The child tracker at index `j`.
    fn child(&self, j: usize) -> (c: &SongOpTracker)
        requires
            j < self.kids().len(),
        ensures
            *c == self.kids()[j as int],
    {
        match self {
            SongOpTracker::SinglePlay => self,
            SongOpTracker::PlayOnce { children, .. } => &children[j],
            SongOpTracker::LoopNTimes { children, .. } => &children[j],
            SongOpTracker::Stretch { children, .. } => &children[j],
            SongOpTracker::InfiniteLoop { children, .. } => &children[j],
            SongOpTracker::RandomPlay { children, .. } => &children[j],
            SongOpTracker::SingleRandom { children, .. } => &children[j],
            SongOpTracker::InfiniteRandom { children, .. } => &children[j],
        }
    }

    /// Checks that moving on from an ended child would not panic.
    fn can_advance(&self) -> (r: bool)
        requires
            self.sel_ok(),
            0 <= self.sel() < self.kids().len(),
        ensures
            r == self.advance_ok(),
    {
        let last = self.at_last_position();
        match self {
            SongOpTracker::PlayOnce { current, children } => {
                let n = children.len();
                last || (*current + 1 < n && children[*current + 1].can_start())
            },
            SongOpTracker::LoopNTimes { current, total_loops, children } => {
                let total = mul_wide(children.len(), *total_loops);
                if !(1 <= total && total <= usize::MAX as u128) {
                    return false;
                }
                if last {
                    return true;
                }
                if *current == usize::MAX {
                    return false;
                }
                let k = (*current + 1) % children.len();
                children[k].can_start()
            },
            SongOpTracker::Stretch { current, length, children } => {
                let total = mul_wide(children.len(), *length);
                if !(1 <= total && total <= usize::MAX as u128) {
                    return false;
                }
                if last {
                    return true;
                }
                let c = *current + 1;
                let len = children.len();
                let l = *length;
                assert((c as int) < (len as int) * (l as int));
                assert(c / l < len) by (nonlinear_arith)
                    requires
                        (c as int) < (len as int) * (l as int),
                        l > 0,
                ;
                children[c / l].can_start()
            },
            SongOpTracker::RandomPlay { current, randomized_indices, children } => {
                if last {
                    return true;
                }
                let m = randomized_indices.len();
                *current + 1 < m && randomized_indices[*current + 1] < children.len()
                    && children[randomized_indices[*current + 1]].can_start()
            },
            SongOpTracker::InfiniteLoop { current, children } => {
                let n = children.len();
                children[(*current + 1) % n].can_start()
            },
            SongOpTracker::InfiniteRandom { children, .. } => {
                let mut i: usize = 0;
                while i < children.len()
                    invariant
                        i <= children@.len(),
                        self is InfiniteRandom,
                        self.kids() == children@,
                        forall|q: int| 0 <= q < i ==> (#[trigger] children@[q]).start_ok(),
                    decreases children@.len() - i,
                {
                    if !children[i].can_start() {
                        assert(!self.kids()[i as int].start_ok());
                        return false;
                    }
                    i = i + 1;
                }
                true
            },
            _ => true,
        }
    }

    /// Checks that `move_next` would not panic.
    pub fn can_move_next(&self) -> (r: bool)
        ensures
            r == self.next_ok(),
        decreases self,
    {
        if let SongOpTracker::SinglePlay = self {
            return true;
        }
        let j = match self.selected() {
            Some(j) => j,
            None => {
                return false;
            },
        };
        let c = self.child(j);
        if !c.can_move_next() {
            return false;
        }
        if c.next_outcome() == NextResult::Ended {
            self.can_advance()
        } else {
            true
        }
    }

    /// Whether the counter stands on the last position of a finite list
    /// operation.
    fn at_last_position(&self) -> (r: bool)
        ensures
            r == self.last_pos(),
    {
        match self {
            SongOpTracker::PlayOnce { current, children } => children.len() > 0 && *current == children.len() - 1,
            SongOpTracker::LoopNTimes { current, total_loops, children } => {
                let total = mul_wide(children.len(), *total_loops);
                total > 0 && (*current as u128) == total - 1
            },
            SongOpTracker::Stretch { current, length, children } => {
                let total = mul_wide(children.len(), *length);
                total == 0 || (*current as u128) >= total - 1
            },
            SongOpTracker::RandomPlay { current, children, .. } => *current >= children.len() || *current + 1
                >= children.len(),
            _ => false,
        }
    }

    /// Checks that the current song can be found (`get_current` would not
    /// panic).
    pub fn has_current(&self) -> (r: bool)
        ensures
            r == self.path_ok(),
        decreases self,
    {
        let (idx, children) = match self {
            SongOpTracker::SinglePlay => {
                return true;
            },
            SongOpTracker::PlayOnce { current, children } => (*current, children),
            SongOpTracker::LoopNTimes { current, children, .. } => {
                if children.len() == 0 {
                    return false;
                }
                (*current % children.len(), children)
            },
            SongOpTracker::Stretch { current, length, children } => {
                if *length == 0 {
                    return false;
                }
                (*current / *length, children)
            },
            SongOpTracker::InfiniteLoop { current, children } => (*current, children),
            SongOpTracker::RandomPlay { current, randomized_indices, children } => {
                if *current >= randomized_indices.len() {
                    return false;
                }
                (randomized_indices[*current], children)
            },
            SongOpTracker::SingleRandom { current, children } => (*current, children),
            SongOpTracker::InfiniteRandom { current, children } => (*current, children),
        };
        if idx >= children.len() {
            return false;
        }
        children[idx].has_current()
    }

    /// Returns the tree of indexes that leads to the current song.
    pub fn get_current(&self) -> (r: Vec<usize>)
        requires
            self.path_ok(),
        ensures
            r@ == self.spec_path(),
        decreases self,
    {
        let (idx, child) = match self {
            SongOpTracker::SinglePlay => {
                return Vec::new();
            },
            SongOpTracker::PlayOnce { current, children } => (*current, &children[*current]),
            SongOpTracker::LoopNTimes { current, children, .. } => {
                let i = *current % children.len();
                (i, &children[i])
            },
            SongOpTracker::Stretch { current, length, children } => {
                let i = *current / *length;
                (i, &children[i])
            },
            SongOpTracker::InfiniteLoop { current, children } => (*current, &children[*current]),
            SongOpTracker::RandomPlay { current, randomized_indices, children } => {
                let i = randomized_indices[*current];
                (i, &children[i])
            },
            SongOpTracker::SingleRandom { current, children } => (*current, &children[*current]),
            SongOpTracker::InfiniteRandom { current, children } => (*current, &children[*current]),
        };
        let mut rest = child.get_current();
        let mut path = Vec::new();
        path.push(idx);
        path.append(&mut rest);
        path
    }

    /// `to_start` does not panic: the children that it may start exist.
    /// Random nodes may start any of their children, so all of them must
    /// be startable.
    pub open spec fn start_ok(self) -> bool
        decreases self,
    {
        let kids = self.kids();
        match self {
            SongOpTracker::SinglePlay => true,
            SongOpTracker::InfiniteLoop { .. } => kids.len() > 0 && kids[0].start_ok(),
            SongOpTracker::RandomPlay { randomized_indices, .. } => {
                &&& randomized_indices@.len() > 0
                &&& forall|k: int| 0 <= k < randomized_indices@.len() ==> {
                    &&& #[trigger] randomized_indices@[k] < kids.len()
                    &&& kids[randomized_indices@[k] as int].start_ok()
                }
            },
            SongOpTracker::SingleRandom { .. } | SongOpTracker::InfiniteRandom { .. } => {
                &&& kids.len() > 0
                &&& forall|i: int| 0 <= i < kids.len() ==> (#[trigger] kids[i]).start_ok()
            },
            _ => kids.len() > 0 ==> kids[0].start_ok(),
        }
    }

    /// What `to_start` makes of a tracker: list counters go back to 0 and
    /// restart their first child, a random play reshuffles its order and
    /// starts the new first child, and a random choice starts a freshly
    /// chosen child.
    pub open spec fn start_rel(self, new: SongOpTracker) -> bool
        decreases self,
    {
        let kids = self.kids();
        match self {
            SongOpTracker::SinglePlay => new == self,
            SongOpTracker::PlayOnce { .. }
            | SongOpTracker::LoopNTimes { .. }
            | SongOpTracker::Stretch { .. }
            | SongOpTracker::InfiniteLoop { .. } => {
                if kids.len() == 0 && !(self is InfiniteLoop) {
                    self.becomes(new, 0, self.order(), kids)
                } else if kids.len() > 0 && new.kids().len() == kids.len() {
                    &&& self.becomes(new, 0, self.order(), kids.update(0, new.kids()[0]))
                    &&& kids[0].start_rel(new.kids()[0])
                } else {
                    false
                }
            },
            SongOpTracker::RandomPlay { .. } => {
                let o = new.order();
                if o.len() > 0 && 0 <= o[0] < kids.len() && new.kids().len() == kids.len() {
                    &&& o.to_multiset() == self.order().to_multiset()
                    &&& self.becomes(new, 0, o, kids.update(o[0] as int, new.kids()[o[0] as int]))
                    &&& kids[o[0] as int].start_rel(new.kids()[o[0] as int])
                } else {
                    false
                }
            },
            SongOpTracker::SingleRandom { .. } | SongOpTracker::InfiniteRandom { .. } => {
                let j = new.cur();
                if 0 <= j < kids.len() && new.kids().len() == kids.len() {
                    &&& self.becomes(new, j, self.order(), kids.update(j, new.kids()[j]))
                    &&& kids[j].start_rel(new.kids()[j])
                } else {
                    false
                }
            },
        }
    }

    /// Moves the tracker to the start of its sequence.
    pub fn to_start(&mut self)
        requires
            old(self).start_ok(),
        ensures
            old(self).start_rel(*final(self)),
        decreases *old(self),
    {
        match self {
            SongOpTracker::SinglePlay => {},
            SongOpTracker::PlayOnce { current, children } => {
                *current = 0;
                if children.len() > 0 {
                    children[0].to_start();
                }
            },
            SongOpTracker::LoopNTimes { current, children, .. } => {
                *current = 0;
                if children.len() > 0 {
                    children[0].to_start();
                }
            },
            SongOpTracker::Stretch { current, children, .. } => {
                *current = 0;
                if children.len() > 0 {
                    children[0].to_start();
                }
            },
            SongOpTracker::InfiniteLoop { current, children } => {
                *current = 0;
                children[0].to_start();
            },
            SongOpTracker::RandomPlay { current, randomized_indices, children } => {
                *current = 0;
                let ghost before = randomized_indices@;
                let mut rng = thread_rng();
                shuffle(&mut rng, randomized_indices);
                proof {
                    let o = randomized_indices@;
                    assert(o.to_multiset().contains(o[0])) by {
                        broadcast use vstd::seq_lib::group_to_multiset_ensures;
                    }
                    assert(before.contains(o[0])) by {
                        broadcast use vstd::seq_lib::group_to_multiset_ensures;
                    }
                }
                let j = randomized_indices[0];
                children[j].to_start();
            },
            SongOpTracker::SingleRandom { current, children } => {
                let mut rng = thread_rng();
                *current = gen_index(&mut rng, children.len());
                children[*current].to_start();
            },
            SongOpTracker::InfiniteRandom { current, children } => {
                let mut rng = thread_rng();
                *current = gen_index(&mut rng, children.len());
                children[*current].to_start();
            },
        }
    }

    /// Index of the child that counter value `c` points at.
    pub open spec fn sel_at(self, c: int) -> int {
        match self {
            SongOpTracker::LoopNTimes { children, .. } => c % (children@.len() as int),
            SongOpTracker::Stretch { length, .. } => c / (length as int),
            SongOpTracker::RandomPlay { randomized_indices, .. } => randomized_indices@[c] as int,
            _ => c,
        }
    }

    /// The counter stands on the last position of a finite list operation,
    /// so that the node ends when its current child ends.
    pub open spec fn last_pos(self) -> bool {
        let len = self.kids().len();
        match self {
            SongOpTracker::PlayOnce { current, .. } => current == len - 1,
            SongOpTracker::LoopNTimes { current, total_loops, .. } => current == len * total_loops - 1,
            SongOpTracker::Stretch { current, length, .. } => current >= len * length - 1,
            SongOpTracker::RandomPlay { current, .. } => current + 1 >= len,
            _ => false,
        }
    }

    /// The counter value after moving on from an ended child (for the
    /// nodes whose next position is not random).
    pub open spec fn next_cur(self) -> int {
        match self {
            SongOpTracker::InfiniteLoop { current, children } => (current + 1) % (children@.len() as int),
            _ => self.cur() + 1,
        }
    }

    /// What `move_next` returns: a song ends at once, infinite nodes go on
    /// forever, a random choice ends with its chosen child, and a list
    /// operation ends when its current child ends on its last position.
    pub open spec fn next_result(self) -> NextResult
        decreases self,
    {
        let kids = self.kids();
        let j = self.sel();
        match self {
            SongOpTracker::SinglePlay => NextResult::Ended,
            SongOpTracker::InfiniteLoop { .. } | SongOpTracker::InfiniteRandom { .. } => NextResult::Current,
            SongOpTracker::SingleRandom { .. } => if 0 <= j < kids.len() {
                kids[j].next_result()
            } else {
                NextResult::Ended
            },
            _ => if 0 <= j < kids.len() && kids[j].next_result() == NextResult::Current {
                NextResult::Current
            } else if self.last_pos() {
                NextResult::Ended
            } else {
                NextResult::Current
            },
        }
    }

    /// Moving on from an ended child does not panic: the arithmetic stays
    /// within `usize` and the child moved to can be started.
    pub open spec fn advance_ok(self) -> bool {
        let kids = self.kids();
        let len = kids.len();
        match self {
            SongOpTracker::PlayOnce { current, .. } => !self.last_pos() ==> (current + 1 < len
                && kids[current + 1].start_ok()),
            SongOpTracker::LoopNTimes { current, total_loops, .. } => {
                &&& 1 <= len * total_loops <= usize::MAX
                &&& !self.last_pos() ==> (current + 1 <= usize::MAX && kids[self.sel_at(current + 1)].start_ok())
            },
            SongOpTracker::Stretch { current, length, .. } => {
                &&& 1 <= len * length <= usize::MAX
                &&& !self.last_pos() ==> kids[self.sel_at(current + 1)].start_ok()
            },
            SongOpTracker::RandomPlay { current, randomized_indices, .. } => !self.last_pos() ==> (current
                + 1 < randomized_indices@.len() && randomized_indices@[current + 1] < len
                && kids[self.sel_at(current + 1)].start_ok()),
            SongOpTracker::InfiniteLoop { .. } => kids[self.next_cur()].start_ok(),
            SongOpTracker::InfiniteRandom { .. } => forall|i: int| 0 <= i < len ==> (#[trigger] kids[i]).start_ok(),
            _ => true,
        }
    }

    /// `move_next` does not panic.
    pub open spec fn next_ok(self) -> bool
        decreases self,
    {
        match self {
            SongOpTracker::SinglePlay => true,
            _ => {
                &&& self.sel_ok()
                &&& 0 <= self.sel() < self.kids().len()
                &&& self.kids()[self.sel()].next_ok()
                &&& self.kids()[self.sel()].next_result() == NextResult::Ended ==> self.advance_ok()
            },
        }
    }

    /// The node's part of `move_next`, once its current child has become `m`:
    /// it stays put unless that child ended and the node goes on, in which
    /// case its counter moves on (to a random child for an infinite random
    /// node) and the child it now points at is started.
    pub open spec fn after_next(self, new: SongOpTracker, m: SongOpTracker) -> bool {
        let kids = self.kids().update(self.sel(), m);
        if self.kids()[self.sel()].next_result() == NextResult::Current || self is SingleRandom
            || self.last_pos() {
            self.becomes(new, self.cur(), self.order(), kids)
        } else {
            let c = if self is InfiniteRandom {
                new.cur()
            } else {
                self.next_cur()
            };
            let j = self.sel_at(c);
            &&& 0 <= j < kids.len()
            &&& new.kids().len() == kids.len()
            &&& self.becomes(new, c, self.order(), kids.update(j, new.kids()[j]))
            &&& kids[j].start_rel(new.kids()[j])
        }
    }

    /// What `move_next` makes of a tracker: the current child moves on,
    /// and the node reacts as `after_next` says.
    pub open spec fn next_rel(self, new: SongOpTracker) -> bool
        decreases self,
    {
        let kids = self.kids();
        let j = self.sel();
        match self {
            SongOpTracker::SinglePlay => new == self,
            _ => if 0 <= j < kids.len() {
                exists|m: SongOpTracker| kids[j].next_rel(m) && #[trigger] self.after_next(new, m)
            } else {
                false
            },
        }
    }

    /// Moves the tracker to the next song.
    pub fn move_next(&mut self) -> (r: NextResult)
        requires
            old(self).next_ok(),
        ensures
            r == old(self).next_result(),
            old(self).next_rel(*final(self)),
        decreases *old(self),
    {
        if let SongOpTracker::SinglePlay = self {
            return NextResult::Ended;
        }
        let ghost old_self = *self;
        match self {
            SongOpTracker::SinglePlay => NextResult::Ended,
            SongOpTracker::PlayOnce { current, children } => {
                let j = *current;
                assert(j == old_self.cur() && j < children@.len());
                let r = children[j].move_next();
                let ghost m = children@[j as int];
                let res = match r {
                    NextResult::Current => NextResult::Current,
                    NextResult::Ended => {
                        if *current == children.len() - 1 {
                            NextResult::Ended
                        } else {
                            *current += 1;
                            children[*current].to_start();
                            NextResult::Current
                        }
                    },
                };
                assert(old_self.after_next(*final(self), m));
                res
            },
            SongOpTracker::LoopNTimes { current, total_loops, children } => {
                let length = children.len();
                assert(*current == old_self.cur() && length > 0);
                let j = *current % length;
                let r = children[j].move_next();
                let ghost m = children@[j as int];
                let res = match r {
                    NextResult::Current => NextResult::Current,
                    NextResult::Ended => {
                        if *current == (length * *total_loops - 1) {
                            NextResult::Ended
                        } else {
                            *current += 1;
                            proof {
                                if *current % length == j {
                                    lemma_next_keeps_shape(old_self.kids()[j as int], m);
                                    lemma_shape_keeps_start_ok(old_self.kids()[j as int], m);
                                }
                            }
                            children[*current % length].to_start();
                            NextResult::Current
                        }
                    },
                };
                assert(old_self.after_next(*final(self), m));
                res
            },
            SongOpTracker::Stretch { current, length, children } => {
                assert(*current == old_self.cur() && *length > 0);
                let j = *current / *length;
                let r = children[j].move_next();
                let ghost m = children@[j as int];
                let res = match r {
                    NextResult::Current => NextResult::Current,
                    NextResult::Ended => {
                        if *current >= children.len() * *length - 1 {
                            NextResult::Ended
                        } else {
                            *current += 1;
                            proof {
                                if *current / *length == j {
                                    lemma_next_keeps_shape(old_self.kids()[j as int], m);
                                    lemma_shape_keeps_start_ok(old_self.kids()[j as int], m);
                                }
                                assert((*current as int) / (*length as int) < children@.len()) by (nonlinear_arith)
                                    requires
                                        *current < children@.len() * *length,
                                        *length > 0,
                                ;
                            }
                            children[*current / *length].to_start();
                            NextResult::Current
                        }
                    },
                };
                assert(old_self.after_next(*final(self), m));
                res
            },
            SongOpTracker::InfiniteLoop { current, children } => {
                let j = *current;
                let n = children.len();
                assert(j == old_self.cur() && j < n);
                let r = children[j].move_next();
                let ghost m = children@[j as int];
                let res = match r {
                    NextResult::Current => NextResult::Current,
                    NextResult::Ended => {
                        *current = (j + 1) % n;
                        proof {
                            if *current == j {
                                lemma_next_keeps_shape(old_self.kids()[j as int], m);
                                lemma_shape_keeps_start_ok(old_self.kids()[j as int], m);
                            }
                        }
                        children[*current].to_start();
                        NextResult::Current
                    },
                };
                assert(old_self.after_next(*final(self), m));
                res
            },
            SongOpTracker::RandomPlay { current, randomized_indices, children } => {
                let c = *current;
                let order_len = randomized_indices.len();
                assert(c == old_self.cur() && c < order_len);
                let j = randomized_indices[c];
                let r = children[j].move_next();
                let ghost m = children@[j as int];
                let res = match r {
                    NextResult::Current => NextResult::Current,
                    NextResult::Ended => {
                        if c + 1 >= children.len() {
                            NextResult::Ended
                        } else {
                            *current = c + 1;
                            proof {
                                if randomized_indices@[*current as int] == j {
                                    lemma_next_keeps_shape(old_self.kids()[j as int], m);
                                    lemma_shape_keeps_start_ok(old_self.kids()[j as int], m);
                                }
                            }
                            let k = randomized_indices[*current];
                            children[k].to_start();
                            NextResult::Current
                        }
                    },
                };
                assert(old_self.after_next(*final(self), m));
                res
            },
            SongOpTracker::SingleRandom { current, children } => {
                let j = *current;
                assert(j == old_self.cur() && j < children@.len());
                let r = children[j].move_next();
                let ghost m = children@[j as int];
                assert(old_self.after_next(*final(self), m));
                r
            },
            SongOpTracker::InfiniteRandom { current, children } => {
                let j = *current;
                assert(j == old_self.cur() && j < children@.len());
                let r = children[j].move_next();
                let ghost m = children@[j as int];
                let res = match r {
                    NextResult::Ended => {
                        let mut rng = thread_rng();
                        *current = gen_index(&mut rng, children.len());
                        proof {
                            if *current == j {
                                lemma_next_keeps_shape(old_self.kids()[j as int], m);
                                lemma_shape_keeps_start_ok(old_self.kids()[j as int], m);
                            }
                        }
                        children[*current].to_start();
                        NextResult::Current
                    },
                    NextResult::Current => NextResult::Current,
                };
                assert(old_self.after_next(*final(self), m));
                res
            },
        }
    }

    /// What `move_back` returns: a song is rewound at once, random nodes
    /// pass on what their chosen child says, and a list operation is
    /// rewound when its current child is rewound on its first position.
    pub open spec fn back_result(self) -> BackResult
        decreases self,
    {
        let kids = self.kids();
        let j = self.sel();
        if self is SinglePlay || !(0 <= j < kids.len()) {
            BackResult::Rewound
        } else if self is SingleRandom || self is InfiniteRandom {
            kids[j].back_result()
        } else if kids[j].back_result() == BackResult::Current {
            BackResult::Current
        } else if self.cur() == 0 {
            BackResult::Rewound
        } else {
            BackResult::Current
        }
    }

    /// Whether the node itself steps back once its current child has been
    /// rewound: a list operation steps back from any position but its
    /// first, a single random choice always picks anew, an infinite random
    /// node never does.
    pub open spec fn steps_back(self) -> bool {
        let kids = self.kids();
        let j = self.sel();
        &&& !(self is SinglePlay || self is InfiniteRandom)
        &&& kids[j].back_result() == BackResult::Rewound
        &&& (self is SingleRandom || self.cur() > 0)
    }

    /// Stepping back does not panic: the child stepped back to exists and
    /// can be moved to its end, whatever the current child became.
    pub open spec fn retreat_ok(self) -> bool {
        let kids = self.kids();
        let j = self.sel();
        if self is SingleRandom {
            &&& forall|i: int| 0 <= i < kids.len() && i != j ==> (#[trigger] kids[i]).end_ok()
            &&& forall|m: SongOpTracker| #[trigger] kids[j].back_rel(m) ==> m.end_ok()
        } else {
            let k = self.sel_at(self.cur() - 1);
            &&& (self is RandomPlay ==> self.order()[self.cur() - 1] < kids.len())
            &&& 0 <= k < kids.len()
            &&& k != j ==> kids[k].end_ok()
            &&& k == j ==> forall|m: SongOpTracker| #[trigger] kids[j].back_rel(m) ==> m.end_ok()
        }
    }

    /// `move_back` does not panic.
    pub open spec fn back_ok(self) -> bool
        decreases self,
    {
        match self {
            SongOpTracker::SinglePlay => true,
            _ => {
                &&& self.sel_ok()
                &&& 0 <= self.sel() < self.kids().len()
                &&& self.kids()[self.sel()].back_ok()
                &&& self.steps_back() ==> self.retreat_ok()
            },
        }
    }

    /// The node's part of `move_back`, once its current child has become
    /// `m`: when it steps back, its counter moves one position back (or to
    /// a random child for a single random choice) and the child it now
    /// points at is moved to its end.
    pub open spec fn after_back(self, new: SongOpTracker, m: SongOpTracker) -> bool {
        let kids = self.kids().update(self.sel(), m);
        if !self.steps_back() {
            self.becomes(new, self.cur(), self.order(), kids)
        } else {
            let c = if self is SingleRandom {
                new.cur()
            } else {
                self.cur() - 1
            };
            let k = self.sel_at(c);
            &&& 0 <= k < kids.len()
            &&& new.kids().len() == kids.len()
            &&& self.becomes(new, c, self.order(), kids.update(k, new.kids()[k]))
            &&& kids[k].end_rel(new.kids()[k])
        }
    }

    /// What `move_back` makes of a tracker: the current child moves back,
    /// and the node reacts as `after_back` says.
    pub open spec fn back_rel(self, new: SongOpTracker) -> bool
        decreases self,
    {
        let kids = self.kids();
        let j = self.sel();
        match self {
            SongOpTracker::SinglePlay => new == self,
            _ => if 0 <= j < kids.len() {
                exists|m: SongOpTracker| kids[j].back_rel(m) && #[trigger] self.after_back(new, m)
            } else {
                false
            },
        }
    }

    /// Moves the tracker to the previous song.
    pub fn move_back(&mut self) -> (r: BackResult)
        requires
            old(self).back_ok(),
        ensures
            r == old(self).back_result(),
            old(self).back_rel(*final(self)),
        decreases *old(self),
    {
        if let SongOpTracker::SinglePlay = self {
            return BackResult::Rewound;
        }
        let ghost old_self = *self;
        match self {
            SongOpTracker::SinglePlay => BackResult::Rewound,
            SongOpTracker::PlayOnce { current, children } => {
                let j = *current;
                assert(j == old_self.cur() && j < children@.len());
                let r = children[j].move_back();
                let ghost m = children@[j as int];
                let res = match r {
                    BackResult::Rewound => {
                        if *current == 0 {
                            BackResult::Rewound
                        } else {
                            *current -= 1;
                            children[*current].to_end();
                            BackResult::Current
                        }
                    },
                    BackResult::Current => BackResult::Current,
                };
                assert(old_self.after_back(*final(self), m));
                res
            },
            SongOpTracker::LoopNTimes { current, children, .. } => {
                let len = children.len();
                assert(*current == old_self.cur() && len > 0);
                let j = *current % len;
                let r = children[j].move_back();
                let ghost m = children@[j as int];
                let res = match r {
                    BackResult::Rewound => {
                        if *current == 0 {
                            BackResult::Rewound
                        } else {
                            *current -= 1;
                            children[*current % len].to_end();
                            BackResult::Current
                        }
                    },
                    BackResult::Current => BackResult::Current,
                };
                assert(old_self.after_back(*final(self), m));
                res
            },
            SongOpTracker::Stretch { current, length, children } => {
                assert(*current == old_self.cur() && *length > 0);
                let j = *current / *length;
                let r = children[j].move_back();
                let ghost m = children@[j as int];
                let res = match r {
                    BackResult::Rewound => {
                        if *current == 0 {
                            BackResult::Rewound
                        } else {
                            *current -= 1;
                            children[*current / *length].to_end();
                            BackResult::Current
                        }
                    },
                    BackResult::Current => BackResult::Current,
                };
                assert(old_self.after_back(*final(self), m));
                res
            },
            SongOpTracker::InfiniteLoop { current, children } => {
                let j = *current;
                assert(j == old_self.cur() && j < children@.len());
                let r = children[j].move_back();
                let ghost m = children@[j as int];
                let res = match r {
                    BackResult::Rewound => {
                        if *current == 0 {
                            BackResult::Rewound
                        } else {
                            *current -= 1;
                            children[*current].to_end();
                            BackResult::Current
                        }
                    },
                    BackResult::Current => BackResult::Current,
                };
                assert(old_self.after_back(*final(self), m));
                res
            },
            SongOpTracker::RandomPlay { current, randomized_indices, children } => {
                let c = *current;
                assert(c == old_self.cur() && c < randomized_indices@.len());
                let j = randomized_indices[c];
                let r = children[j].move_back();
                let ghost m = children@[j as int];
                let res = match r {
                    BackResult::Rewound => {
                        if c == 0 {
                            BackResult::Rewound
                        } else {
                            *current = c - 1;
                            let k = randomized_indices[*current];
                            children[k].to_end();
                            BackResult::Current
                        }
                    },
                    BackResult::Current => BackResult::Current,
                };
                assert(old_self.after_back(*final(self), m));
                res
            },
            SongOpTracker::SingleRandom { current, children } => {
                let j = *current;
                assert(j == old_self.cur() && j < children@.len());
                let r = children[j].move_back();
                let ghost m = children@[j as int];
                let res = match r {
                    BackResult::Rewound => {
                        // make a new selection
                        let mut rng = thread_rng();
                        *current = gen_index(&mut rng, children.len());
                        children[*current].to_end();
                        BackResult::Rewound
                    },
                    BackResult::Current => BackResult::Current,
                };
                assert(old_self.after_back(*final(self), m));
                res
            },
            SongOpTracker::InfiniteRandom { current, children } => {
                let j = *current;
                assert(j == old_self.cur() && j < children@.len());
                let r = children[j].move_back();
                let ghost m = children@[j as int];
                assert(old_self.after_back(*final(self), m));
                r
            },
        }
    }

    /// `set_current` does not panic: every index of the path but the last
    /// names an existing child.
    pub open spec fn set_ok(self, path: Seq<usize>) -> bool
        decreases self,
    {
        match self {
            SongOpTracker::SinglePlay => true,
            _ => path.len() <= 1 || (path[0] < self.kids().len() && self.kids()[path[0] as int].set_ok(
                path.drop_first(),
            )),
        }
    }

    /// The counter value `c` makes the node point at child `i`: a stretch
    /// counts `length` plays per child (capped at `usize::MAX`), a random
    /// play stands where `i` first occurs in its order (past the order if
    /// `i` is not in it), every other node takes `i` itself.
    pub open spec fn counter_for(self, i: usize, c: int) -> bool {
        match self {
            SongOpTracker::Stretch { length, .. } => c == if i * length <= usize::MAX {
                i * length
            } else {
                usize::MAX as int
            },
            SongOpTracker::RandomPlay { randomized_indices, .. } => first_position(randomized_indices@, i, c),
            _ => c == i,
        }
    }

    /// What `set_current` makes of a tracker: each node on the way sets its
    /// counter to point at the next index of the path, until the path runs
    /// out.
    pub open spec fn set_rel(self, path: Seq<usize>, new: SongOpTracker) -> bool
        decreases self,
    {
        let kids = self.kids();
        if self is SinglePlay || path.len() == 0 {
            new == self
        } else if path.len() == 1 {
            &&& self.becomes(new, new.cur(), self.order(), kids)
            &&& self.counter_for(path[0], new.cur())
        } else {
            let j = path[0] as int;
            if 0 <= j < kids.len() && new.kids().len() == kids.len() {
                &&& self.becomes(new, new.cur(), self.order(), kids.update(j, new.kids()[j]))
                &&& self.counter_for(path[0], new.cur())
                &&& kids[j].set_rel(path.drop_first(), new.kids()[j])
            } else {
                false
            }
        }
    }

    /// Sets the tree of indexes that leads to the current song.
    pub fn set_current(&mut self, indices: VecDeque<usize>)
        requires
            old(self).set_ok(indices@),
        ensures
            old(self).set_rel(indices@, *final(self)),
        decreases *old(self),
    {
        let mut indices = indices;
        let ghost path = indices@;
        let idx = match indices.pop_front() {
            Some(idx) => idx,
            None => {
                return;
            },
        };
        assert(indices@ == path.drop_first());
        let more = indices.len() != 0;
        match self {
            SongOpTracker::SinglePlay => {},
            SongOpTracker::PlayOnce { current, children } => {
                *current = idx;
                if more {
                    children[idx].set_current(indices);
                }
            },
            SongOpTracker::LoopNTimes { current, children, .. } => {
                *current = idx;
                if more {
                    children[idx].set_current(indices);
                }
            },
            SongOpTracker::Stretch { current, length, children } => {
                *current = match idx.checked_mul(*length) {
                    Some(c) => c,
                    None => usize::MAX,
                };
                if more {
                    children[idx].set_current(indices);
                }
            },
            SongOpTracker::InfiniteLoop { current, children } => {
                *current = idx;
                if more {
                    children[idx].set_current(indices);
                }
            },
            SongOpTracker::RandomPlay { current, randomized_indices, children } => {
                *current = position_in(randomized_indices, idx);
                if more {
                    children[idx].set_current(indices);
                }
            },
            SongOpTracker::SingleRandom { current, children } => {
                *current = idx;
                if more {
                    children[idx].set_current(indices);
                }
            },
            SongOpTracker::InfiniteRandom { current, children } => {
                *current = idx;
                if more {
                    children[idx].set_current(indices);
                }
            },
        }
    }

    /// Builds trackers for a list of operations.
    fn map(ops: &Vec<RecursiveSongOp>) -> (r: Vec<SongOpTracker>)
        requires
            forall|i: int| 0 <= i < ops@.len() ==> (#[trigger] ops@[i]).choices_nonempty(),
        ensures
            r@.len() == ops@.len(),
            forall|i: int| 0 <= i < ops@.len() ==> (#[trigger] r@[i]).tracks(ops@[i]),
        decreases ops@,
    {
        let mut r: Vec<SongOpTracker> = Vec::new();
        let mut i: usize = 0;
        while i < ops.len()
            invariant
                i <= ops@.len(),
                r@.len() == i,
                forall|k: int| 0 <= k < ops@.len() ==> (#[trigger] ops@[k]).choices_nonempty(),
                forall|k: int| 0 <= k < i ==> (#[trigger] r@[k]).tracks(ops@[k]),
            decreases ops@.len() - i,
        {
            r.push(Self::from(&ops[i]));
            i = i + 1;
        }
        r
    }

    /// A fresh tracker for an operation: it has the operation's shape, every
    /// counter at 0, random play orders that list each child once, and
    /// random choices pointing at one of their children.
    pub open spec fn tracks(self, op: RecursiveSongOp) -> bool
        decreases op,
    {
        let ops = op.kids();
        &&& match (op, self) {
            (RecursiveSongOp::SinglePlay(_), SongOpTracker::SinglePlay) => true,
            (RecursiveSongOp::PlayOnce(_), SongOpTracker::PlayOnce { current, .. }) => current == 0,
            (RecursiveSongOp::LoopNTimes(_, n), SongOpTracker::LoopNTimes { current, total_loops, .. }) =>
                current == 0 && total_loops == n,
            (RecursiveSongOp::Stretch(_, n), SongOpTracker::Stretch { current, length, .. }) => current == 0
                && length == n,
            (RecursiveSongOp::InfiniteLoop(_), SongOpTracker::InfiniteLoop { current, .. }) => current == 0,
            (RecursiveSongOp::RandomPlay(_), SongOpTracker::RandomPlay { current, randomized_indices, .. }) => {
                &&& current == 0
                &&& randomized_indices@.len() == ops.len()
                &&& randomized_indices@.no_duplicates()
                &&& forall|k: int| 0 <= k < ops.len() ==> #[trigger] randomized_indices@[k] < ops.len()
            },
            (RecursiveSongOp::SingleRandom(_), SongOpTracker::SingleRandom { current, .. }) => current < ops.len(),
            (RecursiveSongOp::InfiniteRandom(_), SongOpTracker::InfiniteRandom { current, .. }) => current
                < ops.len(),
            _ => false,
        }
        &&& self.kids().len() == ops.len()
        &&& forall|i: int| 0 <= i < ops.len() ==> (#[trigger] self.kids()[i]).tracks(ops[i])
    }

    /// Builds a tracker standing at the start of an operation.
    pub fn from(value: &RecursiveSongOp) -> (r: SongOpTracker)
        requires
            value.choices_nonempty(),
        ensures
            r.tracks(*value),
        decreases value,
    {
        assert(forall|i: int| 0 <= i < value.kids().len() ==> (#[trigger] value.kids()[i]).choices_nonempty());
        match value {
            RecursiveSongOp::SinglePlay(_) => SongOpTracker::SinglePlay,
            RecursiveSongOp::PlayOnce(ops) => SongOpTracker::PlayOnce { current: 0, children: Self::map(ops) },
            RecursiveSongOp::LoopNTimes(ops, n) => SongOpTracker::LoopNTimes {
                current: 0,
                total_loops: *n as usize,
                children: Self::map(ops),
            },
            RecursiveSongOp::Stretch(ops, n) => SongOpTracker::Stretch {
                current: 0,
                length: *n as usize,
                children: Self::map(ops),
            },
            RecursiveSongOp::InfiniteLoop(ops) => SongOpTracker::InfiniteLoop {
                current: 0,
                children: Self::map(ops),
            },
            RecursiveSongOp::RandomPlay(ops) => {
                let mut randomized_indices: Vec<usize> = Vec::new();
                let mut i: usize = 0;
                while i < ops.len()
                    invariant
                        i <= ops@.len(),
                        randomized_indices@ == Seq::new(i as nat, |k: int| k as usize),
                    decreases ops@.len() - i,
                {
                    randomized_indices.push(i);
                    i = i + 1;
                }
                let ghost before = randomized_indices@;
                assert(before.no_duplicates());
                let mut rng = thread_rng();
                shuffle(&mut rng, &mut randomized_indices);
                proof {
                    broadcast use vstd::seq_lib::group_to_multiset_ensures;

                    let o = randomized_indices@;
                    before.lemma_multiset_has_no_duplicates();
                    o.lemma_multiset_has_no_duplicates_conv();
                    assert forall|k: int| 0 <= k < ops@.len() implies #[trigger] o[k] < ops@.len() by {
                        assert(o.to_multiset().contains(o[k]));
                        assert(before.contains(o[k]));
                    }
                }
                SongOpTracker::RandomPlay { current: 0, randomized_indices, children: Self::map(ops) }
            },
            RecursiveSongOp::SingleRandom(ops) => {
                let mut rng = thread_rng();
                let index = gen_index(&mut rng, ops.len());
                SongOpTracker::SingleRandom { current: index, children: Self::map(ops) }
            },
            RecursiveSongOp::InfiniteRandom(ops) => {
                let mut rng = thread_rng();
                let index = gen_index(&mut rng, ops.len());
                SongOpTracker::InfiniteRandom { current: index, children: Self::map(ops) }
            },
        }
    }

    /// Builds a tracker for an operation and sets its current song.
    pub fn from_song_op(song_op: &RecursiveSongOp, indices: VecDeque<usize>) -> (r: SongOpTracker)
        requires
            song_op.choices_nonempty(),
            forall|t: SongOpTracker| #[trigger] t.tracks(*song_op) ==> t.set_ok(indices@),
        ensures
            exists|t: SongOpTracker| #[trigger] t.tracks(*song_op) && t.set_rel(indices@, r),
    {
        let mut s = Self::from(song_op);
        let ghost fresh = s;
        s.set_current(indices);
        assert(fresh.tracks(*song_op) && fresh.set_rel(indices@, s));
        s
    }

    /// The node is of the same kind as the operation node.
    pub open spec fn kind_of(self, op: RecursiveSongOp) -> bool {
        match (op, self) {
            (RecursiveSongOp::SinglePlay(_), SongOpTracker::SinglePlay) => true,
            (RecursiveSongOp::PlayOnce(_), SongOpTracker::PlayOnce { .. }) => true,
            (RecursiveSongOp::LoopNTimes(_, _), SongOpTracker::LoopNTimes { .. }) => true,
            (RecursiveSongOp::Stretch(_, _), SongOpTracker::Stretch { .. }) => true,
            (RecursiveSongOp::InfiniteLoop(_), SongOpTracker::InfiniteLoop { .. }) => true,
            (RecursiveSongOp::RandomPlay(_), SongOpTracker::RandomPlay { .. }) => true,
            (RecursiveSongOp::SingleRandom(_), SongOpTracker::SingleRandom { .. }) => true,
            (RecursiveSongOp::InfiniteRandom(_), SongOpTracker::InfiniteRandom { .. }) => true,
            _ => false,
        }
    }

    /// The tracker mirrors the operation tree: nodes of the same kinds with
    /// as many children, all the way down.
    pub open spec fn follows(self, op: RecursiveSongOp) -> bool
        decreases op,
    {
        &&& self.kind_of(op)
        &&& self.kids().len() == op.kids().len()
        &&& forall|i: int| 0 <= i < op.kids().len() ==> (#[trigger] self.kids()[i]).follows(op.kids()[i])
    }

    /// Two trackers have the same shape: the same kinds of nodes with the
    /// same loop counts and stretch lengths, the same number of children,
    /// random play orders made of the same indexes, and children of the
    /// same shape.
    pub open spec fn same_shape(self, other: SongOpTracker) -> bool
        decreases self,
    {
        &&& self.same_kind(other)
        &&& self.kids().len() == other.kids().len()
        &&& self.order().to_multiset() == other.order().to_multiset()
        &&& forall|i: int| 0 <= i < self.kids().len() ==> (#[trigger] self.kids()[i]).same_shape(other.kids()[i])
    }

    /// A well-formed tracker: every list has children, every counter points
    /// at a child, loop counts and stretch lengths are at least 1 and the
    /// sequences they make fit in `usize`, and every random play order
    /// lists each child exactly once.
    pub open spec fn wf(self) -> bool
        decreases self,
    {
        let kids = self.kids();
        let len = kids.len();
        match self {
            SongOpTracker::SinglePlay => true,
            _ => {
                &&& len > 0
                &&& self.sel_ok()
                &&& (self matches SongOpTracker::LoopNTimes { current, total_loops, .. } ==> 1 <= total_loops * len
                    <= usize::MAX && current < total_loops * len)
                &&& (self matches SongOpTracker::Stretch { current, length, .. } ==> 1 <= length * len <= usize::MAX
                    && current < length * len)
                &&& (self matches SongOpTracker::RandomPlay { randomized_indices, .. } ==> {
                    &&& randomized_indices@.len() == len
                    &&& forall|k: int| 0 <= k < len ==> #[trigger] randomized_indices@[k] < len
                    &&& forall|i: int| 0 <= i < len ==> randomized_indices@.contains(#[trigger] (i as usize))
                })
                &&& forall|i: int| 0 <= i < len ==> (#[trigger] kids[i]).wf()
            },
        }
    }

    /// The indexes that lead to the last song of the sequence: the last
    /// child of each list, the last of each random play order, the chosen
    /// child of each random choice.
    pub open spec fn end_path(self) -> Seq<usize>
        decreases self,
    {
        let j = self.end_child();
        if self is SinglePlay || !(0 <= j < self.kids().len()) {
            Seq::empty()
        } else {
            seq![j as usize] + self.kids()[j].end_path()
        }
    }

    /// The tracker stands on the first song of its sequence: every list
    /// and random play on the way is on its first position.
    pub open spec fn at_start(self) -> bool
        decreases self,
    {
        let kids = self.kids();
        let j = self.sel();
        match self {
            SongOpTracker::SinglePlay => true,
            SongOpTracker::SingleRandom { .. } | SongOpTracker::InfiniteRandom { .. } => 0 <= j < kids.len()
                && kids[j].at_start(),
            _ => self.cur() == 0 && 0 <= j < kids.len() && kids[j].at_start(),
        }
    }

    /// Checks that the tracker is well-formed.
    pub fn is_well_formed(&self) -> (r: bool)
        ensures
            r == self.wf(),
        decreases self,
    {
        if let SongOpTracker::SinglePlay = self {
            return true;
        }
        let children = match self {
            SongOpTracker::SinglePlay => {
                return true;
            },
            SongOpTracker::PlayOnce { children, .. } => children,
            SongOpTracker::LoopNTimes { children, .. } => children,
            SongOpTracker::Stretch { children, .. } => children,
            SongOpTracker::InfiniteLoop { children, .. } => children,
            SongOpTracker::RandomPlay { children, .. } => children,
            SongOpTracker::SingleRandom { children, .. } => children,
            SongOpTracker::InfiniteRandom { children, .. } => children,
        };
        assert(children@ == self.kids());
        let len = children.len();
        if len == 0 || self.selected().is_none() {
            return false;
        }
        match self {
            SongOpTracker::LoopNTimes { current, total_loops, .. } => {
                let total = mul_wide(*total_loops, len);
                if !(1 <= total && total <= usize::MAX as u128 && (*current as u128) < total) {
                    return false;
                }
            },
            SongOpTracker::Stretch { current, length, .. } => {
                let total = mul_wide(*length, len);
                if !(1 <= total && total <= usize::MAX as u128 && (*current as u128) < total) {
                    return false;
                }
            },
            SongOpTracker::RandomPlay { randomized_indices, .. } => {
                if !lists_each_once(randomized_indices, len) {
                    return false;
                }
            },
            _ => {},
        }
        let mut i: usize = 0;
        while i < len
            invariant
                i <= len,
                len == children@.len(),
                children@ == self.kids(),
                forall|q: int| 0 <= q < i ==> (#[trigger] children@[q]).wf(),
            decreases len - i,
        {
            if !children[i].is_well_formed() {
                return false;
            }
            i = i + 1;
        }
        true
    }

    /// Moves the tracker to the end of its sequence.
    pub fn to_end(&mut self)
        requires
            old(self).end_ok(),
        ensures
            old(self).end_rel(*final(self)),
        decreases *old(self),
    {
        match self {
            SongOpTracker::SinglePlay => {},
            SongOpTracker::PlayOnce { current, children } => {
                *current = children.len() - 1;
                children[*current].to_end();
            },
            SongOpTracker::LoopNTimes { current, total_loops, children } => {
                *current = *total_loops * children.len() - 1;
                let j = children.len() - 1;
                children[j].to_end();
            },
            SongOpTracker::Stretch { current, length, children } => {
                *current = *length * children.len() - 1;
                let j = children.len() - 1;
                children[j].to_end();
            },
            SongOpTracker::InfiniteLoop { current, children } => {
                *current = children.len() - 1;
                children[*current].to_end();
            },
            SongOpTracker::RandomPlay { current, randomized_indices, children } => {
                *current = randomized_indices.len() - 1;
                let j = randomized_indices[*current];
                children[j].to_end();
            },
            SongOpTracker::SingleRandom { current, children } => children[*current].to_end(),
            SongOpTracker::InfiniteRandom { current, children } => children[*current].to_end(),
        }
    }
}

/// `c` is the first position of `x` in `s`, or the length of `s` when `x`
/// does not occur in it.
pub open spec fn first_position(s: Seq<usize>, x: usize, c: int) -> bool {
    ||| 0 <= c < s.len() && s[c] == x && forall|q: int| 0 <= q < c ==> s[q] != x
    ||| c == s.len() && !s.contains(x)
}

/// Finds the first position of `x` in `s` (the length of `s` if absent).
fn position_in(s: &Vec<usize>, x: usize) -> (c: usize)
    ensures
        first_position(s@, x, c as int),
{
    let mut k: usize = 0;
    while k < s.len()
        invariant
            k <= s@.len(),
            forall|q: int| 0 <= q < k ==> s@[q] != x,
        decreases s@.len() - k,
    {
        if s[k] == x {
            return k;
        }
        k = k + 1;
    }
    k
}

/// `order` has length `n`, holds indexes below `n`, and holds each of them.
fn lists_each_once(order: &Vec<usize>, n: usize) -> (r: bool)
    ensures
        r == {
            &&& order@.len() == n
            &&& forall|k: int| 0 <= k < n ==> #[trigger] order@[k] < n
            &&& forall|i: int| 0 <= i < n ==> order@.contains(#[trigger] (i as usize))
        },
{
    if order.len() != n {
        return false;
    }
    let mut k: usize = 0;
    while k < n
        invariant
            k <= n,
            order@.len() == n,
            forall|q: int| 0 <= q < k ==> #[trigger] order@[q] < n,
        decreases n - k,
    {
        if order[k] >= n {
            return false;
        }
        k = k + 1;
    }
    let mut i: usize = 0;
    while i < n
        invariant
            i <= n,
            order@.len() == n,
            forall|q: int| 0 <= q < i ==> order@.contains(#[trigger] (q as usize)),
        decreases n - i,
    {
        if position_in(order, i) == n {
            assert(!order@.contains(i as int as usize));
            return false;
        }
        i = i + 1;
    }
    true
}

/// The exact product of two sizes.
fn mul_wide(a: usize, b: usize) -> (r: u128)
    ensures
        r == a * b,
{
    assert(a * b <= usize::MAX * usize::MAX) by (nonlinear_arith)
        requires
            a <= usize::MAX,
            b <= usize::MAX,
    ;
    assert(usize::MAX * usize::MAX <= u64::MAX * u64::MAX) by (nonlinear_arith)
        requires
            usize::MAX <= u64::MAX,
    ;
    assert(u64::MAX * u64::MAX <= u128::MAX);
    (a as u128) * (b as u128)
}

/// A position in a playback sequence that can be moved along it.
pub trait OperationTracker: Sized {
    /// `move_back` can run.
    spec fn back_allowed(&self) -> bool;

    /// What `move_back` returns.
    spec fn back_outcome(&self) -> BackResult;

    /// What `move_back` makes of the position.
    spec fn back_relation(&self, new: Self) -> bool;

    /// Moves to the previous song.
    fn move_back(&mut self) -> (r: BackResult)
        requires
            old(self).back_allowed(),
        ensures
            r == old(self).back_outcome(),
            old(self).back_relation(*final(self)),
    ;

    /// The current song can be found.
    spec fn current_allowed(&self) -> bool;

    /// The indexes that lead to the current song.
    spec fn current_indexes(&self) -> Seq<usize>;

    /// Returns the indexes that lead to the current song.
    fn get_current(&self) -> (r: Vec<usize>)
        requires
            self.current_allowed(),
        ensures
            r@ == self.current_indexes(),
    ;

    /// `set_current` can run with these indexes.
    spec fn set_allowed(&self, path: Seq<usize>) -> bool;

    /// What `set_current` makes of the position.
    spec fn set_relation(&self, path: Seq<usize>, new: Self) -> bool;

    /// Sets the indexes that lead to the current song.
    fn set_current(&mut self, indices: VecDeque<usize>)
        requires
            old(self).set_allowed(indices@),
        ensures
            old(self).set_relation(indices@, *final(self)),
    ;

    /// `move_next` can run.
    spec fn next_allowed(&self) -> bool;

    /// What `move_next` returns.
    spec fn next_outcome(&self) -> NextResult;

    /// What `move_next` makes of the position.
    spec fn next_relation(&self, new: Self) -> bool;

    /// Moves to the next song.
    fn move_next(&mut self) -> (r: NextResult)
        requires
            old(self).next_allowed(),
        ensures
            r == old(self).next_outcome(),
            old(self).next_relation(*final(self)),
    ;

    /// `to_start` can run.
    spec fn start_allowed(&self) -> bool;

    /// What `to_start` makes of the position.
    spec fn start_relation(&self, new: Self) -> bool;

    /// Moves to the start of the sequence.
    fn to_start(&mut self)
        requires
            old(self).start_allowed(),
        ensures
            old(self).start_relation(*final(self)),
    ;

    /// `to_end` can run.
    spec fn end_allowed(&self) -> bool;

    /// What `to_end` makes of the position.
    spec fn end_relation(&self, new: Self) -> bool;

    /// Moves to the end of the sequence.
    fn to_end(&mut self)
        requires
            old(self).end_allowed(),
        ensures
            old(self).end_relation(*final(self)),
    ;
}

impl OperationTracker for SongOpTracker {
    open spec fn back_allowed(&self) -> bool {
        self.back_ok()
    }

    open spec fn back_outcome(&self) -> BackResult {
        self.back_result()
    }

    open spec fn back_relation(&self, new: Self) -> bool {
        self.back_rel(new)
    }

    fn move_back(&mut self) -> (r: BackResult) {
        SongOpTracker::move_back(self)
    }

    open spec fn current_allowed(&self) -> bool {
        self.path_ok()
    }

    open spec fn current_indexes(&self) -> Seq<usize> {
        self.spec_path()
    }

    fn get_current(&self) -> (r: Vec<usize>) {
        SongOpTracker::get_current(self)
    }

    open spec fn set_allowed(&self, path: Seq<usize>) -> bool {
        self.set_ok(path)
    }

    open spec fn set_relation(&self, path: Seq<usize>, new: Self) -> bool {
        self.set_rel(path, new)
    }

    fn set_current(&mut self, indices: VecDeque<usize>) {
        SongOpTracker::set_current(self, indices)
    }

    open spec fn next_allowed(&self) -> bool {
        self.next_ok()
    }

    open spec fn next_outcome(&self) -> NextResult {
        self.next_result()
    }

    open spec fn next_relation(&self, new: Self) -> bool {
        self.next_rel(new)
    }

    fn move_next(&mut self) -> (r: NextResult) {
        SongOpTracker::move_next(self)
    }

    open spec fn start_allowed(&self) -> bool {
        self.start_ok()
    }

    open spec fn start_relation(&self, new: Self) -> bool {
        self.start_rel(new)
    }

    fn to_start(&mut self) {
        SongOpTracker::to_start(self)
    }

    open spec fn end_allowed(&self) -> bool {
        self.end_ok()
    }

    open spec fn end_relation(&self, new: Self) -> bool {
        self.end_rel(new)
    }

    fn to_end(&mut self) {
        SongOpTracker::to_end(self)
    }
}

/// Same shape is symmetric and transitive.
pub proof fn lemma_same_shape_trans(a: SongOpTracker, b: SongOpTracker, c: SongOpTracker)
    requires
        a.same_shape(b),
        b.same_shape(c),
    ensures
        a.same_shape(c),
    decreases a,
{
    assert forall|i: int| 0 <= i < a.kids().len() implies (#[trigger] a.kids()[i]).same_shape(c.kids()[i]) by {
        lemma_same_shape_trans(a.kids()[i], b.kids()[i], c.kids()[i]);
    }
}

/// Every tracker has its own shape.
pub proof fn lemma_same_shape_refl(a: SongOpTracker)
    ensures
        a.same_shape(a),
    decreases a,
{
    assert forall|i: int| 0 <= i < a.kids().len() implies (#[trigger] a.kids()[i]).same_shape(a.kids()[i]) by {
        lemma_same_shape_refl(a.kids()[i]);
    }
}

/// Replacing one child by one of the same shape keeps the shape.
pub proof fn lemma_update_keeps_shape(a: SongOpTracker, b: SongOpTracker, j: int)
    requires
        a.same_kind(b),
        a.order().to_multiset() == b.order().to_multiset(),
        0 <= j < a.kids().len(),
        b.kids() == a.kids().update(j, b.kids()[j]),
        a.kids()[j].same_shape(b.kids()[j]),
    ensures
        a.same_shape(b),
{
    assert forall|i: int| 0 <= i < a.kids().len() implies (#[trigger] a.kids()[i]).same_shape(b.kids()[i]) by {
        if i != j {
            lemma_same_shape_refl(a.kids()[i]);
        }
    }
}

/// `to_start` keeps the shape of a tracker.
pub proof fn lemma_start_keeps_shape(a: SongOpTracker, b: SongOpTracker)
    requires
        a.start_rel(b),
    ensures
        a.same_shape(b),
    decreases a,
{
    match a {
        SongOpTracker::SinglePlay => lemma_same_shape_refl(a),
        SongOpTracker::PlayOnce { .. }
        | SongOpTracker::LoopNTimes { .. }
        | SongOpTracker::Stretch { .. }
        | SongOpTracker::InfiniteLoop { .. } => {
            if a.kids().len() == 0 {
                lemma_same_shape_refl(a);
            } else {
                lemma_start_keeps_shape(a.kids()[0], b.kids()[0]);
                lemma_update_keeps_shape(a, b, 0);
            }
        },
        SongOpTracker::RandomPlay { .. } => {
            let j = b.order()[0] as int;
            lemma_start_keeps_shape(a.kids()[j], b.kids()[j]);
            lemma_update_keeps_shape(a, b, j);
        },
        SongOpTracker::SingleRandom { .. } | SongOpTracker::InfiniteRandom { .. } => {
            let j = b.cur();
            lemma_start_keeps_shape(a.kids()[j], b.kids()[j]);
            lemma_update_keeps_shape(a, b, j);
        },
    }
}

/// `move_next` keeps the shape of a tracker.
pub proof fn lemma_next_keeps_shape(a: SongOpTracker, b: SongOpTracker)
    requires
        a.next_rel(b),
    ensures
        a.same_shape(b),
    decreases a,
{
    match a {
        SongOpTracker::SinglePlay => lemma_same_shape_refl(a),
        _ => {
            let j = a.sel();
            let m = choose|m: SongOpTracker| a.kids()[j].next_rel(m) && #[trigger] a.after_next(b, m);
            lemma_next_keeps_shape(a.kids()[j], m);
            let kids = a.kids().update(j, m);
            if a.kids()[j].next_result() == NextResult::Current || a is SingleRandom || a.last_pos() {
                lemma_update_keeps_shape(a, b, j);
            } else {
                let c = if a is InfiniteRandom { b.cur() } else { a.next_cur() };
                let k = a.sel_at(c);
                lemma_start_keeps_shape(kids[k], b.kids()[k]);
                assert forall|i: int| 0 <= i < a.kids().len() implies (#[trigger] a.kids()[i]).same_shape(b.kids()[i]) by {
                    if i == k && i == j {
                        lemma_same_shape_trans(a.kids()[i], m, b.kids()[i]);
                    } else if i != j && i != k {
                        lemma_same_shape_refl(a.kids()[i]);
                    }
                }
            }
        },
    }
}

/// Trackers of the same shape are equally startable: `to_start` depends
/// only on the shape.
pub proof fn lemma_shape_keeps_start_ok(a: SongOpTracker, b: SongOpTracker)
    requires
        a.same_shape(b),
        a.start_ok(),
    ensures
        b.start_ok(),
    decreases a,
{
    match a {
        SongOpTracker::SinglePlay => {},
        SongOpTracker::PlayOnce { .. }
        | SongOpTracker::LoopNTimes { .. }
        | SongOpTracker::Stretch { .. }
        | SongOpTracker::InfiniteLoop { .. } => {
            assert(a.same_kind(b));
            if a.kids().len() > 0 {
                lemma_shape_keeps_start_ok(a.kids()[0], b.kids()[0]);
            }
        },
        SongOpTracker::RandomPlay { .. } => {
            let o = b.order();
            assert forall|k: int| 0 <= k < o.len() implies {
                &&& #[trigger] o[k] < b.kids().len()
                &&& b.kids()[o[k] as int].start_ok()
            } by {
                broadcast use vstd::seq_lib::group_to_multiset_ensures;
                assert(o.to_multiset().contains(o[k]));
                assert(a.order().contains(o[k]));
                let k2 = choose|k2: int| 0 <= k2 < a.order().len() && a.order()[k2] == o[k];
                lemma_shape_keeps_start_ok(a.kids()[o[k] as int], b.kids()[o[k] as int]);
            }
            assert(o.len() > 0) by {
                broadcast use vstd::seq_lib::group_to_multiset_ensures;
                assert(a.order().to_multiset().contains(a.order()[0]));
            }
        },
        SongOpTracker::SingleRandom { .. } | SongOpTracker::InfiniteRandom { .. } => {
            assert forall|i: int| 0 <= i < b.kids().len() implies (#[trigger] b.kids()[i]).start_ok() by {
                lemma_shape_keeps_start_ok(a.kids()[i], b.kids()[i]);
            }
        },
    }
}

/// `to_end` keeps the shape of a tracker.
pub proof fn lemma_end_keeps_shape(a: SongOpTracker, b: SongOpTracker)
    requires
        a.end_rel(b),
    ensures
        a.same_shape(b),
    decreases a,
{
    if a is SinglePlay {
        lemma_same_shape_refl(a);
    } else {
        let j = a.end_child();
        lemma_end_keeps_shape(a.kids()[j], b.kids()[j]);
        lemma_update_keeps_shape(a, b, j);
    }
}

/// `move_back` keeps the shape of a tracker.
pub proof fn lemma_back_keeps_shape(a: SongOpTracker, b: SongOpTracker)
    requires
        a.back_rel(b),
    ensures
        a.same_shape(b),
    decreases a,
{
    match a {
        SongOpTracker::SinglePlay => lemma_same_shape_refl(a),
        _ => {
            let j = a.sel();
            let m = choose|m: SongOpTracker| a.kids()[j].back_rel(m) && #[trigger] a.after_back(b, m);
            lemma_back_keeps_shape(a.kids()[j], m);
            let kids = a.kids().update(j, m);
            if !a.steps_back() {
                lemma_update_keeps_shape(a, b, j);
            } else {
                let c = if a is SingleRandom { b.cur() } else { a.cur() - 1 };
                let k = a.sel_at(c);
                lemma_end_keeps_shape(kids[k], b.kids()[k]);
                assert forall|i: int| 0 <= i < a.kids().len() implies (#[trigger] a.kids()[i]).same_shape(b.kids()[i]) by {
                    if i == k && i == j {
                        lemma_same_shape_trans(a.kids()[i], m, b.kids()[i]);
                    } else if i != j && i != k {
                        lemma_same_shape_refl(a.kids()[i]);
                    }
                }
            }
        },
    }
}

/// `set_current` keeps the shape of a tracker.
pub proof fn lemma_set_keeps_shape(a: SongOpTracker, path: Seq<usize>, b: SongOpTracker)
    requires
        a.set_rel(path, b),
    ensures
        a.same_shape(b),
    decreases a,
{
    if a is SinglePlay || path.len() <= 1 {
        lemma_same_shape_refl(a);
    } else {
        let j = path[0] as int;
        lemma_set_keeps_shape(a.kids()[j], path.drop_first(), b.kids()[j]);
        lemma_update_keeps_shape(a, b, j);
    }
}

/// A node has at most `usize::MAX` children.
pub proof fn lemma_kids_len_fits(t: SongOpTracker)
    ensures
        t.kids().len() <= usize::MAX,
{
    match t {
        SongOpTracker::SinglePlay => {},
        SongOpTracker::PlayOnce { children, .. } => assert(children.len() == children@.len()),
        SongOpTracker::LoopNTimes { children, .. } => assert(children.len() == children@.len()),
        SongOpTracker::Stretch { children, .. } => assert(children.len() == children@.len()),
        SongOpTracker::InfiniteLoop { children, .. } => assert(children.len() == children@.len()),
        SongOpTracker::RandomPlay { children, .. } => assert(children.len() == children@.len()),
        SongOpTracker::SingleRandom { children, .. } => assert(children.len() == children@.len()),
        SongOpTracker::InfiniteRandom { children, .. } => assert(children.len() == children@.len()),
    }
}

/// A fresh tracker follows its operation.
pub proof fn lemma_tracks_follows(t: SongOpTracker, op: RecursiveSongOp)
    requires
        t.tracks(op),
    ensures
        t.follows(op),
    decreases op,
{
    assert forall|i: int| 0 <= i < op.kids().len() implies (#[trigger] t.kids()[i]).follows(op.kids()[i]) by {
        lemma_tracks_follows(t.kids()[i], op.kids()[i]);
    }
}

/// A tracker of the same shape as one that follows an operation follows it too.
pub proof fn lemma_shape_keeps_follows(a: SongOpTracker, b: SongOpTracker, op: RecursiveSongOp)
    requires
        a.follows(op),
        a.same_shape(b),
    ensures
        b.follows(op),
    decreases op,
{
    assert forall|i: int| 0 <= i < op.kids().len() implies (#[trigger] b.kids()[i]).follows(op.kids()[i]) by {
        lemma_shape_keeps_follows(a.kids()[i], b.kids()[i], op.kids()[i]);
    }
}

/// The indexes that `get_current` returns lead, in the operation that the
/// tracker follows, to a single song.
pub proof fn law_current_path_leads_to_song(t: SongOpTracker, op: RecursiveSongOp)
    requires
        t.follows(op),
        t.path_ok(),
    ensures
        op.leads_to_song(t.spec_path()),
    decreases op,
{
    if !(t is SinglePlay) {
        let j = t.sel();
        lemma_kids_len_fits(t);
        law_current_path_leads_to_song(t.kids()[j], op.kids()[j]);
        assert(t.spec_path()[0] == j as usize);
        assert(t.spec_path().drop_first() == t.kids()[j].spec_path());
        assert(t.spec_path().len() > 0);
    } else {
        assert(op is SinglePlay);
        assert(t.spec_path().len() == 0);
    }
}

/// Moving a tracker to its start or end, forwards or backwards, or setting
/// its current song keeps it following the same operation.
pub proof fn law_moves_keep_following(
    a: SongOpTracker,
    b: SongOpTracker,
    path: Seq<usize>,
    op: RecursiveSongOp,
)
    requires
        a.follows(op),
        a.start_rel(b) || a.end_rel(b) || a.next_rel(b) || a.back_rel(b) || a.set_rel(path, b),
    ensures
        b.follows(op),
{
    if a.start_rel(b) {
        lemma_start_keeps_shape(a, b);
    } else if a.end_rel(b) {
        lemma_end_keeps_shape(a, b);
    } else if a.next_rel(b) {
        lemma_next_keeps_shape(a, b);
    } else if a.back_rel(b) {
        lemma_back_keeps_shape(a, b);
    } else {
        lemma_set_keeps_shape(a, path, b);
    }
    lemma_shape_keeps_follows(a, b, op);
}

/// A fresh tracker of a playable operation points at a song: its current
/// path can be taken and leads to a single song of the operation.
pub proof fn law_fresh_tracker_points_at_song(t: SongOpTracker, op: RecursiveSongOp)
    requires
        t.tracks(op),
        op.playable(),
    ensures
        t.path_ok(),
        op.leads_to_song(t.spec_path()),
    decreases op,
{
    lemma_tracks_follows(t, op);
    if !(t is SinglePlay) {
        let j = t.sel();
        assert(op.kids().len() > 0);
        if t is RandomPlay {
            assert(t.order()[0] < op.kids().len());
        }
        assert(0 <= j < t.kids().len());
        law_fresh_tracker_points_at_song(t.kids()[j], op.kids()[j]);
    }
    law_current_path_leads_to_song(t, op);
}

/// In a play-once list of single songs that is not on its last song,
/// moving to the next song and back again returns to the same position.
pub proof fn law_flat_next_then_back(t: SongOpTracker, t1: SongOpTracker, t2: SongOpTracker)
    requires
        t is PlayOnce,
        forall|i: int| 0 <= i < t.kids().len() ==> (#[trigger] t.kids()[i]) is SinglePlay,
        t.cur() + 1 < t.kids().len(),
        t.next_rel(t1),
        t1.back_rel(t2),
    ensures
        t.next_result() == NextResult::Current,
        t1.back_result() == BackResult::Current,
        t.becomes(t2, t.cur(), t.order(), t.kids()),
{
    let kids = t.kids();
    let j = t.cur();
    let m = choose|m: SongOpTracker| kids[j].next_rel(m) && #[trigger] t.after_next(t1, m);
    assert(m == kids[j]);
    assert(kids[j + 1].start_rel(t1.kids()[j + 1]));
    assert(t1.kids()[j + 1] == kids[j + 1]);
    assert(t1.kids() =~= kids);
    assert(t1.cur() == j + 1);
    let m2 = choose|m2: SongOpTracker| t1.kids()[j + 1].back_rel(m2) && #[trigger] t1.after_back(t2, m2);
    assert(m2 == kids[j + 1]);
    assert(t1.steps_back());
    assert(t1.sel_at(t1.cur() - 1) == j);
    assert(kids[j].end_rel(t2.kids()[j]));
    assert(t2.kids()[j] == kids[j]);
    assert(t2.kids() =~= kids);
}

/// A loop over single songs plays the whole list again and again, `n`
/// times: each move goes one position further, the position picks the
/// song at that position modulo the list's length, and the loop ends on
/// its last position.
pub proof fn law_loop_n_times_repeats_the_list(t: SongOpTracker, t1: SongOpTracker)
    requires
        t is LoopNTimes,
        forall|i: int| 0 <= i < t.kids().len() ==> (#[trigger] t.kids()[i]) is SinglePlay,
        t.kids().len() > 0,
        t.next_rel(t1),
    ensures
        t.last_pos() ==> t.next_result() == NextResult::Ended && t1.cur() == t.cur() && t1.kids() == t.kids(),
        !t.last_pos() ==> t.next_result() == NextResult::Current && t1.cur() == t.cur() + 1 && t1.sel() == (
        t.cur() + 1) % (t.kids().len() as int) && t1.kids() == t.kids(),
{
    let kids = t.kids();
    let j = t.sel();
    assert(0 <= j < kids.len());
    let m = choose|m: SongOpTracker| kids[j].next_rel(m) && #[trigger] t.after_next(t1, m);
    assert(m == kids[j]);
    assert(kids.update(j, m) =~= kids);
    if !t.last_pos() {
        let c = t.next_cur();
        let k = t.sel_at(c);
        assert(kids[k].start_rel(t1.kids()[k]));
        assert(t1.kids()[k] == kids[k]);
        assert(t1.kids() =~= kids);
    }
}

/// A stretch over single songs plays each song `n` times in a row: each
/// move goes one position further, the position picks the song at that
/// position divided by `n`, and the stretch ends on its last position.
pub proof fn law_stretch_repeats_each_song(t: SongOpTracker, t1: SongOpTracker)
    requires
        t matches SongOpTracker::Stretch { length, .. } && length > 0,
        forall|i: int| 0 <= i < t.kids().len() ==> (#[trigger] t.kids()[i]) is SinglePlay,
        t.sel_ok(),
        t.next_rel(t1),
    ensures
        t.last_pos() ==> t.next_result() == NextResult::Ended && t1.cur() == t.cur() && t1.kids() == t.kids(),
        !t.last_pos() ==> t.next_result() == NextResult::Current && t1.cur() == t.cur() + 1 && t1.sel() == (
        t.cur() + 1) / (t->length as int) && t1.kids() == t.kids(),
{
    let kids = t.kids();
    let j = t.sel();
    assert(0 <= j < kids.len());
    let m = choose|m: SongOpTracker| kids[j].next_rel(m) && #[trigger] t.after_next(t1, m);
    assert(m == kids[j]);
    assert(kids.update(j, m) =~= kids);
    if !t.last_pos() {
        let c = t.next_cur();
        let k = t.sel_at(c);
        assert(kids[k].start_rel(t1.kids()[k]));
        assert(t1.kids()[k] == kids[k]);
        assert(t1.kids() =~= kids);
    }
}

/// A single random choice among single songs plays one song: the first
/// move ends it.
pub proof fn law_single_random_plays_one_song(t: SongOpTracker)
    requires
        t is SingleRandom,
        forall|i: int| 0 <= i < t.kids().len() ==> (#[trigger] t.kids()[i]) is SinglePlay,
    ensures
        t.next_result() == NextResult::Ended,
{
    let j = t.sel();
    if 0 <= j < t.kids().len() {
        assert(t.kids()[j] is SinglePlay);
        assert(t.kids()[j].next_result() == NextResult::Ended);
    }
}

/// Infinite loops and infinite random plays never end.
pub proof fn law_infinite_operations_never_end(t: SongOpTracker)
    requires
        t is InfiniteLoop || t is InfiniteRandom,
    ensures
        t.next_result() == NextResult::Current,
{
}

/// A well-formed tracker can always be moved to its start and to its end.
pub proof fn lemma_wf_can_start_and_end(t: SongOpTracker)
    requires
        t.wf(),
    ensures
        t.start_ok(),
        t.end_ok(),
    decreases t,
{
    let kids = t.kids();
    assert forall|i: int| 0 <= i < kids.len() implies (#[trigger] kids[i]).start_ok() && kids[i].end_ok() by {
        lemma_wf_can_start_and_end(kids[i]);
    }
    if let SongOpTracker::RandomPlay { randomized_indices, .. } = t {
        assert(kids[randomized_indices@.last() as int].end_ok());
    }
}

/// `to_end` moves a well-formed tracker onto the last song of its
/// sequence: afterwards the current song can be found, and its indexes
/// are those of the last song.
pub proof fn law_end_reaches_last_song(t: SongOpTracker, t1: SongOpTracker)
    requires
        t.wf(),
        t.end_rel(t1),
    ensures
        t.end_ok(),
        t1.path_ok(),
        t1.spec_path() == t.end_path(),
    decreases t,
{
    lemma_wf_can_start_and_end(t);
    if !(t is SinglePlay) {
        let kids = t.kids();
        let len = kids.len() as int;
        let j = t.end_child();
        law_end_reaches_last_song(kids[j], t1.kids()[j]);
        match t {
            SongOpTracker::LoopNTimes { total_loops, .. } => {
                let n = total_loops as int;
                assert(n * len - 1 == (n - 1) * len + (len - 1)) by (nonlinear_arith);
                vstd::arithmetic::div_mod::lemma_fundamental_div_mod_converse(n * len - 1, len, n - 1, len - 1);
            },
            SongOpTracker::Stretch { length, .. } => {
                let l = length as int;
                assert(l * len - 1 == (len - 1) * l + (l - 1)) by (nonlinear_arith);
                vstd::arithmetic::div_mod::lemma_fundamental_div_mod_converse(l * len - 1, l, len - 1, l - 1);
            },
            _ => {},
        }
        assert(t1.sel() == j);
        assert(t1.kids()[j] == t1.kids()[t1.sel()]);
    }
}

/// `to_start` moves a well-formed tracker onto the first song of its
/// sequence: afterwards the current song can be found, and every list and
/// random play on its way stands on its first position.
pub proof fn law_start_reaches_first_song(t: SongOpTracker, t1: SongOpTracker)
    requires
        t.wf(),
        t.start_rel(t1),
    ensures
        t.start_ok(),
        t1.path_ok(),
        t1.at_start(),
    decreases t,
{
    lemma_wf_can_start_and_end(t);
    if !(t is SinglePlay) {
        let kids = t.kids();
        let j = t1.sel();
        match t {
            SongOpTracker::LoopNTimes { .. } => {
                vstd::arithmetic::div_mod::lemma_small_mod(0, kids.len());
                assert(j == 0);
            },
            SongOpTracker::Stretch { length, .. } => {
                vstd::arithmetic::div_mod::lemma_fundamental_div_mod_converse(0, length as int, 0, 0);
                assert(j == 0);
            },
            SongOpTracker::RandomPlay { .. } => {
                assert(j == t1.order()[0]);
            },
            _ => {},
        }
        assert(0 <= j < kids.len());
        law_start_reaches_first_song(kids[j], t1.kids()[j]);
    }
}

/// Setting the current song of a well-formed tracker to a path that leads
/// to a song of its operation, then reading the current song, gives that
/// path back.
pub proof fn law_set_then_get(t: SongOpTracker, op: RecursiveSongOp, path: Seq<usize>, t1: SongOpTracker)
    requires
        t.wf(),
        t.follows(op),
        op.leads_to_song(path),
        t.set_rel(path, t1),
    ensures
        t.set_ok(path),
        t1.path_ok(),
        t1.spec_path() == path,
    decreases t,
{
    if t is SinglePlay {
        assert(op is SinglePlay);
    } else {
        let kids = t.kids();
        let len = kids.len() as int;
        let i = path[0];
        let c = t1.cur();
        assert(path.len() > 0);
        assert(i < len);
        match t {
            SongOpTracker::LoopNTimes { .. } => {
                vstd::arithmetic::div_mod::lemma_small_mod(i as nat, len as nat);
            },
            SongOpTracker::Stretch { length, .. } => {
                let l = length as int;
                assert(i * l <= (len - 1) * l) by (nonlinear_arith)
                    requires
                        0 <= i <= len - 1,
                        l >= 0,
                ;
                assert((len - 1) * l <= len * l - 1) by (nonlinear_arith)
                    requires
                        l >= 1,
                ;
                assert(c == i * l);
                vstd::arithmetic::div_mod::lemma_fundamental_div_mod_converse(i * l, l, i as int, 0);
                assert(c < l * len) by (nonlinear_arith)
                    requires
                        c == i * l,
                        i < len,
                        l >= 1,
                ;
            },
            SongOpTracker::RandomPlay { randomized_indices, .. } => {
                assert(randomized_indices@.contains(i as int as usize));
            },
            _ => {},
        }
        assert(t1.sel() == i);
        if path.len() == 1 {
            assert(t1.kids() == kids);
            assert(op.kids()[i as int].leads_to_song(path.drop_first()));
            assert(kids[i as int].follows(op.kids()[i as int]));
            let k = kids[i as int];
            assert(k is SinglePlay);
            assert(k.path_ok() && k.spec_path() == Seq::<usize>::empty());
            assert(t1.kids()[t1.sel()] == k);
            assert(t1.sel_ok());
            assert(t1.spec_path() =~= path);
        } else {
            law_set_then_get(kids[i as int], op.kids()[i as int], path.drop_first(), t1.kids()[i as int]);
            assert(t1.spec_path() =~= seq![i] + path.drop_first());
            assert(path =~= seq![i] + path.drop_first());
        }
    }
}

/// The current song of a well-formed tracker can be found.
pub proof fn lemma_wf_path_ok(t: SongOpTracker)
    requires
        t.wf(),
    ensures
        t.path_ok(),
    decreases t,
{
    if !(t is SinglePlay) {
        let j = t.sel();
        assert(0 <= j < t.kids().len());
        lemma_wf_path_ok(t.kids()[j]);
    }
}

/// `b` is `a` with its counter set to `c` and its child `k` replaced by a
/// well-formed one: it is well-formed when its counter is in range.
proof fn lemma_replaced_child_keeps_wf(a: SongOpTracker, b: SongOpTracker, k: int)
    requires
        a.wf(),
        !(a is SinglePlay),
        a.same_kind(b),
        b.order() == a.order(),
        0 <= k < a.kids().len(),
        b.kids() == a.kids().update(k, b.kids()[k]),
        b.kids()[k].wf(),
        b.sel_ok(),
        b matches SongOpTracker::LoopNTimes { current, total_loops, .. } ==> current < total_loops * b.kids().len(),
        b matches SongOpTracker::Stretch { current, length, .. } ==> current < length * b.kids().len(),
    ensures
        b.wf(),
{
    assert forall|i: int| 0 <= i < b.kids().len() implies (#[trigger] b.kids()[i]).wf() by {
        if i != k {
            assert(b.kids()[i] == a.kids()[i]);
        }
    }
}

/// `to_end` keeps a tracker well-formed.
pub proof fn lemma_end_keeps_wf(a: SongOpTracker, b: SongOpTracker)
    requires
        a.wf(),
        a.end_rel(b),
    ensures
        b.wf(),
    decreases a,
{
    if !(a is SinglePlay) {
        let j = a.end_child();
        lemma_end_keeps_wf(a.kids()[j], b.kids()[j]);
        law_end_reaches_last_song(a, b);
        lemma_replaced_child_keeps_wf(a, b, j);
    }
}

/// `to_start` keeps a tracker well-formed: a reshuffled play order still
/// lists each child exactly once.
pub proof fn lemma_start_keeps_wf(a: SongOpTracker, b: SongOpTracker)
    requires
        a.wf(),
        a.start_rel(b),
    ensures
        b.wf(),
    decreases a,
{
    if !(a is SinglePlay) {
        law_start_reaches_first_song(a, b);
        let len = a.kids().len();
        let k = match a {
            SongOpTracker::RandomPlay { .. } => b.order()[0] as int,
            SongOpTracker::SingleRandom { .. } | SongOpTracker::InfiniteRandom { .. } => b.cur(),
            _ => 0,
        };
        lemma_start_keeps_wf(a.kids()[k], b.kids()[k]);
        assert forall|i: int| 0 <= i < len implies (#[trigger] b.kids()[i]).wf() by {
            if i != k {
                assert(b.kids()[i] == a.kids()[i]);
            }
        }
        if let SongOpTracker::RandomPlay { randomized_indices, .. } = b {
            broadcast use vstd::seq_lib::group_to_multiset_ensures;

            let o = randomized_indices@;
            let o0 = a.order();
            assert(o.to_multiset() == o0.to_multiset());
            assert(o.len() == o.to_multiset().len());
            assert(o0.len() == o0.to_multiset().len());
            assert forall|q: int| 0 <= q < len implies #[trigger] o[q] < len by {
                assert(o.to_multiset().contains(o[q]));
                assert(o0.contains(o[q]));
                let q0 = choose|q0: int| 0 <= q0 < o0.len() && o0[q0] == o[q];
                assert(o0[q0] < len);
            }
            assert forall|i: int| 0 <= i < len implies o.contains(#[trigger] (i as usize)) by {
                assert(o0.contains(i as usize));
                assert(o0.to_multiset().contains(i as usize));
            }
        }
    }
}

/// `move_next` keeps a tracker well-formed.
pub proof fn lemma_next_keeps_wf(a: SongOpTracker, b: SongOpTracker)
    requires
        a.wf(),
        a.next_rel(b),
    ensures
        b.wf(),
    decreases a,
{
    if !(a is SinglePlay) {
        let kids = a.kids();
        let len = kids.len() as int;
        let j = a.sel();
        assert(0 <= j < len);
        let m = choose|m: SongOpTracker| kids[j].next_rel(m) && #[trigger] a.after_next(b, m);
        lemma_next_keeps_wf(kids[j], m);
        let kids2 = kids.update(j, m);
        if kids[j].next_result() == NextResult::Current || a is SingleRandom || a.last_pos() {
            lemma_replaced_child_keeps_wf(a, b, j);
        } else {
            let c = b.cur();
            let k = a.sel_at(c);
            assert(kids2[k].wf());
            lemma_start_keeps_wf(kids2[k], b.kids()[k]);
            match a {
                SongOpTracker::Stretch { current, length, .. } => {
                    let l = length as int;
                    assert(c / l < len) by (nonlinear_arith)
                        requires
                            c == current + 1,
                            current < len * l - 1,
                            l >= 1,
                    ;
                },
                _ => {},
            }
            assert forall|i: int| 0 <= i < len implies (#[trigger] b.kids()[i]).wf() by {
                if i != k {
                    assert(b.kids()[i] == kids2[i]);
                }
            }
            assert(b.sel() == k);
            assert(b.sel_ok());
            if let SongOpTracker::LoopNTimes { current, total_loops, .. } = a {
                assert(len * total_loops == total_loops * len) by (nonlinear_arith);
                assert(c < total_loops * len);
            }
            if let SongOpTracker::Stretch { current, length, .. } = a {
                assert(len * length == length * len) by (nonlinear_arith);
                assert(c < length * len);
            }
        }
    }
}

/// `move_back` keeps a tracker well-formed.
pub proof fn lemma_back_keeps_wf(a: SongOpTracker, b: SongOpTracker)
    requires
        a.wf(),
        a.back_rel(b),
    ensures
        b.wf(),
    decreases a,
{
    if !(a is SinglePlay) {
        let kids = a.kids();
        let len = kids.len() as int;
        let j = a.sel();
        assert(0 <= j < len);
        let m = choose|m: SongOpTracker| kids[j].back_rel(m) && #[trigger] a.after_back(b, m);
        lemma_back_keeps_wf(kids[j], m);
        let kids2 = kids.update(j, m);
        if !a.steps_back() {
            lemma_replaced_child_keeps_wf(a, b, j);
        } else {
            let c = b.cur();
            let k = a.sel_at(c);
            assert(kids2[k].wf());
            lemma_end_keeps_wf(kids2[k], b.kids()[k]);
            match a {
                SongOpTracker::Stretch { current, length, .. } => {
                    let l = length as int;
                    assert(c / l < len) by (nonlinear_arith)
                        requires
                            c == current - 1,
                            current < l * len,
                            c >= 0,
                            l >= 1,
                    ;
                },
                _ => {},
            }
            assert forall|i: int| 0 <= i < len implies (#[trigger] b.kids()[i]).wf() by {
                if i != k {
                    assert(b.kids()[i] == kids2[i]);
                }
            }
            assert(b.sel() == k);
        }
    }
}

/// `move_next` never panics on a well-formed tracker.
pub proof fn lemma_wf_next_ok(t: SongOpTracker)
    requires
        t.wf(),
    ensures
        t.next_ok(),
    decreases t,
{
    if !(t is SinglePlay) {
        let kids = t.kids();
        let len = kids.len() as int;
        let j = t.sel();
        assert(0 <= j < len);
        lemma_wf_next_ok(kids[j]);
        assert forall|i: int| 0 <= i < len implies (#[trigger] kids[i]).start_ok() by {
            lemma_wf_can_start_and_end(kids[i]);
        }
        match t {
            SongOpTracker::LoopNTimes { current, total_loops, .. } => {
                assert(len * total_loops == total_loops * len) by (nonlinear_arith);
                let k = t.sel_at(current + 1);
                assert(0 <= k < len);
            },
            SongOpTracker::Stretch { current, length, .. } => {
                let l = length as int;
                assert(len * l == l * len) by (nonlinear_arith);
                if !t.last_pos() {
                    assert((current + 1) / l < len) by (nonlinear_arith)
                        requires
                            current + 1 < len * l,
                            current >= 0,
                            l >= 1,
                    ;
                }
            },
            SongOpTracker::RandomPlay { randomized_indices, .. } => {
                if !t.last_pos() {
                    assert(randomized_indices@[t.cur() + 1] < len);
                }
            },
            _ => {},
        }
    }
}

/// `move_back` never panics on a well-formed tracker.
pub proof fn lemma_wf_back_ok(t: SongOpTracker)
    requires
        t.wf(),
    ensures
        t.back_ok(),
    decreases t,
{
    if !(t is SinglePlay) {
        let kids = t.kids();
        let len = kids.len() as int;
        let j = t.sel();
        assert(0 <= j < len);
        lemma_wf_back_ok(kids[j]);
        assert forall|i: int| 0 <= i < len implies (#[trigger] kids[i]).end_ok() by {
            lemma_wf_can_start_and_end(kids[i]);
        }
        assert forall|m: SongOpTracker| #[trigger] kids[j].back_rel(m) implies m.end_ok() by {
            lemma_back_keeps_wf(kids[j], m);
            lemma_wf_can_start_and_end(m);
        }
        if t.steps_back() && !(t is SingleRandom) {
            let c = t.cur() - 1;
            if let SongOpTracker::Stretch { current, length, .. } = t {
                let l = length as int;
                assert(c / l < len) by (nonlinear_arith)
                    requires
                        c == current - 1,
                        current < l * len,
                        c >= 0,
                        l >= 1,
                ;
            }
            if let SongOpTracker::RandomPlay { randomized_indices, .. } = t {
                assert(randomized_indices@[c] < len);
            }
            let k = t.sel_at(c);
            assert(0 <= k < len);
        }
    }
}

/// A well-formed tracker can always be moved: forwards, backwards, to its
/// start and to its end, and its current song can be found; each move
/// leaves it well-formed, so this holds after any number of moves.
pub proof fn law_well_formed_trackers_keep_moving(t: SongOpTracker, t1: SongOpTracker)
    requires
        t.wf(),
    ensures
        t.next_ok(),
        t.back_ok(),
        t.start_ok(),
        t.end_ok(),
        t.path_ok(),
        t.next_rel(t1) || t.back_rel(t1) || t.start_rel(t1) || t.end_rel(t1) ==> t1.wf(),
{
    lemma_wf_next_ok(t);
    lemma_wf_back_ok(t);
    lemma_wf_can_start_and_end(t);
    lemma_wf_path_ok(t);
    if t.next_rel(t1) {
        lemma_next_keeps_wf(t, t1);
    } else if t.back_rel(t1) {
        lemma_back_keeps_wf(t, t1);
    } else if t.start_rel(t1) {
        lemma_start_keeps_wf(t, t1);
    } else if t.end_rel(t1) {
        lemma_end_keeps_wf(t, t1);
    }
}

impl SongOpTracker {
    /// Some position of the node's counter picks child `i`.
    pub open spec fn picks(self, i: int) -> bool {
        exists|p: int| 0 <= p < self.kids().len() && #[trigger] self.sel_at(p) == i
    }

    /// Every node plays its list in order: only single songs, play-once
    /// lists, loops and stretches, no random or endless node.
    pub open spec fn plays_in_order(self) -> bool
        decreases self,
    {
        &&& (self is SinglePlay || self is PlayOnce || self is LoopNTimes || self is Stretch)
        &&& forall|i: int| 0 <= i < self.kids().len() ==> (#[trigger] self.kids()[i]).plays_in_order()
    }
}

/// A tracker standing on the first song of its sequence is rewound by
/// `move_back`.
pub proof fn lemma_at_start_rewinds(t: SongOpTracker)
    requires
        t.path_ok(),
        t.at_start(),
    ensures
        t.back_result() == BackResult::Rewound,
    decreases t,
{
    if !(t is SinglePlay) {
        lemma_at_start_rewinds(t.kids()[t.sel()]);
    }
}

/// Trackers of the same shape that play in order end on the same song.
pub proof fn lemma_shape_fixes_end(a: SongOpTracker, b: SongOpTracker)
    requires
        a.same_shape(b),
        a.plays_in_order(),
    ensures
        a.end_path() == b.end_path(),
    decreases a,
{
    if !(a is SinglePlay) {
        let j = a.end_child();
        if 0 <= j < a.kids().len() {
            lemma_shape_fixes_end(a.kids()[j], b.kids()[j]);
        }
    }
}

/// A well-formed tracker with no next song has its counter on the child
/// that `to_end` moves to, and that child has no next song either.
proof fn lemma_ended_points_at_end_child(t: SongOpTracker)
    requires
        t.wf(),
        !(t is SinglePlay),
        t.next_result() == NextResult::Ended,
    ensures
        t.sel() == t.end_child(),
        0 <= t.sel() < t.kids().len(),
        t.kids()[t.sel()].next_result() == NextResult::Ended,
        !(t is SingleRandom) ==> t.last_pos(),
{
    let kids = t.kids();
    let len = kids.len() as int;
    let j = t.sel();
    assert(0 <= j < len);
    match t {
        SongOpTracker::LoopNTimes { current, total_loops, .. } => {
            let n = total_loops as int;
            assert(len * n == n * len) by (nonlinear_arith);
            assert(n * len - 1 == (n - 1) * len + (len - 1)) by (nonlinear_arith);
            vstd::arithmetic::div_mod::lemma_fundamental_div_mod_converse(n * len - 1, len, n - 1, len - 1);
        },
        SongOpTracker::Stretch { current, length, .. } => {
            let l = length as int;
            assert(len * l == l * len) by (nonlinear_arith);
            assert(current == l * len - 1);
            assert(l * len - 1 == (len - 1) * l + (l - 1)) by (nonlinear_arith);
            vstd::arithmetic::div_mod::lemma_fundamental_div_mod_converse(l * len - 1, l, len - 1, l - 1);
        },
        _ => {},
    }
}

/// A well-formed tracker with no next song stands on the last song of its
/// sequence.
pub proof fn lemma_ended_is_at_end(t: SongOpTracker)
    requires
        t.wf(),
        t.next_result() == NextResult::Ended,
    ensures
        t.spec_path() == t.end_path(),
    decreases t,
{
    if !(t is SinglePlay) {
        lemma_ended_points_at_end_child(t);
        lemma_ended_is_at_end(t.kids()[t.sel()]);
    }
}

/// Moving on from a tracker that has no next song leaves its last song
/// where it was.
proof fn lemma_ended_move_keeps_end(x: SongOpTracker, m: SongOpTracker)
    requires
        x.wf(),
        x.next_result() == NextResult::Ended,
        x.next_rel(m),
    ensures
        m.end_path() == x.end_path(),
    decreases x,
{
    if !(x is SinglePlay) {
        lemma_ended_points_at_end_child(x);
        let kids = x.kids();
        let j = x.sel();
        let m1 = choose|m1: SongOpTracker| kids[j].next_rel(m1) && #[trigger] x.after_next(m, m1);
        lemma_ended_move_keeps_end(kids[j], m1);
        assert(m.kids() == kids.update(j, m1));
        assert(m.end_child() == j);
        assert(m.kids()[j] == m1);
    }
}

impl SongOpTracker {
    /// The node can play the same child twice in a row: a loop over a
    /// single child, or a stretch that repeats each child.
    pub open spec fn repeats_a_child(self) -> bool {
        match self {
            SongOpTracker::LoopNTimes { .. } => self.kids().len() == 1,
            SongOpTracker::Stretch { length, .. } => length > 1,
            _ => false,
        }
    }

    /// Every node is a single song, a play-once list, a loop, a stretch or a
    /// random play, and no random play sits below a node that can play the
    /// same child twice in a row (restarting it would reshuffle it).
    pub open spec fn back_retraces(self) -> bool
        decreases self,
    {
        &&& (self is SinglePlay || self is PlayOnce || self is LoopNTimes || self is Stretch || self is RandomPlay)
        &&& self.repeats_a_child() ==> forall|i: int| 0 <= i < self.kids().len() ==> (
        #[trigger] self.kids()[i]).plays_in_order()
        &&& forall|i: int| 0 <= i < self.kids().len() ==> (#[trigger] self.kids()[i]).back_retraces()
    }
}

/// In a well-formed tracker made of lists, loops, stretches and random
/// plays, moving to the next song and then back again returns to the song
/// it started from. (A random play below a loop over a single child or
/// below a stretch is reshuffled when that child restarts, so there the
/// way back can end elsewhere; such trackers are left out.)
pub proof fn law_back_undoes_next(t: SongOpTracker, t1: SongOpTracker, t2: SongOpTracker)
    requires
        t.wf(),
        t.back_retraces(),
        t.next_result() == NextResult::Current,
        t.next_rel(t1),
        t1.back_rel(t2),
    ensures
        t1.back_result() == BackResult::Current,
        t2.path_ok(),
        t2.spec_path() == t.spec_path(),
    decreases t,
{
    lemma_next_keeps_wf(t, t1);
    lemma_back_keeps_wf(t1, t2);
    lemma_wf_path_ok(t2);
    let kids = t.kids();
    let len = kids.len() as int;
    let j = t.sel();
    assert(0 <= j < len);
    let m = choose|m: SongOpTracker| kids[j].next_rel(m) && #[trigger] t.after_next(t1, m);
    lemma_next_keeps_wf(kids[j], m);
    lemma_next_keeps_shape(kids[j], m);
    let kids2 = kids.update(j, m);
    if kids[j].next_result() == NextResult::Current {
        assert(t1.sel() == j);
        let m2 = choose|m2: SongOpTracker| t1.kids()[j].back_rel(m2) && #[trigger] t1.after_back(t2, m2);
        law_back_undoes_next(kids[j], m, m2);
        assert(!t1.steps_back());
        assert(t2.sel() == j);
        assert(t2.kids()[j] == m2);
        assert(t2.spec_path() =~= t.spec_path());
    } else {
        let c = t.cur() + 1;
        let k = t.sel_at(c);
        assert(t1.cur() == c);
        let st = t1.kids()[k];
        assert(kids2[k].start_rel(st));
        assert(kids2[k].wf());
        law_start_reaches_first_song(kids2[k], st);
        lemma_start_keeps_wf(kids2[k], st);
        lemma_start_keeps_shape(kids2[k], st);
        if let SongOpTracker::Stretch { current, length, .. } = t {
            let l = length as int;
            assert(c / l < len) by (nonlinear_arith)
                requires
                    c == current + 1,
                    current < len * l - 1,
                    l >= 1,
            ;
        }
        assert(t1.sel() == k);
        lemma_at_start_rewinds(st);
        assert(t1.steps_back());
        let m2 = choose|m2: SongOpTracker| st.back_rel(m2) && #[trigger] t1.after_back(t2, m2);
        lemma_back_keeps_wf(st, m2);
        lemma_back_keeps_shape(st, m2);
        let kids3 = t1.kids().update(k, m2);
        assert(t1.sel_at(t1.cur() - 1) == j);
        let e = t2.kids()[j];
        assert(kids3[j].end_rel(e));
        assert(kids3[j].wf());
        law_end_reaches_last_song(kids3[j], e);
        lemma_ended_is_at_end(kids[j]);
        if k == j {
            lemma_next_then_same_child_repeats(t);
            assert(kids[j].plays_in_order());
            lemma_same_shape_trans(kids[j], m, st);
            lemma_same_shape_trans(kids[j], st, m2);
            assert(kids3[j] == m2);
            lemma_shape_fixes_end(kids[j], kids3[j]);
        } else {
            assert(kids3[j] == m);
            lemma_ended_move_keeps_end(kids[j], m);
        }
        assert(t2.sel() == j);
        assert(t2.spec_path() =~= t.spec_path());
    }
}

/// Moving on from the current position of a well-formed node reaches the
/// same child again only in a node that can play a child twice in a row.
proof fn lemma_next_then_same_child_repeats(t: SongOpTracker)
    requires
        t.wf(),
        t.back_retraces(),
        !t.last_pos(),
        t.sel_at(t.cur() + 1) == t.sel(),
    ensures
        t.repeats_a_child(),
{
    let len = t.kids().len() as int;
    match t {
        SongOpTracker::LoopNTimes { current, .. } => {
            if len >= 2 {
                let cur = current as int;
                vstd::arithmetic::div_mod::lemma_fundamental_div_mod(cur, len);
                let q = cur / len;
                let r = cur % len;
                assert(cur == q * len + r) by (nonlinear_arith)
                    requires
                        cur == len * q + r,
                ;
                if r + 1 < len {
                    vstd::arithmetic::div_mod::lemma_fundamental_div_mod_converse(cur + 1, len, q, r + 1);
                } else {
                    assert(cur + 1 == (q + 1) * len + 0) by (nonlinear_arith)
                        requires
                            cur == q * len + r,
                            r + 1 == len,
                    ;
                    vstd::arithmetic::div_mod::lemma_fundamental_div_mod_converse(cur + 1, len, q + 1, 0);
                }
            }
        },
        SongOpTracker::Stretch { current, length, .. } => {
            if length == 1 {
                let cur = current as int;
                vstd::arithmetic::div_mod::lemma_fundamental_div_mod_converse(cur, 1, cur, 0);
                vstd::arithmetic::div_mod::lemma_fundamental_div_mod_converse(cur + 1, 1, cur + 1, 0);
            }
        },
        SongOpTracker::RandomPlay { current, randomized_indices, .. } => {
            lemma_kids_len_fits(t);
            lemma_covering_order_is_a_permutation(randomized_indices@, len as usize);
            assert(randomized_indices@[current as int] != randomized_indices@[current + 1]);
        },
        _ => {},
    }
}

/// Same shape is symmetric.
pub proof fn lemma_same_shape_sym(a: SongOpTracker, b: SongOpTracker)
    requires
        a.same_shape(b),
    ensures
        b.same_shape(a),
    decreases a,
{
    assert forall|i: int| 0 <= i < b.kids().len() implies (#[trigger] b.kids()[i]).same_shape(a.kids()[i]) by {
        lemma_same_shape_sym(a.kids()[i], b.kids()[i]);
    }
}

/// A sequence of `n` indexes that holds every index below `n` holds each
/// of them exactly once.
pub proof fn lemma_covering_order_is_a_permutation(o: Seq<usize>, n: usize)
    requires
        o.len() == n,
        forall|i: int| 0 <= i < n ==> o.contains(#[trigger] (i as usize)),
    ensures
        o.no_duplicates(),
{
    let all = Set::<usize>::range(0, n);
    vstd::set_lib::range_set_properties::<usize>(0, n);
    vstd::seq_lib::seq_to_set_is_finite(o);
    assert(all.subset_of(o.to_set())) by {
        assert forall|x: usize| all.contains(x) implies o.to_set().contains(x) by {
            assert(o.contains(x as int as usize));
        }
    }
    vstd::set_lib::lemma_len_subset(all, o.to_set());
    o.lemma_cardinality_of_set();
    o.lemma_no_dup_set_cardinality();
}

/// A random play plays each of its children exactly once: the positions of
/// a well-formed random play pick different children, and every child is
/// picked at some position.
pub proof fn law_random_play_visits_each_child_once(t: SongOpTracker)
    requires
        t is RandomPlay,
        t.wf(),
    ensures
        forall|p: int, q: int| 0 <= p < q < t.kids().len() ==> t.sel_at(p) != t.sel_at(q),
        forall|i: int| 0 <= i < t.kids().len() ==> #[trigger] t.picks(i),
{
    let o = t.order();
    let n = t.kids().len();
    lemma_kids_len_fits(t);
    lemma_covering_order_is_a_permutation(o, n as usize);
    assert forall|i: int| 0 <= i < n implies #[trigger] t.picks(i) by {
        assert(o.contains(i as usize));
        let p = choose|p: int| 0 <= p < o.len() && o[p] == i as usize;
        assert(t.sel_at(p) == i);
    }
}

/// A sequence of `n` different indexes below `n` holds every one of them.
pub proof fn lemma_distinct_order_covers(o: Seq<usize>, n: usize)
    requires
        o.len() == n,
        o.no_duplicates(),
        forall|k: int| 0 <= k < n ==> #[trigger] o[k] < n,
    ensures
        forall|i: int| 0 <= i < n ==> o.contains(#[trigger] (i as usize)),
{
    let all = Set::<usize>::range(0, n);
    vstd::set_lib::range_set_properties::<usize>(0, n);
    vstd::seq_lib::seq_to_set_is_finite(o);
    o.unique_seq_to_set();
    assert(o.to_set().subset_of(all)) by {
        assert forall|x: usize| o.to_set().contains(x) implies all.contains(x) by {
            let k = choose|k: int| 0 <= k < o.len() && o[k] == x;
            assert(o[k] < n);
        }
    }
    vstd::set_lib::lemma_subset_equality(o.to_set(), all);
    assert forall|i: int| 0 <= i < n implies o.contains(#[trigger] (i as usize)) by {
        assert(all.contains(i as usize));
        assert(o.to_set().contains(i as usize));
    }
}

/// A fresh tracker of a playable operation whose counts fit is
/// well-formed.
pub proof fn lemma_fresh_tracker_is_well_formed(t: SongOpTracker, op: RecursiveSongOp)
    requires
        t.tracks(op),
        op.playable(),
        op.counts_fit(),
    ensures
        t.wf(),
    decreases op,
{
    let n = op.kids().len();
    assert forall|i: int| 0 <= i < n implies (#[trigger] t.kids()[i]).wf() by {
        lemma_fresh_tracker_is_well_formed(t.kids()[i], op.kids()[i]);
    }
    if !(t is SinglePlay) {
        lemma_kids_len_fits(t);
        match (op, t) {
            (RecursiveSongOp::LoopNTimes(ops, k), SongOpTracker::LoopNTimes { total_loops, .. }) => {
                assert(ops@ == op.kids());
            },
            (RecursiveSongOp::Stretch(ops, k), SongOpTracker::Stretch { length, .. }) => {
                assert(ops@ == op.kids());
                assert(k >= 1) by (nonlinear_arith)
                    requires
                        1 <= k * ops@.len(),
                ;
            },
            (RecursiveSongOp::RandomPlay(_), SongOpTracker::RandomPlay { randomized_indices, .. }) => {
                lemma_distinct_order_covers(randomized_indices@, n as usize);
            },
            _ => {},
        }
    }
}

/// Setting the current song of a fresh tracker along a path that leads to
/// a song of its operation, then reading the current song, gives that path
/// back (for playable operations whose counts fit).
pub proof fn law_fresh_tracker_set_then_get(t: SongOpTracker, op: RecursiveSongOp, path: Seq<usize>, t1: SongOpTracker)
    requires
        t.tracks(op),
        op.playable(),
        op.counts_fit(),
        op.leads_to_song(path),
        t.set_rel(path, t1),
    ensures
        t.set_ok(path),
        t1.path_ok(),
        t1.spec_path() == path,
{
    lemma_fresh_tracker_is_well_formed(t, op);
    lemma_tracks_follows(t, op);
    law_set_then_get(t, op, path, t1);
}

/// `b` is what one move of `a` makes of it: forwards, backwards, to the
/// start or to the end.
pub open spec fn one_move(a: SongOpTracker, b: SongOpTracker) -> bool {
    a.next_rel(b) || a.back_rel(b) || a.start_rel(b) || a.end_rel(b)
}

/// Each tracker of the sequence is what one move makes of the one before.
pub open spec fn moved_along(ts: Seq<SongOpTracker>) -> bool {
    forall|i: int| 0 < i < ts.len() ==> one_move(ts[i - 1], #[trigger] ts[i])
}

/// After any number of moves, a tracker that started well-formed and
/// following an operation is still well-formed, and its current song can
/// be found and is a song of that operation.
pub proof fn law_current_song_after_any_moves(ts: Seq<SongOpTracker>, op: RecursiveSongOp)
    requires
        ts.len() > 0,
        ts[0].wf(),
        ts[0].follows(op),
        moved_along(ts),
    ensures
        forall|i: int| 0 <= i < ts.len() ==> {
            &&& (#[trigger] ts[i]).wf()
            &&& ts[i].follows(op)
            &&& ts[i].path_ok()
            &&& op.leads_to_song(ts[i].spec_path())
        },
    decreases ts.len(),
{
    let n = ts.len() as int;
    if n > 1 {
        let front = ts.drop_last();
        assert(moved_along(front)) by {
            assert forall|i: int| 0 < i < front.len() implies one_move(front[i - 1], #[trigger] front[i]) by {
                assert(one_move(ts[i - 1], ts[i]));
            }
        }
        law_current_song_after_any_moves(front, op);
        let a = ts[n - 2];
        let b = ts[n - 1];
        assert(front[n - 2] == a);
        assert(one_move(a, b));
        law_well_formed_trackers_keep_moving(a, b);
        law_moves_keep_following(a, b, Seq::empty(), op);
        assert forall|i: int| 0 <= i < n implies {
            &&& (#[trigger] ts[i]).wf()
            &&& ts[i].follows(op)
            &&& ts[i].path_ok()
            &&& op.leads_to_song(ts[i].spec_path())
        } by {
            if i < n - 1 {
                assert(front[i] == ts[i]);
            } else {
                lemma_wf_path_ok(b);
                law_current_path_leads_to_song(b, op);
            }
        }
    } else {
        lemma_wf_path_ok(ts[0]);
        law_current_path_leads_to_song(ts[0], op);
    }
}

impl SongOpTracker {
    /// Every index of the path names an existing child, as far as the path
    /// goes through lists.
    pub open spec fn path_fits(self, path: Seq<usize>) -> bool
        decreases self,
    {
        path.len() == 0 || self is SinglePlay || (path[0] < self.kids().len() && self.kids()[path[0] as int].path_fits(
            path.drop_first(),
        ))
    }
}

/// Setting the current song of a well-formed tracker along a path whose
/// every index names a child keeps it well-formed.
pub proof fn lemma_set_keeps_wf(t: SongOpTracker, path: Seq<usize>, t1: SongOpTracker)
    requires
        t.wf(),
        t.path_fits(path),
        t.set_rel(path, t1),
    ensures
        t1.wf(),
    decreases t,
{
    if !(t is SinglePlay || path.len() == 0) {
        let kids = t.kids();
        let len = kids.len() as int;
        let i = path[0];
        let c = t1.cur();
        assert(i < len);
        match t {
            SongOpTracker::LoopNTimes { total_loops, .. } => {
                vstd::arithmetic::div_mod::lemma_small_mod(i as nat, len as nat);
                assert(total_loops >= 1) by (nonlinear_arith)
                    requires
                        1 <= total_loops * len,
                ;
                assert(i < total_loops * len) by (nonlinear_arith)
                    requires
                        i < len,
                        total_loops >= 1,
                ;
            },
            SongOpTracker::Stretch { length, .. } => {
                let l = length as int;
                assert(i * l <= (len - 1) * l) by (nonlinear_arith)
                    requires
                        0 <= i <= len - 1,
                        l >= 0,
                ;
                assert((len - 1) * l <= len * l - 1) by (nonlinear_arith)
                    requires
                        l >= 1,
                ;
                assert(l * len == len * l) by (nonlinear_arith);
                assert(c == i * l);
                vstd::arithmetic::div_mod::lemma_fundamental_div_mod_converse(i * l, l, i as int, 0);
            },
            SongOpTracker::RandomPlay { randomized_indices, .. } => {
                assert(randomized_indices@.contains(i as int as usize));
            },
            _ => {},
        }
        assert(t1.sel() == i);
        if path.len() == 1 {
            assert(kids.update(i as int, kids[i as int]) =~= kids);
            lemma_replaced_child_keeps_wf(t, t1, i as int);
        } else {
            lemma_set_keeps_wf(kids[i as int], path.drop_first(), t1.kids()[i as int]);
            lemma_replaced_child_keeps_wf(t, t1, i as int);
        }
    }
}

/// Along a run of `move_next` calls from a fresh random play over single
/// songs, the counter goes up by one at each call while the order and the
/// children stay as they were.
proof fn lemma_random_play_run_steps(op: RecursiveSongOp, ts: Seq<SongOpTracker>)
    requires
        op is RandomPlay,
        forall|i: int| 0 <= i < op.kids().len() ==> (#[trigger] op.kids()[i]) is SinglePlay,
        0 < ts.len() <= op.kids().len(),
        ts[0].tracks(op),
        forall|i: int| 0 < i < ts.len() ==> ts[i - 1].next_rel(#[trigger] ts[i]),
    ensures
        forall|i: int| 0 <= i < ts.len() ==> {
            &&& (#[trigger] ts[i]) is RandomPlay
            &&& ts[i].cur() == i
            &&& ts[i].order() == ts[0].order()
            &&& ts[i].kids() == ts[0].kids()
        },
    decreases ts.len(),
{
    let n = ts.len() as int;
    if n > 1 {
        let front = ts.drop_last();
        assert forall|i: int| 0 < i < front.len() implies front[i - 1].next_rel(#[trigger] front[i]) by {
            assert(ts[i - 1].next_rel(ts[i]));
        }
        lemma_random_play_run_steps(op, front);
        let a = ts[n - 2];
        let b = ts[n - 1];
        assert(front[n - 2] == a);
        assert(a.next_rel(b));
        let kids = a.kids();
        let len = kids.len() as int;
        let t0 = ts[0];
        assert(len == op.kids().len());
        assert forall|i: int| 0 <= i < len implies (#[trigger] kids[i]) is SinglePlay by {
            assert(t0.kids()[i].tracks(op.kids()[i]));
        }
        let j = a.sel();
        assert(j == t0.order()[n - 2]);
        assert(0 <= j < len);
        let m = choose|m: SongOpTracker| kids[j].next_rel(m) && #[trigger] a.after_next(b, m);
        assert(m == kids[j]);
        assert(kids.update(j, m) =~= kids);
        assert(!a.last_pos());
        let k = a.sel_at(a.next_cur());
        assert(kids[k].start_rel(b.kids()[k]));
        assert(b.kids()[k] == kids[k]);
        assert(b.kids() =~= kids);
        assert forall|i: int| 0 <= i < n implies {
            &&& (#[trigger] ts[i]) is RandomPlay
            &&& ts[i].cur() == i
            &&& ts[i].order() == ts[0].order()
            &&& ts[i].kids() == ts[0].kids()
        } by {
            if i < n - 1 {
                assert(front[i] == ts[i]);
            }
        }
    }
}

/// A random play over single songs: some tracker of the run plays child
/// `c`.
pub open spec fn run_plays(ts: Seq<SongOpTracker>, c: int) -> bool {
    exists|i: int| 0 <= i < ts.len() && (#[trigger] ts[i]).spec_path() == seq![c as usize]
}

/// A fresh random play over `n >= 1` single songs plays each of them
/// exactly once. In the run of trackers that `n - 1` calls of `move_next`
/// make (each tracker made from the one before), every call answers
/// Current, the call after the last one answers Ended, each tracker's
/// current song is the child at its place in the play order, no child is
/// played twice, and every child is played.
pub proof fn law_random_play_run(op: RecursiveSongOp, ts: Seq<SongOpTracker>)
    requires
        op is RandomPlay,
        op.kids().len() > 0,
        forall|i: int| 0 <= i < op.kids().len() ==> (#[trigger] op.kids()[i]) is SinglePlay,
        ts.len() == op.kids().len(),
        ts[0].tracks(op),
        forall|i: int| 0 < i < ts.len() ==> ts[i - 1].next_rel(#[trigger] ts[i]),
    ensures
        forall|i: int| 0 <= i < ts.len() - 1 ==> (#[trigger] ts[i]).next_result() == NextResult::Current,
        ts.last().next_result() == NextResult::Ended,
        forall|i: int| 0 <= i < ts.len() ==> (#[trigger] ts[i]).path_ok() && ts[i].spec_path() == seq![
            ts[0].order()[i],
        ],
        forall|p: int, q: int| 0 <= p < q < ts.len() ==> ts[p].spec_path() != ts[q].spec_path(),
        forall|c: int| 0 <= c < ts.len() ==> #[trigger] run_plays(ts, c),
{
    let n = ts.len() as int;
    let t0 = ts[0];
    lemma_random_play_run_steps(op, ts);
    assert forall|i: int| 0 <= i < n implies (#[trigger] t0.kids()[i]) is SinglePlay by {
        assert(t0.kids()[i].tracks(op.kids()[i]));
    }
    assert(op.playable() && op.counts_fit()) by {
        assert forall|i: int| 0 <= i < n implies (#[trigger] op.kids()[i]).playable() && op.kids()[i].counts_fit() by {
            assert(op.kids()[i] is SinglePlay);
        }
    }
    lemma_fresh_tracker_is_well_formed(t0, op);
    law_random_play_visits_each_child_once(t0);
    let o = t0.order();
    assert forall|i: int| 0 <= i < n implies (#[trigger] ts[i]).path_ok() && ts[i].spec_path() == seq![o[i]] by {
        let t = ts[i];
        assert(t is RandomPlay && t.cur() == i && t.order() == o && t.kids() == t0.kids());
        assert(o.len() == n);
        assert(t.sel() == o[i]);
        assert(o[i] < n);
        let k = t.kids()[o[i] as int];
        assert(k is SinglePlay);
        assert(k.path_ok() && k.spec_path() == Seq::<usize>::empty());
        assert(t.sel_ok());
        assert(t.spec_path() =~= seq![o[i]]);
    }
    assert forall|i: int| 0 <= i < n - 1 implies (#[trigger] ts[i]).next_result() == NextResult::Current by {
        assert(ts[i].kids()[ts[i].sel()] is SinglePlay);
    }
    assert(ts.last() == ts[n - 1]);
    assert(ts[n - 1].kids()[ts[n - 1].sel()] is SinglePlay);
    assert forall|p: int, q: int| 0 <= p < q < n implies ts[p].spec_path() != ts[q].spec_path() by {
        assert(t0.sel_at(p) != t0.sel_at(q));
        assert(ts[p].spec_path()[0] == o[p]);
        assert(ts[q].spec_path()[0] == o[q]);
    }
    assert forall|c: int| 0 <= c < n implies #[trigger] run_plays(ts, c) by {
        assert(t0.picks(c));
        let p = choose|p: int| 0 <= p < t0.kids().len() && #[trigger] t0.sel_at(p) == c;
        assert(ts[p].spec_path() == seq![c as usize]);
    }
}

} // verus!
