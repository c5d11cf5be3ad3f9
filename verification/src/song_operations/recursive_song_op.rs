use vstd::prelude::*;

verus! {

/// Key of a song (its YouTube id).
pub type IDKey = String;

/// Whether playing an operation can go on forever.
#[derive(Clone, Debug, PartialEq, Eq, Structural)]
pub enum InfLoopType {
    Never,
    Maybe,
    Always,
}

/// A tree of playback instructions.
#[derive(Debug)]
pub enum RecursiveSongOp {
    /// Plays a song.
    SinglePlay(IDKey),
    /// Plays a list of songs once.
    PlayOnce(Vec<RecursiveSongOp>),
    /// Loops a list of songs entirely N times.
    LoopNTimes(Vec<RecursiveSongOp>, u32),
    /// Loops each song individually N times.
    Stretch(Vec<RecursiveSongOp>, u32),
    /// Loops list indefinitely.
    InfiniteLoop(Vec<RecursiveSongOp>),
    /// Plays a random selection of songs from the provided list.
    RandomPlay(Vec<RecursiveSongOp>),
    /// Plays a single random song from the provided list.
    SingleRandom(Vec<RecursiveSongOp>),
    /// Plays random songs indefinitely until stopped.
    InfiniteRandom(Vec<RecursiveSongOp>),
}

impl RecursiveSongOp {
    /// The sub-operations of a node (empty for a single song).
    pub open spec fn kids(self) -> Seq<RecursiveSongOp> {
        match self {
            RecursiveSongOp::SinglePlay(_) => Seq::empty(),
            RecursiveSongOp::PlayOnce(ops) => ops@,
            RecursiveSongOp::LoopNTimes(ops, _) => ops@,
            RecursiveSongOp::Stretch(ops, _) => ops@,
            RecursiveSongOp::InfiniteLoop(ops) => ops@,
            RecursiveSongOp::RandomPlay(ops) => ops@,
            RecursiveSongOp::SingleRandom(ops) => ops@,
            RecursiveSongOp::InfiniteRandom(ops) => ops@,
        }
    }

    /// The songs of the sub-operations from index `i` on, in order.
    pub open spec fn songs_from(self, i: int) -> Seq<IDKey>
        decreases self, self.kids().len() - i,
    {
        if i < 0 || i >= self.kids().len() {
            Seq::empty()
        } else {
            self.kids()[i].songs() + self.songs_from(i + 1)
        }
    }

    /// The songs of an operation tree in the order of its lists.
    pub open spec fn songs(self) -> Seq<IDKey>
        decreases self, self.kids().len() + 1,
    {
        match self {
            RecursiveSongOp::SinglePlay(k) => seq![k],
            _ => self.songs_from(0),
        }
    }

    /// Validity of an operation tree: a single song is valid, and a list
    /// operation is valid when every one of its sub-operations is.
    pub open spec fn spec_is_valid(self) -> bool
        decreases self,
    {
        match self {
            RecursiveSongOp::SinglePlay(_) => true,
            RecursiveSongOp::PlayOnce(ops)
            | RecursiveSongOp::LoopNTimes(ops, _)
            | RecursiveSongOp::Stretch(ops, _)
            | RecursiveSongOp::InfiniteLoop(ops)
            | RecursiveSongOp::RandomPlay(ops)
            | RecursiveSongOp::SingleRandom(ops)
            | RecursiveSongOp::InfiniteRandom(ops) => Self::all_valid(ops@),
        }
    }

    /// Validity of every operation of a list.
    pub open spec fn all_valid(ops: Seq<RecursiveSongOp>) -> bool
        decreases ops,
    {
        forall|i: int| 0 <= i < ops.len() ==> (#[trigger] ops[i]).spec_is_valid()
    }

    /// Loop type found by scanning the sub-operations from index `i` on:
    /// the loop type of the first one that is not `Never` (seen as `Maybe`
    /// under a single random choice), or `Never` when none is left.
    pub open spec fn loop_type_from(self, i: int) -> InfLoopType
        decreases self, self.kids().len() - i,
    {
        match self {
            RecursiveSongOp::SinglePlay(_) => InfLoopType::Never,
            RecursiveSongOp::InfiniteLoop(_) | RecursiveSongOp::InfiniteRandom(_) => InfLoopType::Always,
            _ => {
                if i < 0 || i >= self.kids().len() {
                    InfLoopType::Never
                } else {
                    let c = self.kids()[i].loop_type_from(0);
                    if c != InfLoopType::Never {
                        if self is SingleRandom {
                            InfLoopType::Maybe
                        } else {
                            c
                        }
                    } else {
                        self.loop_type_from(i + 1)
                    }
                }
            },
        }
    }

    /// Whether playing the operation may go on forever:
    /// infinite operations always do, a single song never does, a random
    /// single choice may when one of its options does, and the other list
    /// operations take the loop type of their first sub-operation that loops.
    pub open spec fn spec_loop_type(self) -> InfLoopType {
        self.loop_type_from(0)
    }

    /// Every random choice in the tree has something to choose from, so
    /// that a tracker can be built for it.
    pub open spec fn choices_nonempty(self) -> bool
        decreases self,
    {
        &&& (self is SingleRandom || self is InfiniteRandom) ==> self.kids().len() > 0
        &&& forall|i: int| 0 <= i < self.kids().len() ==> (#[trigger] self.kids()[i]).choices_nonempty()
    }

    /// Every list in the tree is non-empty and every stretch repeats its
    /// songs at least once, so that a fresh tracker points at a song.
    pub open spec fn playable(self) -> bool
        decreases self,
    {
        &&& !(self is SinglePlay) ==> self.kids().len() > 0
        &&& (self matches RecursiveSongOp::Stretch(_, n) ==> n > 0)
        &&& forall|i: int| 0 <= i < self.kids().len() ==> (#[trigger] self.kids()[i]).playable()
    }

    /// Every loop repeats at least once, and every loop and stretch makes a
    /// sequence whose length (count times list length) fits in `usize`.
    pub open spec fn counts_fit(self) -> bool
        decreases self,
    {
        &&& (self matches RecursiveSongOp::LoopNTimes(ops, n) ==> 1 <= n * ops@.len() <= usize::MAX)
        &&& (self matches RecursiveSongOp::Stretch(ops, n) ==> 1 <= n * ops@.len() <= usize::MAX)
        &&& forall|i: int| 0 <= i < self.kids().len() ==> (#[trigger] self.kids()[i]).counts_fit()
    }

    /// Following the indexes of `path` from this node, one child per index,
    /// ends at a single song.
    pub open spec fn leads_to_song(self, path: Seq<usize>) -> bool
        decreases self,
    {
        if path.len() == 0 {
            self is SinglePlay
        } else {
            path[0] < self.kids().len() && self.kids()[path[0] as int].leads_to_song(path.drop_first())
        }
    }

    /// The key of the single song that a path of indexes leads to.
    pub open spec fn song_at(self, path: Seq<usize>) -> Option<IDKey>
        decreases self,
    {
        if path.len() == 0 {
            match self {
                RecursiveSongOp::SinglePlay(k) => Some(k),
                _ => None,
            }
        } else if path[0] < self.kids().len() {
            self.kids()[path[0] as int].song_at(path.drop_first())
        } else {
            None
        }
    }

    /// Checks that every random choice in the tree has something to choose
    /// from.
    pub fn has_choices(&self) -> (r: bool)
        ensures
            r == self.choices_nonempty(),
        decreases self,
    {
        let (ops, random) = match self {
            RecursiveSongOp::SinglePlay(_) => {
                return true;
            },
            RecursiveSongOp::SingleRandom(ops) | RecursiveSongOp::InfiniteRandom(ops) => (ops, true),
            RecursiveSongOp::PlayOnce(ops)
            | RecursiveSongOp::LoopNTimes(ops, _)
            | RecursiveSongOp::Stretch(ops, _)
            | RecursiveSongOp::InfiniteLoop(ops)
            | RecursiveSongOp::RandomPlay(ops) => (ops, false),
        };
        if random && ops.len() == 0 {
            return false;
        }
        let mut i: usize = 0;
        while i < ops.len()
            invariant
                i <= ops@.len(),
                ops@ == self.kids(),
                forall|k: int| 0 <= k < i ==> (#[trigger] ops@[k]).choices_nonempty(),
            decreases ops@.len() - i,
        {
            if !ops[i].has_choices() {
                return false;
            }
            i = i + 1;
        }
        true
    }

    /// Checks that every operation of a list is valid.
    fn list_is_valid(ops: &Vec<RecursiveSongOp>) -> (r: bool)
        ensures
            r == Self::all_valid(ops@),
        decreases ops@,
    {
        let mut i: usize = 0;
        while i < ops.len()
            invariant
                i <= ops@.len(),
                forall|k: int| 0 <= k < i ==> (#[trigger] ops@[k]).spec_is_valid(),
            decreases ops@.len() - i,
        {
            if !ops[i].is_valid() {
                return false;
            }
            i = i + 1;
        }
        true
    }

    /// Checks that the operation tree is valid.
    pub fn is_valid(&self) -> (r: bool)
        ensures
            r == self.spec_is_valid(),
        decreases self,
    {
        match self {
            RecursiveSongOp::SinglePlay(_) => true,
            RecursiveSongOp::PlayOnce(ops)
            | RecursiveSongOp::LoopNTimes(ops, _)
            | RecursiveSongOp::Stretch(ops, _)
            | RecursiveSongOp::InfiniteLoop(ops)
            | RecursiveSongOp::RandomPlay(ops)
            | RecursiveSongOp::SingleRandom(ops)
            | RecursiveSongOp::InfiniteRandom(ops) => Self::list_is_valid(ops),
        }
    }

    /// Computes whether playing the operation may go on forever.
    pub fn loop_type(&self) -> (r: InfLoopType)
        ensures
            r == self.spec_loop_type(),
        decreases self,
    {
        match self {
            RecursiveSongOp::InfiniteLoop(_) | RecursiveSongOp::InfiniteRandom(_) => InfLoopType::Always,
            RecursiveSongOp::SinglePlay(_) => InfLoopType::Never,
            RecursiveSongOp::PlayOnce(ops)
            | RecursiveSongOp::LoopNTimes(ops, _)
            | RecursiveSongOp::Stretch(ops, _)
            | RecursiveSongOp::RandomPlay(ops)
            | RecursiveSongOp::SingleRandom(ops) => {
                let single = matches!(self, RecursiveSongOp::SingleRandom(_));
                let mut i: usize = ops.len();
                let mut found = InfLoopType::Never;
                // scanning from the back leaves the first looping operation's type
                while i > 0
                    invariant
                        i <= ops@.len(),
                        ops@ == self.kids(),
                        single == (*self is SingleRandom),
                        found == self.loop_type_from(i as int),
                        !(*self is SinglePlay || *self is InfiniteLoop || *self is InfiniteRandom),
                    decreases i,
                {
                    i = i - 1;
                    let c = ops[i].loop_type();
                    if c != InfLoopType::Never {
                        found = if single { InfLoopType::Maybe } else { c };
                    }
                }
                found
            },
        }
    }
}

/// Every operation tree is valid: validity holds of single songs and
/// carries over to every list of valid operations.
pub proof fn law_every_operation_is_valid(op: RecursiveSongOp)
    ensures
        op.spec_is_valid(),
    decreases op,
{
    match op {
        RecursiveSongOp::SinglePlay(_) => {},
        RecursiveSongOp::PlayOnce(ops)
        | RecursiveSongOp::LoopNTimes(ops, _)
        | RecursiveSongOp::Stretch(ops, _)
        | RecursiveSongOp::InfiniteLoop(ops)
        | RecursiveSongOp::RandomPlay(ops)
        | RecursiveSongOp::SingleRandom(ops)
        | RecursiveSongOp::InfiniteRandom(ops) => {
            assert forall|i: int| 0 <= i < ops@.len() implies (#[trigger] ops@[i]).spec_is_valid() by {
                law_every_operation_is_valid(ops@[i]);
            }
            assert(RecursiveSongOp::all_valid(ops@));
        },
    }
}

/// Scanning the children of a list operation from `i` on, past children
/// that never loop, reaches child `k`.
proof fn lemma_scan_passes_non_looping(op: RecursiveSongOp, i: int, k: int)
    requires
        !(op is SinglePlay || op is InfiniteLoop || op is InfiniteRandom),
        0 <= i <= k <= op.kids().len(),
        forall|j: int| i <= j < k ==> (#[trigger] op.kids()[j]).spec_loop_type() == InfLoopType::Never,
    ensures
        op.loop_type_from(i) == op.loop_type_from(k),
    decreases k - i,
{
    if i < k {
        assert(op.kids()[i].spec_loop_type() == InfLoopType::Never);
        lemma_scan_passes_non_looping(op, i + 1, k);
    }
}

/// Whether an operation may play forever follows from its children.
/// An operation that plays every one of its children (play once, loop n
/// times, stretch, random play) loops as its first child that may loop
/// does, and never loops when none does; a single random choice may loop
/// exactly when one of its options may; infinite loops and infinite random
/// plays always loop, and a single song never does.
pub proof fn law_loop_type_follows_children(op: RecursiveSongOp, k: int)
    ensures
        op is SinglePlay ==> op.spec_loop_type() == InfLoopType::Never,
        op is InfiniteLoop || op is InfiniteRandom ==> op.spec_loop_type() == InfLoopType::Always,
        (op is PlayOnce || op is LoopNTimes || op is Stretch || op is RandomPlay) ==> {
            &&& (0 <= k < op.kids().len() && op.kids()[k].spec_loop_type() != InfLoopType::Never && forall|j: int|
                0 <= j < k ==> (#[trigger] op.kids()[j]).spec_loop_type() == InfLoopType::Never)
                ==> op.spec_loop_type() == op.kids()[k].spec_loop_type()
            &&& (forall|j: int| 0 <= j < op.kids().len() ==> (#[trigger] op.kids()[j]).spec_loop_type()
                == InfLoopType::Never) ==> op.spec_loop_type() == InfLoopType::Never
        },
        op is SingleRandom ==> {
            &&& (0 <= k < op.kids().len() && op.kids()[k].spec_loop_type() != InfLoopType::Never)
                ==> op.spec_loop_type() == InfLoopType::Maybe
            &&& (forall|j: int| 0 <= j < op.kids().len() ==> (#[trigger] op.kids()[j]).spec_loop_type()
                == InfLoopType::Never) ==> op.spec_loop_type() == InfLoopType::Never
        },
{
    if !(op is SinglePlay || op is InfiniteLoop || op is InfiniteRandom) {
        let n = op.kids().len() as int;
        if forall|j: int| 0 <= j < n ==> (#[trigger] op.kids()[j]).spec_loop_type() == InfLoopType::Never {
            lemma_scan_passes_non_looping(op, 0, n);
        }
        if 0 <= k < n && op.kids()[k].spec_loop_type() != InfLoopType::Never {
            if !(op is SingleRandom) && forall|j: int| 0 <= j < k ==> (#[trigger] op.kids()[j]).spec_loop_type()
                == InfLoopType::Never {
                lemma_scan_passes_non_looping(op, 0, k);
            }
            if op is SingleRandom {
                lemma_single_random_may_loop(op, 0, k);
            }
        }
    }
}

/// A single random choice with an option at or after `i` that may loop
/// may loop from `i` on.
proof fn lemma_single_random_may_loop(op: RecursiveSongOp, i: int, k: int)
    requires
        op is SingleRandom,
        0 <= i <= k < op.kids().len(),
        op.kids()[k].spec_loop_type() != InfLoopType::Never,
    ensures
        op.loop_type_from(i) == InfLoopType::Maybe,
    decreases k - i,
{
    if op.kids()[i].spec_loop_type() == InfLoopType::Never {
        lemma_single_random_may_loop(op, i + 1, k);
    }
}

} // verus!
