pub mod recursive_song_op;

pub use recursive_song_op::{InfLoopType, RecursiveSongOp};
pub mod song_op_tracker;

pub use song_op_tracker::{BackResult, NextResult, OperationTracker, SongOpTracker};
pub mod song_op_constructor;

pub use song_op_constructor::{
    ActualRecursiveOps, CItemMessage, ConstructorCommand, ConstructorItem, ItemId, SongOpConstructor,
    SongOpMessage, TreeDirected, UpdateResult,
};
