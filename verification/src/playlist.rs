use vstd::prelude::*;

use uuid::Uuid;

use crate::song_operations::song_op_constructor::{SongOpConstructor, SongOpMessage};
use crate::unique_ids::new_v4;

verus! {

/// A named playlist and the constructor of its songs.
#[derive(Debug)]
pub struct Playlist {
    pub id: Uuid,
    pub name: String,
    pub constructor: SongOpConstructor,
}

/// A summary of a playlist.
#[derive(Debug)]
pub struct PlaylistHeader {
    pub id: Uuid,
    pub name: String,
    pub num_of_songs: usize,
}

/// What the playlist view reports.
#[derive(Debug)]
pub enum PlaylistMessage {
    ConstructorMessage(SongOpMessage),
    NameEdited(String),
    Save,
}

impl Playlist {
    /// A fresh playlist: a new random id, no name, an empty play-once
    /// constructor.
    pub fn default() -> (r: Self)
        ensures
            r.name@ == Seq::<char>::empty(),
            r.constructor.list@.len() == 0,
            r.constructor.operation == crate::song_operations::ActualRecursiveOps::PlayOnce,
            r.constructor.collapsible,
            !r.constructor.collapsed,
            r.constructor.n == 1,
    {
        Playlist { id: new_v4(), name: String::new(), constructor: SongOpConstructor::default() }
    }

    /// Handles a message of the playlist itself: a new name is kept;
    /// the constructor's messages and saving are handled elsewhere.
    pub fn update(&mut self, message: PlaylistMessage)
        ensures
            final(self).id == old(self).id,
            final(self).constructor == old(self).constructor,
            message matches PlaylistMessage::NameEdited(value) ==> final(self).name == value,
            !(message is NameEdited) ==> final(self).name == old(self).name,
    {
        match message {
            PlaylistMessage::NameEdited(value) => {
                self.name = value;
            },
            _ => {},
        }
    }
}

impl PlaylistHeader {
    /// The header of a playlist: its id, its name, and how many songs its
    /// constructor holds, nested groups included.
    pub fn from(value: &Playlist) -> (r: Self)
        ensures
            r.id == value.id,
            r.name == value.name,
            r.num_of_songs == value.constructor.song_keys().len(),
    {
        PlaylistHeader {
            id: value.id,
            name: value.name.clone(),
            num_of_songs: value.constructor.all_song_keys_rec().len(),
        }
    }
}

} // verus!
