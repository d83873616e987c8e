//! Song requests, and the feed items from which they are made.

use vstd::prelude::*;

verus! {

/// One song as the backend feed delivers it.
#[derive(Debug, PartialEq, Eq)]
pub struct BackendSong {
    /// Who asked for the song.
    pub mail: String,
    pub song_name: String,
    pub artist_name: String,
    /// The token by which the feed tells its items apart.
    pub uuid: String,
}

/// A feed item as a mathematical value.
pub struct BackendSongView {
    pub mail: Seq<char>,
    pub song_name: Seq<char>,
    pub artist_name: Seq<char>,
    pub uuid: Seq<char>,
}

impl View for BackendSong {
    type V = BackendSongView;

    open spec fn view(&self) -> BackendSongView {
        BackendSongView {
            mail: self.mail@,
            song_name: self.song_name@,
            artist_name: self.artist_name@,
            uuid: self.uuid@,
        }
    }
}

/// A queued song.
#[derive(Debug, PartialEq, Eq)]
pub struct Request {
    /// Given by the store on insertion; never given twice.
    pub id: i64,
    /// Who asked for the song.
    pub submitter: String,
    pub song_name: String,
    pub artist_name: String,
    /// The feed's token for this request; no two stored requests share one.
    pub external_key: String,
    pub played: bool,
    /// The place of this request among those of its submitter, from 1.
    pub rank: u64,
}

/// A queued song as a mathematical value.
pub struct RequestView {
    pub id: int,
    pub submitter: Seq<char>,
    pub song_name: Seq<char>,
    pub artist_name: Seq<char>,
    pub external_key: Seq<char>,
    pub played: bool,
    pub rank: nat,
}

impl View for Request {
    type V = RequestView;

    open spec fn view(&self) -> RequestView {
        RequestView {
            id: self.id as int,
            submitter: self.submitter@,
            song_name: self.song_name@,
            artist_name: self.artist_name@,
            external_key: self.external_key@,
            played: self.played,
            rank: self.rank as nat,
        }
    }
}

impl Clone for Request {
    fn clone(&self) -> (r: Self)
        ensures
            r == *self,
    {
        Request {
            id: self.id,
            submitter: self.submitter.clone(),
            song_name: self.song_name.clone(),
            artist_name: self.artist_name.clone(),
            external_key: self.external_key.clone(),
            played: self.played,
            rank: self.rank,
        }
    }
}

impl Clone for BackendSong {
    fn clone(&self) -> (r: Self)
        ensures
            r == *self,
    {
        BackendSong {
            mail: self.mail.clone(),
            song_name: self.song_name.clone(),
            artist_name: self.artist_name.clone(),
            uuid: self.uuid.clone(),
        }
    }
}

/// The request, not yet played, that `song` becomes under `id` and `rank`.
pub open spec fn new_request(id: int, song: BackendSongView, rank: nat) -> RequestView {
    RequestView {
        id,
        submitter: song.mail,
        song_name: song.song_name,
        artist_name: song.artist_name,
        external_key: song.uuid,
        played: false,
        rank,
    }
}

/// The requests of `rows` as mathematical values, in order.
pub open spec fn request_views(rows: Seq<Request>) -> Seq<RequestView> {
    rows.map_values(|r: Request| r@)
}

/// The feed items of `songs` as mathematical values, in order.
pub open spec fn song_views(songs: Seq<BackendSong>) -> Seq<BackendSongView> {
    songs.map_values(|s: BackendSong| s@)
}

} // verus!
