use vstd::prelude::*;

verus! {

/// A normalised track record.
#[derive(Debug, Clone, PartialEq, Eq, Hash)]
pub struct Song {
    pub id: String,
    pub name: String,
    pub artists: Vec<String>,
    /// Image URLs, largest first; may be empty.
    pub images: Vec<String>,
}

/// The value a song stands for: its four fields as sequences of characters.
pub struct SongView {
    pub id: Seq<char>,
    pub name: Seq<char>,
    pub artists: Seq<Seq<char>>,
    pub images: Seq<Seq<char>>,
}

pub open spec fn strings_view(v: Seq<String>) -> Seq<Seq<char>> {
    v.map_values(|s: String| s@)
}

impl View for Song {
    type V = SongView;

    open spec fn view(&self) -> SongView {
        SongView {
            id: self.id@,
            name: self.name@,
            artists: strings_view(self.artists@),
            images: strings_view(self.images@),
        }
    }
}

/// A track as the remote source describes it. Tracks that exist only on the
/// listener's device carry no id.
#[derive(Debug, PartialEq, Eq)]
pub struct RawTrack {
    pub id: Option<String>,
    pub name: String,
    pub artists: Vec<String>,
    pub images: Vec<String>,
}

/// One entry of a listing: a track, or something that is none (an episode, a
/// removed track).
#[derive(Debug, PartialEq, Eq)]
pub struct RawEntry {
    pub track: Option<RawTrack>,
}

/// Why an entry gives no song.
#[derive(Debug, PartialEq, Eq)]
pub enum SkipReason {
    /// The entry holds no playable track.
    NotATrack,
    /// The track, of the given name, has no id.
    MissingId { name: String },
}

/// What converting an entry gives, over views: the song, or `None` for a skip.
pub open spec fn entry_song(e: RawEntry) -> Option<SongView> {
    match e.track {
        Some(t) => match t.id {
            Some(id) => Some(
                SongView {
                    id: id@,
                    name: t.name@,
                    artists: strings_view(t.artists@),
                    images: strings_view(t.images@),
                },
            ),
            None => None,
        },
        None => None,
    }
}

impl Song {
    /// Converts a track; one without an id is skipped.
    pub fn try_from_track(t: RawTrack) -> (r: Result<Song, SkipReason>)
        ensures
            (r is Ok) <==> (t.id is Some),
            r matches Ok(s) ==> s.id == t.id->Some_0 && s.name == t.name && s.artists == t.artists
                && s.images == t.images,
            r matches Err(e) ==> e == (SkipReason::MissingId { name: t.name }),
    {
        match t.id {
            Some(id) => Ok(Song { id, name: t.name, artists: t.artists, images: t.images }),
            None => Err(SkipReason::MissingId { name: t.name }),
        }
    }

    /// Converts a listing entry: it is skipped when it holds no track, or a
    /// track without an id. Never fails otherwise.
    pub fn try_from_entry(e: RawEntry) -> (r: Result<Song, SkipReason>)
        ensures
            (r is Ok) <==> (entry_song(e) is Some),
            r matches Ok(s) ==> entry_song(e) == Some(s@),
            e.track is None ==> r == Err::<Song, SkipReason>(SkipReason::NotATrack),
            e.track matches Some(t) ==> (t.id is None ==> r == Err::<Song, SkipReason>(
                SkipReason::MissingId { name: t.name },
            )),
    {
        match e.track {
            Some(t) => Song::try_from_track(t),
            None => Err(SkipReason::NotATrack),
        }
    }
}

} // verus!
