use vstd::prelude::*;

use rustfm_scrobble::Scrobble;

use crate::text::owned;

verus! {

/// Tracks of at most this many milliseconds are never scrobbled.
pub const MIN_DURATION_MS: u64 = 30_000;

/// The listening threshold never exceeds four minutes (in nanoseconds).
pub const MAX_THRESHOLD_NANOS: u64 = 240_000_000_000;

/// A played track: its name, artist, album and length in milliseconds.
#[derive(Debug)]
pub struct Track {
    name: String,
    artist: String,
    album: String,
    duration_ms: u64,
}

/// The mathematical value of a `Track`.
pub struct TrackView {
    pub name: Seq<char>,
    pub artist: Seq<char>,
    pub album: Seq<char>,
    pub duration_ms: u64,
}

impl View for Track {
    type V = TrackView;

    closed spec fn view(&self) -> TrackView {
        TrackView {
            name: self.name@,
            artist: self.artist@,
            album: self.album@,
            duration_ms: self.duration_ms,
        }
    }
}

/// Two plays are of the same track when name and artist agree; album and
/// length are not compared.
pub open spec fn same_track(a: TrackView, b: TrackView) -> bool {
    a.name == b.name && a.artist == b.artist
}

/// Only tracks longer than thirty seconds can be scrobbled.
pub open spec fn is_scrobblable(t: TrackView) -> bool {
    t.duration_ms > MIN_DURATION_MS
}

/// How long a track must be listened to before it is scrobbled: half its
/// length, but never more than four minutes; in nanoseconds.
pub open spec fn threshold_nanos(t: TrackView) -> int {
    let half = t.duration_ms * 500_000;
    if half <= MAX_THRESHOLD_NANOS {
        half
    } else {
        MAX_THRESHOLD_NANOS as int
    }
}

/// How a track is shown to the user: `artist - name`.
pub open spec fn track_label(t: TrackView) -> Seq<char> {
    t.artist + " - "@ + t.name
}

/// The scrobble that `Scrobble::new` builds from an artist, a track name and
/// an album.
pub uninterp spec fn scrobble_of(artist: Seq<char>, track: Seq<char>, album: Seq<char>) -> Scrobble;

#[verifier::external_type_specification]
#[verifier::external_body]
pub struct ExScrobble(Scrobble);

/// Calls `rustfm_scrobble::Scrobble::new(artist, track, album)`, which copies
/// the three texts into a scrobble without a timestamp; the result is named
/// `scrobble_of` of the three texts.
#[verifier::external_body]
fn new_scrobble(artist: &str, track: &str, album: &str) -> (res: Scrobble)
    ensures
        res == scrobble_of(artist@, track@, album@),
{
    Scrobble::new(artist, track, album)
}

impl Track {
    /// A track with the given name, artist, album and length in milliseconds.
    pub fn new(track_name: String, track_artist: String, track_album: String, duration_ms: u64) -> (res: Track)
        ensures
            res@ == (TrackView {
                name: track_name@,
                artist: track_artist@,
                album: track_album@,
                duration_ms,
            }),
    {
        Track { name: track_name, artist: track_artist, album: track_album, duration_ms }
    }

    pub fn name(&self) -> (res: &str)
        ensures
            res@ == self@.name,
    {
        self.name.as_str()
    }

    pub fn artist(&self) -> (res: &str)
        ensures
            res@ == self@.artist,
    {
        self.artist.as_str()
    }

    pub fn album(&self) -> (res: &str)
        ensures
            res@ == self@.album,
    {
        self.album.as_str()
    }

    pub fn duration_ms(&self) -> (res: u64)
        ensures
            res == self@.duration_ms,
    {
        self.duration_ms
    }

    /// The track that a player notification describes: absent fields get
    /// the defaults `"Unknown Title"`, `"Unknown Artist"` and an empty album.
    pub fn from_player_info(
        name: Option<String>,
        artist: Option<String>,
        album: Option<String>,
        duration_ms: u64,
    ) -> (res: Track)
        ensures
            res@ == (TrackView {
                name: match name {
                    Some(n) => n@,
                    None => "Unknown Title"@,
                },
                artist: match artist {
                    Some(a) => a@,
                    None => "Unknown Artist"@,
                },
                album: match album {
                    Some(a) => a@,
                    None => ""@,
                },
                duration_ms,
            }),
    {
        let name = match name {
            Some(n) => n,
            None => owned("Unknown Title"),
        };
        let artist = match artist {
            Some(a) => a,
            None => owned("Unknown Artist"),
        };
        let album = match album {
            Some(a) => a,
            None => owned(""),
        };
        Track { name, artist, album, duration_ms }
    }

    /// The scrobble that reports this track: artist, name and album.
    pub fn to_scrobble(&self) -> (res: Scrobble)
        ensures
            res == scrobble_of(self@.artist, self@.name, self@.album),
    {
        new_scrobble(self.artist.as_str(), self.name.as_str(), self.album.as_str())
    }

    /// Whether the track is long enough to be scrobbled at all.
    pub fn is_even_scrobblable(&self) -> (res: bool)
        ensures
            res == is_scrobblable(self@),
    {
        self.duration_ms > MIN_DURATION_MS
    }

    /// The listening time, in nanoseconds, after which the track counts as
    /// heard: half its length, at most four minutes.
    pub fn get_threshold(&self) -> (res: u64)
        ensures
            res == threshold_nanos(self@),
            res <= MAX_THRESHOLD_NANOS,
            res <= self@.duration_ms * 500_000,
            self@.duration_ms * 500_000 <= 240_000_000_000 ==> res == self@.duration_ms * 500_000,
            self@.duration_ms * 500_000 > 240_000_000_000 ==> res == 240_000_000_000,
    {
        if self.duration_ms <= MAX_THRESHOLD_NANOS / 500_000 {
            self.duration_ms * 500_000
        } else {
            MAX_THRESHOLD_NANOS
        }
    }

    /// Whether `self` and `other` are plays of the same track.
    pub fn is_same(&self, other: &Track) -> (res: bool)
        ensures
            res == same_track(self@, other@),
            res == (self@.name == other@.name && self@.artist == other@.artist),
    {
        self.name == other.name && self.artist == other.artist
    }

    /// The track as shown to the user: `artist - name`.
    pub fn label(&self) -> (res: String)
        ensures
            res@ == track_label(self@),
    {
        let s = self.artist.clone();
        let s = s.concat(" - ");
        s.concat(self.name.as_str())
    }
}

impl Clone for Track {
    fn clone(&self) -> (res: Track)
        ensures
            res@ == self@,
    {
        Track {
            name: self.name.clone(),
            artist: self.artist.clone(),
            album: self.album.clone(),
            duration_ms: self.duration_ms,
        }
    }
}

impl PartialEq for Track {
    fn eq(&self, other: &Track) -> (res: bool) {
        self.name == other.name && self.artist == other.artist
    }
}

impl vstd::std_specs::cmp::PartialEqSpecImpl for Track {
    open spec fn obeys_eq_spec() -> bool {
        true
    }

    open spec fn eq_spec(&self, other: &Track) -> bool {
        same_track(self@, other@)
    }
}

} // verus!

verus! {

/// "Same track" is an equivalence: reflexive, symmetric and transitive.
pub proof fn law_same_track_is_equivalence(a: TrackView, b: TrackView, c: TrackView)
    ensures
        same_track(a, a),
        same_track(a, b) ==> same_track(b, a),
        same_track(a, b) && same_track(b, c) ==> same_track(a, c),
{
}

} // verus!

verus! {

/// Two plays are of the same track exactly when their names are equal and
/// their artists are equal; album and length play no part.
pub proof fn law_same_track_is_name_and_artist(a: TrackView, b: TrackView)
    ensures
        same_track(a, b) <==> (a.name == b.name && a.artist == b.artist),
        a.artist != b.artist ==> !same_track(a, b),
        a.name != b.name ==> !same_track(a, b),
{
}

/// The threshold is half the track's length, capped at four minutes:
/// `min(duration_ms * 500_000, 240_000_000_000)` nanoseconds.
pub proof fn law_threshold_is_half_length_capped(t: TrackView)
    ensures
        t.duration_ms * 500_000 <= 240_000_000_000 ==> threshold_nanos(t) == t.duration_ms * 500_000,
        t.duration_ms * 500_000 > 240_000_000_000 ==> threshold_nanos(t) == 240_000_000_000,
        t.duration_ms > 30_000 ==> is_scrobblable(t),
        t.duration_ms <= 30_000 ==> !is_scrobblable(t),
{
}

} // verus!
