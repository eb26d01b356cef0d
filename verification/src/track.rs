//! Tracks, albums and playlists, and the metadata of a track.

use librespot_core::SpotifyId;
use librespot_metadata::image::Image;
use vstd::prelude::*;

use crate::encoder::tags::Tags;
use crate::error::Error;
use crate::media::media_item::{metadata_request_for, MetadataRequest};
use crate::text::{bytes_view, copy_cover, string_views};
use crate::uri::{filter_uris, opt_uri_view, uri_views, SpotifyUri, UriView};
use crate::utils::{
    entry_views,
    episode_title, episode_title_of, is_kept_char, lemma_titles_are_file_safe, parse_uri_or_url,
    track_title, track_title_of, uri_of_input, clean_chars, lemma_episode_title_parts,
};

verus! {

/// A picture of an album cover, carried through unread.
#[verifier::external_type_specification]
#[verifier::external_body]
pub struct ExImage(librespot_metadata::image::Image);

/// A single track (or episode) by its URI.
#[derive(Clone, Debug)]
pub struct Track {
    pub uri: SpotifyUri,
}

/// An album by its id.
pub struct Album {
    id: SpotifyId,
}

/// A playlist by its URI.
pub struct Playlist {
    uri: SpotifyUri,
}

impl View for Album {
    type V = SpotifyId;

    closed spec fn view(&self) -> SpotifyId {
        self.id
    }
}

impl View for Playlist {
    type V = UriView;

    closed spec fn view(&self) -> UriView {
        self.uri@
    }
}

/// The URIs of a sequence of tracks.
pub open spec fn track_views(s: Seq<Track>) -> Seq<UriView> {
    s.map_values(|t: Track| t.uri@)
}

/// Whether a URI names an album.
pub open spec fn names_album(u: UriView) -> bool {
    u is Album
}

/// Whether a URI names a track.
pub open spec fn names_track(u: UriView) -> bool {
    u is Track
}

/// What [`Track::from_parsed`] makes of a parsed URI: a track where it names
/// an album, "Invalid track" otherwise.
pub open spec fn track_from_parsed(u: UriView) -> Result<UriView, Error> {
    if u is Album {
        Ok(u)
    } else {
        Err(Error::InvalidTrack)
    }
}

/// What [`Album::from_parsed`] makes of a parsed URI: its id where it names an
/// album, "Invalid album" otherwise.
pub open spec fn album_from_parsed(u: UriView) -> Result<SpotifyId, Error> {
    match u {
        UriView::Album(id) => Ok(id),
        _ => Err(Error::InvalidAlbum),
    }
}

/// Keeps the entries of `entries` whose URI satisfies `wanted`, as tracks.
fn tracks_where(entries: &Vec<SpotifyUri>, albums: bool) -> (r: Vec<Track>)
    ensures
        track_views(r@) == filter_uris(
            uri_views(entries@),
            if albums {
                |u: UriView| names_album(u)
            } else {
                |u: UriView| names_track(u)
            },
        ),
{
    let ghost p = if albums {
        |u: UriView| names_album(u)
    } else {
        |u: UriView| names_track(u)
    };
    let mut tracks: Vec<Track> = Vec::new();
    let mut i: usize = 0;
    while i < entries.len()
        invariant
            i <= entries.len(),
            p == (if albums {
                |u: UriView| names_album(u)
            } else {
                |u: UriView| names_track(u)
            }),
            track_views(tracks@) == filter_uris(uri_views(entries@.subrange(0, i as int)), p),
        decreases entries.len() - i,
    {
        let entry = &entries[i];
        let wanted = match entry {
            SpotifyUri::Album(_) => albums,
            SpotifyUri::Track(_) => !albums,
            _ => false,
        };
        proof {
            let prev = uri_views(entries@.subrange(0, i as int));
            let next = uri_views(entries@.subrange(0, i + 1));
            assert(next.drop_last() =~= prev);
            assert(next.last() == entry@);
            assert(wanted == p(entry@));
        }
        if wanted {
            let ghost before = tracks@;
            tracks.push(Track { uri: entry.clone() });
            proof {
                assert(track_views(tracks@) =~= track_views(before).push(entry@));
            }
        }
        i = i + 1;
    }
    proof {
        assert(entries@.subrange(0, entries@.len() as int) == entries@);
    }
    tracks
}

impl Track {
    /// The track for an already parsed input: only an album URI is accepted.
    pub fn from_parsed(uri: SpotifyUri) -> (r: Result<Track, Error>)
        ensures
            match r {
                Ok(t) => track_from_parsed(uri@) == Ok::<UriView, Error>(t.uri@),
                Err(e) => track_from_parsed(uri@) == Err::<UriView, Error>(e),
            },
    {
        match uri {
            SpotifyUri::Album(_) => Ok(Track { uri }),
            _ => Err(Error::InvalidTrack),
        }
    }

    /// The track that a URI or share URL names; only an album is accepted.
    pub fn new(track: &str) -> (r: Result<Track, Error>)
        requires
            uri_of_input(track@) is Some,
        ensures
            match r {
                Ok(t) => track_from_parsed(uri_of_input(track@).unwrap()) == Ok::<UriView, Error>(
                    t.uri@,
                ),
                Err(e) => track_from_parsed(uri_of_input(track@).unwrap()) == Err::<UriView, Error>(
                    e,
                ),
            },
    {
        match parse_uri_or_url(track) {
            Some(uri) => Track::from_parsed(uri),
            None => Err(Error::InvalidTrack),
        }
    }

    /// [`Track::new`] where the input can be read, and `None` where it cannot.
    pub fn checked_new(track: &str) -> (r: Option<Result<Track, Error>>)
        ensures
            r is None <==> uri_of_input(track@) is None,
            match r {
                Some(Ok(t)) => track_from_parsed(uri_of_input(track@).unwrap()) == Ok::<
                    UriView,
                    Error,
                >(t.uri@),
                Some(Err(e)) => track_from_parsed(uri_of_input(track@).unwrap()) == Err::<
                    UriView,
                    Error,
                >(e),
                None => true,
            },
    {
        if parse_uri_or_url(track).is_some() {
            Some(Track::new(track))
        } else {
            None
        }
    }

    /// Which metadata the track needs fetched; only tracks and episodes have any.
    pub fn metadata_request(&self) -> (r: Result<MetadataRequest, Error>)
        ensures
            r == metadata_request_for(self.uri@),
    {
        match &self.uri {
            SpotifyUri::Track(_) => Ok(MetadataRequest::Track),
            SpotifyUri::Episode(_) => Ok(MetadataRequest::Episode),
            _ => Err(Error::NoMetadata),
        }
    }

    /// The tracks of a single track: itself.
    pub fn get_tracks(&self) -> (r: Vec<Track>)
        ensures
            track_views(r@) == seq![self.uri@],
    {
        let mut tracks: Vec<Track> = Vec::new();
        tracks.push(Track { uri: self.uri.clone() });
        assert(track_views(tracks@) =~= seq![self.uri@]);
        tracks
    }
}

impl Album {
    /// The album for an already parsed input: only an album URI is accepted.
    pub fn from_parsed(uri: SpotifyUri) -> (r: Result<Album, Error>)
        ensures
            match r {
                Ok(a) => album_from_parsed(uri@) == Ok::<SpotifyId, Error>(a@),
                Err(e) => album_from_parsed(uri@) == Err::<SpotifyId, Error>(e),
            },
    {
        match uri {
            SpotifyUri::Album(id) => Ok(Album { id }),
            _ => Err(Error::InvalidAlbum),
        }
    }

    /// The album that a URI or share URL names.
    pub fn new(album: &str) -> (r: Result<Album, Error>)
        requires
            uri_of_input(album@) is Some,
        ensures
            match r {
                Ok(a) => album_from_parsed(uri_of_input(album@).unwrap()) == Ok::<SpotifyId, Error>(
                    a@,
                ),
                Err(e) => album_from_parsed(uri_of_input(album@).unwrap()) == Err::<
                    SpotifyId,
                    Error,
                >(e),
            },
    {
        match parse_uri_or_url(album) {
            Some(uri) => Album::from_parsed(uri),
            None => Err(Error::InvalidAlbum),
        }
    }

    /// [`Album::new`] where the input can be read, and `None` where it cannot.
    pub fn checked_new(album: &str) -> (r: Option<Result<Album, Error>>)
        ensures
            r is None <==> uri_of_input(album@) is None,
            match r {
                Some(Ok(a)) => album_from_parsed(uri_of_input(album@).unwrap()) == Ok::<
                    SpotifyId,
                    Error,
                >(a@),
                Some(Err(e)) => album_from_parsed(uri_of_input(album@).unwrap()) == Err::<
                    SpotifyId,
                    Error,
                >(e),
                None => true,
            },
    {
        if parse_uri_or_url(album).is_some() {
            Some(Album::new(album))
        } else {
            None
        }
    }

    /// The album with the given id.
    pub fn from_id(id: SpotifyId) -> (r: Album)
        ensures
            r@ == id,
    {
        Album { id }
    }

    /// The URI from which the album's entries are fetched.
    pub fn uri(&self) -> (r: SpotifyUri)
        ensures
            r@ == UriView::Album(self@),
    {
        SpotifyUri::Album(self.id)
    }

    /// The tracks of the album among its fetched entries: the entries that
    /// name an album, in order.
    pub fn select_tracks(&self, entries: &Vec<SpotifyUri>) -> (r: Vec<Track>)
        ensures
            track_views(r@) == filter_uris(uri_views(entries@), |u: UriView| names_album(u)),
    {
        tracks_where(entries, true)
    }
}

impl Playlist {
    /// The playlist that a URI or share URL names; any URI is accepted.
    pub fn new(playlist: &str) -> (r: Result<Playlist, Error>)
        ensures
            match r {
                Ok(p) => uri_of_input(playlist@) == Some(p@),
                Err(e) => uri_of_input(playlist@) is None && e == Error::InvalidPlaylist,
            },
    {
        match parse_uri_or_url(playlist) {
            Some(uri) => Ok(Playlist { uri }),
            None => Err(Error::InvalidPlaylist),
        }
    }

    /// The playlist with the given id, of no named owner.
    pub fn from_id(id: SpotifyId) -> (r: Playlist)
        ensures
            r@ == UriView::Playlist(None, id),
    {
        Playlist { uri: SpotifyUri::Playlist(None, id) }
    }

    /// The URI from which the playlist's entries are fetched.
    pub fn uri(&self) -> (r: &SpotifyUri)
        ensures
            r@ == self@,
    {
        &self.uri
    }

    /// The tracks of the playlist among its fetched entries, in order.
    pub fn select_tracks(&self, entries: &Vec<SpotifyUri>) -> (r: Vec<Track>)
        ensures
            track_views(r@) == filter_uris(uri_views(entries@), |u: UriView| names_track(u)),
    {
        tracks_where(entries, false)
    }
}

} // verus!

verus! {

/// The artist of a track, by name.
#[derive(Clone, Debug)]
pub struct ArtistMetadata {
    pub name: String,
}

/// The album of a track: its name and the first of its cover pictures.
#[derive(Clone, Debug)]
pub struct AlbumMetadata {
    pub name: String,
    pub cover: Option<Image>,
}

impl ArtistMetadata {
    /// The metadata of the artist with the given name.
    pub fn from(name: String) -> (r: Self)
        ensures
            r.name@ == name@,
    {
        ArtistMetadata { name }
    }
}

impl AlbumMetadata {
    /// The metadata of an album from its name and its cover pictures: the
    /// first picture, if any, is kept.
    pub fn from(name: String, covers: Vec<Image>) -> (r: Self)
        ensures
            r.name@ == name@,
            r.cover == (if covers@.len() > 0 {
                Some(covers@[0])
            } else {
                None
            }),
    {
        let mut covers = covers;
        let cover = if covers.len() > 0 {
            Some(covers.remove(0))
        } else {
            None
        };
        AlbumMetadata { name, cover }
    }
}

/// The metadata of each supported kind of item.
#[derive(Clone)]
pub enum CustomMetadata {
    CustomEpisodeMetadata {
        duration: i32,
        episode_name: String,
        show_name: String,
        album_cover: Option<Vec<u8>>,
    },
    CustomTrackMetadata {
        artists: Vec<ArtistMetadata>,
        track_name: String,
        album: AlbumMetadata,
        duration: i32,
        album_cover: Option<Vec<u8>>,
    },
}

/// The names of a list of artists.
pub open spec fn artist_names(s: Seq<ArtistMetadata>) -> Seq<Seq<char>> {
    s.map_values(|a: ArtistMetadata| a.name@)
}

impl CustomMetadata {
    /// The length of the item in milliseconds.
    pub open spec fn spec_duration(&self) -> i32 {
        match self {
            CustomMetadata::CustomEpisodeMetadata { duration, .. } => *duration,
            CustomMetadata::CustomTrackMetadata { duration, .. } => *duration,
        }
    }

    /// The name of the episode or track.
    pub open spec fn spec_track_name(&self) -> Seq<char> {
        match self {
            CustomMetadata::CustomEpisodeMetadata { episode_name, .. } => episode_name@,
            CustomMetadata::CustomTrackMetadata { track_name, .. } => track_name@,
        }
    }

    /// The names of the artists (none for an episode).
    pub open spec fn spec_artist_names(&self) -> Seq<Seq<char>> {
        match self {
            CustomMetadata::CustomEpisodeMetadata { .. } => Seq::empty(),
            CustomMetadata::CustomTrackMetadata { artists, .. } => artist_names(artists@),
        }
    }

    /// The title under which the item is saved.
    pub open spec fn spec_title(&self) -> Seq<char> {
        match self {
            CustomMetadata::CustomEpisodeMetadata { episode_name, show_name, .. } => episode_title(
                show_name@,
                episode_name@,
            ),
            CustomMetadata::CustomTrackMetadata { artists, track_name, .. } => track_title(
                artist_names(artists@),
                track_name@,
            ),
        }
    }

    /// The album title written in the tags: the album of a track, the show
    /// of an episode.
    pub open spec fn spec_album_title(&self) -> Seq<char> {
        match self {
            CustomMetadata::CustomEpisodeMetadata { show_name, .. } => show_name@,
            CustomMetadata::CustomTrackMetadata { album, .. } => album.name@,
        }
    }

    /// The cover art.
    pub open spec fn spec_cover(&self) -> Option<Seq<u8>> {
        match self {
            CustomMetadata::CustomEpisodeMetadata { album_cover, .. } => bytes_view(*album_cover),
            CustomMetadata::CustomTrackMetadata { album_cover, .. } => bytes_view(*album_cover),
        }
    }

    /// The name of the episode or track.
    pub fn track_name(&self) -> (r: &String)
        ensures
            r@ == self.spec_track_name(),
    {
        match self {
            CustomMetadata::CustomEpisodeMetadata { episode_name, .. } => episode_name,
            CustomMetadata::CustomTrackMetadata { track_name, .. } => track_name,
        }
    }

    /// The length in milliseconds, converted as by `as usize`.
    pub fn duration(&self) -> (r: usize)
        ensures
            r == self.spec_duration() as usize,
    {
        let duration = match self {
            CustomMetadata::CustomEpisodeMetadata { duration, .. } => *duration,
            CustomMetadata::CustomTrackMetadata { duration, .. } => *duration,
        };
        duration as usize
    }

    /// The metadata of a track from its name and length, the names of its
    /// artists, the name and cover pictures of its album, and its cover art.
    pub fn from(
        track_name: String,
        duration: i32,
        artist_names_in: Vec<String>,
        album_name: String,
        album_covers: Vec<Image>,
        album_cover: Option<Vec<u8>>,
    ) -> (r: Self)
        ensures
            r is CustomTrackMetadata,
            r.spec_track_name() == track_name@,
            r.spec_duration() == duration,
            r.spec_artist_names() == string_views(artist_names_in@),
            r.spec_album_title() == album_name@,
            r->CustomTrackMetadata_album.cover == (if album_covers@.len() > 0 {
                Some(album_covers@[0])
            } else {
                None
            }),
            r.spec_cover() == bytes_view(album_cover),
    {
        let mut artists: Vec<ArtistMetadata> = Vec::new();
        let mut i: usize = 0;
        while i < artist_names_in.len()
            invariant
                i <= artist_names_in.len(),
                artist_names(artists@) == string_views(artist_names_in@).take(i as int),
            decreases artist_names_in.len() - i,
        {
            let ghost before = artists@;
            artists.push(ArtistMetadata::from(artist_names_in[i].clone()));
            proof {
                assert(artist_names(artists@) =~= artist_names(before).push(
                    artist_names_in@[i as int]@,
                ));
                assert(string_views(artist_names_in@).take(i + 1) =~= string_views(
                    artist_names_in@,
                ).take(i as int).push(artist_names_in@[i as int]@));
            }
            i = i + 1;
        }
        proof {
            assert(string_views(artist_names_in@).take(artist_names_in.len() as int)
                =~= string_views(artist_names_in@));
        }
        let album = AlbumMetadata::from(album_name, album_covers);
        CustomMetadata::CustomTrackMetadata { artists, track_name, album, duration, album_cover }
    }

    /// The estimated size in bytes of the downloaded audio: whole seconds of
    /// sound at 44100 samples of two channels of 32 bits each second.
    pub fn approx_size(&self) -> (r: usize)
        requires
            (self.spec_duration() as usize) / 1000 * 352800 <= usize::MAX,
        ensures
            r == (self.spec_duration() as usize) / 1000 * 352800,
    {
        let duration = self.duration() / 1000;
        let sample_rate: usize = 44100;
        let channels: usize = 2;
        let bits_per_sample: usize = 32;
        let bytes_per_sample = bits_per_sample / 8;
        assert(duration * sample_rate <= duration * 352800) by (nonlinear_arith)
            requires
                sample_rate == 44100,
        ;
        assert(duration * sample_rate * channels <= duration * 352800) by (nonlinear_arith)
            requires
                sample_rate == 44100,
                channels == 2,
        ;
        assert(duration * sample_rate * channels * bytes_per_sample == duration * 352800) by (
        nonlinear_arith)
            requires
                sample_rate == 44100,
                channels == 2,
                bytes_per_sample == 4,
        ;
        duration * sample_rate * channels * bytes_per_sample
    }

    /// The tags to write into the audio file.
    pub fn tags(&self) -> (r: Result<Tags, Error>)
        ensures
            match r {
                Ok(tags) => tags.title@ == self.spec_track_name() && string_views(tags.artists@)
                    == self.spec_artist_names() && tags.album_title@ == self.spec_album_title()
                    && bytes_view(tags.album_cover) == self.spec_cover(),
                Err(_) => false,
            },
    {
        let tags = match self {
            CustomMetadata::CustomEpisodeMetadata { episode_name, album_cover, show_name, .. } => {
                let artists: Vec<String> = Vec::new();
                assert(string_views(artists@) =~= Seq::<Seq<char>>::empty());
                Tags {
                    title: episode_name.clone(),
                    album_cover: copy_cover(album_cover),
                    album_title: show_name.clone(),
                    artists,
                }
            },
            CustomMetadata::CustomTrackMetadata { track_name, artists, album, album_cover, .. } => {
                Tags {
                    title: track_name.clone(),
                    artists: names_of(artists),
                    album_title: album.name.clone(),
                    album_cover: copy_cover(album_cover),
                }
            },
        };
        Ok(tags)
    }

    /// The title under which the item is saved: `{artists} - {track}` for a
    /// track (at most three artists, more shown as `, ...`), `{show} -
    /// {episode}` for an episode, without the characters that file names
    /// cannot hold.
    pub fn to_string(&self) -> (r: String)
        ensures
            r@ == self.spec_title(),
    {
        match self {
            CustomMetadata::CustomTrackMetadata { artists, track_name, .. } => {
                let names = names_of(artists);
                track_title_of(&names, track_name.as_str())
            },
            CustomMetadata::CustomEpisodeMetadata { episode_name, show_name, .. } => {
                episode_title_of(show_name.as_str(), episode_name.as_str())
            },
        }
    }
}

/// The names of a list of artists, in order.
fn names_of(artists: &Vec<ArtistMetadata>) -> (r: Vec<String>)
    ensures
        string_views(r@) == artist_names(artists@),
{
    let mut names: Vec<String> = Vec::new();
    let mut i: usize = 0;
    while i < artists.len()
        invariant
            i <= artists.len(),
            string_views(names@) == artist_names(artists@).take(i as int),
        decreases artists.len() - i,
    {
        let ghost before = names@;
        names.push(artists[i].name.clone());
        proof {
            assert(string_views(names@) =~= string_views(before).push(artists@[i as int].name@));
            assert(artist_names(artists@).take(i + 1) =~= artist_names(artists@).take(i as int).push(
                artists@[i as int].name@,
            ));
        }
        i = i + 1;
    }
    proof {
        assert(artist_names(artists@).take(artists.len() as int) =~= artist_names(artists@));
    }
    names
}

// ---------------------------------------------------------------------------
// Requests
// ---------------------------------------------------------------------------

/// What one requested id stands for.
pub enum TrackListRequest {
    /// A track or an episode: itself.
    Tracks(Vec<Track>),
    /// An album, whose entries are to be fetched.
    Album(Album),
    /// A playlist, whose entries are to be fetched.
    Playlist(Playlist),
    /// An item of a kind that is not downloaded (skipped).
    Unsupported,
}

/// The value of a [`TrackListRequest`].
pub enum TrackListView {
    Tracks(Seq<UriView>),
    Album(SpotifyId),
    Playlist(UriView),
    Unsupported,
}

impl View for TrackListRequest {
    type V = TrackListView;

    open spec fn view(&self) -> TrackListView {
        match self {
            TrackListRequest::Tracks(t) => TrackListView::Tracks(track_views(t@)),
            TrackListRequest::Album(a) => TrackListView::Album(a@),
            TrackListRequest::Playlist(p) => TrackListView::Playlist(p@),
            TrackListRequest::Unsupported => TrackListView::Unsupported,
        }
    }
}

/// The view of a resolved request.
pub open spec fn track_list_result_view(r: Result<TrackListRequest, Error>) -> Result<
    TrackListView,
    Error,
> {
    match r {
        Ok(req) => Ok(req@),
        Err(e) => Err(e),
    }
}

/// What a requested id stands for, given the URI read from it: no URI is
/// "Invalid track"; a track or an episode is itself; an album or a playlist
/// is fetched by its id (a playlist's owner is dropped); anything else is
/// unsupported.
pub open spec fn track_list_for(u: Option<UriView>) -> Result<TrackListView, Error> {
    match u {
        None => Err(Error::InvalidTrack),
        Some(v) => match v {
            UriView::Track(_) => Ok(TrackListView::Tracks(seq![v])),
            UriView::Episode(_) => Ok(TrackListView::Tracks(seq![v])),
            UriView::Album(id) => Ok(TrackListView::Album(id)),
            UriView::Playlist(_, id) => Ok(TrackListView::Playlist(UriView::Playlist(None, id))),
            _ => Ok(TrackListView::Unsupported),
        },
    }
}

/// Decides what a read URI stands for.
pub fn resolve_track_list(uri: Option<SpotifyUri>) -> (r: Result<TrackListRequest, Error>)
    ensures
        track_list_result_view(r) == track_list_for(opt_uri_view(uri)),
{
    match uri {
        None => Err(Error::InvalidTrack),
        Some(u) => match u {
            SpotifyUri::Track(_) | SpotifyUri::Episode(_) => {
                let mut tracks: Vec<Track> = Vec::new();
                let ghost v = u@;
                tracks.push(Track { uri: u });
                assert(track_views(tracks@) =~= seq![v]);
                Ok(TrackListRequest::Tracks(tracks))
            },
            SpotifyUri::Album(id) => Ok(TrackListRequest::Album(Album::from_id(id))),
            SpotifyUri::Playlist(_, id) => Ok(TrackListRequest::Playlist(Playlist::from_id(id))),
            _ => Ok(TrackListRequest::Unsupported),
        },
    }
}

/// Decides what one requested id (a URI or a share URL) stands for.
pub fn resolve_track_list_request(id: &str) -> (r: Result<TrackListRequest, Error>)
    ensures
        track_list_result_view(r) == track_list_for(uri_of_input(id@)),
{
    resolve_track_list(parse_uri_or_url(id))
}

} // verus!

verus! {

/// The URIs kept by a filter satisfy it, and are never more than the URIs.
pub proof fn lemma_filter_uris_sound(s: Seq<UriView>, p: spec_fn(UriView) -> bool)
    ensures
        filter_uris(s, p).len() <= s.len(),
        forall|i: int| 0 <= i < filter_uris(s, p).len() ==> p(#[trigger] filter_uris(s, p)[i]),
    decreases s.len(),
{
    if s.len() > 0 {
        lemma_filter_uris_sound(s.drop_last(), p);
        let prev = filter_uris(s.drop_last(), p);
        if p(s.last()) {
            assert forall|i: int| 0 <= i < prev.push(s.last()).len() implies p(
                #[trigger] prev.push(s.last())[i],
            ) by {
                if i < prev.len() {
                    assert(prev.push(s.last())[i] == prev[i]);
                }
            }
        }
    }
}

/// The title under which any item is saved can stand in a file name.
pub proof fn lemma_custom_title_is_file_safe(m: CustomMetadata)
    ensures
        forall|i: int|
            0 <= i < m.spec_title().len() ==> is_kept_char(#[trigger] m.spec_title()[i]),
{
    match m {
        CustomMetadata::CustomEpisodeMetadata { episode_name, show_name, .. } => {
            lemma_titles_are_file_safe(Seq::empty(), episode_name@, show_name@);
        },
        CustomMetadata::CustomTrackMetadata { artists, track_name, .. } => {
            lemma_titles_are_file_safe(artist_names(artists@), track_name@, Seq::empty());
        },
    }
}

} // verus!

verus! {

/// The progress of collecting, in order, the tracks that a list of requested
/// ids stands for.
pub struct TrackListCollector {
    ids: Vec<String>,
    next: usize,
    tracks: Vec<Track>,
}

/// What collecting needs next.
pub enum TrackListStep {
    /// The entries of this album are to be fetched, and its tracks handed to
    /// [`TrackListCollector::add_tracks`].
    FetchAlbum(Album),
    /// The entries of this playlist are to be fetched, and its tracks handed
    /// to [`TrackListCollector::add_tracks`].
    FetchPlaylist(Playlist),
    /// The id (given) names an item of a kind that is not downloaded.
    Unsupported(String),
    /// The id named a track or an episode, which was added.
    Added,
    /// Every id has been handled.
    Done,
}

/// How handling one id ends, given the request `req` that the id `id`
/// stands for: the result `r`, whether the id was consumed (`advanced`), and
/// the tracks after the step (`after`) from those before it (`before`). An
/// unreadable id is not consumed and stops the collecting with its error.
pub open spec fn track_list_outcome(
    req: Result<TrackListView, Error>,
    id: Seq<char>,
    before: Seq<UriView>,
    r: Result<TrackListStep, Error>,
    after: Seq<UriView>,
    advanced: bool,
) -> bool {
    match req {
        Err(e) => r == Err::<TrackListStep, Error>(e) && !advanced && after == before,
        Ok(TrackListView::Tracks(t)) => (r matches Ok(TrackListStep::Added)) && advanced && after
            == before + t,
        Ok(TrackListView::Album(a)) => (r matches Ok(TrackListStep::FetchAlbum(x)) && x@ == a)
            && advanced && after == before,
        Ok(TrackListView::Playlist(p)) => (r matches Ok(TrackListStep::FetchPlaylist(x)) && x@
            == p) && advanced && after == before,
        Ok(TrackListView::Unsupported) => (r matches Ok(TrackListStep::Unsupported(i)) && i@
            == id) && advanced && after == before,
    }
}

impl TrackListCollector {
    /// The requested ids.
    pub closed spec fn spec_ids(&self) -> Seq<Seq<char>> {
        string_views(self.ids@)
    }

    /// How many ids have been handled.
    pub closed spec fn spec_next(&self) -> int {
        self.next as int
    }

    /// The tracks collected so far, in order.
    pub closed spec fn spec_tracks(&self) -> Seq<UriView> {
        track_views(self.tracks@)
    }

    /// A collector for the given ids, none handled yet.
    pub fn new(ids: Vec<String>) -> (r: Self)
        ensures
            r.spec_ids() == string_views(ids@),
            r.spec_next() == 0,
            r.spec_tracks() == Seq::<UriView>::empty(),
    {
        let r = TrackListCollector { ids, next: 0, tracks: Vec::new() };
        assert(r.spec_tracks() =~= Seq::<UriView>::empty());
        r
    }

    /// Handles the next id: tracks and episodes are added; an album or a
    /// playlist is handed out to be fetched; an unsupported kind is reported;
    /// an id that cannot be read stops the collecting with its error, nothing
    /// changed.
    pub fn step(&mut self) -> (r: Result<TrackListStep, Error>)
        ensures
            final(self).spec_ids() == old(self).spec_ids(),
            old(self).spec_next() >= old(self).spec_ids().len() ==> ((r matches Ok(
                TrackListStep::Done,
            )) && final(self).spec_next() == old(self).spec_next() && final(self).spec_tracks()
                == old(self).spec_tracks()),
            old(self).spec_next() < old(self).spec_ids().len() ==> track_list_outcome(
                track_list_for(uri_of_input(old(self).spec_ids()[old(self).spec_next()])),
                old(self).spec_ids()[old(self).spec_next()],
                old(self).spec_tracks(),
                r,
                final(self).spec_tracks(),
                final(self).spec_next() == old(self).spec_next() + 1,
            ),
            old(self).spec_next() < old(self).spec_ids().len() ==> (final(self).spec_next()
                == old(self).spec_next() + 1 || final(self).spec_next() == old(self).spec_next()),
    {
        if self.next >= self.ids.len() {
            return Ok(TrackListStep::Done);
        }
        let i = self.next;
        proof {
            assert(self.ids@[i as int]@ == self.spec_ids()[i as int]);
        }
        match resolve_track_list_request(self.ids[i].as_str()) {
            Err(e) => Err(e),
            Ok(TrackListRequest::Tracks(found)) => {
                let mut found = found;
                let ghost before = self.tracks@;
                let ghost added = found@;
                self.tracks.append(&mut found);
                self.next = i + 1;
                proof {
                    assert(track_views(self.tracks@) =~= track_views(before) + track_views(added));
                }
                Ok(TrackListStep::Added)
            },
            Ok(TrackListRequest::Album(album)) => {
                self.next = i + 1;
                Ok(TrackListStep::FetchAlbum(album))
            },
            Ok(TrackListRequest::Playlist(playlist)) => {
                self.next = i + 1;
                Ok(TrackListStep::FetchPlaylist(playlist))
            },
            Ok(TrackListRequest::Unsupported) => {
                let id = self.ids[i].clone();
                self.next = i + 1;
                Ok(TrackListStep::Unsupported(id))
            },
        }
    }

    /// Appends the fetched tracks of an album or a playlist, in order.
    pub fn add_tracks(&mut self, tracks: Vec<Track>)
        ensures
            final(self).spec_ids() == old(self).spec_ids(),
            final(self).spec_next() == old(self).spec_next(),
            final(self).spec_tracks() == old(self).spec_tracks() + track_views(tracks@),
    {
        let mut tracks = tracks;
        let ghost before = self.tracks@;
        let ghost added = tracks@;
        self.tracks.append(&mut tracks);
        proof {
            assert(track_views(self.tracks@) =~= track_views(before) + track_views(added));
        }
    }

    /// The tracks collected, in order.
    pub fn into_tracks(self) -> (r: Vec<Track>)
        ensures
            track_views(r@) == self.spec_tracks(),
    {
        self.tracks
    }
}

/// The tracks that one requested id contributes, given the entries fetched
/// for it: a track or an episode itself, an album the entries that name an
/// album, a playlist the entries that name a track, an unsupported kind
/// nothing.
pub open spec fn track_contribution(req: TrackListView, entries: Seq<UriView>) -> Seq<UriView> {
    match req {
        TrackListView::Tracks(t) => t,
        TrackListView::Album(_) => filter_uris(entries, |u: UriView| names_album(u)),
        TrackListView::Playlist(_) => filter_uris(entries, |u: UriView| names_track(u)),
        TrackListView::Unsupported => Seq::empty(),
    }
}

/// The tracks that a list of requested ids yields, in order, given for each
/// id the entries fetched for it (used where the id names a collection): the
/// contributions of the ids concatenated, or the error of the first id that
/// cannot be read.
pub open spec fn yields_tracks(ids: Seq<Seq<char>>, entries: Seq<Seq<UriView>>) -> Result<
    Seq<UriView>,
    Error,
>
    decreases ids.len(),
{
    if ids.len() == 0 {
        Ok(Seq::empty())
    } else {
        match yields_tracks(ids.drop_last(), entries.drop_last()) {
            Err(e) => Err(e),
            Ok(before) => match track_list_for(uri_of_input(ids.last())) {
                Err(e) => Err(e),
                Ok(req) => Ok(before + track_contribution(req, entries.last())),
            },
        }
    }
}

/// Requesting two lists of ids one after the other yields the items of the
/// first followed by those of the second; an id of the first list that
/// cannot be read stops everything with its error.
pub proof fn lemma_yields_tracks_concat(
    a: Seq<Seq<char>>,
    ea: Seq<Seq<UriView>>,
    b: Seq<Seq<char>>,
    eb: Seq<Seq<UriView>>,
)
    requires
        ea.len() == a.len(),
        eb.len() == b.len(),
    ensures
        yields_tracks(a + b, ea + eb) == match yields_tracks(a, ea) {
            Err(e) => Err(e),
            Ok(x) => match yields_tracks(b, eb) {
                Err(e) => Err(e),
                Ok(y) => Ok(x + y),
            },
        },
    decreases b.len(),
{
    if b.len() == 0 {
        assert(a + b =~= a);
        assert(ea + eb =~= ea);
        if let Ok(x) = yields_tracks(a, ea) {
            assert(x + Seq::<UriView>::empty() =~= x);
        }
    } else {
        lemma_yields_tracks_concat(a, ea, b.drop_last(), eb.drop_last());
        assert((a + b).drop_last() =~= a + b.drop_last());
        assert((ea + eb).drop_last() =~= ea + eb.drop_last());
        assert((a + b).last() == b.last());
        assert((ea + eb).last() == eb.last());
        if let Ok(x) = yields_tracks(a, ea) {
            if let Ok(y) = yields_tracks(b.drop_last(), eb.drop_last()) {
                if let Ok(req) = track_list_for(uri_of_input(b.last())) {
                    assert(x + y + track_contribution(req, eb.last()) =~= x + (y + track_contribution(
                        req,
                        eb.last(),
                    )));
                }
            }
        }
    }
}

/// An error in the first `k` ids is the error of the whole list.
proof fn lemma_yields_tracks_error_prefix(ids: Seq<Seq<char>>, entries: Seq<Seq<UriView>>, k: int)
    requires
        entries.len() == ids.len(),
        0 <= k <= ids.len(),
        yields_tracks(ids.take(k), entries.take(k)) is Err,
    ensures
        yields_tracks(ids, entries) == yields_tracks(ids.take(k), entries.take(k)),
{
    lemma_yields_tracks_concat(ids.take(k), entries.take(k), ids.skip(k), entries.skip(k));
    assert(ids.take(k) + ids.skip(k) =~= ids);
    assert(entries.take(k) + entries.skip(k) =~= entries);
}

impl TrackListCollector {
    /// Drives a collector over the ids to the end, answering each album and
    /// playlist with its entries in `entries` (one list per id, used where the
    /// id names one): the result is what the ids yield.
    pub fn collect_all(ids: Vec<String>, entries: &Vec<Vec<SpotifyUri>>) -> (r: Result<
        Vec<Track>,
        Error,
    >)
        requires
            entries.len() == ids.len(),
        ensures
            match r {
                Ok(v) => yields_tracks(string_views(ids@), entry_views(entries@)) == Ok::<
                    Seq<UriView>,
                    Error,
                >(track_views(v@)),
                Err(e) => yields_tracks(string_views(ids@), entry_views(entries@)) == Err::<
                    Seq<UriView>,
                    Error,
                >(e),
            },
    {
        let ghost idv = string_views(ids@);
        let ghost ev = entry_views(entries@);
        let mut c = TrackListCollector::new(ids);
        proof {
            assert(idv.take(0) =~= Seq::<Seq<char>>::empty());
            assert(ev.take(0) =~= Seq::<Seq<UriView>>::empty());
        }
        loop
            invariant
                entries.len() == idv.len(),
                ev == entry_views(entries@),
                idv == string_views(ids@),
                c.spec_ids() == idv,
                0 <= c.spec_next() <= idv.len(),
                yields_tracks(idv.take(c.spec_next()), ev.take(c.spec_next())) == Ok::<
                    Seq<UriView>,
                    Error,
                >(c.spec_tracks()),
            decreases idv.len() - c.spec_next(),
        {
            let k = c.next;
            let ghost before = c.spec_tracks();
            let step = c.step();
            proof {
                if (k as int) < idv.len() {
                    assert(idv.take(k + 1).drop_last() =~= idv.take(k as int));
                    assert(ev.take(k + 1).drop_last() =~= ev.take(k as int));
                    assert(idv.take(k + 1).last() == idv[k as int]);
                    assert(ev.take(k + 1).last() == ev[k as int]);
                }
            }
            match step {
                Err(e) => {
                    proof {
                        assert((k as int) < idv.len());
                        assert(track_list_for(uri_of_input(idv[k as int])) == Err::<TrackListView, Error>(e));
                        assert(yields_tracks(idv.take(k + 1), ev.take(k + 1)) == Err::<Seq<UriView>, Error>(e));
                        lemma_yields_tracks_error_prefix(idv, ev, k + 1);
                        assert(yields_tracks(idv, ev) == Err::<Seq<UriView>, Error>(e));
                    }
                    return Err(e);
                },
                Ok(TrackListStep::FetchAlbum(album)) => {
                    let found = album.select_tracks(&entries[k]);
                    proof {
                        assert(ev[k as int] == uri_views(entries@[k as int]@));
                    }
                    c.add_tracks(found);
                    proof {
                        let req = track_list_for(uri_of_input(idv[k as int]));
                        assert(req matches Ok(TrackListView::Album(_)));
                        assert(c.spec_tracks() == before + track_contribution(req.unwrap(), ev[k as int]));
                    }
                },
                Ok(TrackListStep::FetchPlaylist(playlist)) => {
                    let found = playlist.select_tracks(&entries[k]);
                    proof {
                        assert(ev[k as int] == uri_views(entries@[k as int]@));
                    }
                    c.add_tracks(found);
                    proof {
                        let req = track_list_for(uri_of_input(idv[k as int]));
                        assert(req matches Ok(TrackListView::Playlist(_)));
                        assert(c.spec_tracks() == before + track_contribution(req.unwrap(), ev[k as int]));
                    }
                },
                Ok(TrackListStep::Added) => {
                    proof {
                        let req = track_list_for(uri_of_input(idv[k as int]));
                        assert(req matches Ok(TrackListView::Tracks(_)));
                    }
                },
                Ok(TrackListStep::Unsupported(_)) => {
                    proof {
                        let req = track_list_for(uri_of_input(idv[k as int]));
                        assert(req matches Ok(TrackListView::Unsupported));
                        assert(c.spec_tracks() =~= before + track_contribution(req.unwrap(), ev[k as int]));
                    }
                },
                Ok(TrackListStep::Done) => {
                    proof {
                        assert(c.spec_next() == idv.len());
                        assert(idv.take(idv.len() as int) =~= idv);
                        assert(ev.take(ev.len() as int) =~= ev);
                    }
                    return Ok(c.into_tracks());
                },
            }
        }
    }
}


} // verus!

verus! {

/// What a requested id stands for, kind by kind: an unreadable id is
/// "Invalid track"; a track or an episode is itself, as the only track of
/// the list; an album is fetched by its id; a playlist is fetched by its id,
/// without its owner; an artist, a show, a local file or an unknown kind is
/// skipped.
pub proof fn lemma_track_list_by_kind(v: UriView)
    ensures
        track_list_for(None) == Err::<TrackListView, Error>(Error::InvalidTrack),
        (v is Track || v is Episode) ==> track_list_for(Some(v)) == Ok::<TrackListView, Error>(
            TrackListView::Tracks(seq![v]),
        ),
        track_list_for(Some(v)) matches Ok(TrackListView::Tracks(_)) ==> (v is Track || v is Episode),
        v matches UriView::Album(id) ==> track_list_for(Some(v)) == Ok::<TrackListView, Error>(
            TrackListView::Album(id),
        ),
        v matches UriView::Playlist(_, id) ==> track_list_for(Some(v)) == Ok::<TrackListView, Error>(
            TrackListView::Playlist(UriView::Playlist(None, id)),
        ),
        (v is Artist || v is Show || v is Local || v is Unknown) ==> track_list_for(Some(v)) == Ok::<
            TrackListView,
            Error,
        >(TrackListView::Unsupported),
{
}

/// An album is made only of an album URI, and carries its id; any other
/// parsed URI is "Invalid album".
pub proof fn lemma_album_from_parsed_kinds(u: UriView)
    ensures
        u matches UriView::Album(id) ==> album_from_parsed(u) == Ok::<SpotifyId, Error>(id),
        !(u is Album) ==> album_from_parsed(u) == Err::<SpotifyId, Error>(Error::InvalidAlbum),
        album_from_parsed(u) is Ok ==> u is Album,
{
}

/// A track is made only of an album URI (the code's choice), and keeps it;
/// any other parsed URI is "Invalid track".
pub proof fn lemma_track_from_parsed_kinds(u: UriView)
    ensures
        u is Album ==> track_from_parsed(u) == Ok::<UriView, Error>(u),
        !(u is Album) ==> track_from_parsed(u) == Err::<UriView, Error>(Error::InvalidTrack),
{
}

proof fn lemma_filter_all(s: Seq<UriView>, p: spec_fn(UriView) -> bool)
    requires
        forall|i: int| 0 <= i < s.len() ==> p(#[trigger] s[i]),
    ensures
        filter_uris(s, p) == s,
    decreases s.len(),
{
    if s.len() > 0 {
        assert forall|i: int| 0 <= i < s.drop_last().len() implies p(#[trigger] s.drop_last()[i]) by {
            assert(s.drop_last()[i] == s[i]);
        }
        lemma_filter_all(s.drop_last(), p);
        assert(p(s[s.len() - 1]));
        assert(s.drop_last().push(s.last()) =~= s);
    }
}

/// The tracks one id contributes: a track or an episode itself; an album its
/// entries that name an album (the code's choice); a playlist its entries
/// that name a track; both whole where every entry is of that kind; a skipped
/// kind nothing.
pub proof fn lemma_track_contribution_kinds(req: TrackListView, entries: Seq<UriView>)
    ensures
        req matches TrackListView::Tracks(t) ==> track_contribution(req, entries) == t,
        req is Unsupported ==> track_contribution(req, entries) == Seq::<UriView>::empty(),
        req is Album ==> forall|i: int|
            0 <= i < track_contribution(req, entries).len() ==> #[trigger] track_contribution(
                req,
                entries,
            )[i] is Album,
        req is Playlist ==> forall|i: int|
            0 <= i < track_contribution(req, entries).len() ==> #[trigger] track_contribution(
                req,
                entries,
            )[i] is Track,
        req is Album && (forall|i: int| 0 <= i < entries.len() ==> #[trigger] entries[i] is Album)
            ==> track_contribution(req, entries) == entries,
        req is Playlist && (forall|i: int| 0 <= i < entries.len() ==> #[trigger] entries[i] is Track)
            ==> track_contribution(req, entries) == entries,
        track_contribution(req, entries).len() <= entries.len() || req is Tracks,
{
    let pa = |u: UriView| names_album(u);
    let pt = |u: UriView| names_track(u);
    lemma_filter_uris_sound(entries, pa);
    lemma_filter_uris_sound(entries, pt);
    if forall|i: int| 0 <= i < entries.len() ==> #[trigger] entries[i] is Album {
        assert forall|i: int| 0 <= i < entries.len() implies pa(#[trigger] entries[i]) by {}
        lemma_filter_all(entries, pa);
    }
    if forall|i: int| 0 <= i < entries.len() ==> #[trigger] entries[i] is Track {
        assert forall|i: int| 0 <= i < entries.len() implies pt(#[trigger] entries[i]) by {}
        lemma_filter_all(entries, pt);
    }
}

} // verus!

verus! {

/// What the metadata of each kind shows: an episode is saved as
/// `{show} - {episode}` (each cleaned), tagged with the show as album and no
/// artists; a track is saved under its artists line, tagged with its album
/// and artists; both carry their own name, length and cover.
pub proof fn lemma_custom_metadata_by_kind(m: CustomMetadata)
    ensures
        m matches CustomMetadata::CustomEpisodeMetadata { duration, episode_name, show_name, album_cover } ==> {
            &&& m.spec_title() == clean_chars(show_name@) + seq![' ', '-', ' '] + clean_chars(
                episode_name@,
            )
            &&& m.spec_track_name() == episode_name@
            &&& m.spec_album_title() == show_name@
            &&& m.spec_artist_names() == Seq::<Seq<char>>::empty()
            &&& m.spec_duration() == duration
            &&& m.spec_cover() == bytes_view(album_cover)
        },
        m matches CustomMetadata::CustomTrackMetadata { artists, track_name, album, duration, album_cover } ==> {
            &&& m.spec_title() == track_title(artist_names(artists@), track_name@)
            &&& m.spec_track_name() == track_name@
            &&& m.spec_album_title() == album.name@
            &&& m.spec_artist_names() == artist_names(artists@)
            &&& m.spec_duration() == duration
            &&& m.spec_cover() == bytes_view(album_cover)
        },
{
    if let CustomMetadata::CustomEpisodeMetadata { episode_name, show_name, .. } = m {
        lemma_episode_title_parts(show_name@, episode_name@);
    }
}

/// What one requested id yields, kind by kind, given the entries fetched for
/// it: tracks and episodes themselves, an album or a playlist its selected
/// entries, a skipped kind nothing, an unreadable id its error.
pub proof fn lemma_yields_tracks_one(id: Seq<char>, entries: Seq<UriView>)
    ensures
        yields_tracks(seq![id], seq![entries]) == match track_list_for(uri_of_input(id)) {
            Err(e) => Err::<Seq<UriView>, Error>(e),
            Ok(TrackListView::Tracks(t)) => Ok(t),
            Ok(TrackListView::Album(_)) => Ok(filter_uris(entries, |u: UriView| names_album(u))),
            Ok(TrackListView::Playlist(_)) => Ok(filter_uris(entries, |u: UriView| names_track(u))),
            Ok(TrackListView::Unsupported) => Ok(Seq::<UriView>::empty()),
        },
{
    assert(seq![id].drop_last() =~= Seq::<Seq<char>>::empty());
    assert(seq![entries].drop_last() =~= Seq::<Seq<UriView>>::empty());
    assert(seq![id].last() == id);
    assert(seq![entries].last() == entries);
    assert(yields_tracks(Seq::<Seq<char>>::empty(), Seq::<Seq<UriView>>::empty()) == Ok::<
        Seq<UriView>,
        Error,
    >(Seq::<UriView>::empty()));
    if let Ok(req) = track_list_for(uri_of_input(id)) {
        assert(Seq::<UriView>::empty() + track_contribution(req, entries) =~= track_contribution(
            req,
            entries,
        ));
    }
}

} // verus!
