//! Metadata of a downloadable item, and the titles and tags made from it.

use librespot_core::FileId;
use vstd::prelude::*;

use crate::encoder::tags::Tags;
use crate::error::Error;
use crate::text::{bytes_view, copy_cover, string_views};
use crate::utils::{
    episode_title, episode_title_of, is_kept_char, lemma_titles_are_file_safe, track_title,
    track_title_of, clean_chars, lemma_episode_title_parts,
};

verus! {

/// The metadata of each supported kind of item.
#[derive(Clone)]
pub enum MediaItemMetadata {
    EpisodeMetadata {
        duration: i32,
        episode_name: String,
        show_name: String,
        album_cover: Option<Vec<u8>>,
    },
    TrackMetadata {
        artists: Vec<ArtistMetadata>,
        track_name: String,
        album: AlbumMetadata,
        duration: i32,
        album_cover: Option<Vec<u8>>,
    },
}

/// The artist of a track, by name.
#[derive(Clone, Debug)]
pub struct ArtistMetadata {
    name: String,
}

impl View for ArtistMetadata {
    type V = Seq<char>;

    closed spec fn view(&self) -> Seq<char> {
        self.name@
    }
}

/// The album of a track, by name.
#[derive(Clone, Debug)]
pub struct AlbumMetadata {
    name: String,
}

impl View for AlbumMetadata {
    type V = Seq<char>;

    closed spec fn view(&self) -> Seq<char> {
        self.name@
    }
}

impl ArtistMetadata {
    /// The metadata of the artist with the given name.
    pub fn from(name: String) -> (r: Self)
        ensures
            r@ == name@,
    {
        ArtistMetadata { name }
    }
}

impl AlbumMetadata {
    /// The metadata of the album with the given name.
    pub fn from(name: String) -> (r: Self)
        ensures
            r@ == name@,
    {
        AlbumMetadata { name }
    }
}

/// The picture shown as an item's cover: the first of its pictures, if it
/// has any.
pub fn first_cover(covers: &Vec<FileId>) -> (r: Option<FileId>)
    ensures
        r == (if covers@.len() > 0 {
            Some(covers@[0])
        } else {
            None
        }),
{
    if covers.len() > 0 {
        Some(covers[0])
    } else {
        None
    }
}

/// The names of a list of artists.
pub open spec fn artist_views(s: Seq<ArtistMetadata>) -> Seq<Seq<char>> {
    s.map_values(|a: ArtistMetadata| a@)
}

/// Sound data rate of a downloaded item in bytes per second: 44100 samples
/// of two channels of 32 bits.
pub open spec fn bytes_per_second() -> int {
    44100int * 2 * 4
}

impl MediaItemMetadata {
    /// The length of the item in milliseconds.
    pub open spec fn spec_duration(&self) -> i32 {
        match self {
            MediaItemMetadata::EpisodeMetadata { duration, .. } => *duration,
            MediaItemMetadata::TrackMetadata { duration, .. } => *duration,
        }
    }

    /// The name of the episode or track.
    pub open spec fn spec_track_name(&self) -> Seq<char> {
        match self {
            MediaItemMetadata::EpisodeMetadata { episode_name, .. } => episode_name@,
            MediaItemMetadata::TrackMetadata { track_name, .. } => track_name@,
        }
    }

    /// The names of the artists (none for an episode).
    pub open spec fn spec_artist_names(&self) -> Seq<Seq<char>> {
        match self {
            MediaItemMetadata::EpisodeMetadata { .. } => Seq::empty(),
            MediaItemMetadata::TrackMetadata { artists, .. } => artist_views(artists@),
        }
    }

    /// The title under which the item is saved.
    pub open spec fn spec_title(&self) -> Seq<char> {
        match self {
            MediaItemMetadata::EpisodeMetadata { episode_name, show_name, .. } => episode_title(
                show_name@,
                episode_name@,
            ),
            MediaItemMetadata::TrackMetadata { artists, track_name, .. } => track_title(
                artist_views(artists@),
                track_name@,
            ),
        }
    }

    /// The album title written in the tags: the album of a track, the show
    /// of an episode.
    pub open spec fn spec_album_title(&self) -> Seq<char> {
        match self {
            MediaItemMetadata::EpisodeMetadata { show_name, .. } => show_name@,
            MediaItemMetadata::TrackMetadata { album, .. } => album@,
        }
    }

    /// The cover art.
    pub open spec fn spec_cover(&self) -> Option<Seq<u8>> {
        match self {
            MediaItemMetadata::EpisodeMetadata { album_cover, .. } => bytes_view(*album_cover),
            MediaItemMetadata::TrackMetadata { album_cover, .. } => bytes_view(*album_cover),
        }
    }

    /// The name of the episode or track.
    pub fn track_name(&self) -> (r: &String)
        ensures
            r@ == self.spec_track_name(),
    {
        match self {
            MediaItemMetadata::EpisodeMetadata { episode_name, .. } => episode_name,
            MediaItemMetadata::TrackMetadata { track_name, .. } => track_name,
        }
    }

    /// The length in milliseconds, converted as by `as usize`.
    pub fn duration(&self) -> (r: usize)
        ensures
            r == self.spec_duration() as usize,
    {
        let duration = match self {
            MediaItemMetadata::EpisodeMetadata { duration, .. } => *duration,
            MediaItemMetadata::TrackMetadata { duration, .. } => *duration,
        };
        duration as usize
    }

    /// The metadata of a track from its name and length, the names of its
    /// artists, the name of its album and its cover art.
    pub fn from(
        track_name: String,
        duration: i32,
        artist_names: Vec<String>,
        album_name: String,
        album_cover: Option<Vec<u8>>,
    ) -> (r: Self)
        ensures
            r is TrackMetadata,
            r.spec_track_name() == track_name@,
            r.spec_duration() == duration,
            r.spec_artist_names() == string_views(artist_names@),
            r.spec_album_title() == album_name@,
            r.spec_cover() == bytes_view(album_cover),
    {
        let mut artists: Vec<ArtistMetadata> = Vec::new();
        let mut i: usize = 0;
        while i < artist_names.len()
            invariant
                i <= artist_names.len(),
                artist_views(artists@) == string_views(artist_names@).take(i as int),
            decreases artist_names.len() - i,
        {
            let ghost before = artists@;
            artists.push(ArtistMetadata::from(artist_names[i].clone()));
            proof {
                assert(artist_views(artists@) =~= artist_views(before).push(artist_names@[i as int]@));
                assert(string_views(artist_names@).take(i + 1) =~= string_views(artist_names@).take(
                    i as int,
                ).push(artist_names@[i as int]@));
            }
            i = i + 1;
        }
        proof {
            assert(string_views(artist_names@).take(artist_names.len() as int) =~= string_views(
                artist_names@,
            ));
        }
        let album = AlbumMetadata::from(album_name);
        MediaItemMetadata::TrackMetadata { artists, track_name, album, duration, album_cover }
    }

    /// The estimated size in bytes of the downloaded audio: whole seconds of
    /// sound at [`bytes_per_second`].
    pub fn approx_size(&self) -> (r: usize)
        requires
            (self.spec_duration() as usize) / 1000 * bytes_per_second() <= usize::MAX,
        ensures
            r == (self.spec_duration() as usize) / 1000 * bytes_per_second(),
    {
        let duration = self.duration() / 1000;
        let sample_rate: usize = 44100;
        let channels: usize = 2;
        let bits_per_sample: usize = 32;
        let bytes_per_sample = bits_per_sample / 8;
        assert(duration * sample_rate <= duration * 352800) by (nonlinear_arith)
            requires
                sample_rate == 44100,
        ;
        assert(duration * sample_rate * channels <= duration * 352800) by (nonlinear_arith)
            requires
                sample_rate == 44100,
                channels == 2,
        ;
        assert(duration * sample_rate * channels * bytes_per_sample == duration * 352800) by (
        nonlinear_arith)
            requires
                sample_rate == 44100,
                channels == 2,
                bytes_per_sample == 4,
        ;
        duration * sample_rate * channels * bytes_per_sample
    }

    /// The tags to write into the audio file.
    pub fn tags(&self) -> (r: Result<Tags, Error>)
        ensures
            match r {
                Ok(tags) => tags.title@ == self.spec_track_name() && string_views(tags.artists@)
                    == self.spec_artist_names() && tags.album_title@ == self.spec_album_title()
                    && bytes_view(tags.album_cover) == self.spec_cover(),
                Err(_) => false,
            },
    {
        let tags = match self {
            MediaItemMetadata::EpisodeMetadata { episode_name, album_cover, show_name, .. } => {
                let artists: Vec<String> = Vec::new();
                assert(string_views(artists@) =~= Seq::<Seq<char>>::empty());
                Tags {
                    title: episode_name.clone(),
                    album_cover: copy_cover(album_cover),
                    album_title: show_name.clone(),
                    artists,
                }
            },
            MediaItemMetadata::TrackMetadata { track_name, artists, album, album_cover, .. } => {
                Tags {
                    title: track_name.clone(),
                    artists: artist_names_of(artists),
                    album_title: album.name.clone(),
                    album_cover: copy_cover(album_cover),
                }
            },
        };
        Ok(tags)
    }

    /// The title under which the item is saved: `{artists} - {track}` for a
    /// track (at most three artists, more shown as `, ...`), `{show} -
    /// {episode}` for an episode, without the characters that file names
    /// cannot hold.
    pub fn to_string(&self) -> (r: String)
        ensures
            r@ == self.spec_title(),
    {
        match self {
            MediaItemMetadata::TrackMetadata { artists, track_name, .. } => {
                let names = artist_names_of(artists);
                track_title_of(&names, track_name.as_str())
            },
            MediaItemMetadata::EpisodeMetadata { episode_name, show_name, .. } => {
                episode_title_of(show_name.as_str(), episode_name.as_str())
            },
        }
    }
}

/// The names of a list of artists, in order.
fn artist_names_of(artists: &Vec<ArtistMetadata>) -> (r: Vec<String>)
    ensures
        string_views(r@) == artist_views(artists@),
{
    let mut names: Vec<String> = Vec::new();
    let mut i: usize = 0;
    while i < artists.len()
        invariant
            i <= artists.len(),
            string_views(names@) == artist_views(artists@).take(i as int),
        decreases artists.len() - i,
    {
        let ghost before = names@;
        names.push(artists[i].name.clone());
        proof {
            assert(string_views(names@) =~= string_views(before).push(artists@[i as int]@));
            assert(artist_views(artists@).take(i + 1) =~= artist_views(artists@).take(i as int).push(
                artists@[i as int]@,
            ));
        }
        i = i + 1;
    }
    proof {
        assert(artist_views(artists@).take(artists.len() as int) =~= artist_views(artists@));
    }
    names
}

} // verus!

verus! {

/// The title under which any item is saved can stand in a file name.
pub proof fn lemma_title_is_file_safe(m: MediaItemMetadata)
    ensures
        forall|i: int|
            0 <= i < m.spec_title().len() ==> is_kept_char(#[trigger] m.spec_title()[i]),
{
    match m {
        MediaItemMetadata::EpisodeMetadata { episode_name, show_name, .. } => {
            lemma_titles_are_file_safe(Seq::empty(), episode_name@, show_name@);
        },
        MediaItemMetadata::TrackMetadata { artists, track_name, .. } => {
            lemma_titles_are_file_safe(artist_views(artists@), track_name@, Seq::empty());
        },
    }
}

} // verus!

verus! {

/// Sound is counted at 352800 bytes a second.
pub proof fn lemma_bytes_per_second()
    ensures
        bytes_per_second() == 352800,
{
}

/// What the metadata of each kind shows: an episode is saved as
/// `{show} - {episode}` (each cleaned), tagged with the show as album and no
/// artists; a track is saved under its artists line, tagged with its album
/// and artists; both carry their own name, length and cover.
pub proof fn lemma_metadata_by_kind(m: MediaItemMetadata)
    ensures
        m matches MediaItemMetadata::EpisodeMetadata { duration, episode_name, show_name, album_cover } ==> {
            &&& m.spec_title() == clean_chars(show_name@) + seq![' ', '-', ' '] + clean_chars(
                episode_name@,
            )
            &&& m.spec_track_name() == episode_name@
            &&& m.spec_album_title() == show_name@
            &&& m.spec_artist_names() == Seq::<Seq<char>>::empty()
            &&& m.spec_duration() == duration
            &&& m.spec_cover() == bytes_view(album_cover)
        },
        m matches MediaItemMetadata::TrackMetadata { artists, track_name, album, duration, album_cover } ==> {
            &&& m.spec_title() == track_title(artist_views(artists@), track_name@)
            &&& m.spec_track_name() == track_name@
            &&& m.spec_album_title() == album@
            &&& m.spec_artist_names() == artist_views(artists@)
            &&& m.spec_duration() == duration
            &&& m.spec_cover() == bytes_view(album_cover)
        },
{
    if let MediaItemMetadata::EpisodeMetadata { episode_name, show_name, .. } = m {
        lemma_episode_title_parts(show_name@, episode_name@);
    }
}

} // verus!
