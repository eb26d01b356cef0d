//! The crate's own model of a Spotify URI.
//!
//! Every logical decision of the downloader depends only on which kind of
//! item a URI names; the identifiers themselves are carried through unread.

use std::borrow::Cow;
use std::time::Duration;

use librespot_core::SpotifyId;
use vstd::prelude::*;

verus! {

/// Spotify's 128-bit item identifier, carried through unread.
#[verifier::external_type_specification]
#[verifier::external_body]
pub struct ExSpotifyId(librespot_core::SpotifyId);

/// The id of a file on Spotify's servers (an audio file or a picture),
/// carried through unread.
#[verifier::external_type_specification]
#[verifier::external_body]
pub struct ExFileId(librespot_core::FileId);

/// A parsed Spotify URI, one variant per item type that librespot knows.
#[derive(Debug)]
pub enum SpotifyUri {
    Album(SpotifyId),
    Artist(SpotifyId),
    Episode(SpotifyId),
    /// The owner's name (for `spotify:user:{user}:playlist:{id}`) and the id.
    Playlist(Option<String>, SpotifyId),
    Show(SpotifyId),
    Track(SpotifyId),
    /// Artist, album title, track title and length of a local file.
    Local(String, String, String, Duration),
    /// An item type that is not recognised, with the text of its id.
    Unknown(Cow<'static, str>, String),
}

/// The mathematical value of a [`SpotifyUri`]: strings are taken by their
/// characters.
pub enum UriView {
    Album(SpotifyId),
    Artist(SpotifyId),
    Episode(SpotifyId),
    Playlist(Option<Seq<char>>, SpotifyId),
    Show(SpotifyId),
    Track(SpotifyId),
    Local(Seq<char>, Seq<char>, Seq<char>, Duration),
    Unknown(Seq<char>, Seq<char>),
}

impl View for SpotifyUri {
    type V = UriView;

    open spec fn view(&self) -> UriView {
        match self {
            SpotifyUri::Album(id) => UriView::Album(*id),
            SpotifyUri::Artist(id) => UriView::Artist(*id),
            SpotifyUri::Episode(id) => UriView::Episode(*id),
            SpotifyUri::Playlist(user, id) => UriView::Playlist(
                match user {
                    Some(u) => Some(u@),
                    None => None,
                },
                *id,
            ),
            SpotifyUri::Show(id) => UriView::Show(*id),
            SpotifyUri::Track(id) => UriView::Track(*id),
            SpotifyUri::Local(a, b, c, d) => UriView::Local(a@, b@, c@, *d),
            SpotifyUri::Unknown(k, i) => UriView::Unknown(k@, i@),
        }
    }
}

/// The view of an optional URI.
pub open spec fn opt_uri_view(u: Option<SpotifyUri>) -> Option<UriView> {
    match u {
        Some(v) => Some(v@),
        None => None,
    }
}

impl Clone for SpotifyUri {
    fn clone(&self) -> (r: Self)
        ensures
            r == *self,
    {
        match self {
            SpotifyUri::Album(id) => SpotifyUri::Album(*id),
            SpotifyUri::Artist(id) => SpotifyUri::Artist(*id),
            SpotifyUri::Episode(id) => SpotifyUri::Episode(*id),
            SpotifyUri::Playlist(user, id) => {
                let u = match user {
                    Some(name) => Some(name.clone()),
                    None => None,
                };
                SpotifyUri::Playlist(u, *id)
            },
            SpotifyUri::Show(id) => SpotifyUri::Show(*id),
            SpotifyUri::Track(id) => SpotifyUri::Track(*id),
            SpotifyUri::Local(a, b, c, d) => SpotifyUri::Local(a.clone(), b.clone(), c.clone(), *d),
            SpotifyUri::Unknown(k, i) => {
                let kind = match k {
                    Cow::Borrowed(s) => Cow::Borrowed(*s),
                    Cow::Owned(s) => Cow::Owned(s.clone()),
                };
                SpotifyUri::Unknown(kind, i.clone())
            },
        }
    }
}

} // verus!

verus! {

/// Whether a URI names a single playable item: a track or an episode.
pub open spec fn is_playable_item(u: UriView) -> bool {
    u is Track || u is Episode
}

/// Whether a URI names a collection of items: an album, a playlist or a show.
pub open spec fn is_collection(u: UriView) -> bool {
    u is Album || u is Playlist || u is Show
}

} // verus!

verus! {

/// The URIs of `s` that satisfy `p`, in order.
pub open spec fn filter_uris(s: Seq<UriView>, p: spec_fn(UriView) -> bool) -> Seq<UriView>
    decreases s.len(),
{
    if s.len() == 0 {
        Seq::empty()
    } else if p(s.last()) {
        filter_uris(s.drop_last(), p).push(s.last())
    } else {
        filter_uris(s.drop_last(), p)
    }
}

/// The views of a sequence of URIs.
pub open spec fn uri_views(s: Seq<SpotifyUri>) -> Seq<UriView> {
    s.map_values(|u: SpotifyUri| u@)
}

} // verus!

verus! {

/// The single items are exactly the tracks and the episodes; the
/// collections exactly the albums, the playlists and the shows; an artist, a
/// local file and an unknown kind are neither.
pub proof fn lemma_uri_kinds(u: UriView)
    ensures
        is_playable_item(u) <==> (u is Track || u is Episode),
        is_collection(u) <==> (u is Album || u is Playlist || u is Show),
        (u is Artist || u is Local || u is Unknown) ==> !is_playable_item(u) && !is_collection(u),
{
}

} // verus!
