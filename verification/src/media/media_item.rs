//! A single downloadable item.

use vstd::prelude::*;

use crate::error::Error;
use crate::uri::{is_playable_item, SpotifyUri, UriView};
use crate::utils::{parse_uri_or_url, uri_of_input};

verus! {

/// A single downloadable media item from Spotify: it wraps either a track or
/// an episode.
#[derive(Debug)]
pub struct MediaItem {
    uri: SpotifyUri,
}

impl MediaItem {
    #[verifier::type_invariant]
    spec fn wraps_playable_item(self) -> bool {
        is_playable_item(self.uri@)
    }
}

impl Clone for MediaItem {
    fn clone(&self) -> (r: Self)
        ensures
            r@ == self@,
    {
        proof {
            use_type_invariant(self);
        }
        MediaItem { uri: self.uri.clone() }
    }
}

impl View for MediaItem {
    type V = UriView;

    closed spec fn view(&self) -> UriView {
        self.uri@
    }
}

/// Which metadata request an item needs.
#[derive(Clone, Copy, Debug, PartialEq, Eq)]
pub enum MetadataRequest {
    /// The item is a track: its track, artists, album and cover are fetched.
    Track,
    /// The item is an episode: the episode and its cover are fetched.
    Episode,
}

/// The metadata request for a URI: tracks and episodes have one, nothing else.
pub open spec fn metadata_request_for(u: UriView) -> Result<MetadataRequest, Error> {
    match u {
        UriView::Track(_) => Ok(MetadataRequest::Track),
        UriView::Episode(_) => Ok(MetadataRequest::Episode),
        _ => Err(Error::NoMetadata),
    }
}

/// What [`MediaItem::from_parsed`] makes of a parsed URI: an item where it
/// names a track or an episode, "Invalid track" otherwise.
pub open spec fn item_from_parsed(u: UriView) -> Result<UriView, Error> {
    if is_playable_item(u) {
        Ok(u)
    } else {
        Err(Error::InvalidTrack)
    }
}

impl MediaItem {
    /// Wraps a URI that names a track or an episode.
    pub fn from(uri: &SpotifyUri) -> (r: Result<MediaItem, Error>)
        ensures
            match r {
                Ok(item) => is_playable_item(uri@) && item@ == uri@,
                Err(e) => !is_playable_item(uri@) && e == Error::NotMediaItem(*uri),
            },
    {
        match uri {
            SpotifyUri::Track(_) | SpotifyUri::Episode(_) => Ok(MediaItem { uri: uri.clone() }),
            _ => Err(Error::NotMediaItem(uri.clone())),
        }
    }

    /// The URI of the item: a track or an episode.
    pub fn uri(&self) -> (r: &SpotifyUri)
        ensures
            r@ == self@,
            is_playable_item(r@),
    {
        proof {
            use_type_invariant(self);
        }
        &self.uri
    }

    /// The item for an already parsed input: a track or an episode.
    pub fn from_parsed(uri: SpotifyUri) -> (r: Result<MediaItem, Error>)
        ensures
            match r {
                Ok(item) => item_from_parsed(uri@) == Ok::<UriView, Error>(item@),
                Err(e) => item_from_parsed(uri@) == Err::<UriView, Error>(e),
            },
    {
        match uri {
            SpotifyUri::Track(_) | SpotifyUri::Episode(_) => Ok(MediaItem { uri }),
            _ => Err(Error::InvalidTrack),
        }
    }

    /// The item that a URI or share URL names: a track or an episode.
    pub fn new(track: &str) -> (r: Result<MediaItem, Error>)
        requires
            uri_of_input(track@) is Some,
        ensures
            match r {
                Ok(item) => item_from_parsed(uri_of_input(track@).unwrap()) == Ok::<
                    UriView,
                    Error,
                >(item@),
                Err(e) => item_from_parsed(uri_of_input(track@).unwrap()) == Err::<UriView, Error>(
                    e,
                ),
            },
    {
        match parse_uri_or_url(track) {
            Some(uri) => MediaItem::from_parsed(uri),
            None => Err(Error::InvalidTrack),
        }
    }

    /// [`MediaItem::new`] where the input can be read, and `None` where it
    /// cannot.
    pub fn checked_new(track: &str) -> (r: Option<Result<MediaItem, Error>>)
        ensures
            r is None <==> uri_of_input(track@) is None,
            match r {
                Some(Ok(item)) => item_from_parsed(uri_of_input(track@).unwrap()) == Ok::<
                    UriView,
                    Error,
                >(item@),
                Some(Err(e)) => item_from_parsed(uri_of_input(track@).unwrap()) == Err::<
                    UriView,
                    Error,
                >(e),
                None => true,
            },
    {
        if parse_uri_or_url(track).is_some() {
            Some(MediaItem::new(track))
        } else {
            None
        }
    }

    /// Which metadata the item needs fetched: that of a track or of an
    /// episode.
    pub fn metadata_request(&self) -> (r: Result<MetadataRequest, Error>)
        ensures
            r == metadata_request_for(self@),
            r is Ok,
    {
        proof {
            use_type_invariant(self);
        }
        match &self.uri {
            SpotifyUri::Track(_) => Ok(MetadataRequest::Track),
            SpotifyUri::Episode(_) => Ok(MetadataRequest::Episode),
            _ => Err(Error::NoMetadata),
        }
    }
}

} // verus!

verus! {

/// An item is made only of a track or an episode, and keeps its URI; any
/// other parsed URI is "Invalid track".
pub proof fn lemma_item_from_parsed_kinds(u: UriView)
    ensures
        (u is Track || u is Episode) ==> item_from_parsed(u) == Ok::<UriView, Error>(u),
        !(u is Track || u is Episode) ==> item_from_parsed(u) == Err::<UriView, Error>(
            Error::InvalidTrack,
        ),
{
}

/// A track needs the metadata of a track, an episode that of an episode,
/// and nothing else has any.
pub proof fn lemma_metadata_request_kinds(u: UriView)
    ensures
        u is Track ==> metadata_request_for(u) == Ok::<MetadataRequest, Error>(MetadataRequest::Track),
        u is Episode ==> metadata_request_for(u) == Ok::<MetadataRequest, Error>(
            MetadataRequest::Episode,
        ),
        !(u is Track || u is Episode) ==> metadata_request_for(u) == Err::<MetadataRequest, Error>(
            Error::NoMetadata,
        ),
{
}

} // verus!
