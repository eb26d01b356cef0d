//! The errors of the library.

use vstd::prelude::*;

use crate::uri::SpotifyUri;

verus! {

/// Why a request or a conversion was refused.
#[derive(Debug)]
pub enum Error {
    /// The input is neither a Spotify URI nor a share URL of the expected
    /// kind ("Invalid track").
    InvalidTrack,
    /// The input does not name an album ("Invalid album").
    InvalidAlbum,
    /// The input is neither a Spotify URI nor a share URL ("Invalid playlist").
    InvalidPlaylist,
    /// The URI names no album, playlist or show ("Invalid uri").
    InvalidUri,
    /// The URI names no track or episode ("Failed to load media item").
    NotMediaItem(SpotifyUri),
    /// The item has no metadata that can be fetched, or fetching it failed
    /// ("Failed to get metadata").
    NoMetadata,
    /// Fetching an artist of the track failed ("Failed to get artist").
    ArtistUnavailable,
    /// Fetching the album of the track failed ("Failed to get album").
    AlbumUnavailable,
}

/// A fetch made while gathering the metadata of an item.
#[derive(Clone, Copy, Debug, PartialEq, Eq)]
pub enum FetchStage {
    /// The track or episode itself.
    Item,
    /// One of the track's artists.
    Artist,
    /// The track's album.
    Album,
}

/// The error that a failed fetch of a stage gives.
pub open spec fn stage_failure(stage: FetchStage) -> Error {
    match stage {
        FetchStage::Item => Error::NoMetadata,
        FetchStage::Artist => Error::ArtistUnavailable,
        FetchStage::Album => Error::AlbumUnavailable,
    }
}

impl FetchStage {
    /// The error that a failed fetch of this stage gives.
    pub fn failure(self) -> (r: Error)
        ensures
            r == stage_failure(self),
    {
        match self {
            FetchStage::Item => Error::NoMetadata,
            FetchStage::Artist => Error::ArtistUnavailable,
            FetchStage::Album => Error::AlbumUnavailable,
        }
    }
}

} // verus!

verus! {

/// A failed fetch of the item gives "Failed to get metadata", of an artist
/// "Failed to get artist", of the album "Failed to get album".
pub proof fn lemma_stage_failures()
    ensures
        stage_failure(FetchStage::Item) == Error::NoMetadata,
        stage_failure(FetchStage::Artist) == Error::ArtistUnavailable,
        stage_failure(FetchStage::Album) == Error::AlbumUnavailable,
{
}

} // verus!
