//! The tags written into an audio file.

use vstd::prelude::*;

verus! {

/// The tags of an audio file: title, artists, album and cover art.
#[derive(Clone, Debug)]
pub struct Tags {
    pub title: String,
    pub artists: Vec<String>,
    pub album_title: String,
    pub album_cover: Option<Vec<u8>>,
}

} // verus!
