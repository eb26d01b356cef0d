//! Verified core of a Spotify downloader: recognising Spotify URIs and share
//! URLs, deciding which items a request stands for, and shaping the metadata
//! of a downloaded item into titles and tags.

pub mod encoder;
pub mod error;
pub mod media;
pub mod text;
pub mod track;
pub mod uri;
pub mod utils;
