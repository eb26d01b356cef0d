//! Playable items, collections of them, and their metadata.

pub mod media_item;
pub mod media_queue;
pub mod metadata;
