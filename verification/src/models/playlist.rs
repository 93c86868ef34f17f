use vstd::prelude::*;

use crate::models::track::Track;

verus! {

/// A playlist as the provider describes it.
#[derive(Debug, Clone)]
pub struct Playlist {
    pub id: String,
    pub name: String,
    pub description: String,
    pub collaborative: bool,
    pub href: String,
    pub public: bool,
    pub tracks: PlaylistItems,
}

/// One page of a playlist's tracks.
#[derive(Debug, Clone)]
pub struct PlaylistItems {
    pub href: String,
    pub total: i32,
    pub offset: i32,
    pub next: Option<String>,
    pub previous: Option<String>,
    pub items: Vec<Track>,
}

} // verus!
