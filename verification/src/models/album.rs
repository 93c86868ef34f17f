use vstd::prelude::*;

use crate::models::artist::Artist;

verus! {

/// An album as the provider describes it.
#[derive(Debug, Clone)]
pub struct Album {
    pub id: String,
    pub name: String,
    pub album_type: String,
    pub artists: Vec<Artist>,
    pub total_tracks: i32,
    pub release_date: String,
}

} // verus!
