use vstd::prelude::*;

use crate::models::album::Album;
use crate::models::artist::Artist;

verus! {

/// A track as the provider describes it.
#[derive(Debug, Clone)]
pub struct Track {
    pub id: String,
    pub uri: String,
    pub name: String,
    pub album: Album,
    pub artists: Vec<Artist>,
}

} // verus!
