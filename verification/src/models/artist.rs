use vstd::prelude::*;

verus! {

/// An artist reduced to what a track listing needs.
#[derive(Debug, Clone)]
pub struct SimplifiedArtist {
    pub id: String,
    pub name: String,
}

/// An artist as the provider describes it.
#[derive(Debug, Clone)]
pub struct Artist {
    pub id: String,
    pub name: String,
    pub genres: Option<Vec<String>>,
    pub popularity: Option<i32>,
}

impl From<Artist> for SimplifiedArtist {
    fn from(artist: Artist) -> (r: Self) {
        SimplifiedArtist { id: artist.id, name: artist.name }
    }
}

impl vstd::std_specs::convert::FromSpecImpl<Artist> for SimplifiedArtist {
    open spec fn obeys_from_spec() -> bool {
        true
    }

    open spec fn from_spec(artist: Artist) -> Self {
        SimplifiedArtist { id: artist.id, name: artist.name }
    }
}

} // verus!
