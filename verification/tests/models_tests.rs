use spautofy::actions::track_uris;
use spautofy::models::album::Album;
use spautofy::models::artist::{Artist, SimplifiedArtist};
use spautofy::models::track::Track;

fn test_track(n: u32) -> Track {
    Track {
        id: format!("id{}", n),
        uri: format!("spotify:track:{}", n),
        name: format!("track {}", n),
        album: Album {
            id: "al1".to_string(),
            name: "album".to_string(),
            album_type: "album".to_string(),
            artists: vec![],
            total_tracks: 10,
            release_date: "2024-01-01".to_string(),
        },
        artists: vec![],
    }
}

#[test]
fn track_uris_keep_the_listing_order() {
    let tracks = vec![test_track(1), test_track(2), test_track(3)];
    let uris = track_uris(&tracks);
    assert_eq!(uris, vec!["spotify:track:1", "spotify:track:2", "spotify:track:3"]);
    let empty: Vec<Track> = vec![];
    assert!(track_uris(&empty).is_empty());
}

#[test]
fn simplifying_an_artist_keeps_id_and_name() {
    let artist = Artist {
        id: "ar1".to_string(),
        name: "Band".to_string(),
        genres: Some(vec!["rock".to_string()]),
        popularity: Some(50),
    };
    let simple = SimplifiedArtist::from(artist);
    assert_eq!(simple.id, "ar1");
    assert_eq!(simple.name, "Band");
}
