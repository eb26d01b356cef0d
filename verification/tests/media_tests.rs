use librespot_core::{FileId, SpotifyId};
use spotify_dl::error::{Error, FetchStage};
use spotify_dl::media::media_item::{MediaItem, MetadataRequest};
use spotify_dl::media::media_queue::MediaQueue;
use spotify_dl::media::metadata::{first_cover, AlbumMetadata, ArtistMetadata, MediaItemMetadata};
use spotify_dl::uri::SpotifyUri;

fn sid(n: u128) -> SpotifyId {
    SpotifyId { id: n }
}

fn names(v: &[&str]) -> Vec<String> {
    v.iter().map(|s| s.to_string()).collect()
}

#[test]
fn media_item_from_track_and_episode() {
    let t = MediaItem::from(&SpotifyUri::Track(sid(1))).unwrap();
    assert!(matches!(t.uri(), SpotifyUri::Track(i) if *i == sid(1)));
    let e = MediaItem::from(&SpotifyUri::Episode(sid(2))).unwrap();
    assert!(matches!(e.uri(), SpotifyUri::Episode(_)));
}

#[test]
fn media_item_from_refuses_collections() {
    match MediaItem::from(&SpotifyUri::Album(sid(3))) {
        Err(Error::NotMediaItem(SpotifyUri::Album(i))) => assert_eq!(i, sid(3)),
        _ => panic!("expected NotMediaItem"),
    }
}

#[test]
fn media_item_new_accepts_tracks_and_episodes() {
    let t = MediaItem::new("spotify:track:6rqhFgbbKwnb9MLmUQDhG6").unwrap();
    assert!(matches!(t.uri(), SpotifyUri::Track(_)));
    let e = MediaItem::new("https://open.spotify.com/episode/512ojhOuo1ktJprKbVcKyQ").unwrap();
    assert!(matches!(e.uri(), SpotifyUri::Episode(_)));
    assert!(matches!(
        MediaItem::new("spotify:album:4aawyAB9vmqN3uQ7FjRGTy"),
        Err(Error::InvalidTrack)
    ));
}

#[test]
fn media_item_from_parsed() {
    assert!(MediaItem::from_parsed(SpotifyUri::Track(sid(1))).is_ok());
    assert!(matches!(MediaItem::from_parsed(SpotifyUri::Show(sid(1))), Err(Error::InvalidTrack)));
}

#[test]
fn media_item_checked_new_refuses_unreadable_input() {
    assert!(MediaItem::checked_new("nonsense").is_none());
    assert!(matches!(
        MediaItem::checked_new("spotify:track:6rqhFgbbKwnb9MLmUQDhG6"),
        Some(Ok(_))
    ));
    assert!(matches!(
        MediaItem::checked_new("spotify:album:4aawyAB9vmqN3uQ7FjRGTy"),
        Some(Err(Error::InvalidTrack))
    ));
}

#[test]
fn metadata_request_by_kind() {
    let t = MediaItem::from(&SpotifyUri::Track(sid(1))).unwrap();
    assert_eq!(t.metadata_request().unwrap(), MetadataRequest::Track);
    let e = MediaItem::from(&SpotifyUri::Episode(sid(1))).unwrap();
    assert_eq!(e.metadata_request().unwrap(), MetadataRequest::Episode);
}

#[test]
fn media_queue_from_uri() {
    assert!(MediaQueue::from_uri(&SpotifyUri::Album(sid(1))).is_ok());
    assert!(MediaQueue::from_uri(&SpotifyUri::Playlist(None, sid(1))).is_ok());
    assert!(MediaQueue::from_uri(&SpotifyUri::Show(sid(1))).is_ok());
    assert!(matches!(MediaQueue::from_uri(&SpotifyUri::Track(sid(1))), Err(Error::InvalidUri)));
    assert!(matches!(MediaQueue::from_uri(&SpotifyUri::Artist(sid(1))), Err(Error::InvalidUri)));
}

#[test]
fn album_queue_selects_tracks_in_order() {
    let q = MediaQueue::from_uri(&SpotifyUri::Album(sid(9))).unwrap();
    let entries = vec![
        SpotifyUri::Track(sid(1)),
        SpotifyUri::Episode(sid(2)),
        SpotifyUri::Track(sid(3)),
        SpotifyUri::Album(sid(4)),
    ];
    let items = q.select_items(&entries);
    assert_eq!(items.len(), 2);
    assert!(matches!(items[0].uri(), SpotifyUri::Track(i) if *i == sid(1)));
    assert!(matches!(items[1].uri(), SpotifyUri::Track(i) if *i == sid(3)));
}

#[test]
fn show_queue_selects_episodes() {
    let q = MediaQueue::from_uri(&SpotifyUri::Show(sid(9))).unwrap();
    let entries = vec![SpotifyUri::Track(sid(1)), SpotifyUri::Episode(sid(2))];
    let items = q.select_items(&entries);
    assert_eq!(items.len(), 1);
    assert!(matches!(items[0].uri(), SpotifyUri::Episode(i) if *i == sid(2)));
}

fn track(artists: &[&str], name: &str, duration: i32) -> MediaItemMetadata {
    MediaItemMetadata::from(
        name.to_string(),
        duration,
        names(artists),
        "Album".to_string(),
        Some(vec![1, 2, 3]),
    )
}

#[test]
fn track_title_with_few_artists() {
    assert_eq!(track(&["A", "B"], "Song", 1000).to_string(), "A, B - Song");
    assert_eq!(track(&["A", "B", "C"], "Song", 1000).to_string(), "A, B, C - Song");
    assert_eq!(track(&[], "Song", 1000).to_string(), " - Song");
}

#[test]
fn track_title_with_many_artists() {
    assert_eq!(track(&["A", "B", "C", "D"], "Song", 1000).to_string(), "A, B, C, ... - Song");
    assert_eq!(
        track(&["A", "B", "C", "E", "F"], "Song", 1000).to_string(),
        track(&["A", "B", "C", "D"], "Song", 1000).to_string()
    );
}

#[test]
fn track_title_is_cleaned() {
    assert_eq!(track(&["AC/DC"], "What? <Live>", 1000).to_string(), "ACDC - What Live");
}

#[test]
fn episode_title() {
    let m = MediaItemMetadata::EpisodeMetadata {
        duration: 5000,
        episode_name: "Ep: 1".to_string(),
        show_name: "The Show".to_string(),
        album_cover: None,
    };
    assert_eq!(m.to_string(), "The Show - Ep 1");
    assert_eq!(m.track_name(), "Ep: 1");
    assert_eq!(m.duration(), 5000);
}

#[test]
fn duration_and_approx_size() {
    let m = track(&["A"], "Song", 61_999);
    assert_eq!(m.duration(), 61_999);
    assert_eq!(m.approx_size(), 61 * 44100 * 2 * 4);
    assert_eq!(track(&["A"], "Song", 999).approx_size(), 0);
}

#[test]
fn negative_duration_converts_as_usize() {
    let m = track(&["A"], "Song", -1);
    assert_eq!(m.duration(), usize::MAX);
}

#[test]
fn track_tags() {
    let tags = track(&["A", "B"], "Song", 1000).tags().unwrap();
    assert_eq!(tags.title, "Song");
    assert_eq!(tags.artists, vec!["A".to_string(), "B".to_string()]);
    assert_eq!(tags.album_title, "Album");
    assert_eq!(tags.album_cover, Some(vec![1, 2, 3]));
}

#[test]
fn episode_tags() {
    let m = MediaItemMetadata::EpisodeMetadata {
        duration: 5000,
        episode_name: "Ep".to_string(),
        show_name: "Show".to_string(),
        album_cover: Some(vec![7]),
    };
    let tags = m.tags().unwrap();
    assert_eq!(tags.title, "Ep");
    assert!(tags.artists.is_empty());
    assert_eq!(tags.album_title, "Show");
    assert_eq!(tags.album_cover, Some(vec![7]));
}

#[test]
fn metadata_built_from_parts() {
    let m = MediaItemMetadata::TrackMetadata {
        artists: vec![ArtistMetadata::from("X".to_string())],
        track_name: "T".to_string(),
        album: AlbumMetadata::from("Al".to_string()),
        duration: 2000,
        album_cover: None,
    };
    assert_eq!(m.to_string(), "X - T");
    assert_eq!(m.tags().unwrap().album_title, "Al");
}

#[test]
fn fetch_stage_failures() {
    assert!(matches!(FetchStage::Item.failure(), Error::NoMetadata));
    assert!(matches!(FetchStage::Artist.failure(), Error::ArtistUnavailable));
    assert!(matches!(FetchStage::Album.failure(), Error::AlbumUnavailable));
}

#[test]
fn first_cover_is_first_picture() {
    assert_eq!(first_cover(&vec![FileId([1; 20]), FileId([2; 20])]), Some(FileId([1; 20])));
    assert_eq!(first_cover(&vec![]), None);
}
