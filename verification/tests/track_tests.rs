use librespot_core::{FileId, SpotifyId};
use librespot_metadata::image::{Image, ImageSize};
use spotify_dl::error::Error;
use spotify_dl::media::media_item::MetadataRequest;
use spotify_dl::track::{
    resolve_track_list, resolve_track_list_request, Album, AlbumMetadata, ArtistMetadata,
    CustomMetadata, Playlist, Track, TrackListCollector, TrackListRequest, TrackListStep,
};
use spotify_dl::uri::SpotifyUri;

fn sid(n: u128) -> SpotifyId {
    SpotifyId { id: n }
}

fn image(w: i32) -> Image {
    Image { id: FileId([0; 20]), size: ImageSize::DEFAULT, width: w, height: w }
}

#[test]
fn track_new_accepts_only_albums() {
    let t = Track::new("spotify:album:4aawyAB9vmqN3uQ7FjRGTy").unwrap();
    assert!(matches!(t.uri, SpotifyUri::Album(_)));
    assert!(matches!(Track::new("spotify:track:6rqhFgbbKwnb9MLmUQDhG6"), Err(Error::InvalidTrack)));
    assert!(Track::checked_new("junk").is_none());
}

#[test]
fn track_metadata_request_by_kind() {
    let t = Track { uri: SpotifyUri::Track(sid(1)) };
    assert_eq!(t.metadata_request().unwrap(), MetadataRequest::Track);
    let e = Track { uri: SpotifyUri::Episode(sid(1)) };
    assert_eq!(e.metadata_request().unwrap(), MetadataRequest::Episode);
    let a = Track { uri: SpotifyUri::Album(sid(1)) };
    assert!(matches!(a.metadata_request(), Err(Error::NoMetadata)));
}

#[test]
fn track_get_tracks_is_itself() {
    let t = Track { uri: SpotifyUri::Track(sid(5)) };
    let v = t.get_tracks();
    assert_eq!(v.len(), 1);
    assert!(matches!(v[0].uri, SpotifyUri::Track(i) if i == sid(5)));
}

#[test]
fn album_new_and_from_id() {
    let a = Album::new("https://open.spotify.com/album/4aawyAB9vmqN3uQ7FjRGTy").unwrap();
    let expected = SpotifyId::from_base62("4aawyAB9vmqN3uQ7FjRGTy").unwrap();
    assert!(matches!(a.uri(), SpotifyUri::Album(i) if i == expected));
    assert!(matches!(Album::new("spotify:track:6rqhFgbbKwnb9MLmUQDhG6"), Err(Error::InvalidAlbum)));
    assert!(matches!(Album::from_id(sid(7)).uri(), SpotifyUri::Album(i) if i == sid(7)));
    assert!(Album::checked_new("junk").is_none());
}

#[test]
fn album_selects_album_entries() {
    let a = Album::from_id(sid(1));
    let entries = vec![SpotifyUri::Track(sid(2)), SpotifyUri::Album(sid(3))];
    let tracks = a.select_tracks(&entries);
    assert_eq!(tracks.len(), 1);
    assert!(matches!(tracks[0].uri, SpotifyUri::Album(i) if i == sid(3)));
}

#[test]
fn playlist_new_accepts_any_uri() {
    let p = Playlist::new("spotify:track:6rqhFgbbKwnb9MLmUQDhG6").unwrap();
    assert!(matches!(p.uri(), SpotifyUri::Track(_)));
    assert!(matches!(Playlist::new("junk"), Err(Error::InvalidPlaylist)));
}

#[test]
fn playlist_from_id_has_no_owner() {
    let p = Playlist::from_id(sid(8));
    assert!(matches!(p.uri(), SpotifyUri::Playlist(None, i) if *i == sid(8)));
}

#[test]
fn playlist_selects_tracks() {
    let p = Playlist::from_id(sid(1));
    let entries = vec![
        SpotifyUri::Episode(sid(2)),
        SpotifyUri::Track(sid(3)),
        SpotifyUri::Track(sid(4)),
    ];
    let tracks = p.select_tracks(&entries);
    assert_eq!(tracks.len(), 2);
    assert!(matches!(tracks[1].uri, SpotifyUri::Track(i) if i == sid(4)));
}

#[test]
fn track_list_requests() {
    match resolve_track_list_request("spotify:user:bob:playlist:4aawyAB9vmqN3uQ7FjRGTy").unwrap() {
        TrackListRequest::Playlist(p) => assert!(matches!(p.uri(), SpotifyUri::Playlist(None, _))),
        _ => panic!("expected a playlist"),
    }
    match resolve_track_list(Some(SpotifyUri::Episode(sid(3)))).unwrap() {
        TrackListRequest::Tracks(v) => {
            assert_eq!(v.len(), 1);
            assert!(matches!(v[0].uri, SpotifyUri::Episode(_)));
        }
        _ => panic!("expected tracks"),
    }
    assert!(matches!(
        resolve_track_list(Some(SpotifyUri::Album(sid(3)))).unwrap(),
        TrackListRequest::Album(_)
    ));
    assert!(matches!(
        resolve_track_list(Some(SpotifyUri::Show(sid(3)))).unwrap(),
        TrackListRequest::Unsupported
    ));
    assert!(matches!(resolve_track_list_request("???"), Err(Error::InvalidTrack)));
}

#[test]
fn album_metadata_keeps_first_cover() {
    let a = AlbumMetadata::from("Al".to_string(), vec![image(10), image(20)]);
    assert_eq!(a.name, "Al");
    assert_eq!(a.cover.unwrap().width, 10);
    assert!(AlbumMetadata::from("Al".to_string(), vec![]).cover.is_none());
}

#[test]
fn custom_metadata_title_and_tags() {
    let m = CustomMetadata::from(
        "Song".to_string(),
        120_000,
        vec!["A".into(), "B".into(), "C".into(), "D".into()],
        "Album".to_string(),
        vec![image(5)],
        None,
    );
    assert_eq!(m.to_string(), "A, B, C, ... - Song");
    assert_eq!(m.track_name(), "Song");
    assert_eq!(m.duration(), 120_000);
    assert_eq!(m.approx_size(), 120 * 352_800);
    let tags = m.tags().unwrap();
    assert_eq!(tags.artists.len(), 4);
    assert_eq!(tags.album_title, "Album");
    assert!(tags.album_cover.is_none());
    match m {
        CustomMetadata::CustomTrackMetadata { album, .. } => {
            assert_eq!(album.cover.unwrap().width, 5)
        }
        _ => panic!("expected a track"),
    }
}

#[test]
fn custom_episode_title() {
    let m = CustomMetadata::CustomEpisodeMetadata {
        duration: 1,
        episode_name: "E|1".to_string(),
        show_name: "S".to_string(),
        album_cover: None,
    };
    assert_eq!(m.to_string(), "S - E1");
    assert_eq!(ArtistMetadata::from("N".to_string()).name, "N");
}

#[test]
fn track_list_collector() {
    let ids = vec![
        "spotify:track:0000000000000000000001".to_string(),
        "spotify:playlist:0000000000000000000002".to_string(),
        "spotify:show:0000000000000000000003".to_string(),
        "bad".to_string(),
    ];
    let mut c = TrackListCollector::new(ids);
    assert!(matches!(c.step(), Ok(TrackListStep::Added)));
    let playlist = match c.step() {
        Ok(TrackListStep::FetchPlaylist(p)) => p,
        _ => panic!("expected a playlist"),
    };
    c.add_tracks(playlist.select_tracks(&vec![SpotifyUri::Track(sid(9))]));
    assert!(matches!(c.step(), Ok(TrackListStep::Unsupported(_))));
    assert!(matches!(c.step(), Err(Error::InvalidTrack)));
    let tracks = c.into_tracks();
    assert_eq!(tracks.len(), 2);
    assert!(matches!(tracks[1].uri, SpotifyUri::Track(i) if i == sid(9)));
}

#[test]
fn track_list_collect_all() {
    let ids = vec![
        "spotify:album:0000000000000000000001".to_string(),
        "spotify:playlist:0000000000000000000002".to_string(),
        "spotify:track:0000000000000000000003".to_string(),
    ];
    let entries = vec![
        vec![SpotifyUri::Album(sid(10)), SpotifyUri::Track(sid(11))],
        vec![SpotifyUri::Album(sid(12)), SpotifyUri::Track(sid(13))],
        vec![],
    ];
    let tracks = TrackListCollector::collect_all(ids, &entries).unwrap();
    assert_eq!(tracks.len(), 3);
    assert!(matches!(tracks[0].uri, SpotifyUri::Album(i) if i == sid(10)));
    assert!(matches!(tracks[1].uri, SpotifyUri::Track(i) if i == sid(13)));
    assert!(matches!(tracks[2].uri, SpotifyUri::Track(i) if i == sid(3)));
    let bad = TrackListCollector::collect_all(vec!["x".to_string()], &vec![vec![]]);
    assert!(matches!(bad, Err(Error::InvalidTrack)));
}
