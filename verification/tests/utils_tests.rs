use librespot_core::SpotifyId;
use spotify_dl::error::Error;
use spotify_dl::uri::SpotifyUri;
use spotify_dl::utils::{
    clean_invalid_characters, parse_uri_or_url, resolve_request, resolve_uri, CollectStep,
    TrackCollector, TrackRequest,
};

const TRACK_ID: &str = "6rqhFgbbKwnb9MLmUQDhG6";
const ALBUM_ID: &str = "4aawyAB9vmqN3uQ7FjRGTy";

fn id(s: &str) -> SpotifyId {
    SpotifyId::from_base62(s).unwrap()
}

#[test]
fn clean_removes_forbidden_characters() {
    let out = clean_invalid_characters("AC/DC: <Live> \"Best\" of 'em | why? *yes* a\\b");
    assert_eq!(out, "ACDC Live Best of em  why yes ab");
}

#[test]
fn clean_removes_control_characters() {
    let out = clean_invalid_characters("a\tb\nc\u{7f}d\u{85}e\u{9f}f\u{a0}g");
    assert_eq!(out, "abcdef\u{a0}g");
}

#[test]
fn clean_keeps_unicode_text() {
    assert_eq!(clean_invalid_characters("Björk – Jóga 東京"), "Björk – Jóga 東京");
    assert_eq!(clean_invalid_characters(""), "");
}

#[test]
fn clean_is_idempotent_on_example() {
    let once = clean_invalid_characters("x<y>:z\u{1}");
    let twice = clean_invalid_characters(&once);
    assert_eq!(once, "xyz");
    assert_eq!(once, twice);
}

#[test]
fn parses_track_uri() {
    let uri = parse_uri_or_url(&format!("spotify:track:{}", TRACK_ID)).unwrap();
    assert!(matches!(uri, SpotifyUri::Track(i) if i == id(TRACK_ID)));
}

#[test]
fn parses_named_playlist_uri() {
    let uri = parse_uri_or_url(&format!("spotify:user:someone:playlist:{}", ALBUM_ID)).unwrap();
    match uri {
        SpotifyUri::Playlist(Some(user), i) => {
            assert_eq!(user, "someone");
            assert_eq!(i, id(ALBUM_ID));
        }
        other => panic!("unexpected {:?}", other),
    }
}

#[test]
fn parses_unknown_item_type_uri() {
    let uri = parse_uri_or_url("spotify:concert:abc").unwrap();
    match uri {
        SpotifyUri::Unknown(kind, i) => {
            assert_eq!(kind, "concert");
            assert_eq!(i, "abc");
        }
        other => panic!("unexpected {:?}", other),
    }
}

#[test]
fn refuses_bad_uris() {
    assert!(parse_uri_or_url("spotify:track:tooShort").is_none());
    assert!(parse_uri_or_url("spotify:track").is_none());
    assert!(parse_uri_or_url("apple:track:6rqhFgbbKwnb9MLmUQDhG6").is_none());
    assert!(parse_uri_or_url("").is_none());
}

#[test]
fn parses_share_url() {
    let url = format!("https://open.spotify.com/track/{}", TRACK_ID);
    let uri = parse_uri_or_url(&url).unwrap();
    assert!(matches!(uri, SpotifyUri::Track(i) if i == id(TRACK_ID)));
}

#[test]
fn parses_share_url_with_query() {
    let url = format!("https://open.spotify.com/album/{}?si=abcdef", ALBUM_ID);
    let uri = parse_uri_or_url(&url).unwrap();
    assert!(matches!(uri, SpotifyUri::Album(i) if i == id(ALBUM_ID)));
}

#[test]
fn parses_localized_share_url() {
    let url = format!("https://open.spotify.com/intl-de/track/{}", TRACK_ID);
    let uri = parse_uri_or_url(&url).unwrap();
    assert!(matches!(uri, SpotifyUri::Track(i) if i == id(TRACK_ID)));
}

#[test]
fn finds_share_url_inside_text() {
    let url = format!("listen: https://open.spotify.com/album/{} now", ALBUM_ID);
    let uri = parse_uri_or_url(&url).unwrap();
    assert!(matches!(uri, SpotifyUri::Album(i) if i == id(ALBUM_ID)));
}

#[test]
fn share_url_with_unicode_word_type() {
    let uri = parse_uri_or_url("https://open.spotify.com/tråck/abc").unwrap();
    match uri {
        SpotifyUri::Unknown(kind, i) => {
            assert_eq!(kind, "tråck");
            assert_eq!(i, "abc");
        }
        other => panic!("unexpected {:?}", other),
    }
}

#[test]
fn refuses_bad_share_urls() {
    assert!(parse_uri_or_url("https://open.spotify.com/track/").is_none());
    assert!(parse_uri_or_url("https://open.spotify.com/tr-ack/abc").is_none());
    assert!(parse_uri_or_url("http://open.spotify.com/track/6rqhFgbbKwnb9MLmUQDhG6").is_none());
    assert!(parse_uri_or_url("https://open.spotify.com/track/short").is_none());
}

#[test]
fn share_url_id_stops_at_non_alphanumeric() {
    let url = format!("https://open.spotify.com/track/{}_x", TRACK_ID);
    let uri = parse_uri_or_url(&url).unwrap();
    assert!(matches!(uri, SpotifyUri::Track(i) if i == id(TRACK_ID)));
}

#[test]
fn resolves_track_to_item() {
    let req = resolve_request(&format!("spotify:track:{}", TRACK_ID)).unwrap();
    match req {
        TrackRequest::Item(item) => {
            assert!(matches!(item.uri(), SpotifyUri::Track(i) if *i == id(TRACK_ID)))
        }
        _ => panic!("expected an item"),
    }
}

#[test]
fn resolves_album_url_to_queue() {
    let req = resolve_request(&format!("https://open.spotify.com/album/{}", ALBUM_ID)).unwrap();
    match req {
        TrackRequest::Queue(q) => assert!(matches!(q.uri(), SpotifyUri::Album(_))),
        _ => panic!("expected a queue"),
    }
}

#[test]
fn resolves_artist_to_unsupported() {
    let req = resolve_request("spotify:artist:0TnOYISbd1XYRBk9myaseg").unwrap();
    assert!(matches!(req, TrackRequest::Unsupported));
}

#[test]
fn resolves_garbage_to_invalid_track() {
    assert!(matches!(resolve_request("not a link"), Err(Error::InvalidTrack)));
    assert!(matches!(resolve_uri(None), Err(Error::InvalidTrack)));
}

#[test]
fn canonical_uri_kinds() {
    assert!(matches!(
        parse_uri_or_url("spotify:track:0000000000000000000001"),
        Some(SpotifyUri::Track(i)) if i == SpotifyId { id: 1 }
    ));
    assert!(matches!(
        parse_uri_or_url("spotify:user:bob:track:0000000000000000000001"),
        Some(SpotifyUri::Track(_))
    ));
    assert!(matches!(parse_uri_or_url("spotify:show:0000000000000000000002"), Some(SpotifyUri::Show(_))));
    assert!(parse_uri_or_url("spotify:track:zzzzzzzzzzzzzzzzzzzzzz").is_none());
    assert!(parse_uri_or_url("spotify:track:000000000000000000000-").is_none());
    assert!(parse_uri_or_url("spotify:local:a").is_none());
}

#[test]
fn collector_walks_ids_in_order() {
    let ids = vec![
        format!("spotify:track:{}", TRACK_ID),
        "spotify:artist:0TnOYISbd1XYRBk9myaseg".to_string(),
        format!("https://open.spotify.com/album/{}", ALBUM_ID),
        "spotify:episode:0000000000000000000003".to_string(),
    ];
    let mut c = TrackCollector::new(ids);
    assert!(matches!(c.step(), Ok(CollectStep::Added)));
    match c.step() {
        Ok(CollectStep::Unsupported(id)) => assert_eq!(id, "spotify:artist:0TnOYISbd1XYRBk9myaseg"),
        _ => panic!("expected unsupported"),
    }
    let queue = match c.step() {
        Ok(CollectStep::Fetch(q)) => q,
        _ => panic!("expected a fetch"),
    };
    let fetched = vec![SpotifyUri::Track(SpotifyId { id: 7 }), SpotifyUri::Artist(SpotifyId { id: 8 })];
    c.add_items(queue.select_items(&fetched));
    assert!(matches!(c.step(), Ok(CollectStep::Added)));
    assert!(matches!(c.step(), Ok(CollectStep::Done)));
    let tracks = c.into_tracks();
    assert_eq!(tracks.len(), 3);
    assert!(matches!(tracks[0].uri(), SpotifyUri::Track(i) if *i == id(TRACK_ID)));
    assert!(matches!(tracks[1].uri(), SpotifyUri::Track(i) if *i == SpotifyId { id: 7 }));
    assert!(matches!(tracks[2].uri(), SpotifyUri::Episode(_)));
}

#[test]
fn collector_stops_at_unreadable_id() {
    let mut c = TrackCollector::new(vec!["junk".to_string(), format!("spotify:track:{}", TRACK_ID)]);
    assert!(matches!(c.step(), Err(Error::InvalidTrack)));
    assert!(matches!(c.step(), Err(Error::InvalidTrack)));
    assert!(c.into_tracks().is_empty());
}

#[test]
fn collect_all_concatenates_in_order() {
    let a = vec![format!("spotify:track:{}", TRACK_ID), "spotify:show:0000000000000000000004".to_string()];
    let b = vec!["spotify:episode:0000000000000000000003".to_string()];
    let ea = vec![vec![], vec![SpotifyUri::Episode(SpotifyId { id: 5 }), SpotifyUri::Track(SpotifyId { id: 6 })]];
    let eb = vec![vec![]];
    let x = TrackCollector::collect_all(a.clone(), &ea).unwrap();
    let y = TrackCollector::collect_all(b.clone(), &eb).unwrap();
    let mut ab = a.clone();
    ab.extend(b);
    let mut eab = ea.clone();
    eab.extend(eb);
    let xy = TrackCollector::collect_all(ab, &eab).unwrap();
    assert_eq!(x.len(), 2);
    assert_eq!(y.len(), 1);
    assert_eq!(xy.len(), 3);
    assert!(matches!(xy[0].uri(), SpotifyUri::Track(i) if *i == id(TRACK_ID)));
    assert!(matches!(xy[1].uri(), SpotifyUri::Episode(i) if *i == SpotifyId { id: 5 }));
    assert!(matches!(xy[2].uri(), SpotifyUri::Episode(i) if *i == SpotifyId { id: 3 }));
}

#[test]
fn collect_all_stops_at_first_unreadable_id() {
    let ids = vec!["spotify:artist:0TnOYISbd1XYRBk9myaseg".to_string(), "??".to_string(), "also bad".to_string()];
    let entries = vec![vec![], vec![], vec![]];
    assert!(matches!(TrackCollector::collect_all(ids, &entries), Err(Error::InvalidTrack)));
}
