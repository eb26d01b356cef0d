# spotify_dl

The verified core of a Spotify downloader, written in Verus.

- `src/uri.rs` — the crate's model of a Spotify URI (`SpotifyUri`) and its view.
- `src/utils.rs` — reading user input as a Spotify URI (through librespot) or
  as a share URL (`https://open.spotify.com(/intl-xx)?/{type}/{id}`, matched by
  a verified search), cleaning titles for file names, display titles, and the
  decision of what each requested id stands for, and the step machine that
  collects the items of a list of ids in order; with the laws about them.
- `src/media/` — `MediaItem` (a track or an episode), `MediaQueue` (an album,
  a playlist or a show, and the selection of its items), and
  `MediaItemMetadata` (titles, tags, estimated size).
- `src/track.rs` — `Track`, `Album`, `Playlist`, `CustomMetadata` and their
  collector.
- `src/encoder/tags.rs` — the tags written into an audio file.
- `app/` — ordinary Rust around the library: fetching from Spotify with
  librespot, converting librespot's values, locating the state directory.
