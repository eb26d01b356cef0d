//! Text and identifier utilities.

use librespot_core::SpotifyUri as LibrespotUri;
use vstd::prelude::*;

use crate::error::Error;
use crate::media::media_item::MediaItem;
use crate::media::media_queue::{item_views, members, MediaQueue};
use crate::text::{chars_of, push_char, string_views};
use crate::uri::{is_collection, is_playable_item, opt_uri_view, uri_views, SpotifyUri, UriView};

verus! {

/// The characters that may not appear in a file name on common file systems.
pub open spec fn is_forbidden_char(c: char) -> bool {
    c == '<' || c == '>' || c == ':' || c == '\'' || c == '"' || c == '/' || c == '\\'
        || c == '|' || c == '?' || c == '*'
}

/// The Unicode general category `Cc` (control codes): U+0000..U+001F and
/// U+007F..U+009F.
pub open spec fn is_control_char(c: char) -> bool {
    (c as u32) <= 0x1f || (0x7f <= (c as u32) && (c as u32) <= 0x9f)
}

/// Whether a character survives cleaning.
pub open spec fn is_kept_char(c: char) -> bool {
    !is_forbidden_char(c) && !is_control_char(c)
}

/// The characters of `s` that are neither forbidden nor control codes, in order.
pub open spec fn clean_chars(s: Seq<char>) -> Seq<char>
    decreases s.len(),
{
    if s.len() == 0 {
        Seq::empty()
    } else if is_kept_char(s.last()) {
        clean_chars(s.drop_last()).push(s.last())
    } else {
        clean_chars(s.drop_last())
    }
}

fn is_control(c: char) -> (r: bool)
    ensures
        r == is_control_char(c),
{
    let v: u32 = c as u32;
    v <= 0x1f || (0x7f <= v && v <= 0x9f)
}

fn is_kept(c: char) -> (r: bool)
    ensures
        r == is_kept_char(c),
{
    !(c == '<' || c == '>' || c == ':' || c == '\'' || c == '"' || c == '/' || c == '\\'
        || c == '|' || c == '?' || c == '*') && !is_control(c)
}

/// Removes every character that is forbidden in file names, and every
/// control character, keeping the others in order.
pub fn clean_invalid_characters(input: &str) -> (r: String)
    ensures
        r@ == clean_chars(input@),
{
    let cs = chars_of(input);
    let mut out = String::new();
    let mut i: usize = 0;
    while i < cs.len()
        invariant
            cs@ == input@,
            i <= cs.len(),
            out@ == clean_chars(input@.subrange(0, i as int)),
        decreases cs.len() - i,
    {
        let c = cs[i];
        proof {
            assert(input@.subrange(0, i + 1).drop_last() == input@.subrange(0, i as int));
        }
        if is_kept(c) {
            push_char(&mut out, c);
        }
        i = i + 1;
    }
    proof {
        assert(input@.subrange(0, input@.len() as int) == input@);
    }
    out
}

// ---------------------------------------------------------------------------
// Display titles
// ---------------------------------------------------------------------------

/// Names joined by `, `.
pub open spec fn join_names(names: Seq<Seq<char>>) -> Seq<char>
    decreases names.len(),
{
    if names.len() == 0 {
        Seq::empty()
    } else if names.len() == 1 {
        names[0]
    } else {
        join_names(names.drop_last()) + seq![',', ' '] + names.last()
    }
}

/// `{artists} - {title}`, where at most three artists are named and more are
/// shown as `, ...`.
pub open spec fn artists_line(names: Seq<Seq<char>>, title: Seq<char>) -> Seq<char> {
    if names.len() > 3 {
        join_names(names.take(3)) + seq![',', ' ', '.', '.', '.', ' ', '-', ' '] + title
    } else {
        join_names(names) + seq![' ', '-', ' '] + title
    }
}

/// The display title of a track: its artists line, cleaned.
pub open spec fn track_title(names: Seq<Seq<char>>, title: Seq<char>) -> Seq<char> {
    clean_chars(artists_line(names, title))
}

/// The display title of an episode: `{show} - {episode}`, cleaned.
pub open spec fn episode_title(show: Seq<char>, episode: Seq<char>) -> Seq<char> {
    clean_chars(show + seq![' ', '-', ' '] + episode)
}

/// Builds the display title of a track from its artists' names and its title.
pub(crate) fn track_title_of(names: &Vec<String>, title: &str) -> (r: String)
    ensures
        r@ == track_title(string_views(names@), title@),
{
    let ghost views = string_views(names@);
    let shown: usize = if names.len() > 3 {
        3
    } else {
        names.len()
    };
    let mut line = String::new();
    let mut i: usize = 0;
    proof {
        reveal_strlit(", ");
    }
    while i < shown
        invariant
            shown <= names.len(),
            views == string_views(names@),
            i <= shown,
            line@ == join_names(views.take(i as int)),
            ", "@ == seq![',', ' '],
        decreases shown - i,
    {
        if i > 0 {
            line.append(", ");
        }
        line.append(names[i].as_str());
        proof {
            assert(views.take(i + 1).drop_last() =~= views.take(i as int));
            if i == 0 {
                assert(line@ =~= views.take(1)[0]);
            } else {
                assert(line@ =~= join_names(views.take(i + 1)));
            }
        }
        i = i + 1;
    }
    if names.len() > 3 {
        line.append(", ... - ");
        proof {
            reveal_strlit(", ... - ");
        }
    } else {
        line.append(" - ");
        proof {
            reveal_strlit(" - ");
            assert(views.take(names.len() as int) =~= views);
        }
    }
    line.append(title);
    assert(line@ =~= artists_line(views, title@));
    clean_invalid_characters(line.as_str())
}

/// Builds the display title of an episode from its show's name and its own.
pub(crate) fn episode_title_of(show: &str, episode: &str) -> (r: String)
    ensures
        r@ == episode_title(show@, episode@),
{
    let mut line = String::from_str(show);
    line.append(" - ");
    line.append(episode);
    proof {
        reveal_strlit(" - ");
    }
    assert(line@ =~= show@ + seq![' ', '-', ' '] + episode@);
    clean_invalid_characters(line.as_str())
}


// ---------------------------------------------------------------------------
// Laws
// ---------------------------------------------------------------------------

/// Every character of a cleaned text can stand in a file name: none is
/// forbidden and none is a control code.
pub proof fn lemma_clean_chars_are_kept(s: Seq<char>)
    ensures
        forall|i: int| 0 <= i < clean_chars(s).len() ==> is_kept_char(#[trigger] clean_chars(s)[i]),
    decreases s.len(),
{
    if s.len() > 0 {
        lemma_clean_chars_are_kept(s.drop_last());
        let prev = clean_chars(s.drop_last());
        if is_kept_char(s.last()) {
            assert forall|i: int| 0 <= i < prev.push(s.last()).len() implies is_kept_char(
                #[trigger] prev.push(s.last())[i],
            ) by {
                if i < prev.len() {
                    assert(prev.push(s.last())[i] == prev[i]);
                }
            }
        }
    }
}

/// Cleaning leaves a text that holds no forbidden or control character as it is.
pub proof fn lemma_clean_keeps_clean_text(s: Seq<char>)
    requires
        forall|i: int| 0 <= i < s.len() ==> is_kept_char(#[trigger] s[i]),
    ensures
        clean_chars(s) == s,
    decreases s.len(),
{
    if s.len() > 0 {
        assert forall|i: int| 0 <= i < s.drop_last().len() implies is_kept_char(
            #[trigger] s.drop_last()[i],
        ) by {
            assert(s.drop_last()[i] == s[i]);
        }
        lemma_clean_keeps_clean_text(s.drop_last());
        assert(is_kept_char(s[s.len() - 1]));
        assert(s.drop_last().push(s.last()) =~= s);
    }
}

/// Cleaning twice is cleaning once.
pub proof fn lemma_clean_idempotent(s: Seq<char>)
    ensures
        clean_chars(clean_chars(s)) == clean_chars(s),
{
    lemma_clean_chars_are_kept(s);
    lemma_clean_keeps_clean_text(clean_chars(s));
}

/// A cleaned text is never longer than the text.
pub proof fn lemma_clean_no_longer(s: Seq<char>)
    ensures
        clean_chars(s).len() <= s.len(),
    decreases s.len(),
{
    if s.len() > 0 {
        lemma_clean_no_longer(s.drop_last());
    }
}

/// Every title under which an item is saved can stand in a file name.
pub proof fn lemma_titles_are_file_safe(names: Seq<Seq<char>>, title: Seq<char>, show: Seq<char>)
    ensures
        forall|i: int|
            0 <= i < track_title(names, title).len() ==> is_kept_char(
                #[trigger] track_title(names, title)[i],
            ),
        forall|i: int|
            0 <= i < episode_title(show, title).len() ==> is_kept_char(
                #[trigger] episode_title(show, title)[i],
            ),
{
    lemma_clean_chars_are_kept(artists_line(names, title));
    lemma_clean_chars_are_kept(show + seq![' ', '-', ' '] + title);
}

/// Only the first three artists of a track show in its title: two lists of
/// more than three artists that agree on their first three give one title.
pub proof fn lemma_title_shows_three_artists(
    names1: Seq<Seq<char>>,
    names2: Seq<Seq<char>>,
    title: Seq<char>,
)
    requires
        names1.len() > 3,
        names2.len() > 3,
        names1.take(3) == names2.take(3),
    ensures
        track_title(names1, title) == track_title(names2, title),
{
}


// ---------------------------------------------------------------------------
// Spotify URIs
// ---------------------------------------------------------------------------

/// The characters `spotify:`, with which every Spotify URI begins.
pub open spec fn spotify_scheme() -> Seq<char> {
    seq!['s', 'p', 'o', 't', 'i', 'f', 'y', ':']
}

/// Whether a text begins with `spotify:`.
pub open spec fn has_spotify_scheme(s: Seq<char>) -> bool {
    s.len() >= 8 && s.subrange(0, 8) == spotify_scheme()
}

/// What librespot-core's `SpotifyUri::from_uri` makes of a text that begins
/// with `spotify:`, where it accepts it.
pub uninterp spec fn librespot_uri(src: Seq<char>) -> Option<UriView>;

/// The URI that a text stands for: librespot's reading of it where it begins
/// with `spotify:`, and none otherwise (librespot refuses every other root).
pub open spec fn uri_of_text(s: Seq<char>) -> Option<UriView> {
    if has_spotify_scheme(s) {
        librespot_uri(s)
    } else {
        None
    }
}


/// Whether librespot reads some item from a URI of item type `t` and id text
/// `id` ([`reads_as`] with a result).
pub open spec fn reads_some(t: Seq<char>, id: Seq<char>) -> bool {
    if t == seq!['a', 'l', 'b', 'u', 'm'] || t == seq!['a', 'r', 't', 'i', 's', 't'] || t == seq![
        'e',
        'p',
        'i',
        's',
        'o',
        'd',
        'e',
    ] || t == seq!['s', 'h', 'o', 'w'] || t == seq!['t', 'r', 'a', 'c', 'k'] || t == seq![
        'p',
        'l',
        'a',
        'y',
        'l',
        'i',
        's',
        't',
    ] {
        is_base62_id(id)
    } else {
        t != seq!['l', 'o', 'c', 'a', 'l']
    }
}

/// The share URL `https://open.spotify.com/{type}/{id}`.
pub open spec fn share_url(t: Seq<char>, id: Seq<char>) -> Seq<char> {
    url_prefix() + seq!['/'] + t + seq!['/'] + id
}

/// Whether a text holds no `:`.
pub open spec fn no_colon(t: Seq<char>) -> bool {
    forall|i: int| 0 <= i < t.len() ==> #[trigger] t[i] != ':'
}

/// The value of a base-62 digit: `0-9`, then `a-z`, then `A-Z`.
pub open spec fn base62_digit(c: char) -> int {
    if '0' <= c && c <= '9' {
        c as int - '0' as int
    } else if 'a' <= c && c <= 'z' {
        c as int - 'a' as int + 10
    } else {
        c as int - 'A' as int + 36
    }
}

/// The number that a text of base-62 digits spells.
pub open spec fn base62_value(t: Seq<char>) -> int
    decreases t.len(),
{
    if t.len() == 0 {
        0
    } else {
        base62_value(t.drop_last()) * 62 + base62_digit(t.last())
    }
}

/// Whether a text is a Spotify id as librespot reads one: 22 base-62 digits
/// whose value fits in 128 bits.
pub open spec fn is_base62_id(t: Seq<char>) -> bool {
    &&& t.len() == 22
    &&& forall|i: int| 0 <= i < t.len() ==> is_ascii_alnum(#[trigger] t[i])
    &&& base62_value(t) <= u128::MAX
}

/// The word `user`, which opens the owner part of a named URI.
pub open spec fn user_word() -> Seq<char> {
    seq!['u', 's', 'e', 'r']
}

/// The URI text `spotify:user:{user}:{type}:{id}`.
pub open spec fn named_uri_text(user: Seq<char>, item_type: Seq<char>, id: Seq<char>) -> Seq<char> {
    spotify_scheme() + user_word() + seq![':'] + user + seq![':'] + item_type + seq![':'] + id
}

/// What librespot reads from a URI of item type `t` and id text `id` (and,
/// for a named URI, owner `user`): for `album`, `artist`, `episode`, `show`,
/// `track` and `playlist` an item of that kind where `id` is a Spotify id
/// (a playlist with the owner), nothing otherwise; for `local` without its
/// further parts nothing; for any other type the unknown item `(t, id)`.
pub open spec fn reads_as(t: Seq<char>, id: Seq<char>, user: Option<Seq<char>>, r: Option<UriView>) -> bool {
    if t == seq!['a', 'l', 'b', 'u', 'm'] {
        if is_base62_id(id) { r matches Some(UriView::Album(_)) } else { r is None }
    } else if t == seq!['a', 'r', 't', 'i', 's', 't'] {
        if is_base62_id(id) { r matches Some(UriView::Artist(_)) } else { r is None }
    } else if t == seq!['e', 'p', 'i', 's', 'o', 'd', 'e'] {
        if is_base62_id(id) { r matches Some(UriView::Episode(_)) } else { r is None }
    } else if t == seq!['s', 'h', 'o', 'w'] {
        if is_base62_id(id) { r matches Some(UriView::Show(_)) } else { r is None }
    } else if t == seq!['t', 'r', 'a', 'c', 'k'] {
        if is_base62_id(id) { r matches Some(UriView::Track(_)) } else { r is None }
    } else if t == seq!['p', 'l', 'a', 'y', 'l', 'i', 's', 't'] {
        if is_base62_id(id) {
            r matches Some(UriView::Playlist(owner, _)) && owner == user
        } else {
            r is None
        }
    } else if t == seq!['l', 'o', 'c', 'a', 'l'] {
        r is None
    } else {
        r == Some(UriView::Unknown(t, id))
    }
}

/// Parses a Spotify URI with librespot-core's `SpotifyUri::from_uri`,
/// mapping each of its variants to the same variant of [`SpotifyUri`].
/// Stated: the result is [`uri_of_text`] (librespot refuses a text whose
/// first `:`-separated part is not `spotify`), and the kind of item that a
/// URI of the canonical forms `spotify:{type}:{id}` and
/// `spotify:user:{user}:{type}:{id}` names ([`reads_as`]). Not stated: the
/// id that librespot decodes, and what it makes of other forms; those are
/// named ([`librespot_uri`]).
#[verifier::external_body]
fn parse_uri(track_uri: &str) -> (r: Option<SpotifyUri>)
    ensures
        has_spotify_scheme(track_uri@) ==> opt_uri_view(r) == librespot_uri(track_uri@),
        !has_spotify_scheme(track_uri@) ==> r is None,
        forall|t: Seq<char>, id: Seq<char>|
            #![trigger uri_text(t, id)]
            track_uri@ == uri_text(t, id) && no_colon(t) && no_colon(id) && t != user_word()
                ==> reads_as(t, id, None, opt_uri_view(r)),
        forall|user: Seq<char>, t: Seq<char>, id: Seq<char>|
            #![trigger named_uri_text(user, t, id)]
            track_uri@ == named_uri_text(user, t, id) && no_colon(user) && no_colon(t) && no_colon(
                id,
            ) ==> reads_as(t, id, Some(user), opt_uri_view(r)),
{
    Some(match LibrespotUri::from_uri(track_uri).ok()? {
        LibrespotUri::Album { id } => SpotifyUri::Album(id),
        LibrespotUri::Artist { id } => SpotifyUri::Artist(id),
        LibrespotUri::Episode { id } => SpotifyUri::Episode(id),
        LibrespotUri::Playlist { user, id } => SpotifyUri::Playlist(user, id),
        LibrespotUri::Show { id } => SpotifyUri::Show(id),
        LibrespotUri::Track { id } => SpotifyUri::Track(id),
        LibrespotUri::Local { artist, album_title, track_title, duration } =>
            SpotifyUri::Local(artist, album_title, track_title, duration),
        LibrespotUri::Unknown { kind, id } => SpotifyUri::Unknown(kind, id),
    })
}

// ---------------------------------------------------------------------------
// Share URLs: https://open.spotify.com(/intl-xx)?/{type}/{id}
// ---------------------------------------------------------------------------

/// The characters `https://open.spotify.com`.
pub open spec fn url_prefix() -> Seq<char> {
    seq![
        'h', 't', 't', 'p', 's', ':', '/', '/', 'o', 'p', 'e', 'n', '.', 's', 'p', 'o', 't',
        'i', 'f', 'y', '.', 'c', 'o', 'm',
    ]
}

/// The characters `/intl-`, which open an optional locale segment.
pub open spec fn intl_prefix() -> Seq<char> {
    seq!['/', 'i', 'n', 't', 'l', '-']
}

pub open spec fn is_ascii_lower(c: char) -> bool {
    'a' <= c && c <= 'z'
}

/// The class `[a-zA-Z0-9]`.
pub open spec fn is_ascii_alnum(c: char) -> bool {
    ('a' <= c && c <= 'z') || ('A' <= c && c <= 'Z') || ('0' <= c && c <= '9')
}

/// The class `[_0-9a-zA-Z]`.
pub open spec fn is_ascii_word(c: char) -> bool {
    is_ascii_alnum(c) || c == '_'
}

/// Whether regex-syntax's `is_word_character` holds of a character outside
/// ASCII (the Unicode class `\w`).
pub uninterp spec fn unicode_word(c: char) -> bool;

/// The class `\w`: on ASCII exactly `[_0-9a-zA-Z]`, beyond it the Unicode
/// word characters.
pub open spec fn is_word_char(c: char) -> bool {
    if (c as u32) < 0x80 {
        is_ascii_word(c)
    } else {
        unicode_word(c)
    }
}

/// Whether a character is in the class `\w`, by regex-syntax's
/// `is_word_character`, the definition of the class that the regex crate
/// uses (it panics only without the `unicode-perl` feature, which its
/// default features hold). Stated: on ASCII the class is `[_0-9a-zA-Z]` (the
/// function's own ASCII test, and no other ASCII character is in its table);
/// beyond ASCII the Unicode table is named, not stated.
#[verifier::external_body]
fn word_character(c: char) -> (r: bool)
    ensures
        (c as u32) < 0x80 ==> r == is_ascii_word(c),
        (c as u32) >= 0x80 ==> r == unicode_word(c),
{
    regex_syntax::is_word_character(c)
}

/// The end of the longest run of word characters that starts at `i`.
pub open spec fn word_run_end(s: Seq<char>, i: int) -> int
    decreases s.len() - i,
{
    if 0 <= i < s.len() && is_word_char(s[i]) {
        word_run_end(s, i + 1)
    } else {
        i
    }
}

/// The end of the longest run of `[a-zA-Z0-9]` that starts at `i`.
pub open spec fn alnum_run_end(s: Seq<char>, i: int) -> int
    decreases s.len() - i,
{
    if 0 <= i < s.len() && is_ascii_alnum(s[i]) {
        alnum_run_end(s, i + 1)
    } else {
        i
    }
}

/// The captures of `/(\w+)/([a-zA-Z0-9]+)` matched at `k`, as ranges of `s`.
pub open spec fn tail_ranges_at(s: Seq<char>, k: int) -> Option<(int, int, int, int)> {
    if 0 <= k < s.len() && s[k] == '/' {
        let e1 = word_run_end(s, k + 1);
        if e1 > k + 1 && e1 < s.len() && s[e1] == '/' {
            let e2 = alnum_run_end(s, e1 + 1);
            if e2 > e1 + 1 {
                Some((k + 1, e1, e1 + 1, e2))
            } else {
                None
            }
        } else {
            None
        }
    } else {
        None
    }
}

/// Whether the locale segment `/intl-[a-z]{2}` stands at `j`.
pub open spec fn has_intl_at(s: Seq<char>, j: int) -> bool {
    0 <= j && j + 8 <= s.len() && s.subrange(j, j + 6) == intl_prefix() && is_ascii_lower(s[j + 6])
        && is_ascii_lower(s[j + 7])
}

/// The captures of the share-URL pattern matched at `i`: the optional locale
/// segment is taken where the rest then matches, and skipped otherwise.
pub open spec fn ranges_at(s: Seq<char>, i: int) -> Option<(int, int, int, int)> {
    if 0 <= i && i + 24 <= s.len() && s.subrange(i, i + 24) == url_prefix() {
        if has_intl_at(s, i + 24) && tail_ranges_at(s, i + 32) is Some {
            tail_ranges_at(s, i + 32)
        } else {
            tail_ranges_at(s, i + 24)
        }
    } else {
        None
    }
}

/// The captures of the leftmost match that starts at `i` or later.
pub open spec fn ranges_from(s: Seq<char>, i: int) -> Option<(int, int, int, int)>
    decreases s.len() - i,
{
    if i < 0 || i >= s.len() {
        None
    } else if ranges_at(s, i) is Some {
        ranges_at(s, i)
    } else {
        ranges_from(s, i + 1)
    }
}

/// The item type and the id that a share URL names: the two groups of the
/// leftmost match of
/// `https://open\.spotify\.com(?:/intl-[a-z]{2})?/(\w+)/([a-zA-Z0-9]+)`.
pub open spec fn url_captures(s: Seq<char>) -> Option<(Seq<char>, Seq<char>)> {
    match ranges_from(s, 0) {
        Some((a, b, c, d)) => Some((s.subrange(a, b), s.subrange(c, d))),
        None => None,
    }
}

/// The URI text `spotify:{type}:{id}`.
pub open spec fn uri_text(item_type: Seq<char>, id: Seq<char>) -> Seq<char> {
    spotify_scheme() + item_type + seq![':'] + id
}

/// The URI that a share URL stands for.
pub open spec fn uri_of_url(s: Seq<char>) -> Option<UriView> {
    match url_captures(s) {
        Some((t, id)) => uri_of_text(uri_text(t, id)),
        None => None,
    }
}

/// The URI that a user's input stands for: read as a URI first, as a share
/// URL where that fails.
pub open spec fn uri_of_input(s: Seq<char>) -> Option<UriView> {
    match uri_of_text(s) {
        Some(u) => Some(u),
        None => uri_of_url(s),
    }
}


/// A run of word characters from `i` ends at `n` when every character in
/// between is one and the one at `n` (if any) is not.
proof fn lemma_word_run(s: Seq<char>, i: int, n: int)
    requires
        0 <= i <= n <= s.len(),
        forall|k: int| i <= k < n ==> is_word_char(#[trigger] s[k]),
        n < s.len() ==> !is_word_char(s[n]),
    ensures
        word_run_end(s, i) == n,
    decreases n - i,
{
    if i < n {
        lemma_word_run(s, i + 1, n);
    }
}

/// A run of `[a-zA-Z0-9]` from `i` ends at `n` when every character in
/// between is one and the one at `n` (if any) is not.
proof fn lemma_alnum_run(s: Seq<char>, i: int, n: int)
    requires
        0 <= i <= n <= s.len(),
        forall|k: int| i <= k < n ==> is_ascii_alnum(#[trigger] s[k]),
        n < s.len() ==> !is_ascii_alnum(s[n]),
    ensures
        alnum_run_end(s, i) == n,
    decreases n - i,
{
    if i < n {
        lemma_alnum_run(s, i + 1, n);
    }
}

/// Whether every character of `t` is a word character.
pub open spec fn all_word_chars(t: Seq<char>) -> bool {
    forall|j: int| 0 <= j < t.len() ==> is_word_char(#[trigger] t[j])
}

/// Whether every character of `t` is in `[a-zA-Z0-9]`.
pub open spec fn all_ascii_alnum(t: Seq<char>) -> bool {
    forall|j: int| 0 <= j < t.len() ==> is_ascii_alnum(#[trigger] t[j])
}

/// Whether a text may follow an id without extending it.
pub open spec fn ends_id(rest: Seq<char>) -> bool {
    rest.len() == 0 || !is_ascii_alnum(rest[0])
}

/// `/{t}/{id}{rest}` at `k` is matched by `/(\w+)/([a-zA-Z0-9]+)` with the
/// groups `t` and `id`.
proof fn lemma_tail(s: Seq<char>, k: int, t: Seq<char>, id: Seq<char>, rest: Seq<char>)
    requires
        0 <= k <= s.len(),
        t.len() > 0,
        id.len() > 0,
        all_word_chars(t),
        all_ascii_alnum(id),
        ends_id(rest),
        s.subrange(k, s.len() as int) == seq!['/'] + t + seq!['/'] + id + rest,
    ensures
        tail_ranges_at(s, k) == Some(
            (k + 1, k + 1 + t.len(), k + 2 + t.len(), k + 2 + t.len() + id.len()),
        ),
        s.subrange(k + 1, k + 1 + t.len()) == t,
        s.subrange(k + 2 + t.len(), k + 2 + t.len() + id.len()) == id,
{
    let tail = seq!['/'] + t + seq!['/'] + id + rest;
    let m = t.len() as int;
    let n = id.len() as int;
    assert(s.len() == k + tail.len());
    assert forall|j: int| 0 <= j < tail.len() implies s[k + j] == #[trigger] tail[j] by {
        assert(s.subrange(k, s.len() as int)[j] == s[k + j]);
    }
    assert(s[k] == tail[0]);
    assert forall|q: int| k + 1 <= q < k + 1 + m implies is_word_char(#[trigger] s[q]) by {
        assert(s[k + (q - k)] == tail[q - k]);
        assert(tail[q - k] == t[q - k - 1]);
    }
    assert(s[k + 1 + m] == tail[1 + m]);
    assert(!is_word_char('/'));
    lemma_word_run(s, k + 1, k + 1 + m);
    assert forall|q: int| k + 2 + m <= q < k + 2 + m + n implies is_ascii_alnum(#[trigger] s[q]) by {
        assert(s[k + (q - k)] == tail[q - k]);
        assert(tail[q - k] == id[q - k - 2 - m]);
    }
    if rest.len() > 0 {
        assert(s[k + 2 + m + n] == tail[2 + m + n]);
        assert(tail[2 + m + n] == rest[0]);
    }
    lemma_alnum_run(s, k + 2 + m, k + 2 + m + n);
    assert(s.subrange(k + 1, k + 1 + m) =~= t) by {
        assert forall|j: int| 0 <= j < m implies s.subrange(k + 1, k + 1 + m)[j] == t[j] by {
            assert(s[k + (1 + j)] == tail[1 + j]);
        }
    }
    assert(s.subrange(k + 2 + m, k + 2 + m + n) =~= id) by {
        assert forall|j: int| 0 <= j < n implies s.subrange(k + 2 + m, k + 2 + m + n)[j] == id[j] by {
            assert(s[k + (2 + m + j)] == tail[2 + m + j]);
        }
    }
}

/// The share URL `https://open.spotify.com/{t}/{id}{rest}`, where `t` is
/// made of word characters, `id` of `[a-zA-Z0-9]` and `rest` does not go on
/// with the id, names the item type `t` and the id `id`.
pub proof fn lemma_share_url_captures(t: Seq<char>, id: Seq<char>, rest: Seq<char>)
    requires
        t.len() > 0,
        id.len() > 0,
        all_word_chars(t),
        all_ascii_alnum(id),
        ends_id(rest),
    ensures
        url_captures(url_prefix() + seq!['/'] + t + seq!['/'] + id + rest) == Some((t, id)),
{
    let s = url_prefix() + seq!['/'] + t + seq!['/'] + id + rest;
    let m = t.len() as int;
    assert(s.subrange(0, 24) =~= url_prefix());
    assert(s.subrange(24, s.len() as int) =~= seq!['/'] + t + seq!['/'] + id + rest);
    lemma_tail(s, 24, t, id, rest);
    if has_intl_at(s, 24) {
        assert(s.subrange(24, 30)[5] == '-');
        assert(s[29] == '-');
        assert(s[24 + 1 + m] == '/');
        if m <= 4 {
            assert(s.subrange(24, 30)[1 + m] == intl_prefix()[1 + m]);
        } else {
            assert(s[29] == t[4]);
            assert(is_word_char(t[4]));
        }
    }
    assert(ranges_at(s, 0) == tail_ranges_at(s, 24));
}

/// The share URL with a locale,
/// `https://open.spotify.com/intl-{l1}{l2}/{t}/{id}{rest}`, names the same item
/// type and id as the one without.
pub proof fn lemma_localized_share_url_captures(
    l1: char,
    l2: char,
    t: Seq<char>,
    id: Seq<char>,
    rest: Seq<char>,
)
    requires
        is_ascii_lower(l1),
        is_ascii_lower(l2),
        t.len() > 0,
        id.len() > 0,
        all_word_chars(t),
        all_ascii_alnum(id),
        ends_id(rest),
    ensures
        url_captures(
            url_prefix() + intl_prefix() + seq![l1, l2] + seq!['/'] + t + seq!['/'] + id + rest,
        ) == Some((t, id)),
{
    let s = url_prefix() + intl_prefix() + seq![l1, l2] + seq!['/'] + t + seq!['/'] + id + rest;
    assert(s.subrange(0, 24) =~= url_prefix());
    assert(s.subrange(24, 30) =~= intl_prefix());
    assert(s[30] == l1);
    assert(s[31] == l2);
    assert(has_intl_at(s, 24));
    assert(s.subrange(32, s.len() as int) =~= seq!['/'] + t + seq!['/'] + id + rest);
    lemma_tail(s, 32, t, id, rest);
    assert(ranges_at(s, 0) == tail_ranges_at(s, 32));
}

/// The groups of a matched share URL are what the pattern allows: a
/// non-empty item type of word characters and a non-empty id of
/// `[a-zA-Z0-9]`.
pub proof fn lemma_captures_shape(s: Seq<char>)
    ensures
        url_captures(s) matches Some((t, id)) ==> t.len() > 0 && id.len() > 0 && all_word_chars(t)
            && all_ascii_alnum(id),
{
    lemma_ranges_from_shape(s, 0);
    if let Some((a, b, c, d)) = ranges_from(s, 0) {
        let t = s.subrange(a, b);
        let id = s.subrange(c, d);
        assert forall|j: int| 0 <= j < t.len() implies is_word_char(#[trigger] t[j]) by {
            assert(t[j] == s[a + j]);
        }
        assert forall|j: int| 0 <= j < id.len() implies is_ascii_alnum(#[trigger] id[j]) by {
            assert(id[j] == s[c + j]);
        }
    }
}

/// Where a match's groups stand: inside `s`, the first of word characters,
/// the second of `[a-zA-Z0-9]`, both non-empty.
pub open spec fn well_placed(s: Seq<char>, r: (int, int, int, int)) -> bool {
    let (a, b, c, d) = r;
    &&& 0 <= a < b <= c < d <= s.len()
    &&& forall|q: int| a <= q < b ==> is_word_char(#[trigger] s[q])
    &&& forall|q: int| c <= q < d ==> is_ascii_alnum(#[trigger] s[q])
}

proof fn lemma_word_run_props(s: Seq<char>, i: int)
    requires
        0 <= i <= s.len(),
    ensures
        i <= word_run_end(s, i) <= s.len(),
        forall|q: int| i <= q < word_run_end(s, i) ==> is_word_char(#[trigger] s[q]),
    decreases s.len() - i,
{
    if i < s.len() && is_word_char(s[i]) {
        lemma_word_run_props(s, i + 1);
    }
}

proof fn lemma_alnum_run_props(s: Seq<char>, i: int)
    requires
        0 <= i <= s.len(),
    ensures
        i <= alnum_run_end(s, i) <= s.len(),
        forall|q: int| i <= q < alnum_run_end(s, i) ==> is_ascii_alnum(#[trigger] s[q]),
    decreases s.len() - i,
{
    if i < s.len() && is_ascii_alnum(s[i]) {
        lemma_alnum_run_props(s, i + 1);
    }
}

proof fn lemma_tail_shape(s: Seq<char>, k: int)
    ensures
        tail_ranges_at(s, k) matches Some(r) ==> well_placed(s, r),
{
    if 0 <= k < s.len() && s[k] == '/' {
        lemma_word_run_props(s, k + 1);
        let e1 = word_run_end(s, k + 1);
        if e1 > k + 1 && e1 < s.len() && s[e1] == '/' {
            lemma_alnum_run_props(s, e1 + 1);
        }
    }
}

proof fn lemma_ranges_from_shape(s: Seq<char>, i: int)
    ensures
        ranges_from(s, i) matches Some(r) ==> well_placed(s, r),
    decreases s.len() - i,
{
    if 0 <= i < s.len() {
        lemma_tail_shape(s, i + 24);
        lemma_tail_shape(s, i + 32);
        if ranges_at(s, i) is None {
            lemma_ranges_from_shape(s, i + 1);
        }
    }
}

/// A share URL is read as the URI `spotify:{type}:{id}` that its groups
/// spell.
pub proof fn lemma_share_url_reads_as_uri(t: Seq<char>, id: Seq<char>, rest: Seq<char>)
    requires
        t.len() > 0,
        id.len() > 0,
        all_word_chars(t),
        all_ascii_alnum(id),
        ends_id(rest),
    ensures
        uri_of_input(url_prefix() + seq!['/'] + t + seq!['/'] + id + rest) == uri_of_text(
            uri_text(t, id),
        ),
{
    let s = url_prefix() + seq!['/'] + t + seq!['/'] + id + rest;
    lemma_share_url_captures(t, id, rest);
    assert(s.subrange(0, 8)[0] == 'h');
    assert(!has_spotify_scheme(s));
}

/// An input that does not begin with `spotify:` is read as a share URL.
pub proof fn lemma_non_uri_input_is_url(s: Seq<char>)
    requires
        !has_spotify_scheme(s),
    ensures
        uri_of_input(s) == uri_of_url(s),
{
}

/// An input that librespot reads as a URI is read as that URI, whatever
/// else it may contain.
pub proof fn lemma_uri_input_is_uri(s: Seq<char>)
    requires
        uri_of_text(s) is Some,
    ensures
        uri_of_input(s) == uri_of_text(s),
{
}

fn word_run(cs: &Vec<char>, i: usize) -> (e: usize)
    requires
        i <= cs.len(),
    ensures
        e == word_run_end(cs@, i as int),
        i <= e <= cs.len(),
{
    let mut k = i;
    while k < cs.len() && word_character(cs[k])
        invariant
            i <= k <= cs.len(),
            word_run_end(cs@, i as int) == word_run_end(cs@, k as int),
        decreases cs.len() - k,
    {
        k = k + 1;
    }
    k
}

fn alnum_run(cs: &Vec<char>, i: usize) -> (e: usize)
    requires
        i <= cs.len(),
    ensures
        e == alnum_run_end(cs@, i as int),
        i <= e <= cs.len(),
{
    let mut k = i;
    while k < cs.len() && is_alnum(cs[k])
        invariant
            i <= k <= cs.len(),
            alnum_run_end(cs@, i as int) == alnum_run_end(cs@, k as int),
        decreases cs.len() - k,
    {
        k = k + 1;
    }
    k
}

fn is_alnum(c: char) -> (r: bool)
    ensures
        r == is_ascii_alnum(c),
{
    ('a' <= c && c <= 'z') || ('A' <= c && c <= 'Z') || ('0' <= c && c <= '9')
}

/// Whether `pat` stands in `cs` at `i`.
fn matches_at(cs: &Vec<char>, i: usize, pat: &Vec<char>) -> (r: bool)
    ensures
        r == (i + pat.len() <= cs.len() && cs@.subrange(i as int, i + pat.len()) == pat@),
{
    if i > cs.len() || pat.len() > cs.len() - i {
        return false;
    }
    let mut k: usize = 0;
    while k < pat.len()
        invariant
            i + pat.len() <= cs.len(),
            k <= pat.len(),
            forall|m: int| 0 <= m < k ==> cs@[i + m] == pat@[m],
        decreases pat.len() - k,
    {
        if cs[i + k] != pat[k] {
            assert(cs@.subrange(i as int, i + pat.len())[k as int] != pat@[k as int]);
            return false;
        }
        k = k + 1;
    }
    assert(cs@.subrange(i as int, i + pat.len()) =~= pat@);
    true
}

fn tail_at(cs: &Vec<char>, k: usize) -> (r: Option<(usize, usize, usize, usize)>)
    ensures
        match r {
            Some((a, b, c, d)) => tail_ranges_at(cs@, k as int) == Some(
                (a as int, b as int, c as int, d as int),
            ) && a <= b <= c <= d <= cs.len(),
            None => tail_ranges_at(cs@, k as int) is None,
        },
{
    if k < cs.len() && cs[k] == '/' {
        let e1 = word_run(cs, k + 1);
        if e1 > k + 1 && e1 < cs.len() && cs[e1] == '/' {
            let e2 = alnum_run(cs, e1 + 1);
            if e2 > e1 + 1 {
                return Some((k + 1, e1, e1 + 1, e2));
            }
        }
    }
    None
}

fn url_ranges_at(cs: &Vec<char>, i: usize, prefix: &Vec<char>, intl: &Vec<char>) -> (r: Option<
    (usize, usize, usize, usize),
>)
    requires
        prefix@ == url_prefix(),
        intl@ == intl_prefix(),
    ensures
        match r {
            Some((a, b, c, d)) => ranges_at(cs@, i as int) == Some(
                (a as int, b as int, c as int, d as int),
            ) && a <= b <= c <= d <= cs.len(),
            None => ranges_at(cs@, i as int) is None,
        },
{
    if !matches_at(cs, i, prefix) {
        return None;
    }
    let j = i + 24;
    if matches_at(cs, j, intl) && cs.len() - j >= 8 && 'a' <= cs[j + 6] && cs[j + 6] <= 'z' && 'a'
        <= cs[j + 7] && cs[j + 7] <= 'z' {
        let with_locale = tail_at(cs, j + 8);
        if with_locale.is_some() {
            return with_locale;
        }
    }
    tail_at(cs, j)
}

/// Finds the leftmost match of the share-URL pattern.
fn find_url(cs: &Vec<char>) -> (r: Option<(usize, usize, usize, usize)>)
    ensures
        match r {
            Some((a, b, c, d)) => ranges_from(cs@, 0) == Some(
                (a as int, b as int, c as int, d as int),
            ) && a <= b <= c <= d <= cs.len(),
            None => ranges_from(cs@, 0) is None,
        },
{
    let prefix: Vec<char> = vec![
        'h', 't', 't', 'p', 's', ':', '/', '/', 'o', 'p', 'e', 'n', '.', 's', 'p', 'o', 't',
        'i', 'f', 'y', '.', 'c', 'o', 'm',
    ];
    let intl: Vec<char> = vec!['/', 'i', 'n', 't', 'l', '-'];
    assert(prefix@ =~= url_prefix());
    assert(intl@ =~= intl_prefix());
    let mut i: usize = 0;
    while i < cs.len()
        invariant
            i <= cs.len(),
            prefix@ == url_prefix(),
            intl@ == intl_prefix(),
            ranges_from(cs@, 0) == ranges_from(cs@, i as int),
        decreases cs.len() - i,
    {
        let here = url_ranges_at(cs, i, &prefix, &intl);
        if here.is_some() {
            return here;
        }
        i = i + 1;
    }
    None
}

/// Reads a share URL as a URI: the two groups of the URL pattern are put in
/// `spotify:{type}:{id}`, which is then parsed as a URI.
fn parse_url(track_url: &str) -> (r: Option<SpotifyUri>)
    ensures
        opt_uri_view(r) == uri_of_url(track_url@),
        url_captures(track_url@) matches Some((t, id)) ==> (t != user_word() ==> reads_as(
            t,
            id,
            None,
            opt_uri_view(r),
        )),
{
    let cs = chars_of(track_url);
    match find_url(&cs) {
        Some((a, b, c, d)) => {
            let item_type = track_url.substring_char(a, b);
            let id = track_url.substring_char(c, d);
            let mut text = String::from_str("spotify:");
            proof {
                reveal_strlit("spotify:");
                reveal_strlit(":");
            }
            text.append(item_type);
            text.append(":");
            text.append(id);
            assert(text@ =~= uri_text(item_type@, id@));
            proof {
                lemma_captures_shape(track_url@);
                assert(url_captures(track_url@) == Some((item_type@, id@)));
                assert(no_colon(item_type@)) by {
                    assert forall|i: int| 0 <= i < item_type@.len() implies #[trigger] item_type@[i]
                        != ':' by {
                        assert(is_word_char(item_type@[i]));
                    }
                }
                assert(no_colon(id@)) by {
                    assert forall|i: int| 0 <= i < id@.len() implies #[trigger] id@[i] != ':' by {
                        assert(is_ascii_alnum(id@[i]));
                    }
                }
            }
            parse_uri(text.as_str())
        },
        None => None,
    }
}

// ---------------------------------------------------------------------------
// Requests
// ---------------------------------------------------------------------------

/// What one requested id stands for.
pub enum TrackRequest {
    /// A single track or episode.
    Item(MediaItem),
    /// An album, playlist or show, whose entries are to be fetched.
    Queue(MediaQueue),
    /// An item of a kind that is not downloaded (skipped with a warning).
    Unsupported,
}

/// The value of a [`TrackRequest`]: the URI that it carries.
pub enum RequestView {
    Item(UriView),
    Queue(UriView),
    Unsupported,
}

impl View for TrackRequest {
    type V = RequestView;

    open spec fn view(&self) -> RequestView {
        match self {
            TrackRequest::Item(m) => RequestView::Item(m@),
            TrackRequest::Queue(q) => RequestView::Queue(q@),
            TrackRequest::Unsupported => RequestView::Unsupported,
        }
    }
}

/// The view of a resolved request.
pub open spec fn request_result_view(r: Result<TrackRequest, Error>) -> Result<RequestView, Error> {
    match r {
        Ok(req) => Ok(req@),
        Err(e) => Err(e),
    }
}

/// What a requested id stands for, given the URI read from it: no URI is
/// "Invalid track"; tracks and episodes are single items; albums, playlists
/// and shows are collections; anything else is unsupported.
pub open spec fn request_for(u: Option<UriView>) -> Result<RequestView, Error> {
    match u {
        None => Err(Error::InvalidTrack),
        Some(v) => if is_playable_item(v) {
            Ok(RequestView::Item(v))
        } else if is_collection(v) {
            Ok(RequestView::Queue(v))
        } else {
            Ok(RequestView::Unsupported)
        },
    }
}

/// Decides what a read URI stands for.
pub fn resolve_uri(uri: Option<SpotifyUri>) -> (r: Result<TrackRequest, Error>)
    ensures
        request_result_view(r) == request_for(opt_uri_view(uri)),
{
    match uri {
        None => Err(Error::InvalidTrack),
        Some(u) => match u {
            SpotifyUri::Track(_) | SpotifyUri::Episode(_) => match MediaItem::from(&u) {
                Ok(item) => Ok(TrackRequest::Item(item)),
                Err(e) => Err(e),
            },
            SpotifyUri::Album(_) | SpotifyUri::Playlist(_, _) | SpotifyUri::Show(_) => {
                match MediaQueue::from_uri(&u) {
                    Ok(queue) => Ok(TrackRequest::Queue(queue)),
                    Err(e) => Err(e),
                }
            },
            _ => Ok(TrackRequest::Unsupported),
        },
    }
}

/// Decides what one requested id (a URI or a share URL) stands for.
pub fn resolve_request(id: &str) -> (r: Result<TrackRequest, Error>)
    ensures
        request_result_view(r) == request_for(uri_of_input(id@)),
{
    resolve_uri(parse_uri_or_url(id))
}


/// The progress of collecting, in order, the items that a list of requested
/// ids stands for.
pub struct TrackCollector {
    ids: Vec<String>,
    next: usize,
    tracks: Vec<MediaItem>,
}

/// What collecting needs next.
pub enum CollectStep {
    /// The entries of this collection are to be fetched, and its items
    /// handed to [`TrackCollector::add_items`].
    Fetch(MediaQueue),
    /// The id (given) names an item of a kind that is not downloaded.
    Unsupported(String),
    /// The id named a single item, which was added.
    Added,
    /// Every id has been handled.
    Done,
}

/// How handling one id ends, given the request `req` that the id `id`
/// stands for: the result `r`, whether the id was consumed (`advanced`), and
/// the items after the step (`after`) from those before it (`before`). An
/// unreadable id is not consumed and stops the collecting with its error.
pub open spec fn step_outcome(
    req: Result<RequestView, Error>,
    id: Seq<char>,
    before: Seq<UriView>,
    r: Result<CollectStep, Error>,
    after: Seq<UriView>,
    advanced: bool,
) -> bool {
    match req {
        Err(e) => r == Err::<CollectStep, Error>(e) && !advanced && after == before,
        Ok(RequestView::Item(u)) => (r matches Ok(CollectStep::Added)) && advanced && after
            == before.push(u),
        Ok(RequestView::Queue(u)) => (r matches Ok(CollectStep::Fetch(q)) && q@ == u) && advanced
            && after == before,
        Ok(RequestView::Unsupported) => (r matches Ok(CollectStep::Unsupported(i)) && i@ == id)
            && advanced && after == before,
    }
}

impl TrackCollector {
    /// The requested ids.
    pub closed spec fn spec_ids(&self) -> Seq<Seq<char>> {
        string_views(self.ids@)
    }

    /// How many ids have been handled.
    pub closed spec fn spec_next(&self) -> int {
        self.next as int
    }

    /// The items collected so far, in order.
    pub closed spec fn spec_tracks(&self) -> Seq<UriView> {
        item_views(self.tracks@)
    }

    /// A collector for the given ids, none handled yet.
    pub fn new(ids: Vec<String>) -> (r: Self)
        ensures
            r.spec_ids() == string_views(ids@),
            r.spec_next() == 0,
            r.spec_tracks() == Seq::<UriView>::empty(),
    {
        let r = TrackCollector { ids, next: 0, tracks: Vec::new() };
        assert(r.spec_tracks() =~= Seq::<UriView>::empty());
        r
    }

    /// Handles the next id: a single item is added; a collection is handed
    /// out to be fetched; an unsupported kind is reported; an id that cannot
    /// be read stops the collecting with its error, nothing changed.
    pub fn step(&mut self) -> (r: Result<CollectStep, Error>)
        ensures
            final(self).spec_ids() == old(self).spec_ids(),
            old(self).spec_next() >= old(self).spec_ids().len() ==> ((r matches Ok(
                CollectStep::Done,
            )) && final(self).spec_next() == old(self).spec_next() && final(self).spec_tracks()
                == old(self).spec_tracks()),
            old(self).spec_next() < old(self).spec_ids().len() ==> step_outcome(
                request_for(uri_of_input(old(self).spec_ids()[old(self).spec_next()])),
                old(self).spec_ids()[old(self).spec_next()],
                old(self).spec_tracks(),
                r,
                final(self).spec_tracks(),
                final(self).spec_next() == old(self).spec_next() + 1,
            ),
            old(self).spec_next() < old(self).spec_ids().len() ==> (final(self).spec_next()
                == old(self).spec_next() + 1 || final(self).spec_next() == old(self).spec_next()),
    {
        if self.next >= self.ids.len() {
            return Ok(CollectStep::Done);
        }
        let i = self.next;
        proof {
            assert(self.ids@[i as int]@ == self.spec_ids()[i as int]);
        }
        match resolve_request(self.ids[i].as_str()) {
            Err(e) => Err(e),
            Ok(TrackRequest::Item(item)) => {
                let ghost before = self.tracks@;
                self.tracks.push(item);
                self.next = i + 1;
                proof {
                    assert(item_views(self.tracks@) =~= item_views(before).push(item@));
                }
                Ok(CollectStep::Added)
            },
            Ok(TrackRequest::Queue(queue)) => {
                self.next = i + 1;
                Ok(CollectStep::Fetch(queue))
            },
            Ok(TrackRequest::Unsupported) => {
                let id = self.ids[i].clone();
                self.next = i + 1;
                Ok(CollectStep::Unsupported(id))
            },
        }
    }

    /// Appends the fetched items of a collection, in order.
    pub fn add_items(&mut self, items: Vec<MediaItem>)
        ensures
            final(self).spec_ids() == old(self).spec_ids(),
            final(self).spec_next() == old(self).spec_next(),
            final(self).spec_tracks() == old(self).spec_tracks() + item_views(items@),
    {
        let mut items = items;
        let ghost before = self.tracks@;
        let ghost added = items@;
        self.tracks.append(&mut items);
        proof {
            assert(item_views(self.tracks@) =~= item_views(before) + item_views(added));
        }
    }

    /// The items collected, in order.
    pub fn into_tracks(self) -> (r: Vec<MediaItem>)
        ensures
            item_views(r@) == self.spec_tracks(),
    {
        self.tracks
    }
}


/// The items that one requested id contributes, given the entries fetched
/// for it: a single item itself, a collection its items among the entries,
/// an unsupported kind nothing.
pub open spec fn contribution(req: RequestView, entries: Seq<UriView>) -> Seq<UriView> {
    match req {
        RequestView::Item(u) => seq![u],
        RequestView::Queue(q) => members(q, entries),
        RequestView::Unsupported => Seq::empty(),
    }
}

/// The items that a list of requested ids yields, in order, given for each
/// id the entries fetched for it (used where the id names a collection): the
/// contributions of the ids concatenated, or the error of the first id that
/// cannot be read.
pub open spec fn yields(ids: Seq<Seq<char>>, entries: Seq<Seq<UriView>>) -> Result<
    Seq<UriView>,
    Error,
>
    decreases ids.len(),
{
    if ids.len() == 0 {
        Ok(Seq::empty())
    } else {
        match yields(ids.drop_last(), entries.drop_last()) {
            Err(e) => Err(e),
            Ok(before) => match request_for(uri_of_input(ids.last())) {
                Err(e) => Err(e),
                Ok(req) => Ok(before + contribution(req, entries.last())),
            },
        }
    }
}

/// Requesting two lists of ids one after the other yields the items of the
/// first followed by those of the second; an id of the first list that
/// cannot be read stops everything with its error.
pub proof fn lemma_yields_concat(
    a: Seq<Seq<char>>,
    ea: Seq<Seq<UriView>>,
    b: Seq<Seq<char>>,
    eb: Seq<Seq<UriView>>,
)
    requires
        ea.len() == a.len(),
        eb.len() == b.len(),
    ensures
        yields(a + b, ea + eb) == match yields(a, ea) {
            Err(e) => Err(e),
            Ok(x) => match yields(b, eb) {
                Err(e) => Err(e),
                Ok(y) => Ok(x + y),
            },
        },
    decreases b.len(),
{
    if b.len() == 0 {
        assert(a + b =~= a);
        assert(ea + eb =~= ea);
        if let Ok(x) = yields(a, ea) {
            assert(x + Seq::<UriView>::empty() =~= x);
        }
    } else {
        lemma_yields_concat(a, ea, b.drop_last(), eb.drop_last());
        assert((a + b).drop_last() =~= a + b.drop_last());
        assert((ea + eb).drop_last() =~= ea + eb.drop_last());
        assert((a + b).last() == b.last());
        assert((ea + eb).last() == eb.last());
        if let Ok(x) = yields(a, ea) {
            if let Ok(y) = yields(b.drop_last(), eb.drop_last()) {
                if let Ok(req) = request_for(uri_of_input(b.last())) {
                    assert(x + y + contribution(req, eb.last()) =~= x + (y + contribution(
                        req,
                        eb.last(),
                    )));
                }
            }
        }
    }
}

/// An error in the first `k` ids is the error of the whole list.
proof fn lemma_yields_error_prefix(ids: Seq<Seq<char>>, entries: Seq<Seq<UriView>>, k: int)
    requires
        entries.len() == ids.len(),
        0 <= k <= ids.len(),
        yields(ids.take(k), entries.take(k)) is Err,
    ensures
        yields(ids, entries) == yields(ids.take(k), entries.take(k)),
{
    lemma_yields_concat(ids.take(k), entries.take(k), ids.skip(k), entries.skip(k));
    assert(ids.take(k) + ids.skip(k) =~= ids);
    assert(entries.take(k) + entries.skip(k) =~= entries);
}

/// The entries fetched for each id, as views.
pub open spec fn entry_views(s: Seq<Vec<SpotifyUri>>) -> Seq<Seq<UriView>> {
    s.map_values(|v: Vec<SpotifyUri>| uri_views(v@))
}

impl TrackCollector {
    /// Drives a collector over the ids to the end, answering each collection
    /// with its entries in `entries` (one list per id, used where the id
    /// names a collection): the result is what the ids yield.
    pub fn collect_all(ids: Vec<String>, entries: &Vec<Vec<SpotifyUri>>) -> (r: Result<
        Vec<MediaItem>,
        Error,
    >)
        requires
            entries.len() == ids.len(),
        ensures
            match r {
                Ok(v) => yields(string_views(ids@), entry_views(entries@)) == Ok::<
                    Seq<UriView>,
                    Error,
                >(item_views(v@)),
                Err(e) => yields(string_views(ids@), entry_views(entries@)) == Err::<
                    Seq<UriView>,
                    Error,
                >(e),
            },
    {
        let ghost idv = string_views(ids@);
        let ghost ev = entry_views(entries@);
        let mut c = TrackCollector::new(ids);
        proof {
            assert(idv.take(0) =~= Seq::<Seq<char>>::empty());
            assert(ev.take(0) =~= Seq::<Seq<UriView>>::empty());
        }
        loop
            invariant
                entries.len() == idv.len(),
                ev == entry_views(entries@),
                idv == string_views(ids@),
                c.spec_ids() == idv,
                0 <= c.spec_next() <= idv.len(),
                yields(idv.take(c.spec_next()), ev.take(c.spec_next())) == Ok::<
                    Seq<UriView>,
                    Error,
                >(c.spec_tracks()),
            decreases idv.len() - c.spec_next(),
        {
            let k = c.next;
            let ghost before = c.spec_tracks();
            let step = c.step();
            proof {
                if (k as int) < idv.len() {
                    assert(idv.take(k + 1).drop_last() =~= idv.take(k as int));
                    assert(ev.take(k + 1).drop_last() =~= ev.take(k as int));
                    assert(idv.take(k + 1).last() == idv[k as int]);
                    assert(ev.take(k + 1).last() == ev[k as int]);
                }
            }
            match step {
                Err(e) => {
                    proof {
                        assert((k as int) < idv.len());
                        assert(request_for(uri_of_input(idv[k as int])) == Err::<RequestView, Error>(e));
                        assert(yields(idv.take(k + 1), ev.take(k + 1)) == Err::<Seq<UriView>, Error>(e));
                        lemma_yields_error_prefix(idv, ev, k + 1);
                        assert(yields(idv, ev) == Err::<Seq<UriView>, Error>(e));
                    }
                    return Err(e);
                },
                Ok(CollectStep::Fetch(queue)) => {
                    let items = queue.select_items(&entries[k]);
                    proof {
                        assert(ev[k as int] == uri_views(entries@[k as int]@));
                    }
                    c.add_items(items);
                    proof {
                        let req = request_for(uri_of_input(idv[k as int]));
                        assert(req matches Ok(RequestView::Queue(_)));
                        assert(c.spec_tracks() == before + contribution(req.unwrap(), ev[k as int]));
                    }
                },
                Ok(CollectStep::Added) => {
                    proof {
                        let req = request_for(uri_of_input(idv[k as int]));
                        assert(req matches Ok(RequestView::Item(_)));
                        assert(c.spec_tracks() =~= before + contribution(req.unwrap(), ev[k as int]));
                    }
                },
                Ok(CollectStep::Unsupported(_)) => {
                    proof {
                        let req = request_for(uri_of_input(idv[k as int]));
                        assert(req matches Ok(RequestView::Unsupported));
                        assert(c.spec_tracks() =~= before + contribution(req.unwrap(), ev[k as int]));
                    }
                },
                Ok(CollectStep::Done) => {
                    proof {
                        assert(c.spec_next() == idv.len());
                        assert(idv.take(idv.len() as int) =~= idv);
                        assert(ev.take(ev.len() as int) =~= ev);
                    }
                    return Ok(c.into_tracks());
                },
            }
        }
    }
}

/// Reads a user's input as a Spotify URI, or failing that as a share URL.
pub fn parse_uri_or_url(track: &str) -> (r: Option<SpotifyUri>)
    ensures
        opt_uri_view(r) == uri_of_input(track@),
        forall|t: Seq<char>, id: Seq<char>|
            #![trigger uri_text(t, id)]
            track@ == uri_text(t, id) && no_colon(t) && no_colon(id) && t != user_word()
                && reads_some(t, id) ==> reads_as(t, id, None, opt_uri_view(r)),
        forall|user: Seq<char>, t: Seq<char>, id: Seq<char>|
            #![trigger named_uri_text(user, t, id)]
            track@ == named_uri_text(user, t, id) && no_colon(user) && no_colon(t) && no_colon(id)
                && reads_some(t, id) ==> reads_as(t, id, Some(user), opt_uri_view(r)),
        forall|t: Seq<char>, id: Seq<char>|
            #![trigger share_url(t, id)]
            track@ == share_url(t, id) && t.len() > 0 && id.len() > 0 && all_word_chars(t)
                && all_ascii_alnum(id) && t != user_word() ==> reads_as(t, id, None, opt_uri_view(r)),
{
    proof {
        assert forall|t: Seq<char>, id: Seq<char>|
            track@ == #[trigger] share_url(t, id) && t.len() > 0 && id.len() > 0 && all_word_chars(t)
                && all_ascii_alnum(id) implies url_captures(track@) == Some((t, id))
            && !has_spotify_scheme(track@) by {
            lemma_share_url_captures(t, id, Seq::empty());
            assert(share_url(t, id) + Seq::<char>::empty() =~= share_url(t, id));
            assert(track@.subrange(0, 8)[0] == 'h');
        }
    }
    match parse_uri(track) {
        Some(u) => Some(u),
        None => parse_url(track),
    }
}

} // verus!

verus! {

// ---------------------------------------------------------------------------
// Laws on what each kind of id stands for, and on titles
// ---------------------------------------------------------------------------

/// What a requested id stands for, kind by kind: an unreadable id is
/// "Invalid track"; a track or an episode is a single item; an album, a
/// playlist or a show is a collection to fetch; an artist, a local file or an
/// unknown kind is skipped.
pub proof fn lemma_request_by_kind(v: UriView)
    ensures
        request_for(None) == Err::<RequestView, Error>(Error::InvalidTrack),
        (v is Track || v is Episode) ==> request_for(Some(v)) == Ok::<RequestView, Error>(
            RequestView::Item(v),
        ),
        (v is Album || v is Playlist || v is Show) ==> request_for(Some(v)) == Ok::<
            RequestView,
            Error,
        >(RequestView::Queue(v)),
        (v is Artist || v is Local || v is Unknown) ==> request_for(Some(v)) == Ok::<
            RequestView,
            Error,
        >(RequestView::Unsupported),
{
}

/// Cleaning a text in two parts is cleaning each part: no character is
/// dropped or kept because of its neighbours.
pub proof fn lemma_clean_concat(a: Seq<char>, b: Seq<char>)
    ensures
        clean_chars(a + b) == clean_chars(a) + clean_chars(b),
    decreases b.len(),
{
    if b.len() == 0 {
        assert(a + b =~= a);
        assert(clean_chars(a) + clean_chars(b) =~= clean_chars(a));
    } else {
        lemma_clean_concat(a, b.drop_last());
        assert((a + b).drop_last() =~= a + b.drop_last());
        assert((a + b).last() == b.last());
        if is_kept_char(b.last()) {
            assert(clean_chars(a) + clean_chars(b.drop_last()).push(b.last()) =~= (clean_chars(a)
                + clean_chars(b.drop_last())).push(b.last()));
        }
    }
}

/// Cleaning drops exactly the characters `< > : ' " / \ | ? *` and the
/// control codes U+0000..U+001F and U+007F..U+009F, and keeps every other
/// character.
pub proof fn lemma_clean_char(c: char)
    ensures
        (c == '<' || c == '>' || c == ':' || c == '\'' || c == '"' || c == '/' || c == '\\' || c
            == '|' || c == '?' || c == '*' || (c as u32) <= 0x1f || (0x7f <= (c as u32) && (c as u32)
            <= 0x9f)) ==> clean_chars(seq![c]) == Seq::<char>::empty(),
        !(c == '<' || c == '>' || c == ':' || c == '\'' || c == '"' || c == '/' || c == '\\' || c
            == '|' || c == '?' || c == '*' || (c as u32) <= 0x1f || (0x7f <= (c as u32) && (c as u32)
            <= 0x9f)) ==> clean_chars(seq![c]) == seq![c],
{
    assert(seq![c].drop_last() =~= Seq::<char>::empty());
    assert(seq![c].last() == c);
    assert(clean_chars(Seq::<char>::empty()) == Seq::<char>::empty());
    assert(Seq::<char>::empty().push(c) =~= seq![c]);
}

/// Joining names: one name is itself, and each further name follows the
/// ones before after `, `.
pub proof fn lemma_join_names(names: Seq<Seq<char>>, name: Seq<char>)
    ensures
        join_names(Seq::empty()) == Seq::<char>::empty(),
        join_names(seq![name]) == name,
        names.len() > 0 ==> join_names(names.push(name)) == join_names(names) + seq![',', ' ']
            + name,
{
    assert(seq![name].len() == 1);
    assert(names.push(name).drop_last() =~= names);
}

/// The title of a track holds every kept character of its artists line, with
/// no bound on its length: the cleaned names of at most three artists, then
/// ` - ` (or `, ... - ` where there are more than three artists), then the
/// cleaned track name, which always ends the title.
pub proof fn lemma_track_title_parts(names: Seq<Seq<char>>, title: Seq<char>)
    ensures
        names.len() <= 3 ==> track_title(names, title) == clean_chars(join_names(names)) + seq![
            ' ',
            '-',
            ' ',
        ] + clean_chars(title),
        names.len() > 3 ==> track_title(names, title) == clean_chars(join_names(names.take(3)))
            + seq![',', ' ', '.', '.', '.', ' ', '-', ' '] + clean_chars(title),
        track_title(names, title).len() >= clean_chars(title).len(),
{
    let dash = seq![' ', '-', ' '];
    let more = seq![',', ' ', '.', '.', '.', ' ', '-', ' '];
    lemma_clean_keeps_clean_text(dash);
    lemma_clean_keeps_clean_text(more);
    if names.len() > 3 {
        let j = join_names(names.take(3));
        lemma_clean_concat(j + more, title);
        lemma_clean_concat(j, more);
    } else {
        let j = join_names(names);
        lemma_clean_concat(j + dash, title);
        lemma_clean_concat(j, dash);
    }
}

/// The title of an episode is the cleaned show name, ` - `, and the cleaned
/// episode name, with no bound on its length.
pub proof fn lemma_episode_title_parts(show: Seq<char>, episode: Seq<char>)
    ensures
        episode_title(show, episode) == clean_chars(show) + seq![' ', '-', ' '] + clean_chars(
            episode,
        ),
{
    let dash = seq![' ', '-', ' '];
    lemma_clean_keeps_clean_text(dash);
    lemma_clean_concat(show + dash, episode);
    lemma_clean_concat(show, dash);
}

/// What one requested id yields, kind by kind, given the entries fetched for
/// it: a single item itself, a collection its items among the entries, a
/// skipped kind nothing, an unreadable id its error.
pub proof fn lemma_yields_one(id: Seq<char>, entries: Seq<UriView>)
    ensures
        yields(seq![id], seq![entries]) == match request_for(uri_of_input(id)) {
            Err(e) => Err::<Seq<UriView>, Error>(e),
            Ok(RequestView::Item(u)) => Ok(seq![u]),
            Ok(RequestView::Queue(q)) => Ok(members(q, entries)),
            Ok(RequestView::Unsupported) => Ok(Seq::<UriView>::empty()),
        },
{
    assert(seq![id].drop_last() =~= Seq::<Seq<char>>::empty());
    assert(seq![entries].drop_last() =~= Seq::<Seq<UriView>>::empty());
    assert(seq![id].last() == id);
    assert(seq![entries].last() == entries);
    assert(yields(Seq::<Seq<char>>::empty(), Seq::<Seq<UriView>>::empty()) == Ok::<
        Seq<UriView>,
        Error,
    >(Seq::<UriView>::empty()));
    if let Ok(req) = request_for(uri_of_input(id)) {
        assert(Seq::<UriView>::empty() + contribution(req, entries) =~= contribution(req, entries));
    }
}

} // verus!
