//! A collection of downloadable items.

use vstd::prelude::*;

use crate::error::Error;
use crate::media::media_item::MediaItem;
use crate::uri::{is_collection, is_playable_item, uri_views, SpotifyUri, UriView};

verus! {

/// A collection of [`MediaItem`]s: an album, a playlist or a show.
pub struct MediaQueue {
    uri: SpotifyUri,
}

impl View for MediaQueue {
    type V = UriView;

    closed spec fn view(&self) -> UriView {
        self.uri@
    }
}

impl MediaQueue {
    #[verifier::type_invariant]
    spec fn names_collection(self) -> bool {
        is_collection(self.uri@)
    }
}

/// Whether an entry of a collection is one of its items: episodes of a show,
/// tracks of an album or a playlist.
pub open spec fn is_member(queue: UriView, entry: UriView) -> bool {
    if queue is Show {
        entry is Episode
    } else {
        entry is Track
    }
}

/// The entries of a collection that are its items, in order.
pub open spec fn members(queue: UriView, entries: Seq<UriView>) -> Seq<UriView>
    decreases entries.len(),
{
    if entries.len() == 0 {
        Seq::empty()
    } else if is_member(queue, entries.last()) {
        members(queue, entries.drop_last()).push(entries.last())
    } else {
        members(queue, entries.drop_last())
    }
}

/// The views of a sequence of items.
pub open spec fn item_views(s: Seq<MediaItem>) -> Seq<UriView> {
    s.map_values(|m: MediaItem| m@)
}

impl MediaQueue {
    /// Wraps a URI that names an album, a playlist or a show.
    pub fn from_uri(uri: &SpotifyUri) -> (r: Result<MediaQueue, Error>)
        ensures
            match r {
                Ok(queue) => is_collection(uri@) && queue@ == uri@,
                Err(e) => !is_collection(uri@) && e == Error::InvalidUri,
            },
    {
        match uri {
            SpotifyUri::Album(_) | SpotifyUri::Playlist(_, _) | SpotifyUri::Show(_) => Ok(
                MediaQueue { uri: uri.clone() },
            ),
            _ => Err(Error::InvalidUri),
        }
    }

    /// The URI of the collection, from which its entries are fetched.
    pub fn uri(&self) -> (r: &SpotifyUri)
        ensures
            r@ == self@,
            is_collection(r@),
    {
        proof {
            use_type_invariant(self);
        }
        &self.uri
    }

    /// The items of the collection among its fetched entries: the episodes of
    /// a show, the tracks of an album or a playlist, in their order.
    pub fn select_items(&self, entries: &Vec<SpotifyUri>) -> (r: Vec<MediaItem>)
        ensures
            item_views(r@) == members(self@, uri_views(entries@)),
            forall|i: int|
                0 <= i < r.len() ==> is_member(self@, #[trigger] r@[i]@) && is_playable_item(
                    r@[i]@,
                ),
    {
        proof {
            use_type_invariant(self);
        }
        let show = match &self.uri {
            SpotifyUri::Show(_) => true,
            _ => false,
        };
        let mut items: Vec<MediaItem> = Vec::new();
        let mut i: usize = 0;
        while i < entries.len()
            invariant
                i <= entries.len(),
                show == (self@ is Show),
                item_views(items@) == members(self@, uri_views(entries@.subrange(0, i as int))),
            decreases entries.len() - i,
        {
            let entry = &entries[i];
            let wanted = match entry {
                SpotifyUri::Episode(_) => show,
                SpotifyUri::Track(_) => !show,
                _ => false,
            };
            proof {
                assert(entries@.subrange(0, i + 1).drop_last() == entries@.subrange(0, i as int));
                let prev = uri_views(entries@.subrange(0, i as int));
                let next = uri_views(entries@.subrange(0, i + 1));
                assert(next.drop_last() =~= prev);
                assert(next.last() == entry@);
                assert(wanted == is_member(self@, entry@));
            }
            if wanted {
                match MediaItem::from(entry) {
                    Ok(item) => {
                        let ghost before = items@;
                        items.push(item);
                        proof {
                            assert(item_views(items@) =~= item_views(before).push(entry@));
                        }
                    },
                    Err(_) => {},
                }
            }
            i = i + 1;
        }
        proof {
            assert(entries@.subrange(0, entries@.len() as int) == entries@);
            lemma_members_are_items(self@, uri_views(entries@));
            assert forall|i: int| 0 <= i < items.len() implies is_member(
                self@,
                #[trigger] items@[i]@,
            ) && is_playable_item(items@[i]@) by {
                assert(item_views(items@)[i] == items@[i]@);
            }
        }
        items
    }
}

} // verus!

verus! {

/// No URI is both a single item and a collection: at most one of
/// [`MediaItem::from`] and [`MediaQueue::from_uri`] accepts it.
pub proof fn lemma_item_or_queue(u: UriView)
    ensures
        !(is_playable_item(u) && is_collection(u)),
{
}

/// The items selected from a collection's entries are tracks or episodes
/// (episodes exactly for a show), in the order of the entries, and never
/// more than the entries.
pub proof fn lemma_members_are_items(queue: UriView, entries: Seq<UriView>)
    ensures
        members(queue, entries).len() <= entries.len(),
        forall|i: int|
            0 <= i < members(queue, entries).len() ==> is_member(
                queue,
                #[trigger] members(queue, entries)[i],
            ) && is_playable_item(members(queue, entries)[i]),
    decreases entries.len(),
{
    if entries.len() > 0 {
        lemma_members_are_items(queue, entries.drop_last());
        let prev = members(queue, entries.drop_last());
        if is_member(queue, entries.last()) {
            assert forall|i: int| 0 <= i < prev.push(entries.last()).len() implies is_member(
                queue,
                #[trigger] prev.push(entries.last())[i],
            ) && is_playable_item(prev.push(entries.last())[i]) by {
                if i < prev.len() {
                    assert(prev.push(entries.last())[i] == prev[i]);
                }
            }
        }
    }
}

/// An entry that is an item of the collection is selected.
pub proof fn lemma_members_keep_items(queue: UriView, entries: Seq<UriView>, i: int)
    requires
        0 <= i < entries.len(),
        is_member(queue, entries[i]),
    ensures
        members(queue, entries).contains(entries[i]),
    decreases entries.len(),
{
    if i == entries.len() - 1 {
        assert(members(queue, entries).last() == entries[i]);
    } else {
        assert(entries.drop_last()[i] == entries[i]);
        lemma_members_keep_items(queue, entries.drop_last(), i);
        let prev = members(queue, entries.drop_last());
        let j = choose|j: int| 0 <= j < prev.len() && prev[j] == entries[i];
        if is_member(queue, entries.last()) {
            assert(prev.push(entries.last())[j] == entries[i]);
        }
    }
}

} // verus!

verus! {

proof fn lemma_members_all(queue: UriView, entries: Seq<UriView>)
    requires
        forall|i: int| 0 <= i < entries.len() ==> is_member(queue, #[trigger] entries[i]),
    ensures
        members(queue, entries) == entries,
    decreases entries.len(),
{
    if entries.len() > 0 {
        assert forall|i: int| 0 <= i < entries.drop_last().len() implies is_member(
            queue,
            #[trigger] entries.drop_last()[i],
        ) by {
            assert(entries.drop_last()[i] == entries[i]);
        }
        lemma_members_all(queue, entries.drop_last());
        assert(is_member(queue, entries[entries.len() - 1]));
        assert(entries.drop_last().push(entries.last()) =~= entries);
    }
}

/// The items of an album or a playlist are exactly its track entries, and
/// those of a show exactly its episode entries: every selected item is of
/// that kind, every entry of that kind is selected, entries all of that kind
/// are selected whole, and nothing is added.
pub proof fn lemma_members_by_kind(queue: UriView, entries: Seq<UriView>)
    ensures
        members(queue, entries).len() <= entries.len(),
        (queue is Album || queue is Playlist) ==> forall|i: int|
            0 <= i < members(queue, entries).len() ==> #[trigger] members(queue, entries)[i] is Track,
        queue is Show ==> forall|i: int|
            0 <= i < members(queue, entries).len() ==> #[trigger] members(queue, entries)[i] is Episode,
        (queue is Album || queue is Playlist) ==> forall|i: int|
            0 <= i < entries.len() && #[trigger] entries[i] is Track ==> members(
                queue,
                entries,
            ).contains(entries[i]),
        queue is Show ==> forall|i: int|
            0 <= i < entries.len() && #[trigger] entries[i] is Episode ==> members(
                queue,
                entries,
            ).contains(entries[i]),
        (queue is Album || queue is Playlist) && (forall|i: int|
            0 <= i < entries.len() ==> #[trigger] entries[i] is Track) ==> members(queue, entries)
            == entries,
        queue is Show && (forall|i: int| 0 <= i < entries.len() ==> #[trigger] entries[i] is Episode)
            ==> members(queue, entries) == entries,
{
    lemma_members_are_items(queue, entries);
    assert forall|i: int| 0 <= i < entries.len() && is_member(queue, #[trigger] entries[i]) implies members(
        queue,
        entries,
    ).contains(entries[i]) by {
        lemma_members_keep_items(queue, entries, i);
    }
    if forall|i: int| 0 <= i < entries.len() ==> is_member(queue, #[trigger] entries[i]) {
        lemma_members_all(queue, entries);
    }
}

} // verus!
