//! Decisions of the download orchestrator: whether a request starts a
//! transfer, and where an item is written.

use vstd::prelude::*;
use vstd::string::*;
use crate::catalog::{BookEntry, author_of, cover_url_of, find_owned, is_first_with_id, owned_id, BookShelf, UNKNOWN_AUTHOR};
use crate::mirror::{item_dir, item_dir_of};
use crate::progress::{ProgressRegistry, TransferProgress};
use crate::text::{decimal, push_decimal};

verus! {

/// What a download request does.
#[derive(Clone, Copy, Debug, PartialEq, Eq)]
pub enum RequestDecision {
    /// The audio file is already in the mirror: nothing to do.
    AlreadyPresent,
    /// A transfer of the item is running: nothing to do.
    AlreadyInFlight,
    /// The caller now owns the item's registry entry and runs the transfer.
    Start,
}

/// The decision of a request for item `id` on registry contents `reg`, and the
/// registry contents afterwards.
pub open spec fn request_outcome(
    reg: Map<u64, TransferProgress>,
    id: u64,
    mirrored: bool,
) -> (RequestDecision, Map<u64, TransferProgress>) {
    if mirrored {
        (RequestDecision::AlreadyPresent, reg)
    } else if reg.contains_key(id) {
        (RequestDecision::AlreadyInFlight, reg)
    } else {
        (RequestDecision::Start, reg.insert(id, TransferProgress { done: 0, total: None }))
    }
}

/// Decides a download request for item `id`, where `mirrored` tells whether
/// its audio file exists. A request that starts registers the item at once,
/// so that a second request sees it in flight.
pub fn request_download(registry: &mut ProgressRegistry, id: u64, mirrored: bool) -> (r:
    RequestDecision)
    ensures
        (r, final(registry)@) == request_outcome(old(registry)@, id, mirrored),
{
    if mirrored {
        RequestDecision::AlreadyPresent
    } else if registry.is_in_flight(id) {
        RequestDecision::AlreadyInFlight
    } else {
        registry.record(id, 0, None);
        RequestDecision::Start
    }
}

/// Ends the transfer of item `id`, whether it succeeded or failed: its entry
/// leaves the registry.
pub fn finish_transfer(registry: &mut ProgressRegistry, id: u64)
    ensures
        final(registry)@ == old(registry)@.remove(id),
        !final(registry)@.contains_key(id),
{
    registry.clear(id);
}

/// Two requests for one item, one after the other, never both start a
/// transfer; and when the item is neither mirrored nor in flight, exactly
/// one of them does.
pub proof fn lemma_single_transfer(
    reg: Map<u64, TransferProgress>,
    id: u64,
    mirrored1: bool,
    mirrored2: bool,
)
    ensures
        ({
            let (d1, r1) = request_outcome(reg, id, mirrored1);
            let (d2, r2) = request_outcome(r1, id, mirrored2);
            &&& !(d1 == RequestDecision::Start && d2 == RequestDecision::Start)
            &&& (!mirrored1 && !reg.contains_key(id)) ==> d1 == RequestDecision::Start
        }),
{
}

/// A request for an item whose audio file exists returns at once: it
/// creates no registry entry and starts nothing.
pub proof fn lemma_present_item_untouched(reg: Map<u64, TransferProgress>, id: u64)
    ensures
        request_outcome(reg, id, true) == (RequestDecision::AlreadyPresent, reg),
        request_outcome(reg, id, true).1.contains_key(id) == reg.contains_key(id),
{
}

/// After a transfer that started ends, whatever progress it recorded, the
/// item has no registry entry, and the other items' entries are as they were.
pub proof fn lemma_no_leak(
    reg: Map<u64, TransferProgress>,
    id: u64,
    updates: Seq<TransferProgress>,
)
    requires
        request_outcome(reg, id, false).0 == RequestDecision::Start,
    ensures
        ({
            let started = request_outcome(reg, id, false).1;
            let ended = updates.fold_left(started, |m: Map<u64, TransferProgress>, p: TransferProgress| m.insert(id, p)).remove(id);
            &&& !ended.contains_key(id)
            &&& ended == reg
        }),
{
    let started = request_outcome(reg, id, false).1;
    lemma_updates_keep_others(started, id, updates);
    let f = |m: Map<u64, TransferProgress>, p: TransferProgress| m.insert(id, p);
    let ended = updates.fold_left(started, f).remove(id);
    assert(ended =~= reg);
}

proof fn lemma_updates_keep_others(
    m: Map<u64, TransferProgress>,
    id: u64,
    updates: Seq<TransferProgress>,
)
    requires
        m.contains_key(id),
    ensures
        updates.fold_left(m, |m: Map<u64, TransferProgress>, p: TransferProgress| m.insert(id, p)).remove(id)
            == m.remove(id),
    decreases updates.len(),
{
    let f = |m: Map<u64, TransferProgress>, p: TransferProgress| m.insert(id, p);
    if updates.len() > 0 {
        let init = updates.drop_last();
        lemma_updates_keep_others(m, id, init);
        let mid = init.fold_left(m, f);
        assert(updates.fold_left(m, f) == f(init.fold_left(m, f), updates.last()));
        assert(mid.insert(id, updates.last()).remove(id) =~= mid.remove(id));
    } else {
        assert(updates.fold_left(m, f) == m);
    }
}

/// Where and under which names an on-demand download writes an item.
pub struct DownloadTarget {
    pub id: u64,
    pub title: String,
    pub author: String,
    pub dir: String,
    pub cover_url: String,
}

/// The title used for an item that the catalog does not list.
pub open spec fn fallback_title(id: u64) -> Seq<char> {
    "book_"@ + decimal(id as nat)
}

/// The target of item `id` below `root`, from the first catalog entry that
/// owns it; an item the catalog does not list is named `book_<id>` by
/// `unknown`, with the placeholder cover.
pub fn download_target(shelf: &BookShelf, id: u64, root: &str) -> (r: DownloadTarget)
    ensures
        r.id == id,
        r.dir@ == item_dir_of(root@, r.author@, r.title@),
        match find_owned_spec(shelf.books@, id) {
            Some(i) => {
                &&& r.title@ == shelf.books@[i].book.name@
                &&& r.author@ == author_of(shelf.books@[i])
                &&& r.cover_url@ == cover_url_of(shelf.books@[i])
            },
            None => {
                &&& r.title@ == fallback_title(id)
                &&& r.author@ == UNKNOWN_AUTHOR@
                &&& r.cover_url@ == crate::catalog::COVER_HOST@ + crate::catalog::NO_COVER@
            },
        },
{
    let found = find_owned(shelf, id);
    proof {
        lemma_first_unique(shelf.books@, id);
    }
    let (title, author, cover_url) = match found {
        Some(i) => {
            let e = &shelf.books[i];
            (e.title(), e.author(), e.cover_url())
        },
        None => {
            let mut t = String::from_str("book_");
            push_decimal(&mut t, id);
            let mut c = String::from_str(crate::catalog::COVER_HOST);
            crate::text::push_str(&mut c, crate::catalog::NO_COVER);
            (t, String::from_str(UNKNOWN_AUTHOR), c)
        },
    };
    let dir = item_dir(root, author.as_str(), title.as_str());
    DownloadTarget { id, title, author, dir, cover_url }
}

/// Index of the first entry that owns item `id`.
pub open spec fn find_owned_spec(books: Seq<BookEntry>, id: u64) -> Option<int> {
    if exists|i: int| is_first_with_id(books, id, i) {
        Some(choose|i: int| is_first_with_id(books, id, i))
    } else {
        None
    }
}

proof fn lemma_first_unique(books: Seq<BookEntry>, id: u64)
    ensures
        forall|i: int, j: int|
            is_first_with_id(books, id, i) && is_first_with_id(books, id, j) ==> i == j,
        (exists|k: int| 0 <= k < books.len() && owned_id(#[trigger] books[k]) == Some(id))
            ==> exists|i: int| is_first_with_id(books, id, i),
{
    assert forall|i: int, j: int|
        is_first_with_id(books, id, i) && is_first_with_id(books, id, j) implies i == j by {
        if i < j {
            assert(owned_id(books[i]) != Some(id));
        }
        if j < i {
            assert(owned_id(books[j]) != Some(id));
        }
    }
    if exists|k: int| 0 <= k < books.len() && owned_id(#[trigger] books[k]) == Some(id) {
        let k = choose|k: int| 0 <= k < books.len() && owned_id(#[trigger] books[k]) == Some(id);
        lemma_first_exists(books, id, k);
    }
}

proof fn lemma_first_exists(books: Seq<BookEntry>, id: u64, k: int)
    requires
        0 <= k < books.len(),
        owned_id(books[k]) == Some(id),
    ensures
        exists|i: int| is_first_with_id(books, id, i),
    decreases k,
{
    if forall|m: int| 0 <= m < k ==> owned_id(#[trigger] books[m]) != Some(id) {
        assert(is_first_with_id(books, id, k));
    } else {
        let m = choose|m: int| 0 <= m < k && owned_id(#[trigger] books[m]) != Some(id) == false;
        lemma_first_exists(books, id, m);
    }
}

} // verus!
