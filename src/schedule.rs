//! The periodic sync pass: which owned items it transfers, and how long it
//! sleeps between passes.

use vstd::prelude::*;
use crate::catalog::{BookEntry, BookShelf};
use crate::mirror::{is_downloaded, sanitize};

verus! {

/// Delay before the first pass, so that it does not compete with startup.
pub const INITIAL_DELAY_SECS: u64 = 600;

/// Mean delay between the end of one pass and the start of the next.
pub const BASE_INTERVAL_SECS: u64 = 86_400;

/// Largest distance of a delay from the mean.
pub const MAX_JITTER_SECS: u64 = 7_200;

/// Relies on `rand::Rng::random_range` over the thread-local generator of
/// `rand::rng`: a value drawn from `-max..=max`. The range is never empty,
/// which is the one case where the call panics.
#[verifier::external_body]
fn random_offset(max: i64) -> (r: i64)
    requires
        0 <= max,
    ensures
        -max <= r <= max,
{
    rand::Rng::random_range(&mut rand::rng(), -max..=max)
}

/// The delay `base + offset` for an offset drawn within `max_jitter`.
pub fn inter_pass_delay(base: u64, max_jitter: u64, offset: i64) -> (r: u64)
    requires
        max_jitter <= base,
        base + max_jitter <= u64::MAX,
        -(max_jitter as int) <= offset <= max_jitter,
    ensures
        r == base + offset,
{
    if offset >= 0 {
        base + offset as u64
    } else {
        let back: u64 = (0 - (offset as i128)) as u64;
        base - back
    }
}

/// A fresh delay before the next pass, drawn uniformly around `base`.
pub fn next_pass_delay(base: u64, max_jitter: u64) -> (r: u64)
    requires
        max_jitter <= base,
        base + max_jitter <= u64::MAX,
        max_jitter <= i64::MAX,
    ensures
        base - max_jitter <= r <= base + max_jitter,
{
    let offset = random_offset(max_jitter as i64);
    inter_pass_delay(base, max_jitter, offset)
}

/// Whether an entry is an owned item that can be transferred.
pub open spec fn owned(e: BookEntry) -> bool {
    e.abook is Some
}

/// Number of owned items among the first `n` entries.
pub open spec fn owned_upto(books: Seq<BookEntry>, n: int) -> nat
    decreases n,
{
    if n <= 0 {
        0
    } else {
        owned_upto(books, n - 1) + if owned(books[n - 1]) { 1nat } else { 0nat }
    }
}

/// Number of owned items among the first `n` entries that are mirrored.
pub open spec fn synced_upto(books: Seq<BookEntry>, mirrored: Seq<bool>, n: int) -> nat
    decreases n,
{
    if n <= 0 {
        0
    } else {
        synced_upto(books, mirrored, n - 1) + if owned(books[n - 1]) && mirrored[n - 1] {
            1nat
        } else {
            0nat
        }
    }
}

/// Indices, ascending, of the owned items among the first `n` entries that
/// are not mirrored.
pub open spec fn pending_upto(books: Seq<BookEntry>, mirrored: Seq<bool>, n: int) -> Seq<usize>
    decreases n,
{
    if n <= 0 {
        Seq::empty()
    } else if owned(books[n - 1]) && !mirrored[n - 1] {
        pending_upto(books, mirrored, n - 1).push((n - 1) as usize)
    } else {
        pending_upto(books, mirrored, n - 1)
    }
}

/// Outcome of partitioning the catalog at the start of a pass.
pub struct SyncPlan {
    /// Owned items whose audio file exists.
    pub already_synced: usize,
    /// Catalog indices of the owned items to transfer, in catalog order.
    pub need_sync: Vec<usize>,
}

proof fn lemma_partition_counts(books: Seq<BookEntry>, mirrored: Seq<bool>, n: int)
    requires
        0 <= n <= books.len(),
        books.len() == mirrored.len(),
        books.len() <= usize::MAX,
    ensures
        synced_upto(books, mirrored, n) + pending_upto(books, mirrored, n).len() == owned_upto(books, n),
        forall|k: int| 0 <= k < pending_upto(books, mirrored, n).len() ==> {
            let j = #[trigger] pending_upto(books, mirrored, n)[k] as int;
            0 <= j < n && owned(books[j]) && !mirrored[j]
        },
        forall|k: int, l: int| 0 <= k < l < pending_upto(books, mirrored, n).len()
            ==> #[trigger] pending_upto(books, mirrored, n)[k] < #[trigger] pending_upto(books, mirrored, n)[l],
    decreases n,
{
    if n > 0 {
        lemma_partition_counts(books, mirrored, n - 1);
        let p = pending_upto(books, mirrored, n - 1);
        let q = pending_upto(books, mirrored, n);
        assert forall|k: int| 0 <= k < q.len() implies {
            let j = #[trigger] q[k] as int;
            0 <= j < n && owned(books[j]) && !mirrored[j]
        } by {
            if k < p.len() {
                assert(q[k] == p[k]);
            } else {
                assert(owned(books[n - 1]) && !mirrored[n - 1]);
                assert(q[k] as int == n - 1);
            }
        }
        assert forall|k: int, l: int| 0 <= k < l < q.len() implies #[trigger] q[k] < #[trigger] q[l] by {
            if l < p.len() {
                assert(q[k] == p[k] && q[l] == p[l]);
            } else {
                assert(q[k] == p[k]);
                assert((p[k] as int) < n - 1);
            }
        }
    }
}

/// Splits the owned entries of `shelf` by `mirrored`, which tells for each
/// entry whether its audio file exists (entries without an owned item are
/// not counted either way).
pub fn partition_sync(shelf: &BookShelf, mirrored: &Vec<bool>) -> (r: SyncPlan)
    requires
        mirrored@.len() == shelf.books@.len(),
    ensures
        r.already_synced == synced_upto(shelf.books@, mirrored@, shelf.books@.len() as int),
        r.need_sync@ == pending_upto(shelf.books@, mirrored@, shelf.books@.len() as int),
{
    let n: usize = shelf.books.len();
    let mut already: usize = 0;
    let mut need: Vec<usize> = Vec::new();
    let mut i: usize = 0;
    while i < n
        invariant
            n == shelf.books@.len(),
            n == mirrored@.len(),
            i <= n,
            already <= i,
            already == synced_upto(shelf.books@, mirrored@, i as int),
            need@ == pending_upto(shelf.books@, mirrored@, i as int),
        decreases n - i,
    {
        if shelf.books[i].abook.is_some() {
            if mirrored[i] {
                already = already + 1;
            } else {
                need.push(i);
            }
        }
        i = i + 1;
    }
    SyncPlan { already_synced: already, need_sync: need }
}

/// Plans a pass over `shelf` against the mirror below `root`: looks up the
/// audio file of every owned entry, then partitions. Every owned entry is
/// counted once, as synced or as pending, and the pending ones are owned
/// entries listed in catalog order.
pub fn plan_sync_pass(root: &str, shelf: &BookShelf) -> (r: SyncPlan)
    ensures
        r.already_synced + r.need_sync@.len() == owned_upto(shelf.books@, shelf.books@.len() as int),
        forall|k: int| 0 <= k < r.need_sync@.len() ==> {
            let j = #[trigger] r.need_sync@[k] as int;
            0 <= j < shelf.books@.len() && owned(shelf.books@[j])
        },
        forall|k: int, l: int| 0 <= k < l < r.need_sync@.len()
            ==> #[trigger] r.need_sync@[k] < #[trigger] r.need_sync@[l],
{
    let n: usize = shelf.books.len();
    let mut mirrored: Vec<bool> = Vec::new();
    let mut i: usize = 0;
    while i < n
        invariant
            n == shelf.books@.len(),
            i <= n,
            mirrored@.len() == i,
        decreases n - i,
    {
        let e = &shelf.books[i];
        let present = if e.abook.is_some() {
            let author = sanitize(e.author().as_str());
            let title = sanitize(e.book.name.as_str());
            is_downloaded(root, author.as_str(), title.as_str())
        } else {
            false
        };
        mirrored.push(present);
        i = i + 1;
    }
    let r = partition_sync(shelf, &mirrored);
    proof {
        lemma_partition_counts(shelf.books@, mirrored@, n as int);
    }
    r
}

} // verus!
