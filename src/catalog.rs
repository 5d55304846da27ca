//! The catalog that the remote service returns, and what the mirror reads
//! from its entries.

use vstd::prelude::*;
use vstd::string::*;
use crate::text::push_str;

verus! {

/// Token part of the login answer.
pub struct AccountInfo {
    pub single_sign_token: String,
}

/// Answer of the login exchange.
pub struct Login {
    pub account_info: AccountInfo,
}

/// The full catalog of the authenticated identity.
pub struct BookShelf {
    pub books: Vec<BookEntry>,
}

/// One catalog entry. Only entries with an `abook` are owned audio items that
/// can be downloaded.
pub struct BookEntry {
    pub abook: Option<Abook>,
    pub abookmark: Option<AbookMark>,
    pub book: Book,
    pub isbn: Option<String>,
    pub cover: Option<String>,
    pub length: Option<u64>,
    pub description: Option<String>,
    pub author: Option<String>,
}

/// A saved playback position.
pub struct AbookMark {
    pub id: u64,
    pub position: i64,
}

/// The owned audio item of an entry.
pub struct Abook {
    pub id: u64,
    pub isbn: Option<String>,
}

/// Descriptive data of an entry.
pub struct Book {
    pub name: String,
    pub isbn: Option<String>,
    pub authors_as_string: Option<String>,
    pub cover: Option<String>,
    pub length: Option<u64>,
    pub description: Option<String>,
}

/// Host that relative cover references are resolved against.
pub const COVER_HOST: &'static str = "https://www.storytel.com";

/// Cover reference used when an entry has none.
pub const NO_COVER: &'static str = "/images/nocover.png";

/// Author used when an entry names none.
pub const UNKNOWN_AUTHOR: &'static str = "unknown";

/// The author of an entry, `unknown` when it names none.
pub open spec fn author_of(e: BookEntry) -> Seq<char> {
    match e.book.authors_as_string {
        Some(a) => a@,
        None => UNKNOWN_AUTHOR@,
    }
}

/// The cover reference of an entry: its own, else the book's, else the
/// placeholder.
pub open spec fn cover_ref_of(e: BookEntry) -> Seq<char> {
    match e.cover {
        Some(c) => c@,
        None => match e.book.cover {
            Some(c) => c@,
            None => NO_COVER@,
        },
    }
}

/// The absolute URL of an entry's cover.
pub open spec fn cover_url_of(e: BookEntry) -> Seq<char> {
    COVER_HOST@ + cover_ref_of(e)
}

/// The owned item id of an entry, if it has one.
pub open spec fn owned_id(e: BookEntry) -> Option<u64> {
    match e.abook {
        Some(a) => Some(a.id),
        None => None,
    }
}

/// Whether the entry at index `i` is the first one that owns item `id`.
pub open spec fn is_first_with_id(books: Seq<BookEntry>, id: u64, i: int) -> bool {
    &&& 0 <= i < books.len()
    &&& owned_id(books[i]) == Some(id)
    &&& forall|k: int| 0 <= k < i ==> owned_id(#[trigger] books[k]) != Some(id)
}

impl BookEntry {
    /// The owned item id of this entry, if it has one.
    pub fn owned_id(&self) -> (r: Option<u64>)
        ensures
            r == owned_id(*self),
    {
        match &self.abook {
            Some(a) => Some(a.id),
            None => None,
        }
    }

    /// The author, `unknown` when the entry names none.
    pub fn author(&self) -> (r: String)
        ensures
            r@ == author_of(*self),
    {
        match &self.book.authors_as_string {
            Some(a) => a.clone(),
            None => String::from_str(UNKNOWN_AUTHOR),
        }
    }

    /// The title.
    pub fn title(&self) -> (r: String)
        ensures
            r@ == self.book.name@,
    {
        self.book.name.clone()
    }

    /// The absolute URL of the cover.
    pub fn cover_url(&self) -> (r: String)
        ensures
            r@ == cover_url_of(*self),
    {
        let mut r = String::from_str(COVER_HOST);
        match &self.cover {
            Some(c) => push_str(&mut r, c.as_str()),
            None => match &self.book.cover {
                Some(c) => push_str(&mut r, c.as_str()),
                None => push_str(&mut r, NO_COVER),
            },
        }
        r
    }
}

/// Index of the first entry that owns item `id`, if any.
pub fn find_owned(shelf: &BookShelf, id: u64) -> (r: Option<usize>)
    ensures
        r matches Some(i) ==> is_first_with_id(shelf.books@, id, i as int),
        r is None ==> forall|k: int|
            0 <= k < shelf.books@.len() ==> owned_id(#[trigger] shelf.books@[k]) != Some(id),
{
    let n: usize = shelf.books.len();
    let mut i: usize = 0;
    while i < n
        invariant
            n == shelf.books@.len(),
            i <= n,
            forall|k: int| 0 <= k < i ==> owned_id(#[trigger] shelf.books@[k]) != Some(id),
        decreases n - i,
    {
        if shelf.books[i].owned_id() == Some(id) {
            return Some(i);
        }
        i = i + 1;
    }
    None
}

} // verus!
