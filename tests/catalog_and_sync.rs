use storytel::catalog::{find_owned, Abook, Book, BookEntry, BookShelf};
use storytel::orchestrator::download_target;
use storytel::schedule::{
    inter_pass_delay, next_pass_delay, partition_sync, plan_sync_pass, BASE_INTERVAL_SECS,
    MAX_JITTER_SECS,
};

fn entry(id: Option<u64>, name: &str, author: Option<&str>, cover: Option<&str>) -> BookEntry {
    BookEntry {
        abook: id.map(|id| Abook { id, isbn: None }),
        abookmark: None,
        book: Book {
            name: name.to_string(),
            isbn: None,
            authors_as_string: author.map(|a| a.to_string()),
            cover: cover.map(|c| c.to_string()),
            length: None,
            description: None,
        },
        isbn: None,
        cover: None,
        length: None,
        description: None,
        author: None,
    }
}

#[test]
fn sync_pass_counts_and_transfers_only_missing() {
    let shelf = BookShelf {
        books: vec![
            entry(Some(1), "A", Some("X"), None),
            entry(Some(2), "B", Some("Y"), None),
        ],
    };
    let plan = partition_sync(&shelf, &vec![true, false]);
    assert_eq!(plan.already_synced, 1);
    assert_eq!(plan.need_sync, vec![1]);
}

#[test]
fn sync_pass_skips_unowned_entries() {
    let shelf = BookShelf {
        books: vec![
            entry(None, "E", None, None),
            entry(Some(2), "B", Some("Y"), None),
            entry(None, "F", None, None),
        ],
    };
    let plan = partition_sync(&shelf, &vec![true, false, false]);
    assert_eq!(plan.already_synced, 0);
    assert_eq!(plan.need_sync, vec![1]);
}

#[test]
fn plan_on_empty_mirror_needs_every_owned_item() {
    let shelf = BookShelf {
        books: vec![
            entry(Some(1), "A", Some("X"), None),
            entry(None, "E", None, None),
            entry(Some(3), "C", None, None),
        ],
    };
    let plan = plan_sync_pass("/nonexistent-mirror-root", &shelf);
    assert_eq!(plan.already_synced, 0);
    assert_eq!(plan.need_sync, vec![0, 2]);
}

#[test]
fn delay_is_base_plus_offset() {
    assert_eq!(inter_pass_delay(86_400, 7_200, -7_200), 79_200);
    assert_eq!(inter_pass_delay(86_400, 7_200, 7_200), 93_600);
    assert_eq!(inter_pass_delay(86_400, 7_200, 0), 86_400);
    assert_eq!(inter_pass_delay(10, 10, -10), 0);
}

#[test]
fn drawn_delay_stays_within_jitter() {
    for _ in 0..1000 {
        let d = next_pass_delay(BASE_INTERVAL_SECS, MAX_JITTER_SECS);
        assert!(d >= 79_200 && d <= 93_600);
    }
    assert_eq!(next_pass_delay(50, 0), 50);
}

#[test]
fn target_from_catalog_entry() {
    let shelf = BookShelf {
        books: vec![
            entry(None, "E", None, None),
            entry(Some(7), "Dune/1", Some("Frank\\Herbert"), Some("/img/d.jpg")),
            entry(Some(7), "Other", Some("Z"), None),
        ],
    };
    assert_eq!(find_owned(&shelf, 7), Some(1));
    assert_eq!(find_owned(&shelf, 8), None);
    let t = download_target(&shelf, 7, "/lib");
    assert_eq!(t.id, 7);
    assert_eq!(t.title, "Dune/1");
    assert_eq!(t.author, "Frank\\Herbert");
    assert_eq!(t.dir, "/lib/Frank%2FHerbert/Dune%2F1");
    assert_eq!(t.cover_url, "https://www.storytel.com/img/d.jpg");
}

#[test]
fn target_of_unlisted_item() {
    let shelf = BookShelf { books: vec![entry(None, "E", None, None)] };
    let t = download_target(&shelf, 42, "/lib");
    assert_eq!(t.title, "book_42");
    assert_eq!(t.author, "unknown");
    assert_eq!(t.dir, "/lib/unknown/book_42");
    assert_eq!(t.cover_url, "https://www.storytel.com/images/nocover.png");
}

#[test]
fn entry_accessors_fall_back() {
    let mut e = entry(Some(1), "T", None, None);
    assert_eq!(e.author(), "unknown");
    assert_eq!(e.cover_url(), "https://www.storytel.com/images/nocover.png");
    e.cover = Some("/own.png".to_string());
    e.book.cover = Some("/book.png".to_string());
    assert_eq!(e.cover_url(), "https://www.storytel.com/own.png");
    assert_eq!(e.owned_id(), Some(1));
    assert_eq!(e.title(), "T");
}
