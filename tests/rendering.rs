use storytel::api::{bookshelf_url, login_url, stream_request_url};
use storytel::crypt::{encrypt_password, hex_upper};
use storytel::display::{fmt_bytes, fmt_eta, item_status, progress_percent, ItemStatus};
use storytel::progress::TransferProgress;
use storytel::text::to_decimal;

#[test]
fn decimal_rendering() {
    assert_eq!(to_decimal(0), "0");
    assert_eq!(to_decimal(1234567890), "1234567890");
    assert_eq!(to_decimal(u64::MAX), "18446744073709551615");
}

#[test]
fn bytes_in_binary_units() {
    assert_eq!(fmt_bytes(0), "0 B");
    assert_eq!(fmt_bytes(1023), "1023 B");
    assert_eq!(fmt_bytes(1024), "1 KiB");
    assert_eq!(fmt_bytes(1536), "1 KiB");
    assert_eq!(fmt_bytes(5 * 1024 * 1024), "5 MiB");
    assert_eq!(fmt_bytes(u64::MAX), "15 EiB");
}

#[test]
fn eta_minutes_and_hours() {
    assert_eq!(fmt_eta(0), "00:00");
    assert_eq!(fmt_eta(59), "00:59");
    assert_eq!(fmt_eta(61), "01:01");
    assert_eq!(fmt_eta(3_661), "01:01:01");
    assert_eq!(fmt_eta(360_000), "100:00:00");
}

#[test]
fn percent_of_progress() {
    assert_eq!(progress_percent(TransferProgress { done: 250, total: Some(1000) }), 25);
    assert_eq!(progress_percent(TransferProgress { done: 250, total: None }), 0);
    assert_eq!(progress_percent(TransferProgress { done: 250, total: Some(0) }), 0);
    assert_eq!(progress_percent(TransferProgress { done: u64::MAX, total: Some(1) }), u64::MAX);
}

#[test]
fn status_prefers_running_transfer() {
    let p = Some(TransferProgress { done: 1, total: Some(2) });
    assert_eq!(item_status(Some(3), p, true), ItemStatus::InProgress(50));
    assert_eq!(item_status(Some(3), None, true), ItemStatus::Downloaded);
    assert_eq!(item_status(Some(3), None, false), ItemStatus::Available(3));
    assert_eq!(item_status(None, None, false), ItemStatus::Unavailable);
}

#[test]
fn request_urls() {
    assert_eq!(
        bookshelf_url("tok"),
        "https://www.storytel.com/api/getBookShelf.action?token=tok"
    );
    assert_eq!(
        stream_request_url(77, "tok"),
        "https://www.storytel.com/mp3streamRangeReq?startposition=0&programId=77&token=tok"
    );
    assert_eq!(
        login_url("  me@example.com \n", "ABCD"),
        "https://www.storytel.com/api/login.action?m=1&uid=me@example.com&pwd=ABCD"
    );
}

#[test]
fn hex_is_upper_case_two_digits_per_byte() {
    assert_eq!(hex_upper(&[0x00, 0xab, 0x5f, 0xff]), "00AB5FFF");
    assert_eq!(hex_upper(&[]), "");
}

#[test]
fn password_obfuscation_shape() {
    let a = encrypt_password("secret");
    assert_eq!(a, "EA28CEC50BCD4410067D143BA5FC8885");
    assert!(a.chars().all(|c| c.is_ascii_digit() || ('A'..='F').contains(&c)));
    assert_eq!(a, encrypt_password("secret"));
    assert_ne!(a, encrypt_password("secreT"));
    assert_eq!(encrypt_password("0123456789abcdef").len(), 64);
    assert_eq!(encrypt_password("").len(), 32);
}

#[test]
fn bookmark_form_in_microseconds() {
    let form = storytel::api::bookmark_form("tok", 12, 90).unwrap();
    let expected: Vec<(String, String)> = vec![
        ("token".to_string(), "tok".to_string()),
        ("bookId".to_string(), "12".to_string()),
        ("pos".to_string(), "90000000".to_string()),
        ("type".to_string(), "1".to_string()),
    ];
    assert_eq!(form, expected);
    let before_start = storytel::api::bookmark_form("tok", 12, -1).unwrap();
    assert_eq!(before_start[2].1, "-1000000");
}

#[test]
fn bookmark_position_overflow() {
    assert!(storytel::api::bookmark_form("tok", 1, i64::MAX / 1_000_000 + 1).is_none());
    assert!(storytel::api::bookmark_form("tok", 1, i64::MIN).is_none());
    assert!(storytel::api::bookmark_form("tok", 1, i64::MAX / 1_000_000).is_some());
}

#[test]
fn login_identity_trims_unicode_white_space() {
    assert_eq!(
        login_url("\u{a0}\u{3000}me@example.com\u{2029}\t", "X"),
        "https://www.storytel.com/api/login.action?m=1&uid=me@example.com&pwd=X"
    );
    assert_eq!(
        login_url("a b", "X"),
        "https://www.storytel.com/api/login.action?m=1&uid=a b&pwd=X"
    );
}
