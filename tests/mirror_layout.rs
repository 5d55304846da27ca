use storytel::mirror::{audio_path, mirrored_audio_path, cover_path, cover_path_with_ext, is_downloaded, item_dir, join_path, sanitize};

#[test]
fn sanitize_replaces_both_separators() {
    assert_eq!(sanitize("AC/DC \\ Live"), "AC%2FDC %2F Live");
    assert_eq!(sanitize("plain"), "plain");
    assert_eq!(sanitize("100%"), "100%25");
}

#[test]
fn sanitize_keeps_non_ascii() {
    assert_eq!(sanitize("Ström/Å"), "Ström%2FÅ");
}

#[test]
fn item_dir_sanitizes_author_and_title() {
    assert_eq!(item_dir("/lib", "A/B", "T\\x"), "/lib/A%2FB/T%2Fx");
}

#[test]
fn separators_do_not_shift_components() {
    let one = item_dir("/lib", "a/b", "c");
    let two = item_dir("/lib", "a", "b/c");
    assert_ne!(one, two);
    assert!(!one["/lib/".len()..].contains("/b"));
}

#[test]
fn audio_and_join_paths() {
    assert_eq!(join_path("/lib", "x"), "/lib/x");
    assert_eq!(audio_path("/lib/a/t"), "/lib/a/t/audio.mp3");
}

#[test]
fn cover_path_takes_url_extension() {
    assert_eq!(cover_path("/d", "https://www.storytel.com/images/c/640x640/cover.png"), "/d/cover.png");
    assert_eq!(cover_path("/d", "https://www.storytel.com/images/nocover"), "/d/cover.jpg");
    assert_eq!(cover_path_with_ext("/d", Some("webp")), "/d/cover.webp");
    assert_eq!(cover_path_with_ext("/d", None), "/d/cover.jpg");
}

#[test]
fn missing_audio_is_not_downloaded() {
    assert!(!is_downloaded("/nonexistent-mirror-root", "author", "title"));
}

#[test]
fn mirrored_audio_path_joins_components() {
    assert_eq!(mirrored_audio_path("/lib", "A%2FB", "T"), "/lib/A%2FB/T/audio.mp3");
}

#[test]
fn sanitize_guards_special_names() {
    assert_eq!(sanitize(""), "%");
    assert_eq!(sanitize("."), "%2E");
    assert_eq!(sanitize(".."), "%2E.");
    assert_eq!(sanitize(".hidden"), "%2Ehidden");
    assert_eq!(sanitize("Vol. 1"), "Vol. 1");
}

#[test]
fn only_separator_variants_share_a_directory() {
    assert_eq!(sanitize("a/b"), sanitize("a\\b"));
    assert_ne!(sanitize("a/b"), sanitize("a_b"));
    assert_ne!(sanitize("a/b"), sanitize("a%2Fb"));
    assert_ne!(sanitize("%"), sanitize(""));
    assert_ne!(item_dir("/lib", "", "t"), item_dir("/lib", "t", ""));
    assert_eq!(item_dir("/lib", "a/b", "c\\d"), item_dir("/lib", "a\\b", "c/d"));
}
