//! Layout of the local mirror: `<root>/<author>/<title>/{audio.mp3, cover.<ext>}`,
//! with author and title escaped before use so that no name can hold a path
//! separator, be `.` or `..`, or be empty, and so that only names differing in
//! the kind of separator share a directory.

use vstd::prelude::*;
use vstd::string::*;
use crate::text::{push_char, push_str};

verus! {

/// Whether `c` separates path components on some platform.
pub open spec fn is_separator(c: char) -> bool {
    c == '/' || c == '\\'
}

/// What stands for `c` in a directory component: `%` becomes `%25`, either
/// separator becomes `%2F`, and any other character stays.
pub open spec fn escaped_char(c: char) -> Seq<char> {
    if c == '%' {
        seq!['%', '2', '5']
    } else if is_separator(c) {
        seq!['%', '2', 'F']
    } else {
        seq![c]
    }
}

/// What stands for the first character of a name: as `escaped_char`, and a
/// `.` becomes `%2E`, so that no component reads `.` or `..`.
pub open spec fn leading_char(c: char) -> Seq<char> {
    if c == '.' {
        seq!['%', '2', 'E']
    } else {
        escaped_char(c)
    }
}

/// Every character of `s` escaped.
pub open spec fn escaped(s: Seq<char>) -> Seq<char>
    decreases s.len(),
{
    if s.len() == 0 {
        Seq::empty()
    } else {
        escaped_char(s[0]) + escaped(s.drop_first())
    }
}

/// The directory component for a name: `%` for the empty name, else the
/// escaped first character followed by the rest escaped.
pub open spec fn sanitized(s: Seq<char>) -> Seq<char> {
    if s.len() == 0 {
        seq!['%']
    } else {
        leading_char(s[0]) + escaped(s.drop_first())
    }
}

/// Two names that differ at most in which separator stands at a position.
pub open spec fn same_up_to_separators(a: Seq<char>, b: Seq<char>) -> bool {
    &&& a.len() == b.len()
    &&& forall|i: int|
        0 <= i < a.len() ==> a[i] == b[i] || (is_separator(a[i]) && is_separator(b[i]))
}

/// `part` appended to `base` as a new path component.
pub open spec fn joined(base: Seq<char>, part: Seq<char>) -> Seq<char> {
    base + seq!['/'] + part
}

/// Directory of one item below `root`.
pub open spec fn item_dir_of(root: Seq<char>, author: Seq<char>, title: Seq<char>) -> Seq<char> {
    joined(joined(root, sanitized(author)), sanitized(title))
}

/// The audio file inside an item directory.
pub open spec fn audio_path_of(dir: Seq<char>) -> Seq<char> {
    joined(dir, "audio.mp3"@)
}

/// The cover file inside an item directory, for the extension taken from the
/// cover's URL (`jpg` when it has none).
pub open spec fn cover_path_of(dir: Seq<char>, ext: Option<Seq<char>>) -> Seq<char> {
    match ext {
        Some(e) => joined(dir, "cover."@ + e),
        None => joined(dir, "cover.jpg"@),
    }
}

/// Extension of the last component of a path, as `std::path::Path::extension`
/// finds it.
pub uninterp spec fn path_extension_of(p: Seq<char>) -> Option<Seq<char>>;

/// Relies on `std::path::Path::exists`: whether a file is at that path. The
/// answer depends on the disk, so nothing is stated of it.
#[verifier::external_body]
fn path_exists(p: &str) -> bool {
    std::path::Path::new(p).exists()
}

/// Relies on `std::path::Path::extension` and `OsStr::to_str`: the extension of
/// the last path component, when there is one and it is valid UTF-8.
#[verifier::external_body]
fn path_extension(p: &str) -> (r: Option<String>)
    ensures
        r matches Some(e) ==> path_extension_of(p@) == Some(e@),
        r is None ==> path_extension_of(p@) is None,
{
    std::path::Path::new(p).extension().and_then(|e| e.to_str()).map(|e| e.to_string())
}

fn push_escaped(r: &mut String, c: char, leading: bool)
    ensures
        final(r)@ == old(r)@ + (if leading { leading_char(c) } else { escaped_char(c) }),
{
    if leading && c == '.' {
        push_char(r, '%');
        push_char(r, '2');
        push_char(r, 'E');
    } else if c == '%' {
        push_char(r, '%');
        push_char(r, '2');
        push_char(r, '5');
    } else if c == '/' || c == '\\' {
        push_char(r, '%');
        push_char(r, '2');
        push_char(r, 'F');
    } else {
        push_char(r, c);
    }
    assert(final(r)@ =~= old(r)@ + (if leading { leading_char(c) } else { escaped_char(c) }));
}

/// The directory component for a name: `%`, `/` and `\` are escaped, a
/// leading `.` too, and the empty name becomes `%`.
pub fn sanitize(s: &str) -> (r: String)
    ensures
        r@ == sanitized(s@),
{
    let n: usize = s.unicode_len();
    let mut r = String::new();
    if n == 0 {
        push_char(&mut r, '%');
        assert(r@ =~= sanitized(s@));
        return r;
    }
    push_escaped(&mut r, s.get_char(0), true);
    assert(s@.subrange(1, 1) =~= Seq::<char>::empty());
    let mut i: usize = 1;
    while i < n
        invariant
            n == s@.len(),
            1 <= i <= n,
            r@ == leading_char(s@[0]) + escaped(s@.subrange(1, i as int)),
        decreases n - i,
    {
        let c = s.get_char(i);
        push_escaped(&mut r, c, false);
        proof {
            lemma_escaped_push(s@.subrange(1, i as int), c);
            assert(s@.subrange(1, i as int).push(c) =~= s@.subrange(1, i as int + 1));
        }
        i = i + 1;
        assert(r@ =~= leading_char(s@[0]) + escaped(s@.subrange(1, i as int)));
    }
    assert(s@.subrange(1, n as int) =~= s@.drop_first());
    r
}

/// `part` appended to `base` as a new path component.
pub fn join_path(base: &str, part: &str) -> (r: String)
    ensures
        r@ == joined(base@, part@),
{
    let mut r = String::from_str(base);
    push_char(&mut r, '/');
    push_str(&mut r, part);
    r
}

/// Directory of the item with this author and title below `root`; both names
/// are sanitized first.
pub fn item_dir(root: &str, author: &str, title: &str) -> (r: String)
    ensures
        r@ == item_dir_of(root@, author@, title@),
{
    let a = sanitize(author);
    let t = sanitize(title);
    let d = join_path(root, a.as_str());
    join_path(d.as_str(), t.as_str())
}

/// Path of the audio file inside an item directory.
pub fn audio_path(dir: &str) -> (r: String)
    ensures
        r@ == audio_path_of(dir@),
{
    join_path(dir, "audio.mp3")
}

/// Path of the cover file inside an item directory, given the extension of
/// the cover's URL.
pub fn cover_path_with_ext(dir: &str, ext: Option<&str>) -> (r: String)
    ensures
        r@ == cover_path_of(dir@, match ext { Some(e) => Some(e@), None => None }),
{
    match ext {
        Some(e) => {
            let mut name = String::from_str("cover.");
            push_str(&mut name, e);
            join_path(dir, name.as_str())
        },
        None => join_path(dir, "cover.jpg"),
    }
}

/// Path of the cover file inside an item directory for a cover at `url`.
pub fn cover_path(dir: &str, url: &str) -> (r: String)
    ensures
        r@ == cover_path_of(dir@, path_extension_of(url@)),
{
    let ext = path_extension(url);
    match ext {
        Some(e) => cover_path_with_ext(dir, Some(e.as_str())),
        None => cover_path_with_ext(dir, None),
    }
}

/// Path of the audio file of the item with these (already sanitized) names
/// below `dst_dir`.
pub fn mirrored_audio_path(dst_dir: &str, author: &str, title: &str) -> (r: String)
    ensures
        r@ == audio_path_of(joined(joined(dst_dir@, author@), title@)),
{
    let a = join_path(dst_dir, author);
    let t = join_path(a.as_str(), title);
    audio_path(t.as_str())
}

/// Whether the audio file of the item with these (already sanitized) names
/// exists below `dst_dir`: the only witness that the item was mirrored. The
/// answer comes from the disk at the moment of the call.
pub fn is_downloaded(dst_dir: &str, author: &str, title: &str) -> bool {
    let p = mirrored_audio_path(dst_dir, author, title);
    path_exists(p.as_str())
}

proof fn lemma_escaped_push(x: Seq<char>, c: char)
    ensures
        escaped(x.push(c)) == escaped(x) + escaped_char(c),
    decreases x.len(),
{
    if x.len() == 0 {
        assert(x.push(c).drop_first() =~= Seq::<char>::empty());
        assert(x.push(c)[0] == c);
        assert(escaped(x.push(c).drop_first()) == Seq::<char>::empty());
        assert(escaped(x) == Seq::<char>::empty());
        assert(escaped(x.push(c)) =~= escaped(x) + escaped_char(c));
    } else {
        assert(x.push(c).drop_first() =~= x.drop_first().push(c));
        lemma_escaped_push(x.drop_first(), c);
        assert(escaped(x.push(c)) =~= escaped(x) + escaped_char(c));
    }
}

/// Shape of the text that stands for one character: the character itself,
/// when it is not `%`, or three characters that start with `%`.
pub open spec fn is_piece(p: Seq<char>) -> bool {
    ||| (p.len() == 1 && p[0] != '%')
    ||| (p.len() == 3 && p[0] == '%')
}

proof fn lemma_pieces(c: char)
    ensures
        is_piece(escaped_char(c)),
        is_piece(leading_char(c)),
        forall|i: int| 0 <= i < escaped_char(c).len() ==> !is_separator(#[trigger] escaped_char(c)[i]),
        forall|i: int| 0 <= i < leading_char(c).len() ==> !is_separator(#[trigger] leading_char(c)[i]),
        leading_char(c)[0] != '.',
{
}

proof fn lemma_piece_split(p1: Seq<char>, r1: Seq<char>, p2: Seq<char>, r2: Seq<char>)
    requires
        is_piece(p1),
        is_piece(p2),
        p1 + r1 == p2 + r2,
    ensures
        p1 == p2,
        r1 == r2,
{
    let l = p1 + r1;
    assert(l[0] == p1[0]);
    assert((p2 + r2)[0] == p2[0]);
    assert(p1 =~= l.subrange(0, p1.len() as int));
    assert(p2 =~= (p2 + r2).subrange(0, p2.len() as int));
    assert(r1 =~= l.subrange(p1.len() as int, l.len() as int));
    assert(r2 =~= (p2 + r2).subrange(p2.len() as int, (p2 + r2).len() as int));
}

proof fn lemma_escaped_char_injective(c1: char, c2: char)
    ensures
        escaped_char(c1) == escaped_char(c2) <==> (c1 == c2 || (is_separator(c1) && is_separator(c2))),
        leading_char(c1) == leading_char(c2) <==> (c1 == c2 || (is_separator(c1) && is_separator(c2))),
{
    if escaped_char(c1) == escaped_char(c2) {
        assert(escaped_char(c1).len() == escaped_char(c2).len());
        assert(escaped_char(c1)[0] == escaped_char(c2)[0]);
        if escaped_char(c1).len() == 3 {
            assert(escaped_char(c1)[2] == escaped_char(c2)[2]);
        }
    }
    if leading_char(c1) == leading_char(c2) {
        assert(leading_char(c1).len() == leading_char(c2).len());
        assert(leading_char(c1)[0] == leading_char(c2)[0]);
        if leading_char(c1).len() == 3 {
            assert(leading_char(c1)[2] == leading_char(c2)[2]);
        }
    }
}

proof fn lemma_escaped_len(s: Seq<char>)
    ensures
        escaped(s).len() >= s.len(),
        forall|i: int| 0 <= i < escaped(s).len() ==> !is_separator(#[trigger] escaped(s)[i]),
    decreases s.len(),
{
    if s.len() > 0 {
        lemma_escaped_len(s.drop_first());
        lemma_pieces(s[0]);
        let p = escaped_char(s[0]);
        let r = escaped(s.drop_first());
        assert forall|i: int| 0 <= i < escaped(s).len() implies !is_separator(#[trigger] escaped(s)[i]) by {
            if i < p.len() {
                assert(escaped(s)[i] == p[i]);
            } else {
                assert(escaped(s)[i] == r[i - p.len()]);
            }
        }
    }
}

proof fn lemma_escaped_injective(a: Seq<char>, b: Seq<char>)
    ensures
        escaped(a) == escaped(b) <==> same_up_to_separators(a, b),
    decreases a.len(),
{
    if a.len() == 0 || b.len() == 0 {
        if a.len() > 0 {
            lemma_pieces(a[0]);
            assert(escaped(a).len() == escaped_char(a[0]).len() + escaped(a.drop_first()).len());
        }
        if b.len() > 0 {
            lemma_pieces(b[0]);
            assert(escaped(b).len() == escaped_char(b[0]).len() + escaped(b.drop_first()).len());
        }
        if a.len() == 0 && b.len() == 0 {
            assert(escaped(a) == Seq::<char>::empty());
            assert(escaped(b) == Seq::<char>::empty());
        }
    } else {
        lemma_pieces(a[0]);
        lemma_pieces(b[0]);
        lemma_escaped_injective(a.drop_first(), b.drop_first());
        lemma_escaped_char_injective(a[0], b[0]);
        if escaped(a) == escaped(b) {
            lemma_piece_split(escaped_char(a[0]), escaped(a.drop_first()), escaped_char(b[0]), escaped(b.drop_first()));
            assert forall|i: int| 0 <= i < a.len() implies a[i] == b[i] || (is_separator(a[i]) && is_separator(b[i])) by {
                if i > 0 {
                    assert(a[i] == a.drop_first()[i - 1]);
                    assert(b[i] == b.drop_first()[i - 1]);
                }
            }
        }
        if same_up_to_separators(a, b) {
            assert(same_up_to_separators(a.drop_first(), b.drop_first())) by {
                assert forall|i: int| 0 <= i < a.drop_first().len() implies a.drop_first()[i] == b.drop_first()[i]
                    || (is_separator(a.drop_first()[i]) && is_separator(b.drop_first()[i])) by {
                    assert(a.drop_first()[i] == a[i + 1]);
                    assert(b.drop_first()[i] == b[i + 1]);
                }
            }
        }
    }
}

/// A directory component is never empty, never starts with `.` (so it is
/// neither `.` nor `..`), and holds no path separator: no name can leave its
/// parent directory.
pub proof fn lemma_sanitized_is_safe(s: Seq<char>)
    ensures
        sanitized(s).len() > 0,
        sanitized(s)[0] != '.',
        forall|i: int| 0 <= i < sanitized(s).len() ==> !is_separator(#[trigger] sanitized(s)[i]),
{
    if s.len() > 0 {
        lemma_pieces(s[0]);
        lemma_escaped_len(s.drop_first());
        let p = leading_char(s[0]);
        let r = escaped(s.drop_first());
        assert(sanitized(s)[0] == p[0]);
        assert forall|i: int| 0 <= i < sanitized(s).len() implies !is_separator(#[trigger] sanitized(s)[i]) by {
            if i < p.len() {
                assert(sanitized(s)[i] == p[i]);
            } else {
                assert(sanitized(s)[i] == r[i - p.len()]);
            }
        }
    }
}

/// Two names share a directory component exactly when they differ at most in
/// which separator, `/` or `\`, stands at some positions.
pub proof fn lemma_sanitized_injective(a: Seq<char>, b: Seq<char>)
    ensures
        sanitized(a) == sanitized(b) <==> same_up_to_separators(a, b),
{
    if a.len() == 0 || b.len() == 0 {
        if a.len() > 0 {
            lemma_pieces(a[0]);
            if sanitized(a) == sanitized(b) {
                assert(sanitized(a)[0] == leading_char(a[0])[0]);
                assert(sanitized(a).len() >= leading_char(a[0]).len());
            }
        }
        if b.len() > 0 {
            lemma_pieces(b[0]);
            if sanitized(a) == sanitized(b) {
                assert(sanitized(b)[0] == leading_char(b[0])[0]);
                assert(sanitized(b).len() >= leading_char(b[0]).len());
            }
        }
    } else {
        lemma_pieces(a[0]);
        lemma_pieces(b[0]);
        lemma_escaped_injective(a.drop_first(), b.drop_first());
        lemma_escaped_char_injective(a[0], b[0]);
        if sanitized(a) == sanitized(b) {
            lemma_piece_split(leading_char(a[0]), escaped(a.drop_first()), leading_char(b[0]), escaped(b.drop_first()));
            assert forall|i: int| 0 <= i < a.len() implies a[i] == b[i] || (is_separator(a[i]) && is_separator(b[i])) by {
                if i > 0 {
                    assert(a[i] == a.drop_first()[i - 1]);
                    assert(b[i] == b.drop_first()[i - 1]);
                }
            }
        }
        if same_up_to_separators(a, b) {
            assert(same_up_to_separators(a.drop_first(), b.drop_first())) by {
                assert forall|i: int| 0 <= i < a.drop_first().len() implies a.drop_first()[i] == b.drop_first()[i]
                    || (is_separator(a.drop_first()[i]) && is_separator(b.drop_first()[i])) by {
                    assert(a.drop_first()[i] == a[i + 1]);
                    assert(b.drop_first()[i] == b[i + 1]);
                }
            }
        }
    }
}

proof fn lemma_split_at_separator(p: Seq<char>, x: Seq<char>, y: Seq<char>, u: Seq<char>, v: Seq<char>)
    requires
        p + seq!['/'] + x + seq!['/'] + u == p + seq!['/'] + y + seq!['/'] + v,
        forall|i: int| 0 <= i < x.len() ==> x[i] != '/',
        forall|i: int| 0 <= i < y.len() ==> y[i] != '/',
    ensures
        x == y,
        u == v,
{
    let l = p + seq!['/'] + x + seq!['/'] + u;
    let r = p + seq!['/'] + y + seq!['/'] + v;
    let k: int = p.len() as int + 1;
    if x.len() < y.len() {
        assert(l[k + x.len() as int] == '/');
        assert(r[k + x.len() as int] == y[x.len() as int]);
    }
    if y.len() < x.len() {
        assert(r[k + y.len() as int] == '/');
        assert(l[k + y.len() as int] == x[y.len() as int]);
    }
    assert(x =~= l.subrange(k, k + x.len() as int));
    assert(y =~= r.subrange(k, k + y.len() as int));
    assert(u =~= l.subrange(k + x.len() as int + 1, l.len() as int));
    assert(v =~= r.subrange(k + y.len() as int + 1, r.len() as int));
}

/// Two items share a directory below the same root exactly when their
/// authors, and their titles, differ at most in which separator stands at
/// some positions.
pub proof fn lemma_item_dirs_distinct(
    root: Seq<char>,
    a1: Seq<char>,
    t1: Seq<char>,
    a2: Seq<char>,
    t2: Seq<char>,
)
    ensures
        item_dir_of(root, a1, t1) == item_dir_of(root, a2, t2) <==> (same_up_to_separators(a1, a2)
            && same_up_to_separators(t1, t2)),
{
    lemma_sanitized_is_safe(a1);
    lemma_sanitized_is_safe(a2);
    lemma_sanitized_injective(a1, a2);
    lemma_sanitized_injective(t1, t2);
    let (x, y, u, v) = (sanitized(a1), sanitized(a2), sanitized(t1), sanitized(t2));
    assert(item_dir_of(root, a1, t1) =~= root + seq!['/'] + x + seq!['/'] + u);
    assert(item_dir_of(root, a2, t2) =~= root + seq!['/'] + y + seq!['/'] + v);
    if item_dir_of(root, a1, t1) == item_dir_of(root, a2, t2) {
        lemma_split_at_separator(root, x, y, u, v);
    }
}

} // verus!
