//! Requests of the remote protocol: the URLs of the login exchange, of the
//! catalog and of the stream-location lookup.

use vstd::prelude::*;
use vstd::string::*;
use crate::text::{decimal, push_char, push_decimal, push_str};

verus! {

/// Whether `c` has the Unicode `White_Space` property, which is what
/// `char::is_whitespace` tests.
pub open spec fn is_white_space(c: char) -> bool {
    let u = c as u32;
    ||| 0x9 <= u <= 0xd
    ||| u == 0x20
    ||| u == 0x85
    ||| u == 0xa0
    ||| u == 0x1680
    ||| 0x2000 <= u <= 0x200a
    ||| u == 0x2028
    ||| u == 0x2029
    ||| u == 0x202f
    ||| u == 0x205f
    ||| u == 0x3000
}

/// `s` without its leading white space.
pub open spec fn trimmed_start(s: Seq<char>) -> Seq<char>
    decreases s.len(),
{
    if s.len() > 0 && is_white_space(s[0]) {
        trimmed_start(s.drop_first())
    } else {
        s
    }
}

/// `s` without its trailing white space.
pub open spec fn trimmed_end(s: Seq<char>) -> Seq<char>
    decreases s.len(),
{
    if s.len() > 0 && is_white_space(s.last()) {
        trimmed_end(s.drop_last())
    } else {
        s
    }
}

/// `s` without leading and trailing white space.
pub open spec fn trimmed(s: Seq<char>) -> Seq<char> {
    trimmed_end(trimmed_start(s))
}

/// Relies on `str::trim`: the string without leading and trailing white
/// space, white space being the Unicode `White_Space` property.
#[verifier::external_body]
fn trim(s: &str) -> (r: String)
    ensures
        r@ == trimmed(s@),
{
    s.trim().to_string()
}

/// Start of the login request, up to the identity.
pub const LOGIN_PREFIX: &'static str = "https://www.storytel.com/api/login.action?m=1&uid=";

/// Start of the catalog request, up to the token.
pub const BOOKSHELF_PREFIX: &'static str = "https://www.storytel.com/api/getBookShelf.action?token=";

/// Start of the stream-location request, up to the item id.
pub const STREAM_PREFIX: &'static str = "https://www.storytel.com/mp3streamRangeReq?startposition=0&programId=";

/// Where a playback position is saved.
pub const BOOKMARK_URL: &'static str = "https://www.storytel.se/api/setABookmark.action";

/// Microseconds per second: the service counts positions in microseconds.
pub const MICROS_PER_SEC: i64 = 1_000_000;

/// An integer in decimal, with a leading `-` when it is negative.
pub open spec fn signed_decimal(n: int) -> Seq<char> {
    if n < 0 {
        seq!['-'] + decimal((-n) as nat)
    } else {
        decimal(n as nat)
    }
}

/// Whether a position in seconds can be counted in microseconds in an `i64`.
pub open spec fn position_fits(position_secs: i64) -> bool {
    i64::MIN <= position_secs * MICROS_PER_SEC <= i64::MAX
}

/// The login request for an identity and its already obfuscated password;
/// the identity is trimmed.
pub open spec fn login_url_of(email: Seq<char>, obfuscated: Seq<char>) -> Seq<char> {
    LOGIN_PREFIX@ + trimmed(email) + "&pwd="@ + obfuscated
}

/// The catalog request for a session token.
pub open spec fn bookshelf_url_of(token: Seq<char>) -> Seq<char> {
    BOOKSHELF_PREFIX@ + token
}

/// The stream-location request for an item and a session token.
pub open spec fn stream_request_url_of(id: u64, token: Seq<char>) -> Seq<char> {
    STREAM_PREFIX@ + decimal(id as nat) + "&token="@ + token
}

/// The URL of the login exchange.
pub fn login_url(email: &str, obfuscated_password: &str) -> (r: String)
    ensures
        r@ == login_url_of(email@, obfuscated_password@),
{
    let e = trim(email);
    let mut r = String::from_str(LOGIN_PREFIX);
    push_str(&mut r, e.as_str());
    push_str(&mut r, "&pwd=");
    push_str(&mut r, obfuscated_password);
    r
}

/// The URL of the catalog request.
pub fn bookshelf_url(token: &str) -> (r: String)
    ensures
        r@ == bookshelf_url_of(token@),
{
    let mut r = String::from_str(BOOKSHELF_PREFIX);
    push_str(&mut r, token);
    r
}

/// The URL whose answer locates the stream of item `id`.
pub fn stream_request_url(id: u64, token: &str) -> (r: String)
    ensures
        r@ == stream_request_url_of(id, token@),
{
    let mut r = String::from_str(STREAM_PREFIX);
    push_decimal(&mut r, id);
    push_str(&mut r, "&token=");
    push_str(&mut r, token);
    r
}

/// Appends `n` in decimal, with a leading `-` when it is negative.
pub fn push_signed_decimal(s: &mut String, n: i64)
    ensures
        final(s)@ == old(s)@ + signed_decimal(n as int),
{
    if n < 0 {
        push_char(s, '-');
        let a: u64 = (0 - (n as i128)) as u64;
        push_decimal(s, a);
        assert(final(s)@ =~= old(s)@ + signed_decimal(n as int));
    } else {
        push_decimal(s, n as u64);
    }
}

fn field(name: &str, value: String) -> (r: (String, String))
    ensures
        r.0@ == name@,
        r.1@ == value@,
{
    (String::from_str(name), value)
}

/// The form that saves playback position `position_secs` (in seconds) of
/// bookmark `bookmark_id`: the token, the bookmark id, the position in
/// microseconds and the bookmark type `1`. `None` when the position does not
/// fit in microseconds.
pub fn bookmark_form(token: &str, bookmark_id: u64, position_secs: i64) -> (r: Option<
    Vec<(String, String)>,
>)
    ensures
        r is None <==> !position_fits(position_secs),
        r matches Some(v) ==> {
            &&& v@.len() == 4
            &&& v@[0].0@ == "token"@ && v@[0].1@ == token@
            &&& v@[1].0@ == "bookId"@ && v@[1].1@ == decimal(bookmark_id as nat)
            &&& v@[2].0@ == "pos"@ && v@[2].1@ == signed_decimal(position_secs * MICROS_PER_SEC)
            &&& v@[3].0@ == "type"@ && v@[3].1@ == "1"@
        },
{
    let micros: i64 = match position_secs.checked_mul(MICROS_PER_SEC) {
        Some(m) => m,
        None => {
            return None;
        },
    };
    let mut id = String::new();
    push_decimal(&mut id, bookmark_id);
    let mut pos = String::new();
    push_signed_decimal(&mut pos, micros);
    assert(id@ =~= decimal(bookmark_id as nat));
    assert(pos@ =~= signed_decimal(micros as int));
    let mut v: Vec<(String, String)> = Vec::new();
    v.push(field("token", String::from_str(token)));
    v.push(field("bookId", id));
    v.push(field("pos", pos));
    v.push(field("type", String::from_str("1")));
    Some(v)
}

} // verus!
