//! The fixed obfuscation applied to the password before the login exchange:
//! AES-128 in CBC mode with PKCS#7 padding, rendered as upper-case hex.

use vstd::prelude::*;
use vstd::string::*;
use crate::text::push_char;

verus! {

/// What AES-128-CBC with PKCS#7 padding makes of `msg` under `key` and `iv`.
pub uninterp spec fn aes128_cbc_pkcs7_of(key: Seq<u8>, iv: Seq<u8>, msg: Seq<u8>) -> Seq<u8>;

/// Relies on `cbc::Encryptor::<aes::Aes128>` from the `cbc` and `aes` crates:
/// `KeyIvInit::new_from_slices`, which fails only when the key or the IV is
/// not 16 bytes long (left out by `requires`), and
/// `BlockEncryptMut::encrypt_padded_vec_mut::<Pkcs7>`, whose padding adds one
/// to sixteen bytes, up to the next whole 16-byte block.
#[verifier::external_body]
fn aes128_cbc_encrypt(key: &[u8], iv: &[u8], msg: &[u8]) -> (r: Vec<u8>)
    requires
        key@.len() == 16,
        iv@.len() == 16,
    ensures
        r@ == aes128_cbc_pkcs7_of(key@, iv@, msg@),
        r@.len() == (msg@.len() / 16 + 1) * 16,
{
    let enc = <cbc::Encryptor<aes::Aes128> as cbc::cipher::KeyIvInit>::new_from_slices(key, iv)
        .unwrap();
    cbc::cipher::BlockEncryptMut::encrypt_padded_vec_mut::<cbc::cipher::block_padding::Pkcs7>(
        enc,
        msg,
    )
}

/// The upper-case hex digit of a value below sixteen.
pub open spec fn hex_digit(d: int) -> char {
    seq!['0', '1', '2', '3', '4', '5', '6', '7', '8', '9', 'A', 'B', 'C', 'D', 'E', 'F'][d]
}

/// Two upper-case hex digits per byte, high nibble first.
pub open spec fn hex_of(b: Seq<u8>) -> Seq<char> {
    Seq::new(
        2 * b.len(),
        |i: int|
            if i % 2 == 0 {
                hex_digit(b[i / 2] as int / 16)
            } else {
                hex_digit(b[i / 2] as int % 16)
            },
    )
}

/// The key of the obfuscation.
pub open spec fn password_key() -> Seq<u8> {
    seq![86u8, 81, 90, 66, 74, 54, 84, 68, 56, 77, 57, 87, 66, 85, 87, 84]
}

/// The initialisation vector of the obfuscation.
pub open spec fn password_iv() -> Seq<u8> {
    seq![106u8, 111, 105, 119, 101, 102, 48, 56, 117, 50, 51, 106, 51, 52, 49, 97]
}

fn hex_char(d: u8) -> (c: char)
    requires
        d < 16,
    ensures
        c == hex_digit(d as int),
{
    let digits: [char; 16] = [
        '0', '1', '2', '3', '4', '5', '6', '7', '8', '9', 'A', 'B', 'C', 'D', 'E', 'F',
    ];
    assert(digits@ =~= seq!['0', '1', '2', '3', '4', '5', '6', '7', '8', '9', 'A', 'B', 'C', 'D', 'E', 'F']);
    digits[d as usize]
}

/// Renders bytes as upper-case hex, two digits per byte.
pub fn hex_upper(b: &[u8]) -> (r: String)
    ensures
        r@ == hex_of(b@),
{
    let mut r = String::new();
    let n: usize = b.len();
    let mut i: usize = 0;
    while i < n
        invariant
            n == b@.len(),
            i <= n,
            r@ == hex_of(b@.take(i as int)),
        decreases n - i,
    {
        let x: u8 = b[i];
        push_char(&mut r, hex_char(x / 16));
        push_char(&mut r, hex_char(x % 16));
        i = i + 1;
        assert(r@ =~= hex_of(b@.take(i as int)));
    }
    assert(b@.take(n as int) =~= b@);
    r
}

/// Obfuscates a password for the login exchange: encrypts its UTF-8 bytes
/// with the fixed key and IV, then renders the result as upper-case hex.
pub fn encrypt_password(password: &str) -> (r: String)
    ensures
        r@ == hex_of(aes128_cbc_pkcs7_of(password_key(), password_iv(), password.spec_bytes())),
        r@.len() == 32 * (password.spec_bytes().len() / 16 + 1),
{
    let key: Vec<u8> = vec![86u8, 81, 90, 66, 74, 54, 84, 68, 56, 77, 57, 87, 66, 85, 87, 84];
    let iv: Vec<u8> = vec![106u8, 111, 105, 119, 101, 102, 48, 56, 117, 50, 51, 106, 51, 52, 49, 97];
    assert(key@ =~= password_key());
    assert(iv@ =~= password_iv());
    let enc = aes128_cbc_encrypt(key.as_slice(), iv.as_slice(), password.as_bytes());
    hex_upper(enc.as_slice())
}

} // verus!
