//! Cryptographic primitives: Argon2id password hashes, random tokens and SHA-256
//! digests of tokens, in lower-case hexadecimal.

use vstd::prelude::*;
use vstd::string::StringSliceAdditionalSpecFns;
use argon2::password_hash::rand_core::{OsRng, RngCore};
use argon2::password_hash::{PasswordHash, PasswordHasher, PasswordVerifier, SaltString};
use argon2::Argon2;
use base64::engine::general_purpose::URL_SAFE_NO_PAD;
use base64::Engine;
use sha2::{Digest, Sha256};
use crate::text::string_from_chars;

verus! {

/// The SHA-256 digest of `data`.
pub uninterp spec fn sha256(data: Seq<u8>) -> Seq<u8>;

/// Whether Argon2, with its default parameters, accepts `password` against the PHC
/// string `phc` (false for a string that does not parse).
pub uninterp spec fn argon2_verifies(password: Seq<char>, phc: Seq<char>) -> bool;

/// The character of the URL-safe base64 alphabet for the 6-bit value `v`.
pub open spec fn b64url_char(v: int) -> char {
    if v < 26 {
        ('A' as int + v) as char
    } else if v < 52 {
        ('a' as int + (v - 26)) as char
    } else if v < 62 {
        ('0' as int + (v - 52)) as char
    } else if v == 62 {
        '-'
    } else {
        '_'
    }
}

/// URL-safe base64 of `b`, without padding: each group of three bytes gives four
/// characters, a last group of two bytes three, a last single byte two.
pub open spec fn b64url_spec(b: Seq<u8>) -> Seq<char>
    decreases b.len(),
{
    if b.len() >= 3 {
        let n = b[0] as int * 65536 + b[1] as int * 256 + b[2] as int;
        seq![
            b64url_char(n / 262144),
            b64url_char(n / 4096 % 64),
            b64url_char(n / 64 % 64),
            b64url_char(n % 64),
        ] + b64url_spec(b.skip(3))
    } else if b.len() == 2 {
        let n = b[0] as int * 256 + b[1] as int;
        seq![b64url_char(n / 1024), b64url_char(n / 16 % 64), b64url_char(n % 16 * 4)]
    } else if b.len() == 1 {
        seq![b64url_char(b[0] as int / 4), b64url_char(b[0] as int % 4 * 16)]
    } else {
        Seq::empty()
    }
}

/// The lower-case hexadecimal digit of `d` (`0 <= d < 16`).
pub open spec fn hex_digit(d: int) -> char {
    if d < 10 {
        ('0' as int + d) as char
    } else {
        ('a' as int + (d - 10)) as char
    }
}

/// Lower-case hexadecimal of `b`, two digits per byte.
pub open spec fn hex_spec(b: Seq<u8>) -> Seq<char>
    decreases b.len(),
{
    if b.len() == 0 {
        Seq::empty()
    } else {
        hex_spec(b.drop_last()) + seq![hex_digit(b.last() as int / 16), hex_digit(b.last() as int % 16)]
    }
}

/// SHA-256 (`sha2::Sha256::digest`); the digest has 32 bytes.
#[verifier::external_body]
fn sha256_digest(data: &[u8]) -> (r: Vec<u8>)
    ensures
        r@ == sha256(data@),
        r@.len() == 32,
{
    Sha256::digest(data).to_vec()
}

/// 32 bytes from the operating system's generator (`OsRng::fill_bytes`, which panics
/// only when the system has no source of randomness). Nothing is promised of them but
/// their number.
#[verifier::external_body]
fn os_random_bytes() -> (r: Vec<u8>)
    ensures
        r@.len() == 32,
{
    let mut b = [0u8; 32];
    OsRng.fill_bytes(&mut b);
    b.to_vec()
}

/// URL-safe base64 without padding (`base64`'s `URL_SAFE_NO_PAD` engine, `encode`).
#[verifier::external_body]
fn base64_url(bytes: &[u8]) -> (r: String)
    requires
        bytes@.len() < 0x1000_0000,
    ensures
        r@ == b64url_spec(bytes@),
{
    URL_SAFE_NO_PAD.encode(bytes)
}

/// Standard base64 without padding (the PHC "B64" encoding): the URL-safe text with
/// `+` in place of `-` and `/` in place of `_`.
pub open spec fn b64_std_spec(b: Seq<u8>) -> Seq<char> {
    b64url_spec(b).map_values(|c: char| if c == '-' { '+' } else if c == '_' { '/' } else { c })
}

/// Whether `s` has the shape of a salt from [`new_salt`]: the B64 text of 16 bytes.
pub open spec fn is_salt_string(s: Seq<char>) -> bool {
    exists|b: Seq<u8>| b.len() == 16 && s == #[trigger] b64_std_spec(b)
}

/// A fresh random salt in the PHC string format (`SaltString::generate` with `OsRng`):
/// 16 random bytes (`Salt::RECOMMENDED_LENGTH`) in B64. Which bytes is left to chance;
/// only that shape is promised.
#[verifier::external_body]
fn new_salt() -> (r: String)
    ensures
        is_salt_string(r@),
{
    SaltString::generate(&mut OsRng).as_str().to_owned()
}

/// The PHC string of `password` hashed by Argon2id with its default parameters and the
/// given salt (`SaltString::from_b64`, then `Argon2::default().hash_password`); the
/// error text otherwise. Argon2's verifier recomputes the hash with the salt and
/// parameters held in that string, so it accepts `password` against it. With a salt of
/// the [`new_salt`] shape (accepted by `Salt::from_b64`, decoding to 16 bytes, at least
/// `MIN_SALT_LEN`), the one remaining failure is a password over `MAX_PWD_LEN`
/// (0xFFFF_FFFF) bytes.
#[verifier::external_body]
fn argon2_hash(password: &str, salt: &str) -> (r: Result<String, String>)
    ensures
        r matches Ok(h) ==> argon2_verifies(password@, h@),
        is_salt_string(salt@) ==> (r is Ok <==> password.spec_bytes().len() <= 0xFFFF_FFFF),
{
    let salt = SaltString::from_b64(salt).map_err(|e| e.to_string())?;
    Argon2::default()
        .hash_password(password.as_bytes(), &salt)
        .map(|h| h.to_string())
        .map_err(|e| e.to_string())
}

/// Whether `password` matches the Argon2 PHC string `hash` (`PasswordHash::new`, then
/// `Argon2::default().verify_password`); false when `hash` does not parse.
#[verifier::external_body]
pub fn verify_password(password: &str, hash: &str) -> (r: bool)
    ensures
        r == argon2_verifies(password@, hash@),
{
    match PasswordHash::new(hash) {
        Ok(parsed) => Argon2::default().verify_password(password.as_bytes(), &parsed).is_ok(),
        Err(_) => false,
    }
}

/// Hashes `password` with Argon2id and a fresh random salt. It succeeds unless the
/// password is longer than Argon2 takes (0xFFFF_FFFF bytes), and the hash verifies
/// `password`; the error carries Argon2's message.
pub fn hash_password(password: &str) -> (r: Result<String, String>)
    ensures
        r is Ok <==> password.spec_bytes().len() <= 0xFFFF_FFFF,
        r matches Ok(h) ==> argon2_verifies(password@, h@),
{
    let salt = new_salt();
    argon2_hash(password, salt.as_str())
}

/// Every character of `b64url_spec(b)` is a letter, a digit, `-` or `_`.
pub open spec fn url_safe_char(c: char) -> bool {
    ('A' <= c <= 'Z') || ('a' <= c <= 'z') || ('0' <= c <= '9') || c == '-' || c == '_'
}

proof fn lemma_b64url_shape(b: Seq<u8>)
    ensures
        b64url_spec(b).len() == (4 * b.len() + 2) / 3,
        forall|i: int| 0 <= i < b64url_spec(b).len() ==> url_safe_char(#[trigger] b64url_spec(b)[i]),
    decreases b.len(),
{
    if b.len() >= 3 {
        lemma_b64url_shape(b.skip(3));
        let n = b[0] as int * 65536 + b[1] as int * 256 + b[2] as int;
        assert(0 <= n < 16777216);
        assert(0 <= n / 262144 < 64);
    } else if b.len() == 2 {
        let n = b[0] as int * 256 + b[1] as int;
        assert(0 <= n < 65536);
        assert(0 <= n / 1024 < 64);
    }
}

/// Whether `t` has the shape of a token from [`random_token`]: the URL-safe base64 of
/// 32 bytes.
pub open spec fn is_random_token(t: Seq<char>) -> bool {
    exists|b: Seq<u8>| b.len() == 32 && t == #[trigger] b64url_spec(b)
}

/// A random token: 32 bytes from the operating system, in URL-safe base64 without
/// padding (43 characters, letters, digits, `-` and `_`).
pub fn random_token() -> (r: String)
    ensures
        is_random_token(r@),
        r@.len() == 43,
        forall|i: int| 0 <= i < r@.len() ==> url_safe_char(#[trigger] r@[i]),
{
    let bytes = os_random_bytes();
    let t = base64_url(bytes.as_slice());
    proof {
        lemma_b64url_shape(bytes@);
        assert(bytes@.len() == 32 && t@ == b64url_spec(bytes@));
    }
    t
}

/// The lower-case hexadecimal of `bytes`.
pub fn hex_lower(bytes: &[u8]) -> (r: String)
    ensures
        r@ == hex_spec(bytes@),
{
    let digits: [char; 16] = ['0', '1', '2', '3', '4', '5', '6', '7', '8', '9', 'a', 'b', 'c', 'd', 'e', 'f'];
    let mut out: Vec<char> = Vec::new();
    let mut i: usize = 0;
    while i < bytes.len()
        invariant
            0 <= i <= bytes@.len(),
            out@ == hex_spec(bytes@.take(i as int)),
            forall|d: int| 0 <= d < 16 ==> #[trigger] digits@[d] == hex_digit(d),
        decreases bytes.len() - i,
    {
        let b = bytes[i];
        let hi = (b / 16) as usize;
        let lo = (b % 16) as usize;
        out.push(digits[hi]);
        out.push(digits[lo]);
        proof {
            let t = bytes@.take(i + 1);
            assert(t.drop_last() =~= bytes@.take(i as int));
            assert(t.last() == b);
        }
        i = i + 1;
    }
    assert(bytes@.take(bytes@.len() as int) =~= bytes@);
    string_from_chars(&out)
}

/// The SHA-256 digest of the UTF-8 bytes of `s`, in lower-case hexadecimal (64 digits).
pub fn sha256_hex(s: &str) -> (r: String)
    ensures
        r@ == hex_spec(sha256(s.spec_bytes())),
{
    let digest = sha256_digest(s.as_bytes());
    hex_lower(digest.as_slice())
}

} // verus!
