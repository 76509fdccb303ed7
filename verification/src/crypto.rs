//! The digests and the cipher that the library calls, and the two sources of
//! chance.

use aes_gcm::aead::Aead;
use aes_gcm::aead::KeyInit;
use rand::RngCore;
use sha2::Digest;
use vstd::prelude::*;

verus! {

/// The SHA-256 digest of `data`.
pub uninterp spec fn sha256(data: Seq<u8>) -> Seq<u8>;

/// The MD5 digest of `data` in hexadecimal.
pub uninterp spec fn md5_hex(data: Seq<u8>) -> Seq<char>;

/// What AES-256-GCM seals `plain` into, the ciphertext followed by the tag.
pub uninterp spec fn aes256gcm_seal(key: Seq<u8>, nonce: Seq<u8>, plain: Seq<u8>) -> Seq<u8>;

/// What AES-256-GCM opens `sealed` into, or nothing where the tag is wrong.
pub uninterp spec fn aes256gcm_open(key: Seq<u8>, nonce: Seq<u8>, sealed: Seq<u8>) -> Option<
    Seq<u8>,
>;

/// The largest number of bytes that AES-GCM seals.
pub open spec fn max_plain() -> nat {
    0x10_0000_0000
}

/// A hexadecimal digit, with small letters.
pub open spec fn is_hex_digit(c: char) -> bool {
    '0' <= c <= '9' || 'a' <= c <= 'f'
}

/// The form of a random UUID in text: groups of 8, 4, 4, 4 and 12 hexadecimal
/// digits with hyphens between them, the version digit being 4 and the variant
/// digit one of 8, 9, a and b.
pub open spec fn is_random_uuid(s: Seq<char>) -> bool {
    &&& s.len() == 36
    &&& forall|i: int|
        0 <= i < 36 ==> if i == 8 || i == 13 || i == 18 || i == 23 {
            s[i] == '-'
        } else {
            is_hex_digit(#[trigger] s[i])
        }
    &&& s[14] == '4'
    &&& s[19] == '8' || s[19] == '9' || s[19] == 'a' || s[19] == 'b'
}

/// `sha2::Sha256::digest`, a function of its argument.
#[verifier::external_body]
pub(crate) fn sha256_digest(data: &[u8]) -> (res: [u8; 32])
    ensures
        res@ == sha256(data@),
{
    sha2::Sha256::digest(data).into()
}

/// `md5::compute`, written with `{:x}`: a function of its argument, always 32
/// hexadecimal digits.
#[verifier::external_body]
pub(crate) fn md5_digest_hex(data: &[u8]) -> (res: String)
    ensures
        res@ == md5_hex(data@),
        res@.len() == 32,
        forall|i: int| 0 <= i < 32 ==> is_hex_digit(#[trigger] res@[i]),
{
    format!("{:x}", md5::compute(data))
}

/// `encrypt` of `aes_gcm::Aes256Gcm`: refuses more than 2^36 bytes and nothing
/// else. The result is a function of the arguments, has a tag of 16 bytes at
/// its end, and is opened again with the same key and nonce.
#[verifier::external_body]
pub(crate) fn aes_seal(key: &[u8; 32], nonce: &[u8; 12], plain: &[u8]) -> (res: Option<Vec<u8>>)
    ensures
        res is Some <==> plain@.len() <= max_plain(),
        match res {
            Some(sealed) => {
                &&& sealed@ == aes256gcm_seal(key@, nonce@, plain@)
                &&& sealed@.len() == plain@.len() + 16
                &&& aes256gcm_open(key@, nonce@, sealed@) == Some(plain@)
            },
            None => true,
        },
{
    let cipher = aes_gcm::Aes256Gcm::new_from_slice(key).ok()?;
    cipher.encrypt(aes_gcm::Nonce::from_slice(nonce), plain).ok()
}

/// `decrypt` of `aes_gcm::Aes256Gcm`: a function of the arguments. A nonce that
/// is not 12 bytes long would panic.
#[verifier::external_body]
pub(crate) fn aes_open(key: &[u8; 32], nonce: &[u8], sealed: &[u8]) -> (res: Option<Vec<u8>>)
    requires
        nonce@.len() == 12,
    ensures
        match res {
            Some(plain) => aes256gcm_open(key@, nonce@, sealed@) == Some(plain@),
            None => aes256gcm_open(key@, nonce@, sealed@) is None,
        },
{
    let cipher = aes_gcm::Aes256Gcm::new_from_slice(key).ok()?;
    cipher.decrypt(aes_gcm::Nonce::from_slice(nonce), sealed).ok()
}

/// `fill_bytes` of `rand::thread_rng`: twelve bytes by chance.
#[verifier::external_body]
pub(crate) fn random_nonce() -> (res: [u8; 12]) {
    let mut nonce = [0u8; 12];
    rand::thread_rng().fill_bytes(&mut nonce);
    nonce
}

/// `uuid::Uuid::new_v4` as text: by chance, always of one form.
#[verifier::external_body]
pub(crate) fn random_uuid() -> (res: String)
    ensures
        is_random_uuid(res@),
{
    uuid::Uuid::new_v4().to_string()
}

/// Whether `nonce` is one that was drawn by chance.
pub closed spec fn is_drawn_nonce(nonce: Seq<u8>) -> bool {
    exists|drawn: [u8; 12]| #[trigger] call_ensures(random_nonce, (), drawn) && drawn@ == nonce
}

/// Whether `text` is a UUID that was drawn by chance.
pub closed spec fn is_drawn_uuid(text: Seq<char>) -> bool {
    exists|drawn: String| #[trigger] call_ensures(random_uuid, (), drawn) && drawn@ == text
}

fn drawn<T, F: Fn() -> T>(chance: F) -> (res: T)
    requires
        chance.requires(()),
    ensures
        chance.ensures((), res),
{
    chance()
}

/// A nonce by chance.
pub(crate) fn draw_nonce() -> (res: [u8; 12])
    ensures
        is_drawn_nonce(res@),
{
    drawn(random_nonce)
}

/// A UUID by chance.
pub(crate) fn draw_uuid() -> (res: String)
    ensures
        is_drawn_uuid(res@),
        is_random_uuid(res@),
{
    drawn(random_uuid)
}

}
