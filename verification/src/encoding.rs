//! Bytes as text: UTF-8, and base64 with the URL-safe alphabet and no padding.

use base64::Engine;
use vstd::prelude::*;
use vstd::utf8::*;

verus! {

/// The base64 digit for a number below 64, in the URL-safe alphabet.
pub open spec fn base64_digit(value: int) -> char {
    if value < 26 {
        ('A' as int + value) as char
    } else if value < 52 {
        ('a' as int + value - 26) as char
    } else if value < 62 {
        ('0' as int + value - 52) as char
    } else if value == 62 {
        '-'
    } else {
        '_'
    }
}

/// The byte at `i`, or zero behind the end.
pub open spec fn byte_or_zero(data: Seq<u8>, i: int) -> int {
    if i < data.len() {
        data[i] as int
    } else {
        0
    }
}

/// The `i`th group of six bits of `data`.
pub open spec fn six_bits(data: Seq<u8>, i: int) -> int {
    let first = i / 4 * 3;
    if i % 4 == 0 {
        byte_or_zero(data, first) / 4
    } else if i % 4 == 1 {
        byte_or_zero(data, first) % 4 * 16 + byte_or_zero(data, first + 1) / 16
    } else if i % 4 == 2 {
        byte_or_zero(data, first + 1) % 16 * 4 + byte_or_zero(data, first + 2) / 64
    } else {
        byte_or_zero(data, first + 2) % 64
    }
}

/// The base64 text of `data`: one digit for each group of six bits, the last
/// group filled up with zeros.
pub open spec fn base64url(data: Seq<u8>) -> Seq<char> {
    Seq::new(((data.len() * 4 + 2) / 3) as nat, |i: int| base64_digit(six_bits(data, i)))
}

/// Whether `text` is the base64 text of some bytes.
pub open spec fn is_base64url(text: Seq<char>) -> bool {
    exists|data: Seq<u8>| #[trigger] base64url(data) == text
}

/// The bytes of which `text` is the base64 text.
pub open spec fn base64url_bytes(text: Seq<char>) -> Seq<u8>
    recommends
        is_base64url(text),
{
    choose|data: Seq<u8>| #[trigger] base64url(data) == text
}

/// The message of the error with which the `base64` crate refuses `text`.
pub uninterp spec fn base64_error(text: Seq<char>) -> Seq<char>;

/// The message of the error with which `String::from_utf8` refuses `bytes`.
pub uninterp spec fn utf8_error(bytes: Seq<u8>) -> Seq<char>;

/// The size of data whose base64 text fits in memory.
pub open spec fn base64_fits(len: nat) -> bool {
    len / 3 <= (isize::MAX - 4) / 4
}

/// `base64::engine::general_purpose::URL_SAFE_NO_PAD.encode`: the digits of the
/// URL-safe alphabet for each six bits, without padding. It panics where the
/// length of the text overflows, which `base64_fits` leaves out.
#[verifier::external_body]
pub(crate) fn base64_encode(data: &[u8]) -> (res: String)
    requires
        base64_fits(data@.len()),
    ensures
        res@ == base64url(data@),
{
    base64::engine::general_purpose::URL_SAFE_NO_PAD.encode(data)
}

/// `base64::engine::general_purpose::URL_SAFE_NO_PAD.decode`: gives the bytes of
/// which the text is the encoding, and refuses every other text, also one with
/// padding or with bits left over that are not zero. The message of the error
/// is a function of the text.
#[verifier::external_body]
pub(crate) fn base64_decode(text: &str) -> (res: Result<Vec<u8>, String>)
    ensures
        match res {
            Ok(data) => base64url(data@) == text@,
            Err(message) => !is_base64url(text@) && message@ == base64_error(text@),
        },
{
    base64::engine::general_purpose::URL_SAFE_NO_PAD.decode(text).map_err(|error| error.to_string())
}

/// `String::from_utf8`: the text that the bytes encode, or the message of the
/// error where they are not valid UTF-8.
#[verifier::external_body]
pub(crate) fn utf8_decode(bytes: Vec<u8>) -> (res: Result<String, String>)
    ensures
        match res {
            Ok(text) => valid_utf8(bytes@) && text@ == decode_utf8(bytes@),
            Err(message) => !valid_utf8(bytes@) && message@ == utf8_error(bytes@),
        },
{
    String::from_utf8(bytes).map_err(|error| error.to_string())
}

proof fn lemma_six_bits_range(data: Seq<u8>, i: int)
    requires
        0 <= i,
    ensures
        0 <= six_bits(data, i) < 64,
{
}

proof fn lemma_digit_injective(a: int, b: int)
    requires
        0 <= a < 64,
        0 <= b < 64,
        base64_digit(a) == base64_digit(b),
    ensures
        a == b,
{
}

/// No base64 digit is a dot.
pub proof fn lemma_base64_has_no_dot(data: Seq<u8>)
    ensures
        !base64url(data).contains('.'),
{
    assert forall|i: int| 0 <= i < base64url(data).len() implies base64url(data)[i] != '.' by {
        lemma_six_bits_range(data, i);
    }
}

proof fn lemma_byte_from_six_bits(data: Seq<u8>, k: int)
    requires
        0 <= k < data.len(),
    ensures
        k % 3 == 0 ==> data[k] == six_bits(data, k / 3 * 4) * 4 + six_bits(data, k / 3 * 4 + 1) / 16,
        k % 3 == 1 ==> data[k] == six_bits(data, k / 3 * 4 + 1) % 16 * 16 + six_bits(
            data,
            k / 3 * 4 + 2,
        ) / 4,
        k % 3 == 2 ==> data[k] == six_bits(data, k / 3 * 4 + 2) % 4 * 64 + six_bits(
            data,
            k / 3 * 4 + 3,
        ),
{
    let q = k / 3;
    assert((q * 4) / 4 == q && (q * 4) % 4 == 0);
    assert((q * 4 + 1) / 4 == q && (q * 4 + 1) % 4 == 1);
    assert((q * 4 + 2) / 4 == q && (q * 4 + 2) % 4 == 2);
    assert((q * 4 + 3) / 4 == q && (q * 4 + 3) % 4 == 3);
}

/// Different bytes have different base64 texts, so a text stands for one
/// sequence of bytes.
pub proof fn base64_is_injective(a: Seq<u8>, b: Seq<u8>)
    requires
        base64url(a) == base64url(b),
    ensures
        a == b,
{
    assert(base64url(a).len() == (a.len() * 4 + 2) / 3);
    assert(base64url(b).len() == (b.len() * 4 + 2) / 3);
    assert(a.len() == b.len());
    assert forall|i: int| 0 <= i < base64url(a).len() implies six_bits(a, i) == six_bits(b, i) by {
        lemma_six_bits_range(a, i);
        lemma_six_bits_range(b, i);
        assert(base64url(a)[i] == base64_digit(six_bits(a, i)));
        assert(base64url(b)[i] == base64_digit(six_bits(b, i)));
        lemma_digit_injective(six_bits(a, i), six_bits(b, i));
    }
    assert forall|k: int| 0 <= k < a.len() implies a[k] == b[k] by {
        lemma_byte_from_six_bits(a, k);
        lemma_byte_from_six_bits(b, k);
        let q = k / 3;
        assert(six_bits(a, q * 4) == six_bits(b, q * 4));
        assert(six_bits(a, q * 4 + 1) == six_bits(b, q * 4 + 1));
        if k % 3 >= 1 {
            assert(six_bits(a, q * 4 + 2) == six_bits(b, q * 4 + 2));
        }
        if k % 3 == 2 {
            assert(six_bits(a, q * 4 + 3) == six_bits(b, q * 4 + 3));
        }
    }
    assert(a =~= b);
}

/// The base64 text of some bytes is read back as those bytes.
pub proof fn lemma_base64_reads_back(data: Seq<u8>)
    ensures
        is_base64url(base64url(data)),
        base64url_bytes(base64url(data)) == data,
{
    base64_is_injective(base64url_bytes(base64url(data)), data);
}

}
