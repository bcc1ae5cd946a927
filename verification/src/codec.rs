//! Byte encodings and digests the protocol uses: base64, hexadecimal, MD5.
use vstd::prelude::*;

use base64::{engine::general_purpose::STANDARD as BASE64, Engine as _};
use md5::{Digest, Md5};

use crate::text::{digit_char, hex_lower};
use vstd::utf8::{encode_utf8, is_ascii_chars};

verus! {

/// The standard base64 text (with `=` padding) of `bytes`.
pub uninterp spec fn base64_text(bytes: Seq<u8>) -> Seq<char>;

/// What standard base64 decoding makes of `input`: `None` when it is not valid
/// padded base64.
pub uninterp spec fn base64_decoded(input: Seq<u8>) -> Option<Seq<u8>>;

/// The MD5 digest of `bytes`.
pub uninterp spec fn md5_of(bytes: Seq<u8>) -> Seq<u8>;

/// The message of the error `hex::decode` reports for `input`.
pub uninterp spec fn hex_error_text(input: Seq<u8>) -> Seq<char>;

/// `base64::engine::general_purpose::STANDARD.encode`: the padded base64 text of
/// `bytes`, four characters for each started group of three bytes. The text is
/// ASCII, and decoding it gives `bytes` back.
#[verifier::external_body]
pub(crate) fn base64_encode(bytes: &[u8]) -> (r: String)
    ensures
        r@ == base64_text(bytes@),
        r@.len() == 4 * ((bytes@.len() + 2) / 3),
        is_ascii_chars(r@),
        base64_decoded(encode_utf8(r@)) == Some(bytes@),
{
    BASE64.encode(bytes)
}

/// `base64::engine::general_purpose::STANDARD.decode`: the bytes that `input`
/// encodes, or `None` when it is not valid padded base64.
#[verifier::external_body]
pub(crate) fn base64_decode(input: &[u8]) -> (r: Option<Vec<u8>>)
    ensures
        match r {
            Some(b) => base64_decoded(input@) == Some(b@),
            None => base64_decoded(input@) is None,
        },
{
    BASE64.decode(input).ok()
}

/// `Md5::digest`: the 16-byte MD5 digest of `bytes`.
#[verifier::external_body]
pub(crate) fn md5_digest(bytes: &[u8]) -> (r: Vec<u8>)
    ensures
        r@ == md5_of(bytes@),
        r@.len() == 16,
{
    Md5::digest(bytes).to_vec()
}

/// The value of one hexadecimal digit (either case), if `c` is one.
pub open spec fn hex_digit_value(c: u8) -> Option<u8> {
    if 48 <= c <= 57 {
        Some((c - 48) as u8)
    } else if 65 <= c <= 70 {
        Some((c - 55) as u8)
    } else if 97 <= c <= 102 {
        Some((c - 87) as u8)
    } else {
        None
    }
}

/// The bytes that hexadecimal text denotes, two digits per byte; `None` when the
/// length is odd or a character is not a hexadecimal digit.
pub open spec fn hex_value(text: Seq<u8>) -> Option<Seq<u8>>
    decreases text.len(),
{
    if text.len() % 2 == 1 {
        None
    } else if text.len() == 0 {
        Some(Seq::empty())
    } else {
        let n = text.len() as int;
        match (hex_value(text.subrange(0, n - 2)), hex_digit_value(text[n - 2]), hex_digit_value(text[n - 1])) {
            (Some(rest), Some(hi), Some(lo)) => Some(rest.push((hi * 16 + lo) as u8)),
            _ => None,
        }
    }
}

/// `hex::decode`: the bytes that `text` denotes, or the message of the error.
#[verifier::external_body]
pub(crate) fn hex_decode(text: &[u8]) -> (r: Result<Vec<u8>, String>)
    ensures
        match r {
            Ok(b) => hex_value(text@) == Some(b@),
            Err(m) => hex_value(text@) is None && m@ == hex_error_text(text@),
        },
{
    hex::decode(text).map_err(|e| e.to_string())
}

proof fn lemma_digit_value(d: nat)
    requires
        d < 16,
    ensures
        (digit_char(d, false) as u32) < 128,
        hex_digit_value(digit_char(d, false) as u8) == Some(d as u8),
{
}

/// Lowercase hexadecimal text is ASCII and denotes the bytes it was made from.
pub proof fn lemma_hex_lower_roundtrip(bytes: Seq<u8>)
    ensures
        is_ascii_chars(hex_lower(bytes)),
        hex_lower(bytes).len() == 2 * bytes.len(),
        hex_value(encode_utf8(hex_lower(bytes))) == Some(bytes),
    decreases bytes.len(),
{
    let h = hex_lower(bytes);
    if bytes.len() == 0 {
        assert(encode_utf8(h) =~= Seq::<u8>::empty());
    } else {
        let init = bytes.drop_last();
        let b = bytes.last();
        lemma_hex_lower_roundtrip(init);
        let hi = (b / 16) as nat;
        let lo = (b % 16) as nat;
        lemma_digit_value(hi);
        lemma_digit_value(lo);
        let hinit = hex_lower(init);
        assert(h == hinit + seq![digit_char(hi, false), digit_char(lo, false)]);
        assert(is_ascii_chars(h));
        vstd::utf8::is_ascii_chars_encode_utf8(h);
        vstd::utf8::is_ascii_chars_encode_utf8(hinit);
        let e = encode_utf8(h);
        let n = e.len() as int;
        assert(e.subrange(0, n - 2) =~= encode_utf8(hinit));
        assert(e[n - 2] == digit_char(hi, false) as u8);
        assert(e[n - 1] == digit_char(lo, false) as u8);
        assert(hi * 16 + lo == b);
        assert(init.push(b) =~= bytes);
    }
}

/// Digit `2 * i` of lowercase hexadecimal text is the high half of byte `i`,
/// digit `2 * i + 1` its low half.
pub proof fn lemma_hex_lower_index(bytes: Seq<u8>, i: int)
    requires
        0 <= i < bytes.len(),
    ensures
        hex_lower(bytes).len() == 2 * bytes.len(),
        hex_lower(bytes)[2 * i] == digit_char((bytes[i] / 16) as nat, false),
        hex_lower(bytes)[2 * i + 1] == digit_char((bytes[i] % 16) as nat, false),
    decreases bytes.len(),
{
    lemma_hex_lower_roundtrip(bytes);
    let init = bytes.drop_last();
    lemma_hex_lower_roundtrip(init);
    if i < bytes.len() - 1 {
        lemma_hex_lower_index(init, i);
    }
}

} // verus!
