//! The pieces of local signaling that do not touch the network: decoding the
//! robot's notification, extracting the key material, and the request paths.
use vstd::prelude::*;

use aes_gcm::aead::{Aead, KeyInit};
use aes_gcm::{Aes128Gcm, Nonce};

use crate::codec::{base64_decode, base64_decoded};
use crate::text::{digit_char, digit_to_char, push_char, push_str, str_chars, string_from_str, utf8_decode};
use vstd::utf8::{decode_utf8, encode_utf8, is_ascii_chars, is_char_boundary, valid_utf8};

verus! {

broadcast use vstd::string::group_string_axioms;

/// Errors of the signaling steps.
#[derive(Debug)]
pub enum SignalingError {
    /// A decoding or cryptographic step failed.
    Crypto(&'static str),
    /// Anything else, with a description.
    Other(String),
}

/// The digit that a path-ending letter `A`..`J` stands for.
pub open spec fn letter_digit(c: char) -> Option<nat> {
    if 'A' <= c <= 'J' {
        Some((c as nat - 'A' as nat) as nat)
    } else {
        None
    }
}

/// The path ending read from characters taken two at a time: for each full pair
/// whose second character is a letter `A`..`J`, that letter's digit.
pub open spec fn pair_digits(cs: Seq<char>) -> Seq<char>
    decreases cs.len(),
{
    if cs.len() < 2 {
        Seq::empty()
    } else {
        let rest = pair_digits(cs.subrange(2, cs.len() as int));
        match letter_digit(cs[1]) {
            Some(d) => seq![digit_char(d, true)] + rest,
            None => rest,
        }
    }
}

/// The last ten bytes of the text (all of it when shorter), as text.
pub open spec fn last_ten(s: Seq<char>) -> Seq<char> {
    let b = encode_utf8(s);
    if b.len() >= 10 {
        decode_utf8(b.subrange(b.len() - 10, b.len() as int))
    } else {
        s
    }
}

/// Whether the last ten bytes of the text start at a character boundary
/// (always so for ASCII).
pub open spec fn tail_splittable(s: Seq<char>) -> bool {
    let b = encode_utf8(s);
    b.len() < 10 || is_char_boundary(b, b.len() - 10)
}

/// ASCII text can always be cut before its last ten bytes.
pub proof fn lemma_ascii_tail_splittable(s: Seq<char>)
    requires
        is_ascii_chars(s),
    ensures
        tail_splittable(s),
{
    let b = encode_utf8(s);
    vstd::utf8::is_ascii_chars_encode_utf8(s);
    vstd::utf8::encode_utf8_valid_utf8(s);
    if b.len() >= 10 {
        let k = b.len() - 10;
        if k < b.len() {
            assert(s[k] as u8 == b[k]);
            vstd::utf8::is_char_boundary_iff_not_is_continuation_byte(b, k);
        }
    }
}

/// ASCII text can always be cut after its first ten and before its last ten
/// bytes.
pub proof fn lemma_ascii_con_ing_splittable(s: Seq<char>)
    requires
        is_ascii_chars(s),
    ensures
        con_ing_splittable(s),
{
    let b = encode_utf8(s);
    vstd::utf8::is_ascii_chars_encode_utf8(s);
    vstd::utf8::encode_utf8_valid_utf8(s);
    if b.len() >= 20 {
        assert(s[10] as u8 == b[10]);
        vstd::utf8::is_char_boundary_iff_not_is_continuation_byte(b, 10);
        let k = b.len() - 10;
        assert(s[k] as u8 == b[k]);
        vstd::utf8::is_char_boundary_iff_not_is_continuation_byte(b, k);
    }
}

/// The path ending is read two characters at a time: a pair whose second
/// character is one of the letters `A` to `J` gives the digit `0` to `9` in the
/// letter's place (`A` gives `0`, `J` gives `9`); any other pair gives nothing,
/// and a last lone character is dropped.
pub proof fn lemma_pair_digits_letters(c0: char, c1: char, rest: Seq<char>)
    ensures
        pair_digits(seq![c0, c1] + rest) == if 'A' <= c1 <= 'J' {
            seq![(c1 as u32 - 'A' as u32 + '0' as u32) as char] + pair_digits(rest)
        } else {
            pair_digits(rest)
        },
        pair_digits(Seq::<char>::empty()) == Seq::<char>::empty(),
        pair_digits(seq![c0]) == Seq::<char>::empty(),
{
    let cs = seq![c0, c1] + rest;
    assert(cs[1] == c1);
    assert(cs.subrange(2, cs.len() as int) =~= rest);
    if 'A' <= c1 <= 'J' {
        let d = (c1 as nat - 'A' as nat) as nat;
        assert(d < 10);
        assert(digit_char(d, true) == (c1 as u32 - 'A' as u32 + '0' as u32) as char);
    }
}

/// For ASCII text of at least ten characters, the path ending is read from its
/// last ten characters.
pub proof fn lemma_last_ten_ascii(s: Seq<char>)
    requires
        is_ascii_chars(s),
        s.len() >= 10,
    ensures
        last_ten(s) == s.subrange(s.len() - 10, s.len() as int),
{
    let b = encode_utf8(s);
    let t = s.subrange(s.len() - 10, s.len() as int);
    vstd::utf8::is_ascii_chars_encode_utf8(s);
    assert(is_ascii_chars(t));
    vstd::utf8::is_ascii_chars_encode_utf8(t);
    assert(b.subrange(b.len() - 10, b.len() as int) =~= encode_utf8(t));
    vstd::utf8::encode_utf8_decode_utf8(t);
}

proof fn lemma_pair_digits_step(cs: Seq<char>, i: int)
    requires
        0 <= i,
        i + 2 <= cs.len(),
    ensures
        pair_digits(cs.skip(i)) == match letter_digit(cs[i + 1]) {
            Some(d) => seq![digit_char(d, true)] + pair_digits(cs.skip(i + 2)),
            None => pair_digits(cs.skip(i + 2)),
        },
{
    assert(cs.skip(i).subrange(2, cs.skip(i).len() as int) =~= cs.skip(i + 2));
}

/// The URL path ending the robot expects: the digits coded by every second
/// character of the last ten bytes of `data1` (`A` = 0 .. `J` = 9).
pub fn calc_local_path_ending(data1: &str) -> (r: String)
    requires
        tail_splittable(data1@),
    ensures
        r@ == pair_digits(last_ten(data1@)),
{
    let n = data1.as_bytes().len();
    let last_10: &str = if n >= 10 {
        let (_, tail) = data1.split_at(n - 10);
        proof {
            vstd::utf8::encode_utf8_decode_utf8(tail@);
        }
        tail
    } else {
        data1
    };
    let chars = str_chars(last_10);
    let ghost cs = chars@;
    let mut result = String::new();
    let mut i: usize = 0;
    proof {
        assert(cs.skip(0) =~= cs);
    }
    while i + 1 < chars.len()
        invariant
            chars@ == cs,
            i <= chars.len(),
            i % 2 == 0,
            result@ + pair_digits(cs.skip(i as int)) == pair_digits(cs),
        decreases chars.len() - i,
    {
        let second = chars[i + 1];
        proof {
            lemma_pair_digits_step(cs, i as int);
        }
        if 'A' <= second && second <= 'J' {
            let index = (second as u32 - 'A' as u32) as u8;
            let d = digit_to_char(index, true);
            push_char(&mut result, d);
            proof {
                assert(result@ + pair_digits(cs.skip(i + 2)) =~= (result@.drop_last() + seq![d])
                    + pair_digits(cs.skip(i + 2)));
            }
        }
        i = i + 2;
    }
    proof {
        assert(cs.skip(i as int).len() < 2);
        assert(pair_digits(cs.skip(i as int)) =~= Seq::<char>::empty());
    }
    result
}

/// The fixed AES-128 key of the robot's notification payload.
pub open spec fn con_notify_key() -> Seq<u8> {
    seq![232u8, 86, 130, 189, 22, 84, 155, 0, 142, 4, 166, 104, 43, 179, 235, 227]
}

/// What AES-128-GCM decryption under `key` with `nonce` makes of ciphertext
/// followed by tag: `None` when authentication fails.
pub uninterp spec fn aes128gcm_opened(key: Seq<u8>, nonce: Seq<u8>, sealed: Seq<u8>) -> Option<Seq<u8>>;

/// `Aes128Gcm::decrypt` with a 12-byte nonce and no associated data: the plaintext,
/// or `None` when the tag does not verify.
#[verifier::external_body]
fn aes128gcm_decrypt(key: &[u8], nonce: &[u8], sealed: &[u8]) -> (r: Option<Vec<u8>>)
    requires
        key@.len() == 16,
        nonce@.len() == 12,
    ensures
        match r {
            Some(p) => aes128gcm_opened(key@, nonce@, sealed@) == Some(p@),
            None => aes128gcm_opened(key@, nonce@, sealed@) is None,
        },
{
    let cipher = Aes128Gcm::new(aes_gcm::Key::<Aes128Gcm>::from_slice(key));
    cipher.decrypt(Nonce::from_slice(nonce), sealed).ok()
}

/// The notification layout: ciphertext, then a 12-byte nonce, then a 16-byte tag.
/// Decryption takes the ciphertext with the tag appended.
pub open spec fn con_notify_plaintext(d: Seq<u8>) -> Option<Seq<u8>> {
    let n = d.len() as int;
    aes128gcm_opened(con_notify_key(), d.subrange(n - 28, n - 16), d.subrange(0, n - 28) + d.subrange(n - 16, n))
}

/// What `decrypt_con_notify_data` gives for base64 text `b64`.
pub open spec fn con_notify_outcome(b64: Seq<char>) -> Result<Seq<char>, Seq<char>> {
    match base64_decoded(encode_utf8(b64)) {
        None => Err("Invalid base64 in con_notify_data"@),
        Some(d) => if d.len() < 28 {
            Err("Decryption failed: input too short"@)
        } else {
            match con_notify_plaintext(d) {
                None => Err("AES-GCM decryption failed for con_notify_data"@),
                Some(p) => if valid_utf8(p) {
                    Ok(decode_utf8(p))
                } else {
                    Err("Invalid UTF-8 in decrypted con_notify_data"@)
                },
            }
        }
    }
}

fn copy_range(d: &Vec<u8>, from: usize, to: usize, out: &mut Vec<u8>)
    requires
        from <= to <= d@.len(),
    ensures
        final(out)@ == old(out)@ + d@.subrange(from as int, to as int),
{
    let ghost start = out@;
    let mut i: usize = from;
    while i < to
        invariant
            from <= i <= to,
            to <= d@.len(),
            out@ == start + d@.subrange(from as int, i as int),
        decreases to - i,
    {
        out.push(d[i]);
        proof {
            assert(out@ =~= start + d@.subrange(from as int, i + 1));
        }
        i = i + 1;
    }
}

/// Decrypts the robot's notification payload (base64 of ciphertext, nonce, tag).
pub fn decrypt_con_notify_data(encrypted_b64: &str) -> (r: Result<String, SignalingError>)
    ensures
        match r {
            Ok(s) => con_notify_outcome(encrypted_b64@) == Ok::<Seq<char>, Seq<char>>(s@),
            Err(SignalingError::Crypto(m)) => con_notify_outcome(encrypted_b64@) == Err::<Seq<char>, Seq<char>>(m@),
            Err(SignalingError::Other(_)) => false,
        },
{
    let key: Vec<u8> = vec![232u8, 86, 130, 189, 22, 84, 155, 0, 142, 4, 166, 104, 43, 179, 235, 227];
    proof {
        assert(key@ =~= con_notify_key());
    }
    let data = match base64_decode(encrypted_b64.as_bytes()) {
        Some(d) => d,
        None => return Err(SignalingError::Crypto("Invalid base64 in con_notify_data")),
    };
    if data.len() < 28 {
        return Err(SignalingError::Crypto("Decryption failed: input too short"));
    }
    let tag_start = data.len() - 16;
    let nonce_start = data.len() - 28;
    let mut payload: Vec<u8> = Vec::new();
    copy_range(&data, 0, nonce_start, &mut payload);
    copy_range(&data, tag_start, data.len(), &mut payload);
    let mut nonce: Vec<u8> = Vec::new();
    copy_range(&data, nonce_start, tag_start, &mut nonce);
    proof {
        assert(payload@ =~= data@.subrange(0, nonce_start as int) + data@.subrange(tag_start as int, data@.len() as int));
        assert(nonce@ =~= data@.subrange(nonce_start as int, tag_start as int));
    }
    let plaintext = match aes128gcm_decrypt(key.as_slice(), nonce.as_slice(), payload.as_slice()) {
        Some(p) => p,
        None => return Err(SignalingError::Crypto("AES-GCM decryption failed for con_notify_data")),
    };
    match utf8_decode(plaintext) {
        Some(s) => Ok(s),
        None => Err(SignalingError::Crypto("Invalid UTF-8 in decrypted con_notify_data")),
    }
}

/// Whether the key text and the path ending can be cut out of `data1`:
/// bytes 10 and `len - 10` start characters (always so for ASCII).
pub open spec fn con_ing_splittable(data1: Seq<char>) -> bool {
    let b = encode_utf8(data1);
    b.len() < 20 || (is_char_boundary(b, 10) && is_char_boundary(b, b.len() - 10))
}

/// The key text and path ending carried by `data1`: the public key lies between
/// the first ten and the last ten bytes.
pub open spec fn con_ing_parts(data1: Seq<char>) -> Result<(Seq<char>, Seq<char>), Seq<char>> {
    let b = encode_utf8(data1);
    if b.len() < 20 {
        Err("data1 length is too short"@)
    } else {
        Ok((decode_utf8(b.subrange(10, b.len() - 10)), pair_digits(last_ten(data1))))
    }
}

/// Splits the (decrypted) notification text into the public-key text and the
/// path ending of the follow-up request.
pub fn con_ing_parameters(data1: &str) -> (r: Result<(String, String), SignalingError>)
    requires
        con_ing_splittable(data1@),
    ensures
        match r {
            Ok((pem, ending)) => con_ing_parts(data1@) == Ok::<(Seq<char>, Seq<char>), Seq<char>>((pem@, ending@)),
            Err(SignalingError::Crypto(m)) => con_ing_parts(data1@) == Err::<(Seq<char>, Seq<char>), Seq<char>>(m@),
            Err(SignalingError::Other(_)) => false,
        },
{
    let n = data1.as_bytes().len();
    if n < 20 {
        return Err(SignalingError::Crypto("data1 length is too short"));
    }
    let (_, after_head) = data1.split_at(10);
    proof {
        let b = encode_utf8(data1@);
        assert(encode_utf8(after_head@) =~= b.subrange(10, b.len() as int));
        let sub = encode_utf8(after_head@);
        vstd::utf8::encode_utf8_valid_utf8(data1@);
        vstd::utf8::encode_utf8_valid_utf8(after_head@);
        vstd::utf8::is_char_boundary_iff_not_is_continuation_byte(b, b.len() - 10);
        vstd::utf8::is_char_boundary_iff_not_is_continuation_byte(sub, (n - 20) as int);
        assert(sub[(n - 20) as int] == b[b.len() - 10]);
    }
    let (pem, _) = after_head.split_at(n - 20);
    proof {
        vstd::utf8::encode_utf8_decode_utf8(pem@);
        let b = encode_utf8(data1@);
        assert(encode_utf8(pem@) =~= b.subrange(10, b.len() - 10));
    }
    let ending = calc_local_path_ending(data1);
    Ok((string_from_str(pem), ending))
}

/// The signaling endpoint of the robot's older firmware.
pub fn local_offer_url(ip: &str) -> (r: String)
    ensures
        r@ == "http://"@ + ip@ + ":8081/offer"@,
{
    let mut s = string_from_str("http://");
    push_str(&mut s, ip);
    push_str(&mut s, ":8081/offer");
    s
}

/// The notification endpoint of the robot's newer firmware.
pub fn con_notify_url(ip: &str) -> (r: String)
    ensures
        r@ == "http://"@ + ip@ + ":9991/con_notify"@,
{
    let mut s = string_from_str("http://");
    push_str(&mut s, ip);
    push_str(&mut s, ":9991/con_notify");
    s
}

/// The follow-up endpoint of the robot's newer firmware.
pub fn con_ing_url(ip: &str, path_ending: &str) -> (r: String)
    ensures
        r@ == "http://"@ + ip@ + ":9991/con_ing_"@ + path_ending@,
{
    let mut s = string_from_str("http://");
    push_str(&mut s, ip);
    push_str(&mut s, ":9991/con_ing_");
    push_str(&mut s, path_ending);
    s
}

/// Whether `c` has the Unicode White_Space property (what `str::trim` removes).
pub open spec fn is_trim_space(c: char) -> bool {
    crate::encryption::is_white_space(c)
}

/// The text without the white space at its start and at its end.
pub open spec fn trim_text(s: Seq<char>) -> Seq<char>
    decreases s.len(),
{
    if s.len() > 0 && is_trim_space(s[0]) {
        trim_text(s.drop_first())
    } else if s.len() > 0 && is_trim_space(s.last()) {
        trim_text(s.drop_last())
    } else {
        s
    }
}

/// `str::trim`: the text without leading and trailing white space (characters
/// with the Unicode White_Space property).
#[verifier::external_body]
fn trim(s: &str) -> (r: &str)
    ensures
        r@ == trim_text(s@),
{
    s.trim()
}

/// What the notification endpoint's answer says, before it is read as JSON: the
/// answer, trimmed, is base64 of UTF-8 text.
pub open spec fn con_notify_text(answer: Seq<char>) -> Result<Seq<char>, Seq<char>> {
    match base64_decoded(encode_utf8(trim_text(answer))) {
        None => Err("Base64 decode failed for con_notify response"@),
        Some(b) => if valid_utf8(b) {
            Ok(decode_utf8(b))
        } else {
            Err("UTF-8 decode failed for con_notify response"@)
        },
    }
}

/// Decodes the notification endpoint's answer into the JSON text it carries.
pub fn decode_con_notify_response(answer: &str) -> (r: Result<String, SignalingError>)
    ensures
        match r {
            Ok(t) => con_notify_text(answer@) == Ok::<Seq<char>, Seq<char>>(t@),
            Err(SignalingError::Crypto(m)) => con_notify_text(answer@) == Err::<Seq<char>, Seq<char>>(m@),
            Err(SignalingError::Other(_)) => false,
        },
{
    let trimmed = trim(answer);
    let decoded = match base64_decode(trimmed.as_bytes()) {
        Some(b) => b,
        None => return Err(SignalingError::Crypto("Base64 decode failed for con_notify response")),
    };
    match utf8_decode(decoded) {
        Some(t) => Ok(t),
        None => Err(SignalingError::Crypto("UTF-8 decode failed for con_notify response")),
    }
}

/// The follow-up request of the newer signaling: where it goes, the AES key
/// chosen for it, the SDP offer encrypted with that key (`data1`) and the key
/// encrypted with the robot's RSA key (`data2`).
pub struct ConIngRequest {
    pub url: String,
    pub aes_key: String,
    pub data1: String,
    pub data2: String,
}

/// What the follow-up request built from `data1` is, for an offer `sdp` to the
/// robot at `ip`: see [`prepare_con_ing`].
pub open spec fn con_ing_prepared(ip: Seq<char>, sdp: Seq<char>, data1: Seq<char>, r: Result<ConIngRequest, SignalingError>) -> bool {
    match con_ing_parts(data1) {
        Err(m) => r matches Err(SignalingError::Crypto(e)) && e@ == m,
        Ok((pem, ending)) => match crate::encryption::rsa_load_outcome(pem) {
            Err(m) => r matches Err(SignalingError::Crypto(e)) && e@ == m,
            Ok(der) => if crate::encryption::rsa_modulus_len(der) <= 11 {
                r matches Err(SignalingError::Crypto(e)) && e@ == "RSA encryption failed"@
            } else {
                match r {
                    Ok(req) => {
                        &&& req.url@ == "http://"@ + ip + ":9991/con_ing_"@ + ending
                        &&& encode_utf8(req.aes_key@).len() == 32
                        &&& exists|b: Seq<u8>| crate::encryption::is_uuid_v4(b) && req.aes_key@ == crate::text::hex_lower(b)
                        &&& crate::encryption::uuid_v4_digits(req.aes_key@)
                        &&& req.data1@ == crate::encryption::aes_encrypt_result(sdp, req.aes_key@)
                        &&& crate::encryption::aes_decrypt_result(req.data1@, req.aes_key@) == Ok::<
                            Seq<char>,
                            Seq<char>,
                        >(sdp)
                        &&& crate::encryption::rsa_encrypted_text(
                            der,
                            crate::encryption::rsa_modulus_len(der),
                            encode_utf8(req.aes_key@),
                            req.data2@,
                        )
                    },
                    Err(_) => false,
                }
            },
        },
    }
}

/// Builds the follow-up request from the notification text `data1` (already
/// decrypted): the robot's public key lies between its first and last ten
/// bytes, the path ending in its last ten; a fresh AES key encrypts the offer,
/// and the public key encrypts the AES key.
pub fn prepare_con_ing(ip: &str, sdp: &str, data1: &str) -> (r: Result<ConIngRequest, SignalingError>)
    requires
        con_ing_splittable(data1@),
    ensures
        con_ing_prepared(ip@, sdp@, data1@, r),
{
    let (pem, ending) = match con_ing_parameters(data1) {
        Ok(p) => p,
        Err(e) => return Err(e),
    };
    let url = con_ing_url(ip, ending.as_str());
    let aes_key = crate::encryption::generate_aes_key();
    let public_key = match crate::encryption::rsa_load_public_key(pem.as_str()) {
        Ok(k) => k,
        Err(e) => return Err(SignalingError::Crypto(e)),
    };
    let encrypted_sdp = crate::encryption::aes_encrypt(sdp, aes_key.as_str());
    if public_key.size() <= 11 {
        return Err(SignalingError::Crypto("RSA encryption failed"));
    }
    let encrypted_key = match crate::encryption::rsa_encrypt(aes_key.as_str(), &public_key) {
        Ok(k) => k,
        Err(e) => return Err(SignalingError::Crypto(e)),
    };
    Ok(ConIngRequest { url, aes_key, data1: encrypted_sdp, data2: encrypted_key })
}

/// The follow-up request for a notification: `data1` is decrypted first when
/// `data2` is 2. `Ok(None)` when the notification text cannot be cut at its
/// tenth bytes from either end (a character spans the cut).
pub fn con_ing_request(ip: &str, sdp: &str, data1: &str, data2: Option<i32>) -> (r: Result<
    Option<ConIngRequest>,
    SignalingError,
>)
    ensures
        ({
            let text: Result<Seq<char>, Seq<char>> = if data2 == Some(2i32) {
                con_notify_outcome(data1@)
            } else {
                Ok(data1@)
            };
            match text {
                Err(m) => r matches Err(SignalingError::Crypto(e)) && e@ == m,
                Ok(t) => if con_ing_splittable(t) {
                    match r {
                        Ok(Some(req)) => con_ing_prepared(ip@, sdp@, t, Ok(req)),
                        Ok(None) => false,
                        Err(e) => con_ing_prepared(ip@, sdp@, t, Err(e)),
                    }
                } else {
                    r matches Ok(None)
                },
            }
        }),
{
    let text = if data2 == Some(2i32) {
        match decrypt_con_notify_data(data1) {
            Ok(t) => t,
            Err(e) => return Err(e),
        }
    } else {
        string_from_str(data1)
    };
    let t = text.as_str();
    let n = t.as_bytes().len();
    if n >= 20 && !(t.is_char_boundary(10) && t.is_char_boundary(n - 10)) {
        return Ok(None);
    }
    match prepare_con_ing(ip, sdp, t) {
        Ok(req) => Ok(Some(req)),
        Err(e) => Err(e),
    }
}

} // verus!
