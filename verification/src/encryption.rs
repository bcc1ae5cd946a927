//! AES-256 (ECB, PKCS#7) and RSA helpers used during signaling.
use vstd::prelude::*;

use aes::cipher::{generic_array::GenericArray, BlockDecrypt, BlockEncrypt, KeyInit};
use aes::Aes256;
use rsa::pkcs8::DecodePublicKey;
use rsa::traits::PublicKeyParts;
use rsa::Pkcs1v15Encrypt;
use uuid::Uuid;

use crate::codec::{base64_decode, base64_decoded, base64_encode, base64_text};
use crate::text::{bytes_to_hex_lower, hex_lower, seq_chunks, str_chars, string_from_chars, utf8_decode};
use vstd::utf8::{decode_utf8, encode_utf8, valid_utf8};

verus! {

/// AES-256 encryption of one 16-byte block under a 32-byte key: a block.
pub uninterp spec fn aes256_block_encrypted(key: Seq<u8>, block: Seq<u8>) -> [u8; 16];

/// AES-256 decryption of one 16-byte block under a 32-byte key: a block.
pub uninterp spec fn aes256_block_decrypted(key: Seq<u8>, block: Seq<u8>) -> [u8; 16];

/// `Aes256::encrypt_block`: encrypts one block. The result is a block, and
/// decrypting it under the same key gives `block` back.
#[verifier::external_body]
fn aes256_encrypt_block(key: &[u8], block: &[u8]) -> (r: Vec<u8>)
    requires
        key@.len() == 32,
        block@.len() == 16,
    ensures
        r@ == aes256_block_encrypted(key@, block@)@,
        aes256_block_decrypted(key@, r@)@ == block@,
{
    let cipher = Aes256::new(GenericArray::from_slice(key));
    let mut b = GenericArray::clone_from_slice(block);
    cipher.encrypt_block(&mut b);
    b.to_vec()
}

/// `Aes256::decrypt_block`: decrypts one block; the result is a block.
#[verifier::external_body]
fn aes256_decrypt_block(key: &[u8], block: &[u8]) -> (r: Vec<u8>)
    requires
        key@.len() == 32,
        block@.len() == 16,
    ensures
        r@ == aes256_block_decrypted(key@, block@)@,
{
    let cipher = Aes256::new(GenericArray::from_slice(key));
    let mut b = GenericArray::clone_from_slice(block);
    cipher.decrypt_block(&mut b);
    b.to_vec()
}

/// The number of padding bytes PKCS#7 adds to `n` bytes: 1 to 16.
pub open spec fn pad_count(n: nat) -> nat {
    (16 - n % 16) as nat
}

/// PKCS#7 padding to a multiple of 16 bytes: `k` bytes of value `k` are appended.
pub open spec fn pkcs7_pad(b: Seq<u8>) -> Seq<u8> {
    b + Seq::new(pad_count(b.len()), |_i: int| pad_count(b.len()) as u8)
}

/// Removes PKCS#7 padding and reads the rest as UTF-8 text, or says what is wrong.
pub open spec fn pkcs7_unpad(d: Seq<u8>) -> Result<Seq<char>, Seq<char>> {
    if d.len() == 0 {
        Err("Data is empty"@)
    } else {
        let p = d.last() as int;
        if p == 0 || p > 16 || p > d.len() {
            Err("Invalid padding length"@)
        } else if exists|i: int| d.len() - p <= i < d.len() && d[i] != p as u8 {
            Err("Invalid padding bytes"@)
        } else {
            let body = d.subrange(0, d.len() - p);
            if valid_utf8(body) {
                Ok(decode_utf8(body))
            } else {
                Err("Invalid UTF-8 in unpadded data"@)
            }
        }
    }
}

/// ECB encryption: each 16-byte block encrypted on its own.
pub open spec fn ecb_encrypted(key: Seq<u8>, data: Seq<u8>) -> Seq<u8>
    decreases data.len(),
{
    if data.len() < 16 {
        Seq::empty()
    } else {
        aes256_block_encrypted(key, data.take(16))@ + ecb_encrypted(key, data.skip(16))
    }
}

/// ECB decryption: each 16-byte block decrypted on its own.
pub open spec fn ecb_decrypted(key: Seq<u8>, data: Seq<u8>) -> Seq<u8>
    decreases data.len(),
{
    if data.len() < 16 {
        Seq::empty()
    } else {
        aes256_block_decrypted(key, data.take(16))@ + ecb_decrypted(key, data.skip(16))
    }
}

/// What `aes_decrypt` gives for base64 text `encrypted` under `key`.
pub open spec fn aes_decrypt_result(encrypted: Seq<char>, key: Seq<char>) -> Result<Seq<char>, Seq<char>> {
    let kb = encode_utf8(key);
    if kb.len() != 32 {
        Err("Key must be exactly 32 bytes for AES-256"@)
    } else {
        match base64_decoded(encode_utf8(encrypted)) {
            None => Err("Failed to decode base64"@),
            Some(d) => if d.len() % 16 != 0 {
                Err("Decoded data length is not a multiple of block size"@)
            } else {
                pkcs7_unpad(ecb_decrypted(kb, d))
            },
        }
    }
}

proof fn lemma_ecb_step(key: Seq<u8>, data: Seq<u8>, pos: int, encrypt: bool)
    requires
        0 <= pos,
        pos + 16 <= data.len(),
    ensures
        encrypt ==> ecb_encrypted(key, data.skip(pos)) == aes256_block_encrypted(key, data.subrange(pos, pos + 16))@
            + ecb_encrypted(key, data.skip(pos + 16)),
        !encrypt ==> ecb_decrypted(key, data.skip(pos)) == aes256_block_decrypted(key, data.subrange(pos, pos + 16))@
            + ecb_decrypted(key, data.skip(pos + 16)),
{
    assert(data.skip(pos).take(16) =~= data.subrange(pos, pos + 16));
    assert(data.skip(pos).skip(16) =~= data.skip(pos + 16));
}

proof fn lemma_ecb_decrypt_append(key: Seq<u8>, a: Seq<u8>, b: Seq<u8>)
    requires
        a.len() % 16 == 0,
    ensures
        ecb_decrypted(key, a + b) == ecb_decrypted(key, a) + ecb_decrypted(key, b),
    decreases a.len(),
{
    if a.len() == 0 {
        assert(a + b =~= b);
        assert(ecb_decrypted(key, a) =~= Seq::<u8>::empty());
        assert(Seq::<u8>::empty() + ecb_decrypted(key, b) =~= ecb_decrypted(key, b));
    } else {
        lemma_ecb_decrypt_append(key, a.skip(16), b);
        assert((a + b).take(16) =~= a.take(16));
        assert((a + b).skip(16) =~= a.skip(16) + b);
    }
}

proof fn lemma_ecb_encrypt_append(key: Seq<u8>, a: Seq<u8>, b: Seq<u8>)
    requires
        a.len() % 16 == 0,
    ensures
        ecb_encrypted(key, a + b) == ecb_encrypted(key, a) + ecb_encrypted(key, b),
    decreases a.len(),
{
    if a.len() == 0 {
        assert(a + b =~= b);
        assert(ecb_encrypted(key, a) =~= Seq::<u8>::empty());
        assert(Seq::<u8>::empty() + ecb_encrypted(key, b) =~= ecb_encrypted(key, b));
    } else {
        lemma_ecb_encrypt_append(key, a.skip(16), b);
        assert((a + b).take(16) =~= a.take(16));
        assert((a + b).skip(16) =~= a.skip(16) + b);
    }
}

/// ECB encryption of whole blocks keeps the length.
pub proof fn lemma_ecb_encrypted_len(key: Seq<u8>, data: Seq<u8>)
    requires
        data.len() % 16 == 0,
    ensures
        ecb_encrypted(key, data).len() == data.len(),
    decreases data.len(),
{
    if data.len() >= 16 {
        lemma_ecb_encrypted_len(key, data.skip(16));
    }
}

/// Applies the block cipher to each 16-byte block of `data`.
fn ecb_apply(key: &[u8], data: &[u8], encrypt: bool) -> (r: Vec<u8>)
    requires
        key@.len() == 32,
        data@.len() % 16 == 0,
    ensures
        encrypt ==> r@ == ecb_encrypted(key@, data@),
        encrypt ==> ecb_decrypted(key@, r@) == data@,
        !encrypt ==> r@ == ecb_decrypted(key@, data@),
        r@.len() == data@.len(),
{
    let mut out: Vec<u8> = Vec::new();
    let mut pos: usize = 0;
    proof {
        assert(data@.skip(0) =~= data@);
    }
    while pos < data.len()
        invariant
            key@.len() == 32,
            data@.len() % 16 == 0,
            pos <= data.len(),
            pos % 16 == 0,
            out@.len() == pos,
            encrypt ==> out@ + ecb_encrypted(key@, data@.skip(pos as int)) == ecb_encrypted(key@, data@),
            encrypt ==> ecb_decrypted(key@, out@) == data@.take(pos as int),
            !encrypt ==> out@ + ecb_decrypted(key@, data@.skip(pos as int)) == ecb_decrypted(key@, data@),
        decreases data.len() - pos,
    {
        let mut block: Vec<u8> = Vec::new();
        let mut j: usize = pos;
        while j < pos + 16
            invariant
                pos + 16 <= data.len(),
                pos <= j <= pos + 16,
                block@ == data@.subrange(pos as int, j as int),
            decreases pos + 16 - j,
        {
            block.push(data[j]);
            proof {
                assert(block@ =~= data@.subrange(pos as int, j + 1));
            }
            j = j + 1;
        }
        let mut processed = if encrypt {
            aes256_encrypt_block(key, block.as_slice())
        } else {
            aes256_decrypt_block(key, block.as_slice())
        };
        let ghost before = out@;
        let ghost p = processed@;
        out.append(&mut processed);
        proof {
            lemma_ecb_step(key@, data@, pos as int, encrypt);
            if encrypt {
                assert((before + p) + ecb_encrypted(key@, data@.skip(pos + 16))
                    =~= before + ecb_encrypted(key@, data@.skip(pos as int)));
                lemma_ecb_decrypt_append(key@, before, p);
                assert(p.take(16) =~= p);
                assert(p.skip(16) =~= Seq::<u8>::empty());
                assert(ecb_decrypted(key@, p.skip(16)) =~= Seq::<u8>::empty());
                assert(ecb_decrypted(key@, p) =~= block@);
                assert(data@.take(pos + 16) =~= data@.take(pos as int) + block@);
            } else {
                assert((before + p) + ecb_decrypted(key@, data@.skip(pos + 16))
                    =~= before + ecb_decrypted(key@, data@.skip(pos as int)));
            }
        }
        pos = pos + 16;
    }
    proof {
        assert(data@.skip(pos as int).len() == 0);
        assert(data@.take(pos as int) =~= data@);
    }
    out
}

/// Unpadding undoes padding: the text comes back.
pub proof fn lemma_unpad_pad(b: Seq<u8>)
    requires
        valid_utf8(b),
    ensures
        pkcs7_unpad(pkcs7_pad(b)) == Ok::<Seq<char>, Seq<char>>(decode_utf8(b)),
{
    let d = pkcs7_pad(b);
    let p = pad_count(b.len());
    assert(d.len() == b.len() + p);
    assert(d.last() == p as u8);
    assert(d.subrange(0, d.len() - p) =~= b);
    assert forall|i: int| d.len() - p <= i < d.len() implies d[i] == p as u8 by {}
}

/// PKCS#7 padding of the UTF-8 bytes of `data` to a multiple of 16 bytes.
fn pad(data: &str) -> (r: Vec<u8>)
    ensures
        r@ == pkcs7_pad(encode_utf8(data@)),
        r@.len() % 16 == 0,
{
    let bytes = data.as_bytes();
    let mut out: Vec<u8> = Vec::new();
    let mut i: usize = 0;
    while i < bytes.len()
        invariant
            i <= bytes.len(),
            out@ == bytes@.take(i as int),
        decreases bytes.len() - i,
    {
        out.push(bytes[i]);
        proof {
            assert(out@ =~= bytes@.take(i + 1));
        }
        i = i + 1;
    }
    let padding: usize = 16 - (bytes.len() % 16);
    let mut k: usize = 0;
    while k < padding
        invariant
            k <= padding,
            padding == pad_count(bytes@.len()),
            out@ == bytes@ + Seq::new(k as nat, |_i: int| padding as u8),
        decreases padding - k,
    {
        out.push(padding as u8);
        proof {
            assert(out@ =~= bytes@ + Seq::new((k + 1) as nat, |_i: int| padding as u8));
        }
        k = k + 1;
    }
    proof {
        assert(bytes@.take(bytes@.len() as int) =~= bytes@);
    }
    out
}

/// Removes PKCS#7 padding and reads the rest as UTF-8 text.
fn unpad(data: Vec<u8>) -> (r: Result<String, &'static str>)
    ensures
        match r {
            Ok(s) => pkcs7_unpad(data@) == Ok::<Seq<char>, Seq<char>>(s@),
            Err(e) => pkcs7_unpad(data@) == Err::<Seq<char>, Seq<char>>(e@),
        },
{
    if data.len() == 0 {
        return Err("Data is empty");
    }
    let padding = data[data.len() - 1] as usize;
    if padding == 0 || padding > 16 || padding > data.len() {
        return Err("Invalid padding length");
    }
    let mut i: usize = 0;
    while i < padding
        invariant
            0 < padding <= 16,
            padding <= data.len(),
            padding == data@.last() as int,
            i <= padding,
            forall|j: int| data.len() - i <= j < data.len() ==> data@[j] == padding as u8,
        decreases padding - i,
    {
        if data[data.len() - 1 - i] as usize != padding {
            proof {
                let j = data.len() - 1 - i;
                assert(data.len() - padding <= j < data.len() && data@[j] != padding as u8);
            }
            return Err("Invalid padding bytes");
        }
        i = i + 1;
    }
    let keep = data.len() - padding;
    let mut body: Vec<u8> = Vec::new();
    let mut k: usize = 0;
    while k < keep
        invariant
            keep <= data.len(),
            k <= keep,
            body@ == data@.subrange(0, k as int),
        decreases keep - k,
    {
        body.push(data[k]);
        proof {
            assert(body@ =~= data@.subrange(0, k + 1));
        }
        k = k + 1;
    }
    match utf8_decode(body) {
        Some(s) => Ok(s),
        None => Err("Invalid UTF-8 in unpadded data"),
    }
}

/// The bytes `aes_encrypt` encodes: the ECB encryption of the padded text.
pub open spec fn aes_encrypted_bytes(data: Seq<char>, key: Seq<char>) -> Seq<u8> {
    ecb_encrypted(encode_utf8(key), pkcs7_pad(encode_utf8(data)))
}

/// What `aes_encrypt` produces: the base64 text of the ECB encryption of the padded text.
pub open spec fn aes_encrypt_result(data: Seq<char>, key: Seq<char>) -> Seq<char> {
    base64_text(aes_encrypted_bytes(data, key))
}

/// The encrypted bytes fill one block more than the whole blocks of the text:
/// `16 * (n / 16 + 1)` bytes for `n` bytes of text.
pub proof fn lemma_aes_encrypted_len(data: Seq<char>, key: Seq<char>)
    ensures
        aes_encrypted_bytes(data, key).len() == 16 * (encode_utf8(data).len() / 16 + 1),
{
    let b = encode_utf8(data);
    let n = b.len();
    assert(pkcs7_pad(b).len() == n + pad_count(n));
    assert((n + pad_count(n)) % 16 == 0 && n + pad_count(n) == 16 * (n / 16 + 1)) by (nonlinear_arith)
        requires
            pad_count(n) == 16 - n % 16,
    ;
    lemma_ecb_encrypted_len(encode_utf8(key), pkcs7_pad(b));
}

/// ECB has no chaining: when the text `a` fills whole blocks, the encryption
/// of `a` followed by `b` begins with the same bytes as the encryption of `a`
/// alone (the encryption of `a`'s blocks), and goes on with the encryption of
/// `b` alone.
pub proof fn lemma_aes_block_prefix(a: Seq<char>, b: Seq<char>, key: Seq<char>)
    requires
        encode_utf8(a).len() % 16 == 0,
    ensures
        ({
            let n = encode_utf8(a).len() as int;
            let e = ecb_encrypted(encode_utf8(key), encode_utf8(a));
            &&& e.len() == n
            &&& aes_encrypted_bytes(a + b, key) == e + aes_encrypted_bytes(b, key)
            &&& aes_encrypted_bytes(a, key) == e + aes_encrypted_bytes(Seq::empty(), key)
            &&& aes_encrypted_bytes(a + b, key).take(n) == aes_encrypted_bytes(a, key).take(n)
        }),
{
    let kb = encode_utf8(key);
    let ab = encode_utf8(a);
    let bb = encode_utf8(b);
    let n = ab.len() as int;
    crate::text::lemma_encode_utf8_concat(a, b);
    assert(pkcs7_pad(ab + bb) =~= ab + pkcs7_pad(bb)) by {
        assert((ab.len() + bb.len()) % 16 == bb.len() % 16) by (nonlinear_arith)
            requires
                ab.len() % 16 == 0,
        ;
    }
    let empty = Seq::<char>::empty();
    assert(encode_utf8(empty) =~= Seq::<u8>::empty());
    assert(pkcs7_pad(ab) =~= ab + pkcs7_pad(Seq::<u8>::empty()));
    lemma_ecb_encrypt_append(kb, ab, pkcs7_pad(bb));
    lemma_ecb_encrypt_append(kb, ab, pkcs7_pad(Seq::<u8>::empty()));
    lemma_ecb_encrypted_len(kb, ab);
    let e = ecb_encrypted(kb, ab);
    assert((e + aes_encrypted_bytes(b, key)).take(n) =~= e);
    assert((e + aes_encrypted_bytes(empty, key)).take(n) =~= e);
}

/// Encrypts text with AES-256 in ECB mode with PKCS#7 padding and returns base64.
/// The key must be exactly 32 bytes; decrypting the result gives `data` back.
pub fn aes_encrypt(data: &str, key: &str) -> (r: String)
    requires
        encode_utf8(key@).len() == 32,
    ensures
        r@ == aes_encrypt_result(data@, key@),
        base64_decoded(encode_utf8(r@)) == Some(aes_encrypted_bytes(data@, key@)),
        aes_encrypted_bytes(data@, key@).len() == 16 * (encode_utf8(data@).len() / 16 + 1),
        aes_decrypt_result(r@, key@) == Ok::<Seq<char>, Seq<char>>(data@),
{
    let key_bytes = key.as_bytes();
    let padded = pad(data);
    let encrypted = ecb_apply(key_bytes, padded.as_slice(), true);
    let r = base64_encode(encrypted.as_slice());
    proof {
        vstd::utf8::encode_utf8_valid_utf8(data@);
        vstd::utf8::encode_utf8_decode_utf8(data@);
        lemma_unpad_pad(encode_utf8(data@));
        lemma_aes_encrypted_len(data@, key@);
    }
    r
}

/// Decrypts base64 text made by `aes_encrypt` under the same 32-byte key.
pub fn aes_decrypt(encrypted_data: &str, key: &str) -> (r: Result<String, &'static str>)
    ensures
        match r {
            Ok(s) => aes_decrypt_result(encrypted_data@, key@) == Ok::<Seq<char>, Seq<char>>(s@),
            Err(e) => aes_decrypt_result(encrypted_data@, key@) == Err::<Seq<char>, Seq<char>>(e@),
        },
{
    let key_bytes = key.as_bytes();
    if key_bytes.len() != 32 {
        return Err("Key must be exactly 32 bytes for AES-256");
    }
    let decoded = match base64_decode(encrypted_data.as_bytes()) {
        Some(d) => d,
        None => return Err("Failed to decode base64"),
    };
    if decoded.len() % 16 != 0 {
        return Err("Decoded data length is not a multiple of block size");
    }
    let decrypted = ecb_apply(key_bytes, decoded.as_slice(), false);
    unpad(decrypted)
}

/// The 16 bytes of a version-4 UUID: random but for the version (4, the high
/// half of byte 6) and the variant (binary 10, the two high bits of byte 8).
pub open spec fn is_uuid_v4(b: Seq<u8>) -> bool {
    b.len() == 16 && b[6] / 16 == 4 && b[8] / 64 == 2
}

/// `Uuid::new_v4().into_bytes()`: the 16 bytes of a random version-4 UUID;
/// `new_v4` masks a random `u128` so that the version and variant bits are set.
#[verifier::external_body]
fn uuid_v4_bytes() -> (r: Vec<u8>)
    ensures
        is_uuid_v4(r@),
{
    Uuid::new_v4().into_bytes().to_vec()
}

/// The version digit of the text of a version-4 UUID is `4`, its variant digit
/// one of `8`, `9`, `a`, `b`.
pub open spec fn uuid_v4_digits(h: Seq<char>) -> bool {
    h.len() == 32 && h[12] == '4' && (h[16] == '8' || h[16] == '9' || h[16] == 'a' || h[16] == 'b')
}

proof fn lemma_uuid_v4_digits(b: Seq<u8>)
    requires
        is_uuid_v4(b),
    ensures
        uuid_v4_digits(hex_lower(b)),
{
    crate::codec::lemma_hex_lower_index(b, 6);
    crate::codec::lemma_hex_lower_index(b, 8);
    let v = b[8] / 16;
    assert(8 <= v < 12);
}

/// A random UUID as 32 lowercase hexadecimal digits.
pub fn generate_uuid() -> (r: String)
    ensures
        exists|b: Seq<u8>| is_uuid_v4(b) && r@ == hex_lower(b),
        r@.len() == 32,
        uuid_v4_digits(r@),
{
    let bytes = uuid_v4_bytes();
    proof {
        crate::codec::lemma_hex_lower_roundtrip(bytes@);
        lemma_uuid_v4_digits(bytes@);
    }
    bytes_to_hex_lower(bytes.as_slice())
}

/// A fresh AES key: a random UUID as 32 lowercase hexadecimal digits.
pub fn generate_aes_key() -> (r: String)
    ensures
        exists|b: Seq<u8>| is_uuid_v4(b) && r@ == hex_lower(b),
        r@.len() == 32,
        uuid_v4_digits(r@),
        encode_utf8(r@).len() == 32,
{
    let r = generate_uuid();
    proof {
        let b = choose|b: Seq<u8>| is_uuid_v4(b) && r@ == hex_lower(b);
        crate::codec::lemma_hex_lower_roundtrip(b);
        vstd::utf8::is_ascii_chars_encode_utf8(r@);
    }
    r
}

/// Whether `c` has the Unicode White_Space property (what `char::is_whitespace` tests).
pub open spec fn is_white_space(c: char) -> bool {
    let u = c as u32;
    (0x9 <= u <= 0xd) || u == 0x20 || u == 0x85 || u == 0xa0 || u == 0x1680 || (0x2000 <= u <= 0x200a)
        || u == 0x2028 || u == 0x2029 || u == 0x202f || u == 0x205f || u == 0x3000
}

/// Whether `c` has the Unicode White_Space property.
pub fn is_whitespace_char(c: char) -> (r: bool)
    ensures
        r == is_white_space(c),
{
    let u = c as u32;
    (0x9 <= u && u <= 0xd) || u == 0x20 || u == 0x85 || u == 0xa0 || u == 0x1680 || (0x2000 <= u && u
        <= 0x200a) || u == 0x2028 || u == 0x2029 || u == 0x202f || u == 0x205f || u == 0x3000
}

/// `s` without its whitespace characters.
pub open spec fn strip_white_space(s: Seq<char>) -> Seq<char> {
    s.filter(|c: char| !is_white_space(c))
}

/// Whether `rsa::RsaPublicKey::from_public_key_der` accepts `der` as a public key.
pub uninterp spec fn rsa_der_accepted(der: Seq<u8>) -> bool;

#[verifier::external_type_specification]
#[verifier::external_body]
pub struct ExRsaPublicKey(rsa::RsaPublicKey);

/// The modulus length in bytes of the RSA public key that `der` encodes.
pub uninterp spec fn rsa_modulus_len(der: Seq<u8>) -> nat;

/// Whether `c` is an RSA PKCS#1 v1.5 encryption of `msg` under the public key
/// that `der` encodes (which of them comes out is random).
pub uninterp spec fn rsa_pkcs1v15_encrypts(der: Seq<u8>, msg: Seq<u8>, c: Seq<u8>) -> bool;

/// An RSA public key, the DER bytes it was read from, and the length of its
/// modulus in bytes.
pub struct RsaKey {
    inner: rsa::RsaPublicKey,
    size: usize,
    der: Ghost<Seq<u8>>,
}

impl RsaKey {
    /// The modulus length in bytes.
    pub closed spec fn modulus_len(&self) -> nat {
        self.size as nat
    }

    /// The DER bytes the key was read from.
    pub closed spec fn der(&self) -> Seq<u8> {
        self.der@
    }

    /// The modulus length in bytes.
    pub fn size(&self) -> (r: usize)
        ensures
            r == self.modulus_len(),
    {
        self.size
    }
}

/// `rsa::RsaPublicKey::from_public_key_der` (an X.509 SubjectPublicKeyInfo in DER),
/// paired with the key's `size()`. The crate refuses moduli above 4096 bits.
#[verifier::external_body]
fn rsa_public_key_from_der(der: &[u8]) -> (r: Option<RsaKey>)
    ensures
        r is Some <==> rsa_der_accepted(der@),
        r matches Some(k) ==> k.der() == der@ && k.modulus_len() == rsa_modulus_len(der@) && k.modulus_len() <= 512,
{
    let inner = rsa::RsaPublicKey::from_public_key_der(der).ok()?;
    Some(RsaKey { size: inner.size(), inner, der: Ghost(der@) })
}

/// `RsaPublicKey::encrypt` with PKCS#1 v1.5 padding and the operating system's
/// random source: a ciphertext of the modulus length that encrypts `chunk`
/// under the key. Which ciphertext comes out is random. It never reports an
/// error here: the key passed the crate's checks when it was read, the chunk
/// leaves room for the padding, and a failing random source panics.
#[verifier::external_body]
fn rsa_encrypt_chunk(key: &RsaKey, chunk: &[u8]) -> (r: Option<Vec<u8>>)
    requires
        chunk@.len() + 11 <= key.modulus_len(),
    ensures
        r is Some,
        r matches Some(c) ==> c@.len() == key.modulus_len() && rsa_pkcs1v15_encrypts(key.der(), chunk@, c@),
{
    let mut rng = rand::rngs::OsRng;
    key.inner.encrypt(&mut rng, Pkcs1v15Encrypt, chunk).ok()
}

/// Whether `s` is the base64 text of ciphertexts, one per piece of `msg` cut
/// every `k - 11` bytes, each of `k` bytes and each a PKCS#1 v1.5 encryption of
/// its piece under the key that `der` encodes.
pub open spec fn rsa_encrypted_text(der: Seq<u8>, k: nat, msg: Seq<u8>, s: Seq<char>) -> bool {
    exists|cs: Seq<Seq<u8>>| rsa_ciphertexts(der, k, msg, cs) && s == base64_text(cs.flatten())
}

/// The ciphertexts `cs` encrypt the pieces of `msg`, in order.
pub open spec fn rsa_ciphertexts(der: Seq<u8>, k: nat, msg: Seq<u8>, cs: Seq<Seq<u8>>) -> bool {
    let pieces = seq_chunks(msg, (k - 11) as nat);
    &&& cs.len() == pieces.len()
    &&& forall|i: int|
        0 <= i < cs.len() ==> (#[trigger] cs[i]).len() == k && rsa_pkcs1v15_encrypts(der, pieces[i], cs[i])
}

/// What loading a public key from base64 DER text gives: the key is read from
/// the text with whitespace removed.
pub open spec fn rsa_load_outcome(text: Seq<char>) -> Result<Seq<u8>, Seq<char>> {
    match base64_decoded(encode_utf8(strip_white_space(text))) {
        None => Err("Invalid base64 in public key"@),
        Some(der) => if rsa_der_accepted(der) {
            Ok(der)
        } else {
            Err("Invalid RSA public key DER"@)
        },
    }
}

/// Loads an RSA public key from base64-encoded DER text; whitespace is ignored.
pub fn rsa_load_public_key(pem_data_base64: &str) -> (r: Result<RsaKey, &'static str>)
    ensures
        match r {
            Ok(k) => rsa_load_outcome(pem_data_base64@) == Ok::<Seq<u8>, Seq<char>>(k.der()) && k.modulus_len()
                == rsa_modulus_len(k.der()) && k.modulus_len() <= 512,
            Err(e) => rsa_load_outcome(pem_data_base64@) == Err::<Seq<u8>, Seq<char>>(e@),
        },
{
    let chars = str_chars(pem_data_base64);
    let mut kept: Vec<char> = Vec::new();
    let mut i: usize = 0;
    while i < chars.len()
        invariant
            i <= chars.len(),
            chars@ == pem_data_base64@,
            kept@ == strip_white_space(chars@.take(i as int)),
        decreases chars.len() - i,
    {
        let c = chars[i];
        if !is_whitespace_char(c) {
            kept.push(c);
        }
        proof {
            reveal_with_fuel(Seq::filter, 1);
            assert(chars@.take(i + 1).drop_last() =~= chars@.take(i as int));
        }
        i = i + 1;
    }
    proof {
        assert(chars@.take(chars.len() as int) =~= chars@);
    }
    let cleaned = string_from_chars(kept.as_slice());
    let key_bytes = match base64_decode(cleaned.as_str().as_bytes()) {
        Some(b) => b,
        None => return Err("Invalid base64 in public key"),
    };
    match rsa_public_key_from_der(key_bytes.as_slice()) {
        Some(k) => Ok(k),
        None => Err("Invalid RSA public key DER"),
    }
}

/// Encrypts the UTF-8 bytes of `data` with RSA PKCS#1 v1.5, in pieces of at most
/// the modulus length minus 11 bytes, and returns the base64 text of the
/// concatenated ciphertexts. The modulus must be longer than 11 bytes; then it
/// always succeeds (empty data needs no encryption at all).
pub fn rsa_encrypt(data: &str, public_key: &RsaKey) -> (r: Result<String, &'static str>)
    requires
        public_key.modulus_len() > 11,
    ensures
        r is Ok,
        r matches Ok(s) ==> rsa_encrypted_text(public_key.der(), public_key.modulus_len(), encode_utf8(data@), s@),
        encode_utf8(data@).len() == 0 ==> r is Ok && r->Ok_0@ == base64_text(Seq::<u8>::empty()),
{
    let max_chunk_size = public_key.size() - 11;
    let data_bytes = data.as_bytes();
    let ghost all = data_bytes@;
    let ghost k = public_key.modulus_len();
    let ghost size = max_chunk_size as nat;
    let ghost pieces = seq_chunks(all, size);
    let mut encrypted_bytes: Vec<u8> = Vec::new();
    let mut pos: usize = 0;
    let ghost mut cs: Seq<Seq<u8>> = Seq::empty();
    proof {
        assert(all.skip(0) =~= all);
        assert(pieces.skip(0) =~= pieces);
        assert(encrypted_bytes@ =~= cs.flatten());
    }
    while pos < data_bytes.len()
        invariant
            data_bytes@ == all,
            all == encode_utf8(data@),
            max_chunk_size == size,
            size > 0,
            k == public_key.modulus_len(),
            size + 11 == k,
            pieces == seq_chunks(all, size),
            pos <= data_bytes.len(),
            cs.len() <= pieces.len(),
            seq_chunks(all.skip(pos as int), size) == pieces.skip(cs.len() as int),
            forall|i: int|
                0 <= i < cs.len() ==> (#[trigger] cs[i]).len() == k && rsa_pkcs1v15_encrypts(
                    public_key.der(),
                    pieces[i],
                    cs[i],
                ),
            encrypted_bytes@ == cs.flatten(),
        decreases data_bytes.len() - pos,
    {
        let end: usize = if data_bytes.len() - pos >= max_chunk_size { pos + max_chunk_size } else { data_bytes.len() };
        let mut chunk: Vec<u8> = Vec::new();
        let mut j: usize = pos;
        while j < end
            invariant
                pos <= j <= end,
                end <= data_bytes.len(),
                data_bytes@ == all,
                chunk@ == all.subrange(pos as int, j as int),
            decreases end - j,
        {
            chunk.push(data_bytes[j]);
            proof {
                assert(chunk@ =~= all.subrange(pos as int, j + 1));
            }
            j = j + 1;
        }
        proof {
            crate::text::lemma_chunks_step(all, size, pos as int);
            let n = cs.len() as int;
            let tail = pieces.skip(n);
            assert(tail.len() > 0);
            assert(tail[0] == all.subrange(pos as int, end as int));
            assert(pieces[n] == tail[0]);
            assert(pieces.skip(n + 1) =~= tail.skip(1));
            assert(tail.skip(1) =~= seq_chunks(all.skip(end as int), size));
        }
        let mut encrypted_chunk = match rsa_encrypt_chunk(public_key, chunk.as_slice()) {
            Some(c) => c,
            None => return Err("RSA encryption failed"),
        };
        let ghost c_view = encrypted_chunk@;
        encrypted_bytes.append(&mut encrypted_chunk);
        proof {
            cs.lemma_flatten_push(c_view);
            let old_cs = cs;
            cs = cs.push(c_view);
            assert forall|i: int| 0 <= i < cs.len() implies (#[trigger] cs[i]).len() == k && rsa_pkcs1v15_encrypts(
                public_key.der(),
                pieces[i],
                cs[i],
            ) by {
                if i < old_cs.len() {
                    assert(cs[i] == old_cs[i]);
                }
            }
        }
        pos = end;
    }
    proof {
        assert(all.skip(pos as int).len() == 0);
        assert(seq_chunks(all.skip(pos as int), size).len() == 0);
        assert(cs.len() == pieces.len());
        assert(rsa_ciphertexts(public_key.der(), k, all, cs));
        if all.len() == 0 {
            assert(pieces.len() == 0);
            assert(cs =~= Seq::<Seq<u8>>::empty());
            assert(cs.flatten() =~= Seq::<u8>::empty());
            assert(encrypted_bytes@ =~= Seq::<u8>::empty());
        }
    }
    Ok(base64_encode(encrypted_bytes.as_slice()))
}

} // verus!
