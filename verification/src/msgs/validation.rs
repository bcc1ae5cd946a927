//! The data-channel validation handshake.
use vstd::prelude::*;

use crate::codec::{base64_decoded, base64_encode, base64_text, hex_decode, hex_error_text, hex_value, md5_digest, md5_of};
use crate::text::{bytes_to_hex_lower, hex_lower, push_str, string_from_str};
use vstd::utf8::encode_utf8;

verus! {

broadcast use vstd::string::group_string_axioms;

/// The answer to a validation challenge `key`: the base64 text of the MD5 digest of
/// `UnitreeGo2_` followed by the key.
pub open spec fn validation_answer(key: Seq<char>) -> Seq<char> {
    base64_text(md5_of(encode_utf8("UnitreeGo2_"@ + key)))
}

/// The validation key received from the robot and whether validation succeeded.
pub struct WebRTCDataChannelValidation {
    key: String,
    validated: bool,
}

impl WebRTCDataChannelValidation {
    /// The key last received.
    pub closed spec fn key_text(&self) -> Seq<char> {
        self.key@
    }

    /// Whether the robot accepted the answer.
    pub closed spec fn validated(&self) -> bool {
        self.validated
    }

    /// No key, not validated.
    pub fn new() -> (r: Self)
        ensures
            r.key_text() == Seq::<char>::empty(),
            !r.validated(),
    {
        WebRTCDataChannelValidation { key: String::new(), validated: false }
    }

    /// Records the key received from the robot.
    pub fn set_key(&mut self, key: &str)
        ensures
            final(self).key_text() == key@,
            final(self).validated() == old(self).validated(),
    {
        self.key = string_from_str(key);
    }

    /// The key last received.
    pub fn key(&self) -> (r: &str)
        ensures
            r@ == self.key_text(),
    {
        self.key.as_str()
    }

    /// Whether validation succeeded.
    pub fn is_validated(&self) -> (r: bool)
        ensures
            r == self.validated(),
    {
        self.validated
    }

    /// Marks validation as successful.
    pub fn mark_validated(&mut self)
        ensures
            final(self).validated(),
            final(self).key_text() == old(self).key_text(),
    {
        self.validated = true;
    }

    /// The base64 text of the bytes that hexadecimal `hex_str` denotes.
    pub fn hex_to_base64(hex_str: &str) -> (r: Result<String, String>)
        ensures
            match hex_value(encode_utf8(hex_str@)) {
                Some(b) => r is Ok && r->Ok_0@ == base64_text(b) && r->Ok_0@.len() == 4 * ((b.len() + 2) / 3),
                None => r is Err && r->Err_0@ == "Invalid hex: "@ + hex_error_text(encode_utf8(hex_str@)),
            },
    {
        match hex_decode(hex_str.as_bytes()) {
            Ok(bytes) => Ok(base64_encode(bytes.as_slice())),
            Err(e) => {
                let mut m = string_from_str("Invalid hex: ");
                push_str(&mut m, e.as_str());
                Err(m)
            },
        }
    }

    /// The lowercase hexadecimal MD5 digest of the UTF-8 bytes of `input_str`.
    pub fn encrypt_by_md5(input_str: &str) -> (r: String)
        ensures
            r@ == hex_lower(md5_of(encode_utf8(input_str@))),
            md5_of(encode_utf8(input_str@)).len() == 16,
            r@.len() == 32,
    {
        let digest = md5_digest(input_str.as_bytes());
        proof {
            crate::codec::lemma_hex_lower_roundtrip(digest@);
        }
        bytes_to_hex_lower(digest.as_slice())
    }

    /// The answer to the validation challenge `key`; it is always produced, and
    /// is the 24 characters of base64 text of a 16-byte digest.
    pub fn encrypt_key(key: &str) -> (r: Result<String, String>)
        ensures
            r is Ok,
            r->Ok_0@ == validation_answer(key@),
            r->Ok_0@.len() == 24,
    {
        let mut prefixed_key = string_from_str("UnitreeGo2_");
        push_str(&mut prefixed_key, key);
        let encrypted = Self::encrypt_by_md5(prefixed_key.as_str());
        proof {
            crate::codec::lemma_hex_lower_roundtrip(md5_of(encode_utf8(prefixed_key@)));
        }
        Self::hex_to_base64(encrypted.as_str())
    }
}

impl Default for WebRTCDataChannelValidation {
    /// The same as [`WebRTCDataChannelValidation::new`].
    fn default() -> (r: Self)
        ensures
            r.key_text() == Seq::<char>::empty(),
            !r.validated(),
    {
        WebRTCDataChannelValidation::new()
    }
}

} // verus!
