//! Small helpers: MD5 text and JavaScript-style random UUIDs.
use vstd::prelude::*;

use rand::Rng;

use crate::codec::{md5_digest, md5_of};
use crate::text::{bytes_to_hex_lower, digit_char, digit_to_char, hex_lower, push_char, str_chars};
use vstd::utf8::encode_utf8;

verus! {

/// The lowercase hexadecimal MD5 digest of the UTF-8 bytes of `string`: 32
/// digits.
pub fn generate_md5(string: &str) -> (r: String)
    ensures
        r@ == hex_lower(md5_of(encode_utf8(string@))),
        r@.len() == 32,
        forall|i: int| 0 <= i < 32 ==> is_lower_hex_digit(#[trigger] r@[i]),
{
    let digest = md5_digest(string.as_bytes());
    let r = bytes_to_hex_lower(digest.as_slice());
    proof {
        let b = digest@;
        crate::codec::lemma_hex_lower_roundtrip(b);
        assert forall|i: int| 0 <= i < 32 implies is_lower_hex_digit(#[trigger] r@[i]) by {
            let j = i / 2;
            crate::codec::lemma_hex_lower_index(b, j);
            assert(i == 2 * j || i == 2 * j + 1);
        }
    }
    r
}

/// `rand::thread_rng().gen_range(0..16)`: a random number below 16.
#[verifier::external_body]
fn random_nibble() -> (r: u8)
    ensures
        r < 16,
{
    rand::thread_rng().gen_range(0..16u8)
}

/// The shape of a JavaScript-style UUID: `x` stands for any hexadecimal digit,
/// `y` for one of `8`, `9`, `a`, `b`.
pub open spec fn js_uuid_template() -> Seq<char> {
    "xxxxxxxx-xxxx-4xxx-yxxx-xxxxxxxxxxxx"@
}

/// Whether `c` is one of `0`-`9`, `a`-`f`.
pub open spec fn is_lower_hex_digit(c: char) -> bool {
    ('0' <= c <= '9') || ('a' <= c <= 'f')
}

/// Whether `r` fits the template: `x` places hold a lowercase hexadecimal digit,
/// `y` places one of `8`, `9`, `a`, `b`, and every other place the template's character.
pub open spec fn fits_uuid_template(r: Seq<char>, template: Seq<char>) -> bool {
    &&& r.len() == template.len()
    &&& forall|i: int| 0 <= i < r.len() ==> {
        if template[i] == 'x' {
            is_lower_hex_digit(r[i])
        } else if template[i] == 'y' {
            r[i] == '8' || r[i] == '9' || r[i] == 'a' || r[i] == 'b'
        } else {
            r[i] == template[i]
        }
    }
}

/// The character a template character `t` becomes when the digit `n` is drawn
/// for it: `x` becomes the digit, `y` the digit with its high bits set to
/// binary 10, and any other character stays.
pub open spec fn js_uuid_char(t: char, n: u8) -> char {
    if t == 'x' {
        digit_char(n as nat, false)
    } else if t == 'y' {
        digit_char((n % 4 + 8) as nat, false)
    } else {
        t
    }
}

/// The text the template becomes with `draws[i]` drawn for place `i` (draws for
/// places that are not `x` or `y` play no part).
pub open spec fn js_uuid_from(template: Seq<char>, draws: Seq<u8>) -> Seq<char> {
    Seq::new(template.len(), |i: int| js_uuid_char(template[i], draws[i]))
}

/// A random UUID in the JavaScript style `xxxxxxxx-xxxx-4xxx-yxxx-xxxxxxxxxxxx`:
/// each `x` and `y` place is filled from its own random digit below 16.
pub fn generate_uuid_js_style() -> (r: String)
    ensures
        exists|draws: Seq<u8>|
            draws.len() == 36 && (forall|i: int| 0 <= i < 36 ==> #[trigger] draws[i] < 16) && r@ == js_uuid_from(
                js_uuid_template(),
                draws,
            ),
        fits_uuid_template(r@, js_uuid_template()),
        r@.len() == 36,
{
    let template = "xxxxxxxx-xxxx-4xxx-yxxx-xxxxxxxxxxxx";
    let t = str_chars(template);
    let mut result = String::new();
    let mut i: usize = 0;
    let ghost mut draws: Seq<u8> = Seq::empty();
    proof {
        assert(result@ =~= js_uuid_from(t@.take(0), draws));
    }
    while i < t.len()
        invariant
            i <= t.len(),
            t@ == template@,
            fits_uuid_template(result@, t@.take(i as int)),
            draws.len() == i,
            forall|j: int| 0 <= j < i ==> #[trigger] draws[j] < 16,
            result@ == js_uuid_from(t@.take(i as int), draws),
        decreases t.len() - i,
    {
        let c = t[i];
        let ghost before = result@;
        let ghost mut dig: nat = 0;
        let ghost mut drawn: u8 = 0;
        if c == 'x' || c == 'y' {
            let r = random_nibble();
            proof {
                drawn = r;
            }
            if c == 'x' {
                let d = digit_to_char(r, false);
                push_char(&mut result, d);
                proof {
                    dig = r as nat;
                }
            } else {
                let d = digit_to_char(r % 4 + 8, false);
                push_char(&mut result, d);
                proof {
                    dig = (r % 4 + 8) as nat;
                }
            }
        } else {
            push_char(&mut result, c);
        }
        proof {
            let old_draws = draws;
            draws = draws.push(drawn);
            assert(result@ =~= js_uuid_from(t@.take(i + 1), draws)) by {
                assert forall|j: int| 0 <= j < result@.len() implies result@[j] == js_uuid_from(
                    t@.take(i + 1),
                    draws,
                )[j] by {
                    if j < i {
                        assert(result@[j] == before[j]);
                        assert(before[j] == js_uuid_from(t@.take(i as int), old_draws)[j]);
                    }
                }
            }
        }
        proof {
            let tp = t@.take(i + 1);
            assert((c == 'x' || c == 'y') ==> result@[i as int] == digit_char(dig, false));
            assert forall|j: int| 0 <= j < result@.len() implies {
                if tp[j] == 'x' {
                    is_lower_hex_digit(result@[j])
                } else if tp[j] == 'y' {
                    result@[j] == '8' || result@[j] == '9' || result@[j] == 'a' || result@[j] == 'b'
                } else {
                    result@[j] == tp[j]
                }
            } by {
                if j < i {
                    assert(result@[j] == before[j]);
                    assert(tp[j] == t@.take(i as int)[j]);
                } else {
                    assert(tp[j] == c);
                }
            }
            assert(fits_uuid_template(result@, tp));
        }
        i = i + 1;
    }
    proof {
        assert(t@.take(t@.len() as int) =~= t@);
        reveal_strlit("xxxxxxxx-xxxx-4xxx-yxxx-xxxxxxxxxxxx");
        assert(draws.len() == 36);
    }
    result
}

} // verus!
