//! Text helpers: comparison, building strings, and number formatting.
use vstd::prelude::*;

use vstd::utf8::{decode_utf8, encode_utf8, is_ascii_chars, valid_utf8};

verus! {

broadcast use vstd::string::group_string_axioms;

/// Splits `s` into consecutive pieces of `size` elements; the last piece may be
/// shorter. An empty sequence gives no pieces.
pub open spec fn seq_chunks<A>(s: Seq<A>, size: nat) -> Seq<Seq<A>>
    decreases s.len(),
{
    if size == 0 || s.len() == 0 {
        Seq::empty()
    } else if s.len() <= size {
        seq![s]
    } else {
        seq![s.take(size as int)] + seq_chunks(s.skip(size as int), size)
    }
}

/// The text that `String::from_utf8_lossy` makes of `bytes`: invalid sequences
/// become U+FFFD.
pub uninterp spec fn utf8_lossy_text(bytes: Seq<u8>) -> Seq<char>;

/// `String::from_utf8_lossy`: the text of `bytes`, with each invalid sequence
/// replaced by U+FFFD; valid UTF-8 is decoded as it is.
#[verifier::external_body]
pub(crate) fn utf8_lossy(bytes: &[u8]) -> (r: String)
    ensures
        r@ == utf8_lossy_text(bytes@),
        valid_utf8(bytes@) ==> r@ == decode_utf8(bytes@),
{
    String::from_utf8_lossy(bytes).into_owned()
}

/// The text `String::from_utf8_lossy` makes of `bytes`: their decoding when
/// they are valid UTF-8.
pub open spec fn lossy_text(bytes: Seq<u8>) -> Seq<char> {
    if valid_utf8(bytes) {
        decode_utf8(bytes)
    } else {
        utf8_lossy_text(bytes)
    }
}

/// Text sent in pieces and joined as bytes reads back as the pieces joined.
pub proof fn lemma_joined_text_pieces(pieces: Seq<Seq<char>>)
    ensures
        Seq::new(pieces.len(), |i: int| encode_utf8(pieces[i])).flatten() == encode_utf8(pieces.flatten()),
        lossy_text(Seq::new(pieces.len(), |i: int| encode_utf8(pieces[i])).flatten()) == pieces.flatten(),
    decreases pieces.len(),
{
    let bytes = Seq::new(pieces.len(), |i: int| encode_utf8(pieces[i]));
    if pieces.len() == 0 {
        assert(encode_utf8(pieces.flatten()) =~= Seq::<u8>::empty());
    } else {
        let rest = pieces.drop_first();
        lemma_joined_text_pieces(rest);
        assert(bytes.drop_first() =~= Seq::new(rest.len(), |i: int| encode_utf8(rest[i])));
        lemma_encode_utf8_concat(pieces.first(), rest.flatten());
    }
    vstd::utf8::encode_utf8_valid_utf8(pieces.flatten());
    vstd::utf8::encode_utf8_decode_utf8(pieces.flatten());
}

/// `String::from_utf8`: the text of `bytes` when they are valid UTF-8.
#[verifier::external_body]
pub(crate) fn utf8_decode(bytes: Vec<u8>) -> (r: Option<String>)
    ensures
        match r {
            Some(s) => valid_utf8(bytes@) && s@ == decode_utf8(bytes@),
            None => !valid_utf8(bytes@),
        },
{
    String::from_utf8(bytes).ok()
}

proof fn lemma_chunks_len_pos<A>(s: Seq<A>, size: nat)
    ensures
        forall|i: int| 0 <= i < seq_chunks(s, size).len() ==> #[trigger] seq_chunks(s, size)[i].len() > 0,
    decreases s.len(),
{
    if size == 0 || s.len() == 0 {
    } else if s.len() <= size {
    } else {
        lemma_chunks_len_pos(s.skip(size as int), size);
        assert forall|i: int| 0 <= i < seq_chunks(s, size).len() implies #[trigger] seq_chunks(s, size)[i].len() > 0 by {
            if i > 0 {
                assert(seq_chunks(s, size)[i] == seq_chunks(s.skip(size as int), size)[i - 1]);
            }
        }
    }
}

/// Chunking commutes with encoding when the text is ASCII.
pub proof fn lemma_ascii_chunks(s: Seq<char>, b: Seq<u8>, size: nat)
    requires
        is_ascii_chars(s),
        b.len() == s.len(),
        forall|j: int| 0 <= j < s.len() ==> #[trigger] b[j] == s[j] as u8,
    ensures
        seq_chunks(b, size).len() == seq_chunks(s, size).len(),
        forall|i: int| 0 <= i < seq_chunks(s, size).len() ==> {
            &&& is_ascii_chars(#[trigger] seq_chunks(s, size)[i])
            &&& seq_chunks(b, size)[i] == encode_utf8(seq_chunks(s, size)[i])
        },
    decreases s.len(),
{
    if size == 0 || s.len() == 0 {
    } else if s.len() <= size {
        vstd::utf8::is_ascii_chars_encode_utf8(s);
        assert(encode_utf8(s) =~= b);
    } else {
        let s1 = s.take(size as int);
        let b1 = b.take(size as int);
        assert(is_ascii_chars(s1));
        vstd::utf8::is_ascii_chars_encode_utf8(s1);
        assert(encode_utf8(s1) =~= b1);
        let s2 = s.skip(size as int);
        let b2 = b.skip(size as int);
        assert(is_ascii_chars(s2));
        assert forall|j: int| 0 <= j < s2.len() implies #[trigger] b2[j] == s2[j] as u8 by {
            assert(b2[j] == b[j + size]);
            assert(s2[j] == s[j + size]);
        }
        lemma_ascii_chunks(s2, b2, size);
        assert forall|i: int| 0 <= i < seq_chunks(s, size).len() implies {
            &&& is_ascii_chars(#[trigger] seq_chunks(s, size)[i])
            &&& seq_chunks(b, size)[i] == encode_utf8(seq_chunks(s, size)[i])
        } by {
            if i > 0 {
                assert(seq_chunks(s, size)[i] == seq_chunks(s2, size)[i - 1]);
                assert(seq_chunks(b, size)[i] == seq_chunks(b2, size)[i - 1]);
            }
        }
    }
}

/// `a == b` on string slices (`<str as PartialEq>::eq`): true exactly when the
/// two hold the same characters.
#[verifier::external_body]
pub(crate) fn str_equal(a: &str, b: &str) -> (r: bool)
    ensures
        r == (a@ == b@),
{
    a == b
}

/// `String::push`: appends one character.
#[verifier::external_body]
pub(crate) fn push_char(s: &mut String, c: char)
    ensures
        final(s)@ == old(s)@.push(c),
{
    s.push(c)
}

/// `String::push_str`: appends the characters of `t`.
#[verifier::external_body]
pub(crate) fn push_str(s: &mut String, t: &str)
    ensures
        final(s)@ == old(s)@ + t@,
{
    s.push_str(t)
}

/// An owned copy of `s`.
pub fn string_from_str(s: &str) -> (r: String)
    ensures
        r@ == s@,
{
    s.to_string()
}

/// The character of digit `d` (below 16) in base 16, in upper or lower case.
pub open spec fn digit_char(d: nat, upper: bool) -> char {
    if d < 10 {
        (48 + d) as char
    } else if upper {
        (55 + d) as char
    } else {
        (87 + d) as char
    }
}

/// The decimal digits of `n`, most significant first, without leading zeros.
pub open spec fn dec_digits(n: nat) -> Seq<char>
    decreases n,
{
    if n < 10 {
        seq![digit_char(n, true)]
    } else {
        dec_digits(n / 10).push(digit_char(n % 10, true))
    }
}

/// The hexadecimal digits of `n`, most significant first, without leading zeros.
pub open spec fn hex_digits(n: nat, upper: bool) -> Seq<char>
    decreases n,
{
    if n < 16 {
        seq![digit_char(n, upper)]
    } else {
        hex_digits(n / 16, upper).push(digit_char(n % 16, upper))
    }
}

/// The decimal text of an integer: a minus sign for negative values, then the digits.
pub open spec fn int_text(n: int) -> Seq<char> {
    if n < 0 {
        seq!['-'] + dec_digits((-n) as nat)
    } else {
        dec_digits(n as nat)
    }
}

/// Two lowercase hexadecimal digits per byte.
pub open spec fn hex_lower(bytes: Seq<u8>) -> Seq<char>
    decreases bytes.len(),
{
    if bytes.len() == 0 {
        Seq::empty()
    } else {
        hex_lower(bytes.drop_last()) + seq![
            digit_char((bytes.last() / 16) as nat, false),
            digit_char((bytes.last() % 16) as nat, false),
        ]
    }
}

/// The character for digit `d`.
pub fn digit_to_char(d: u8, upper: bool) -> (c: char)
    requires
        d < 16,
    ensures
        c == digit_char(d as nat, upper),
{
    if d < 10 {
        (48u8 + d) as char
    } else if upper {
        (55u8 + d) as char
    } else {
        (87u8 + d) as char
    }
}

fn push_decimal(s: &mut String, n: u64)
    ensures
        final(s)@ == old(s)@ + dec_digits(n as nat),
    decreases n,
{
    if n < 10 {
        let c = digit_to_char(n as u8, true);
        push_char(s, c);
    } else {
        push_decimal(s, n / 10);
        let c = digit_to_char((n % 10) as u8, true);
        push_char(s, c);
    }
}

fn push_hex(s: &mut String, n: u64, upper: bool)
    ensures
        final(s)@ == old(s)@ + hex_digits(n as nat, upper),
    decreases n,
{
    if n < 16 {
        let c = digit_to_char(n as u8, upper);
        push_char(s, c);
    } else {
        push_hex(s, n / 16, upper);
        let c = digit_to_char((n % 16) as u8, upper);
        push_char(s, c);
    }
}

/// The decimal text of `n`.
pub fn u64_to_text(n: u64) -> (r: String)
    ensures
        r@ == dec_digits(n as nat),
{
    let mut s = String::new();
    push_decimal(&mut s, n);
    s
}

/// The decimal text of `n`, with a minus sign when it is negative.
pub fn i64_to_text(n: i64) -> (r: String)
    ensures
        r@ == int_text(n as int),
{
    let mut s = String::new();
    if n < 0 {
        push_char(&mut s, '-');
        let m: u64 = if n == i64::MIN { 0x8000_0000_0000_0000u64 } else { (-n) as u64 };
        push_decimal(&mut s, m);
    } else {
        push_decimal(&mut s, n as u64);
    }
    s
}

/// The hexadecimal text of `n` in the given case.
pub fn u64_to_hex(n: u64, upper: bool) -> (r: String)
    ensures
        r@ == hex_digits(n as nat, upper),
{
    let mut s = String::new();
    push_hex(&mut s, n, upper);
    s
}

/// Lowercase hexadecimal text of a byte string: two digits per byte.
pub fn bytes_to_hex_lower(bytes: &[u8]) -> (r: String)
    ensures
        r@ == hex_lower(bytes@),
{
    let mut s = String::new();
    let mut i: usize = 0;
    while i < bytes.len()
        invariant
            i <= bytes.len(),
            s@ == hex_lower(bytes@.subrange(0, i as int)),
        decreases bytes.len() - i,
    {
        let b = bytes[i];
        let hi = digit_to_char(b / 16, false);
        let lo = digit_to_char(b % 16, false);
        push_char(&mut s, hi);
        push_char(&mut s, lo);
        proof {
            let pre = bytes@.subrange(0, i + 1);
            assert(pre.drop_last() =~= bytes@.subrange(0, i as int));
            assert(pre.last() == b);
        }
        i = i + 1;
    }
    proof {
        assert(bytes@.subrange(0, bytes.len() as int) =~= bytes@);
    }
    s
}

/// The views of a list of strings.
pub open spec fn string_views(v: Seq<String>) -> Seq<Seq<char>> {
    Seq::new(v.len(), |i: int| v[i]@)
}

pub proof fn lemma_chunks_step<A>(s: Seq<A>, size: nat, pos: int)
    requires
        size > 0,
        0 <= pos < s.len(),
    ensures
        seq_chunks(s.skip(pos), size) =~= seq![
            s.subrange(pos, if pos + size <= s.len() { pos + size } else { s.len() as int }),
        ] + seq_chunks(s.skip(if pos + size <= s.len() { pos + size } else { s.len() as int }), size),
{
    let end = if pos + size <= s.len() { pos + size } else { s.len() as int };
    let t = s.skip(pos);
    if t.len() <= size {
        assert(t =~= s.subrange(pos, end));
        assert(s.skip(end).len() == 0);
        assert(seq_chunks(s.skip(end), size) =~= Seq::<Seq<A>>::empty());
    } else {
        assert(t.take(size as int) =~= s.subrange(pos, end));
        assert(t.skip(size as int) =~= s.skip(end));
    }
}

/// The pieces `split_text_chunks` makes: the UTF-8 bytes cut every `size` bytes,
/// each piece read back as text; a size of zero keeps the text whole.
pub open spec fn text_chunks(content: Seq<char>, size: nat) -> Seq<Seq<char>> {
    if size == 0 {
        seq![content]
    } else {
        let pieces = seq_chunks(encode_utf8(content), size);
        Seq::new(pieces.len(), |i: int| lossy_text(pieces[i]))
    }
}

/// Splits the UTF-8 bytes of `content` into pieces of `chunk_size` bytes and reads
/// each piece back as text (invalid sequences become U+FFFD). A chunk size of
/// zero gives the whole text as one piece.
pub fn split_text_chunks(content: &str, chunk_size: usize) -> (r: Vec<String>)
    ensures
        string_views(r@) == text_chunks(content@, chunk_size as nat),
        chunk_size > 0 && is_ascii_chars(content@) ==> string_views(r@) == seq_chunks(content@, chunk_size as nat),
{
    if chunk_size == 0 {
        let mut v: Vec<String> = Vec::new();
        v.push(string_from_str(content));
        proof {
            assert(string_views(v@) =~= seq![content@]);
        }
        return v;
    }
    let bytes = content.as_bytes();
    let ghost all = bytes@;
    let ghost pieces = seq_chunks(all, chunk_size as nat);
    let mut out: Vec<String> = Vec::new();
    let mut pos: usize = 0;
    let ghost mut done: Seq<Seq<u8>> = Seq::empty();
    proof {
        assert(all.skip(0) =~= all);
    }
    while pos < bytes.len()
        invariant
            bytes@ == all,
            all == encode_utf8(content@),
            pieces == seq_chunks(all, chunk_size as nat),
            chunk_size > 0,
            pos <= bytes.len(),
            done + seq_chunks(all.skip(pos as int), chunk_size as nat) == pieces,
            out@.len() == done.len(),
            forall|i: int| 0 <= i < done.len() ==> #[trigger] out@[i]@ == lossy_text(done[i]),
        decreases bytes.len() - pos,
    {
        let end: usize = if bytes.len() - pos >= chunk_size { pos + chunk_size } else { bytes.len() };
        let mut piece: Vec<u8> = Vec::new();
        let mut j: usize = pos;
        while j < end
            invariant
                pos <= j <= end,
                end <= bytes.len(),
                piece@ == bytes@.subrange(pos as int, j as int),
            decreases end - j,
        {
            piece.push(bytes[j]);
            proof {
                assert(piece@ =~= bytes@.subrange(pos as int, j + 1));
            }
            j = j + 1;
        }
        let text = utf8_lossy(piece.as_slice());
        proof {
            lemma_chunks_step(all, chunk_size as nat, pos as int);
            assert((done + seq![piece@]) + seq_chunks(all.skip(end as int), chunk_size as nat)
                =~= done + seq_chunks(all.skip(pos as int), chunk_size as nat));
        }
        out.push(text);
        proof {
            done = done.push(piece@);
        }
        pos = end;
    }
    proof {
        assert(seq_chunks(all.skip(pos as int), chunk_size as nat) =~= Seq::<Seq<u8>>::empty());
        assert(done =~= pieces);
        assert(string_views(out@) =~= text_chunks(content@, chunk_size as nat));
        lemma_text_chunks_ascii(content@, chunk_size as nat);
    }
    out
}

/// ASCII text cut every `size` bytes is cut every `size` characters.
pub proof fn lemma_text_chunks_ascii(content: Seq<char>, size: nat)
    ensures
        size > 0 && is_ascii_chars(content) ==> text_chunks(content, size) == seq_chunks(content, size),
{
    if size > 0 && is_ascii_chars(content) {
        let all = encode_utf8(content);
        vstd::utf8::is_ascii_chars_encode_utf8(content);
        lemma_ascii_chunks(content, all, size);
        let t = text_chunks(content, size);
        assert forall|i: int| 0 <= i < t.len() implies #[trigger] t[i] == seq_chunks(content, size)[i] by {
            let c = seq_chunks(content, size)[i];
            vstd::utf8::encode_utf8_valid_utf8(c);
            vstd::utf8::encode_utf8_decode_utf8(c);
        }
        assert(t =~= seq_chunks(content, size));
    }
}

/// The characters of `s`, in order.
pub fn str_chars(s: &str) -> (r: Vec<char>)
    ensures
        r@ == s@,
{
    let mut out: Vec<char> = Vec::new();
    for c in it: s.chars()
        invariant
            it.seq() == s@,
            out@ == it.seq().take(it.index() as int),
    {
        out.push(c);
    }
    out
}

/// The string made of the given characters.
pub fn string_from_chars(cs: &[char]) -> (r: String)
    ensures
        r@ == cs@,
{
    let mut s = String::new();
    let mut i: usize = 0;
    while i < cs.len()
        invariant
            i <= cs.len(),
            s@ == cs@.take(i as int),
        decreases cs.len() - i,
    {
        push_char(&mut s, cs[i]);
        proof {
            assert(cs@.take(i + 1) =~= cs@.take(i as int).push(cs@[i as int]));
        }
        i = i + 1;
    }
    proof {
        assert(cs@.take(cs.len() as int) =~= cs@);
    }
    s
}

/// Cutting a sequence into pieces loses and adds nothing: the pieces joined in
/// order give the sequence back, and none is longer than the size.
pub proof fn lemma_chunks_join<A>(s: Seq<A>, size: nat)
    requires
        size > 0,
    ensures
        seq_chunks(s, size).flatten() == s,
        forall|i: int| 0 <= i < seq_chunks(s, size).len() ==> #[trigger] seq_chunks(s, size)[i].len() <= size,
    decreases s.len(),
{
    if s.len() == 0 {
    } else if s.len() <= size {
        let c = seq_chunks(s, size);
        assert(c.len() == 1 && c.first() == s);
        c.lemma_flatten_one_element();
    } else {
        let rest = s.skip(size as int);
        lemma_chunks_join(rest, size);
        let c = seq_chunks(s, size);
        assert(c.drop_first() =~= seq_chunks(rest, size));
        assert(s.take(size as int) + rest =~= s);
        assert forall|i: int| 0 <= i < c.len() implies #[trigger] c[i].len() <= size by {
            if i > 0 {
                assert(c[i] == seq_chunks(rest, size)[i - 1]);
            }
        }
    }
}

/// The UTF-8 bytes of joined text are the joined bytes of its parts.
pub proof fn lemma_encode_utf8_concat(a: Seq<char>, b: Seq<char>)
    ensures
        encode_utf8(a + b) == encode_utf8(a) + encode_utf8(b),
    decreases a.len(),
{
    if a.len() == 0 {
        assert(a + b =~= b);
        assert(encode_utf8(a) + encode_utf8(b) =~= encode_utf8(b));
    } else {
        lemma_encode_utf8_concat(a.drop_first(), b);
        assert((a + b).drop_first() =~= a.drop_first() + b);
        assert((a + b)[0] == a[0]);
        let e = vstd::utf8::encode_scalar(a[0] as u32);
        assert(e + (encode_utf8(a.drop_first()) + encode_utf8(b)) =~= (e + encode_utf8(a.drop_first()))
            + encode_utf8(b));
    }
}

} // verus!
