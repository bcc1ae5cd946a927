//! The framing of binary data-channel messages: a small header, a JSON part and
//! a binary payload.
use vstd::prelude::*;

use crate::text::string_from_str;

verus! {

/// A binary message taken apart: whether it is a lidar frame, the bytes of its
/// JSON part, and the binary payload after it.
#[derive(Debug, Clone, PartialEq, Eq)]
pub struct ParsedMessage {
    pub is_lidar: bool,
    pub json_text: Vec<u8>,
    pub binary_data: Vec<u8>,
}

/// The little-endian 16-bit number at `i`.
pub open spec fn le16(b: Seq<u8>, i: int) -> int {
    b[i] as int + 256 * (b[i + 1] as int)
}

/// The little-endian 32-bit number at `i`.
pub open spec fn le32(b: Seq<u8>, i: int) -> int {
    b[i] as int + 256 * (b[i + 1] as int) + 65536 * (b[i + 2] as int) + 16777216 * (b[i + 3] as int)
}

/// A frame's parts: lidar flag, JSON bytes, payload.
pub type FrameParts = (bool, Seq<u8>, Seq<u8>);

/// An ordinary frame: a 16-bit JSON length, two reserved bytes, the JSON, the payload.
pub open spec fn normal_frame(b: Seq<u8>) -> Result<FrameParts, Seq<char>> {
    if b.len() < 4 {
        Err("Buffer too small for normal header"@)
    } else if b.len() < 4 + le16(b, 0) {
        Err("Buffer too small for normal json data"@)
    } else {
        Ok((false, b.subrange(4, 4 + le16(b, 0)), b.skip(4 + le16(b, 0))))
    }
}

/// A lidar frame after its marker: a 32-bit JSON length, four reserved bytes, the
/// JSON, the payload.
pub open spec fn lidar_frame(b: Seq<u8>) -> Result<FrameParts, Seq<char>> {
    if b.len() < 8 {
        Err("Buffer too small for lidar header"@)
    } else if b.len() < 8 + le32(b, 0) {
        Err("Buffer too small for lidar json data"@)
    } else {
        Ok((true, b.subrange(8, 8 + le32(b, 0)), b.skip(8 + le32(b, 0))))
    }
}

/// A message: a lidar frame when it starts with the 16-bit numbers 2 and 0, an
/// ordinary frame otherwise.
pub open spec fn frame_of(buf: Seq<u8>) -> Result<FrameParts, Seq<char>> {
    if buf.len() < 4 {
        Err("Buffer too small to contain header"@)
    } else if le16(buf, 0) == 2 && le16(buf, 2) == 0 {
        lidar_frame(buf.skip(4))
    } else {
        normal_frame(buf)
    }
}

/// The parts of a parsed message.
pub open spec fn parts_of(p: ParsedMessage) -> FrameParts {
    (p.is_lidar, p.json_text@, p.binary_data@)
}

/// The view of a framing result.
pub open spec fn frame_result(r: Result<ParsedMessage, String>) -> Result<FrameParts, Seq<char>> {
    match r {
        Ok(p) => Ok(parts_of(p)),
        Err(e) => Err(e@),
    }
}

fn read_le16(buffer: &[u8], i: usize) -> (r: usize)
    requires
        i + 1 < buffer@.len(),
    ensures
        r == le16(buffer@, i as int),
{
    buffer[i] as usize + 256 * (buffer[i + 1] as usize)
}

fn read_le32(buffer: &[u8], i: usize) -> (r: u64)
    requires
        i + 3 < buffer@.len(),
    ensures
        r == le32(buffer@, i as int),
{
    buffer[i] as u64 + 256 * (buffer[i + 1] as u64) + 65536 * (buffer[i + 2] as u64) + 16777216 * (
    buffer[i + 3] as u64)
}

fn copy_range(buffer: &[u8], from: usize, to: usize) -> (r: Vec<u8>)
    requires
        from <= to <= buffer@.len(),
    ensures
        r@ == buffer@.subrange(from as int, to as int),
{
    vstd::slice::slice_to_vec(vstd::slice::slice_subrange(buffer, from, to))
}

/// Splits a binary data-channel message into its JSON part and its payload.
pub fn parse_array_buffer(buffer: &[u8]) -> (r: Result<ParsedMessage, String>)
    ensures
        frame_result(r) == frame_of(buffer@),
{
    if buffer.len() < 4 {
        return Err(string_from_str("Buffer too small to contain header"));
    }
    let header_1 = read_le16(buffer, 0);
    let header_2 = read_le16(buffer, 2);
    if header_1 == 2 && header_2 == 0 {
        let rest = vstd::slice::slice_subrange(buffer, 4, buffer.len());
        proof {
            assert(rest@ =~= buffer@.skip(4));
        }
        parse_for_lidar(rest)
    } else {
        parse_for_normal(buffer)
    }
}

fn parse_for_normal(buffer: &[u8]) -> (r: Result<ParsedMessage, String>)
    ensures
        frame_result(r) == normal_frame(buffer@),
{
    if buffer.len() < 4 {
        return Err(string_from_str("Buffer too small for normal header"));
    }
    let header_length = read_le16(buffer, 0);
    if buffer.len() < 4 + header_length {
        return Err(string_from_str("Buffer too small for normal json data"));
    }
    let json_text = copy_range(buffer, 4, 4 + header_length);
    let binary_data = copy_range(buffer, 4 + header_length, buffer.len());
    proof {
        assert(binary_data@ =~= buffer@.skip(4 + header_length));
    }
    Ok(ParsedMessage { is_lidar: false, json_text, binary_data })
}

fn parse_for_lidar(buffer: &[u8]) -> (r: Result<ParsedMessage, String>)
    ensures
        frame_result(r) == lidar_frame(buffer@),
{
    if buffer.len() < 8 {
        return Err(string_from_str("Buffer too small for lidar header"));
    }
    let header_length = read_le32(buffer, 0);
    if (buffer.len() as u64) < 8 + header_length {
        return Err(string_from_str("Buffer too small for lidar json data"));
    }
    let end = 8 + header_length as usize;
    let json_text = copy_range(buffer, 8, end);
    let binary_data = copy_range(buffer, end, buffer.len());
    proof {
        assert(binary_data@ =~= buffer@.skip(end as int));
    }
    Ok(ParsedMessage { is_lidar: true, json_text, binary_data })
}

/// The bytes of an ordinary frame: the JSON length in 16 bits, two zero bytes,
/// the JSON, the payload.
pub open spec fn normal_frame_bytes(json: Seq<u8>, payload: Seq<u8>) -> Seq<u8> {
    seq![(json.len() % 256) as u8, (json.len() / 256) as u8, 0u8, 0u8] + json + payload
}

/// The bytes of a lidar frame: the marker (the 16-bit numbers 2 and 0), the JSON
/// length in 32 bits, four zero bytes, the JSON, the payload.
pub open spec fn lidar_frame_bytes(json: Seq<u8>, payload: Seq<u8>) -> Seq<u8> {
    let n = json.len();
    seq![
        2u8, 0u8, 0u8, 0u8,
        (n % 256) as u8, ((n / 256) % 256) as u8, ((n / 65536) % 256) as u8, (n / 16777216) as u8,
        0u8, 0u8, 0u8, 0u8,
    ] + json + payload
}

/// An ordinary frame reads back as the JSON and payload it was made of, unless
/// its JSON is two bytes long: such a frame starts like a lidar marker.
pub proof fn lemma_normal_frame_roundtrip(json: Seq<u8>, payload: Seq<u8>)
    requires
        json.len() < 65536,
        json.len() != 2,
    ensures
        frame_of(normal_frame_bytes(json, payload)) == Ok::<FrameParts, Seq<char>>((false, json, payload)),
{
    let b = normal_frame_bytes(json, payload);
    let n = json.len();
    assert(b[0] == (n % 256) as u8 && b[1] == (n / 256) as u8);
    assert(le16(b, 0) == n) by (nonlinear_arith)
        requires
            b[0] as int == n % 256,
            b[1] as int == n / 256,
            le16(b, 0) == b[0] as int + 256 * (b[1] as int),
            n < 65536,
    ;
    assert(b.subrange(4, 4 + n as int) =~= json);
    assert(b.skip(4 + n as int) =~= payload);
}

/// A lidar frame reads back as the JSON and payload it was made of.
pub proof fn lemma_lidar_frame_roundtrip(json: Seq<u8>, payload: Seq<u8>)
    requires
        json.len() <= u32::MAX,
    ensures
        frame_of(lidar_frame_bytes(json, payload)) == Ok::<FrameParts, Seq<char>>((true, json, payload)),
{
    let b = lidar_frame_bytes(json, payload);
    let n = json.len() as int;
    let rest = b.skip(4);
    assert(le16(b, 0) == 2 && le16(b, 2) == 0);
    assert(rest[0] as int == n % 256 && rest[1] as int == (n / 256) % 256);
    assert(rest[2] as int == (n / 65536) % 256 && rest[3] as int == n / 16777216);
    assert(le32(rest, 0) == n) by (nonlinear_arith)
        requires
            rest[0] as int == n % 256,
            rest[1] as int == (n / 256) % 256,
            rest[2] as int == (n / 65536) % 256,
            rest[3] as int == n / 16777216,
            le32(rest, 0) == rest[0] as int + 256 * (rest[1] as int) + 65536 * (rest[2] as int) + 16777216 * (
            rest[3] as int),
            0 <= n <= 4294967295,
    ;
    assert(rest.subrange(8, 8 + n) =~= json);
    assert(rest.skip(8 + n) =~= payload);
}

} // verus!
