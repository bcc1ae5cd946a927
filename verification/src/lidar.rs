//! The robot's compressed voxel map: LZ4 block decompression, then one bit per
//! voxel, eight voxels along x per byte.
use vstd::prelude::*;

use crate::text::{push_str, string_from_str};

verus! {

/// What `lz4_flex::block::decompress(input, size)` gives: the decompressed bytes,
/// or the text of its error.
pub uninterp spec fn lz4_block(input: Seq<u8>, size: nat) -> Result<Seq<u8>, Seq<char>>;

/// `lz4_flex::block::decompress`: decompresses an LZ4 block into at most `size`
/// bytes (its safe decoder reports an error instead of writing past them); the
/// error is given by its text.
#[verifier::external_body]
fn lz4_decompress(input: &[u8], size: usize) -> (r: Result<Vec<u8>, String>)
    ensures
        match r {
            Ok(v) => lz4_block(input@, size as nat) == Ok::<Seq<u8>, Seq<char>>(v@) && v@.len() <= size,
            Err(e) => lz4_block(input@, size as nat) == Err::<Seq<u8>, Seq<char>>(e@),
        },
{
    lz4_flex::block::decompress(input, size).map_err(|e| e.to_string())
}

/// A voxel's position in the map grid.
pub type VoxelView = (int, int, int);

/// Whether bit `bit` of `b` is set, counting from the most significant (0) to
/// the least (7).
pub open spec fn bit_set(b: u8, bit: int) -> bool {
    0 <= bit < 8 && (b as int / vstd::arithmetic::power2::pow2((7 - bit) as nat) as int) % 2 == 1
}

/// The voxel of bit `bit` of byte `i`: a layer of z is 2048 bytes, a row of y
/// is 16 bytes, and each byte covers 8 voxels along x.
pub open spec fn voxel_of(i: int, bit: int) -> VoxelView {
    let n = i % 2048;
    ((n % 16) * 8 + bit, n / 16, i / 2048)
}

/// The voxels set among the first `k` bits of byte `b` at position `i`.
pub open spec fn byte_voxels(b: u8, i: int, k: int) -> Seq<VoxelView>
    decreases k,
{
    if k <= 0 {
        Seq::empty()
    } else if bit_set(b, k - 1) {
        byte_voxels(b, i, k - 1).push(voxel_of(i, k - 1))
    } else {
        byte_voxels(b, i, k - 1)
    }
}

/// The voxels set in a map, byte by byte, each byte from its most significant bit.
pub open spec fn map_voxels(bytes: Seq<u8>) -> Seq<VoxelView>
    decreases bytes.len(),
{
    if bytes.len() == 0 {
        Seq::empty()
    } else {
        map_voxels(bytes.drop_last()) + byte_voxels(bytes.last(), bytes.len() - 1, 8)
    }
}

/// The positions of a list of voxels.
pub open spec fn voxels_view(v: Seq<(usize, usize, usize)>) -> Seq<VoxelView> {
    Seq::new(v.len(), |i: int| (v[i].0 as int, v[i].1 as int, v[i].2 as int))
}

proof fn lemma_bit(b: u8, bit: u32)
    requires
        bit < 8,
    ensures
        ((b & (1u8 << (7 - bit) as u8)) != 0) == bit_set(b, bit as int),
{
    let s: u8 = (7 - bit) as u8;
    vstd::arithmetic::power2::lemma2_to64();
    assert(((b & (1u8 << s)) != 0) == ((b >> s) & 1u8 == 1u8)) by (bit_vector)
        requires
            s < 8,
    ;
    assert((b >> s) == b / (1u8 << s)) by (bit_vector)
        requires
            s < 8,
    ;
    assert(((b >> s) & 1u8) == (b >> s) % 2) by (bit_vector);
    assert((1u8 << s) as int == vstd::arithmetic::power2::pow2(s as nat)) by {
        if s == 0 {
            assert(1u8 << 0u8 == 1) by (bit_vector);
        } else if s == 1 {
            assert(1u8 << 1u8 == 2) by (bit_vector);
        } else if s == 2 {
            assert(1u8 << 2u8 == 4) by (bit_vector);
        } else if s == 3 {
            assert(1u8 << 3u8 == 8) by (bit_vector);
        } else if s == 4 {
            assert(1u8 << 4u8 == 16) by (bit_vector);
        } else if s == 5 {
            assert(1u8 << 5u8 == 32) by (bit_vector);
        } else if s == 6 {
            assert(1u8 << 6u8 == 64) by (bit_vector);
        } else {
            assert(1u8 << 7u8 == 128) by (bit_vector);
        }
    }
}

/// The voxels set in a decompressed map.
pub fn voxels_of_map(bytes: &[u8]) -> (r: Vec<(usize, usize, usize)>)
    ensures
        voxels_view(r@) == map_voxels(bytes@),
{
    let mut points: Vec<(usize, usize, usize)> = Vec::new();
    let mut i: usize = 0;
    while i < bytes.len()
        invariant
            i <= bytes@.len(),
            voxels_view(points@) == map_voxels(bytes@.take(i as int)),
        decreases bytes.len() - i,
    {
        let byte = bytes[i];
        let ghost before = points@;
        proof {
            assert(bytes@.take(i + 1).drop_last() =~= bytes@.take(i as int));
            assert(bytes@.take(i + 1).last() == byte);
        }
        if byte != 0 {
            let z = i / 0x800;
            let n_slice = i % 0x800;
            let y = n_slice / 0x10;
            let x_base = (n_slice % 0x10) * 8;
            let mut bit: u32 = 0;
            while bit < 8
                invariant
                    bit <= 8,
                    i < bytes@.len(),
                    byte == bytes@[i as int],
                    z == i / 2048,
                    y == (i % 2048) / 16,
                    x_base == ((i % 2048) % 16) * 8,
                    voxels_view(points@) == voxels_view(before) + byte_voxels(byte, i as int, bit as int),
                decreases 8 - bit,
            {
                proof {
                    lemma_bit(byte, bit);
                }
                let ghost pre = points@;
                if (byte & (1u8 << (7 - bit) as u8)) != 0 {
                    let x = x_base + bit as usize;
                    points.push((x, y, z));
                    proof {
                        assert(voxels_view(points@) =~= voxels_view(pre).push((x as int, y as int, z as int)));
                    }
                }
                bit = bit + 1;
            }
        } else {
            proof {
                assert forall|k: int| 0 <= k <= 8 implies #[trigger] byte_voxels(byte, i as int, k) == Seq::<VoxelView>::empty() by {
                    lemma_zero_byte(i as int, k);
                }
            }
        }
        proof {
            assert(voxels_view(points@) =~= map_voxels(bytes@.take(i + 1)));
        }
        i = i + 1;
    }
    proof {
        assert(bytes@.take(bytes@.len() as int) =~= bytes@);
    }
    points
}

proof fn lemma_zero_byte(i: int, k: int)
    requires
        0 <= k <= 8,
    ensures
        byte_voxels(0u8, i, k) == Seq::<VoxelView>::empty(),
    decreases k,
{
    if k > 0 {
        lemma_zero_byte(i, k - 1);
        let e = (7 - (k - 1)) as nat;
        vstd::arithmetic::power2::lemma_pow2_pos(e);
        let p = vstd::arithmetic::power2::pow2(e) as int;
        assert(0int / p == 0) by (nonlinear_arith)
            requires
                p > 0,
        ;
        assert(!bit_set(0u8, k - 1));
    }
}

proof fn lemma_bit_mask(b: u8, bit: int)
    requires
        0 <= bit < 8,
    ensures
        (b & (0x80u8 >> bit as u8) != 0) == bit_set(b, bit),
{
    let k = bit as u32;
    lemma_bit(b, k);
    let s: u8 = (7 - k) as u8;
    let t: u8 = bit as u8;
    assert(1u8 << s == 0x80u8 >> t) by (bit_vector)
        requires
            t < 8,
            s == 7 - t,
    ;
}

proof fn lemma_byte_voxels_members(b: u8, i: int, k: int)
    requires
        0 <= k <= 8,
    ensures
        forall|bit: int| 0 <= bit < k && #[trigger] bit_set(b, bit) ==> byte_voxels(b, i, k).contains(voxel_of(i, bit)),
        forall|v: VoxelView|
            #[trigger] byte_voxels(b, i, k).contains(v) ==> exists|bit: int|
                0 <= bit < k && bit_set(b, bit) && v == #[trigger] voxel_of(i, bit),
    decreases k,
{
    if k > 0 {
        lemma_byte_voxels_members(b, i, k - 1);
        let prev = byte_voxels(b, i, k - 1);
        let cur = byte_voxels(b, i, k);
        assert forall|bit: int| 0 <= bit < k && #[trigger] bit_set(b, bit) implies cur.contains(voxel_of(i, bit)) by {
            if bit < k - 1 {
                let j = choose|j: int| 0 <= j < prev.len() && prev[j] == voxel_of(i, bit);
                if bit_set(b, k - 1) {
                    assert(cur[j] == prev[j]);
                }
            } else {
                assert(cur[cur.len() - 1] == voxel_of(i, bit));
            }
        }
        assert forall|v: VoxelView| #[trigger] cur.contains(v) implies exists|bit: int|
            0 <= bit < k && bit_set(b, bit) && v == #[trigger] voxel_of(i, bit) by {
            let j = choose|j: int| 0 <= j < cur.len() && cur[j] == v;
            if bit_set(b, k - 1) && j == cur.len() - 1 {
                assert(v == voxel_of(i, k - 1));
            } else {
                assert(prev.contains(v)) by {
                    assert(prev[j] == v);
                }
            }
        }
    }
}

proof fn lemma_map_voxels_members(bytes: Seq<u8>)
    ensures
        forall|i: int, bit: int|
            0 <= i < bytes.len() && 0 <= bit < 8 && #[trigger] bit_set(bytes[i], bit) ==> map_voxels(bytes).contains(
                #[trigger] voxel_of(i, bit),
            ),
        forall|v: VoxelView|
            #[trigger] map_voxels(bytes).contains(v) ==> exists|i: int, bit: int|
                0 <= i < bytes.len() && 0 <= bit < 8 && bit_set(bytes[i], bit) && v == #[trigger] voxel_of(i, bit),
    decreases bytes.len(),
{
    if bytes.len() > 0 {
        let init = bytes.drop_last();
        let n = bytes.len() - 1;
        lemma_map_voxels_members(init);
        lemma_byte_voxels_members(bytes.last(), n, 8);
        let a = map_voxels(init);
        let c = byte_voxels(bytes.last(), n, 8);
        let all = map_voxels(bytes);
        assert(all == a + c);
        assert forall|i: int, bit: int|
            0 <= i < bytes.len() && 0 <= bit < 8 && #[trigger] bit_set(bytes[i], bit) implies all.contains(
                #[trigger] voxel_of(i, bit),
            ) by {
            if i < n {
                assert(bytes[i] == init[i]);
                assert(bit_set(init[i], bit));
                let j = choose|j: int| 0 <= j < a.len() && a[j] == voxel_of(i, bit);
                assert(all[j] == a[j]);
            } else {
                assert(bit_set(bytes.last(), bit));
                assert(c.contains(voxel_of(n, bit)));
                let j = choose|j: int| 0 <= j < c.len() && c[j] == voxel_of(n, bit);
                assert(all[a.len() + j] == c[j]);
            }
        }
        assert forall|v: VoxelView| #[trigger] all.contains(v) implies exists|i: int, bit: int|
            0 <= i < bytes.len() && 0 <= bit < 8 && bit_set(bytes[i], bit) && v == #[trigger] voxel_of(i, bit) by {
            let j = choose|j: int| 0 <= j < all.len() && all[j] == v;
            if j < a.len() {
                assert(a[j] == v);
                assert(a.contains(v));
                let (i, bit) = choose|i: int, bit: int|
                    0 <= i < init.len() && 0 <= bit < 8 && bit_set(init[i], bit) && v == #[trigger] voxel_of(i, bit);
                assert(bytes[i] == init[i]);
            } else {
                assert(c[j - a.len()] == v);
                assert(c.contains(v));
                let bit = choose|bit: int| 0 <= bit < 8 && bit_set(bytes.last(), bit) && v == #[trigger] voxel_of(n, bit);
                assert(bytes[n] == bytes.last());
            }
        }
    }
}

/// The voxels of a map are exactly its set bits: bit `bit` (0 the most
/// significant) of byte `i` is set if and only if the voxel at
/// x = (i mod 2048) mod 16 * 8 + bit, y = (i mod 2048) / 16 (0 to 127),
/// z = i / 2048 is among the voxels.
pub proof fn lemma_map_voxels_are_set_bits(bytes: Seq<u8>)
    ensures
        forall|i: int, bit: int|
            0 <= i < bytes.len() && 0 <= bit < 8 && #[trigger] (bytes[i] & (0x80u8 >> bit as u8)) != 0
                ==> map_voxels(bytes).contains(((i % 2048) % 16 * 8 + bit, (i % 2048) / 16, i / 2048)),
        forall|v: VoxelView|
            #[trigger] map_voxels(bytes).contains(v) ==> exists|i: int, bit: int|
                0 <= i < bytes.len() && 0 <= bit < 8 && #[trigger] (bytes[i] & (0x80u8 >> bit as u8)) != 0 && v == (
                    (i % 2048) % 16 * 8 + bit,
                    (i % 2048) / 16,
                    i / 2048,
                ),
{
    lemma_map_voxels_members(bytes);
    assert forall|i: int, bit: int|
        0 <= i < bytes.len() && 0 <= bit < 8 && #[trigger] (bytes[i] & (0x80u8 >> bit as u8)) != 0
            implies map_voxels(bytes).contains(((i % 2048) % 16 * 8 + bit, (i % 2048) / 16, i / 2048)) by {
        lemma_bit_mask(bytes[i], bit);
        assert(map_voxels(bytes).contains(voxel_of(i, bit)));
    }
    assert forall|v: VoxelView| #[trigger] map_voxels(bytes).contains(v) implies exists|i: int, bit: int|
        0 <= i < bytes.len() && 0 <= bit < 8 && #[trigger] (bytes[i] & (0x80u8 >> bit as u8)) != 0 && v == (
            (i % 2048) % 16 * 8 + bit,
            (i % 2048) / 16,
            i / 2048,
        ) by {
        let (i, bit) = choose|i: int, bit: int|
            0 <= i < bytes.len() && 0 <= bit < 8 && bit_set(bytes[i], bit) && v == #[trigger] voxel_of(i, bit);
        lemma_bit_mask(bytes[i], bit);
    }
}

/// The voxels of a compressed map: the map is LZ4-decompressed into at most
/// `src_size` bytes, then read bit by bit; a map that does not decompress is an
/// error that says why.
pub fn decode_native_core(compressed_data: &[u8], src_size: usize) -> (r: Result<Vec<(usize, usize, usize)>, String>)
    ensures
        match lz4_block(compressed_data@, src_size as nat) {
            Ok(bytes) => r is Ok && voxels_view(r->Ok_0@) == map_voxels(bytes),
            Err(e) => r is Err && r->Err_0@ == "LZ4 decomp failed: "@ + e,
        },
{
    match lz4_decompress(compressed_data, src_size) {
        Ok(decompressed) => Ok(voxels_of_map(decompressed.as_slice())),
        Err(e) => {
            let mut msg = string_from_str("LZ4 decomp failed: ");
            push_str(&mut msg, e.as_str());
            Err(msg)
        },
    }
}

/// Which lidar decoder to use: `native` (the bit reader above) or `libvoxel`.
pub struct UnifiedLidarDecoder {
    decoder_type: String,
}

impl UnifiedLidarDecoder {
    /// The decoder's name.
    pub closed spec fn decoder(&self) -> Seq<char> {
        self.decoder_type@
    }

    /// The native decoder.
    pub fn new() -> (r: Self)
        ensures
            r.decoder() == "native"@,
    {
        UnifiedLidarDecoder { decoder_type: string_from_str("native") }
    }

    /// Chooses `native` or `libvoxel`; any other name is an error and changes
    /// nothing.
    pub fn set_decoder(&mut self, decoder: &str) -> (r: Result<(), String>)
        ensures
            (decoder@ == "native"@ || decoder@ == "libvoxel"@) ==> r is Ok && final(self).decoder() == decoder@,
            !(decoder@ == "native"@ || decoder@ == "libvoxel"@) ==> r is Err && r->Err_0@
                == "Invalid decoder type. Must be 'native' or 'libvoxel'."@ && final(self).decoder() == old(
                self,
            ).decoder(),
    {
        if !crate::text::str_equal(decoder, "native") && !crate::text::str_equal(decoder, "libvoxel") {
            return Err(string_from_str("Invalid decoder type. Must be 'native' or 'libvoxel'."));
        }
        self.decoder_type = string_from_str(decoder);
        Ok(())
    }

    /// The decoder's name.
    pub fn decoder_type(&self) -> (r: &str)
        ensures
            r@ == self.decoder(),
    {
        self.decoder_type.as_str()
    }
}

} // verus!
