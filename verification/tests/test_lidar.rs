use lz4_flex::block::compress;
use unitree_webrtc_connect_rs::lidar::{decode_native_core, voxels_of_map, UnifiedLidarDecoder};

fn to_points(voxels: &[(usize, usize, usize)], origin: [f64; 3], resolution: f64) -> Vec<[f64; 3]> {
    voxels
        .iter()
        .map(|&(x, y, z)| {
            [
                (x as f64) * resolution + origin[0],
                (y as f64) * resolution + origin[1],
                (z as f64) * resolution + origin[2],
            ]
        })
        .collect()
}

#[test]
fn test_native_decoder_core() {
    let mut uncompressed = vec![0u8; 0x800 * 2];
    uncompressed[0] = 0b1000_0000;

    let compressed = compress(&uncompressed);

    let origin = [1.0, 2.0, 3.0];
    let resolution = 0.05;

    let result = decode_native_core(&compressed, uncompressed.len());
    assert!(result.is_ok());

    let points = to_points(&result.unwrap(), origin, resolution);
    assert_eq!(points.len(), 1);

    let p = points[0];
    assert!((p[0] - 1.0).abs() < f64::EPSILON);
    assert!((p[1] - 2.0).abs() < f64::EPSILON);
    assert!((p[2] - 3.0).abs() < f64::EPSILON);
}

#[test]
fn test_native_decoder_core_invalid_lz4() {
    let compressed: Vec<u8> = vec![1, 2, 3, 4, 5];
    let result = decode_native_core(&compressed, 100);
    assert!(result.is_err());
    assert!(result.unwrap_err().starts_with("LZ4 decomp failed: "));
}

#[test]
fn test_voxel_positions_follow_layout() {
    let mut map = vec![0u8; 0x800 * 2];
    // Byte 2048 + 17: z = 1, y = 1, x from (17 % 16) * 8 = 8; bits 3 and 7 set.
    map[0x800 + 17] = 0b0001_0001;
    // Byte 5: z = 0, y = 0, x from 40; the top bit set.
    map[5] = 0b1000_0000;
    let voxels = voxels_of_map(&map);
    assert_eq!(voxels, vec![(40, 0, 0), (11, 1, 1), (15, 1, 1)]);
}

#[test]
fn test_voxels_of_empty_map() {
    assert!(voxels_of_map(&[0u8; 64]).is_empty());
    assert!(voxels_of_map(&[]).is_empty());
}

#[test]
fn test_unified_decoder_choice() {
    let mut d = UnifiedLidarDecoder::new();
    assert_eq!(d.decoder_type(), "native");
    d.set_decoder("libvoxel").unwrap();
    assert_eq!(d.decoder_type(), "libvoxel");
    let err = d.set_decoder("other").unwrap_err();
    assert_eq!(err, "Invalid decoder type. Must be 'native' or 'libvoxel'.");
    assert_eq!(d.decoder_type(), "libvoxel");
}
