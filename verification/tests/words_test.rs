use gltf_opt::words::{negate, read_record, read_word, write_record, write_word, Vec3};

#[test]
fn read_word_is_little_endian() {
    let data = [0x78u8, 0x56, 0x34, 0x12, 0xff];
    assert_eq!(read_word(&data, 0), 0x1234_5678);
    assert_eq!(read_word(&data, 1), 0xff12_3456);
}

#[test]
fn write_word_is_little_endian() {
    let mut data = vec![0u8; 6];
    write_word(&mut data, 1, 0xdead_beef);
    assert_eq!(data, vec![0, 0xef, 0xbe, 0xad, 0xde, 0]);
}

#[test]
fn word_round_trip_at_the_extremes() {
    for w in [0u32, 1, 255, 256, 0x7fff_ffff, 0x8000_0000, u32::MAX] {
        let mut data = vec![0xaau8; 8];
        write_word(&mut data, 2, w);
        assert_eq!(read_word(&data, 2), w);
        assert_eq!(&data[..2], &[0xaa, 0xaa]);
        assert_eq!(&data[6..], &[0xaa, 0xaa]);
    }
}

#[test]
fn words_agree_with_the_float_encoding_of_std() {
    let v = 3.5f32;
    let bytes = v.to_le_bytes();
    assert_eq!(read_word(&bytes, 0), v.to_bits());
    let mut out = vec![0u8; 4];
    write_word(&mut out, 0, (-0.25f32).to_bits());
    assert_eq!(out, (-0.25f32).to_le_bytes().to_vec());
}

#[test]
fn record_round_trip() {
    let mut data = vec![9u8; 16];
    let r = Vec3 { x: 1, y: 0x0102_0304, z: u32::MAX };
    write_record(&mut data, 3, r);
    assert_eq!(read_record(&data, 3), r);
    assert_eq!(&data[..3], &[9, 9, 9]);
    assert_eq!(data[15], 9);
    assert_eq!(&data[3..7], &[1, 0, 0, 0]);
    assert_eq!(&data[7..11], &[4, 3, 2, 1]);
}

#[test]
fn negate_flips_the_sign_only() {
    assert_eq!(negate(1.5f32.to_bits()), (-1.5f32).to_bits());
    assert_eq!(negate((-2.0f32).to_bits()), 2.0f32.to_bits());
    assert_eq!(negate(0.0f32.to_bits()), (-0.0f32).to_bits());
    assert_eq!(negate(f32::INFINITY.to_bits()), f32::NEG_INFINITY.to_bits());
    assert_eq!(negate(negate(0x1234_5678)), 0x1234_5678);
}
