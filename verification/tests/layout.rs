use hapr::layout::{read_block, read_i64, read_le, write_bytes, write_i64, write_le};

#[test]
fn u64_fields_are_little_endian() {
    let mut out = Vec::new();
    write_le(&mut out, 0x0102_0304_0506_0708, 8);
    assert_eq!(out, vec![8, 7, 6, 5, 4, 3, 2, 1]);
    assert_eq!(out, 0x0102_0304_0506_0708u64.to_le_bytes().to_vec());
    assert_eq!(read_le(&out, 0, 8), 0x0102_0304_0506_0708);
}

#[test]
fn u32_fields_are_little_endian() {
    let mut out = vec![0xaa];
    write_le(&mut out, 178, 4);
    assert_eq!(out, vec![0xaa, 178, 0, 0, 0]);
    assert_eq!(read_le(&out, 1, 4), 178);
    assert_eq!(read_le(&[0xff, 0xff, 0xff, 0xff], 0, 4), u32::MAX as u64);
}

#[test]
fn extreme_u64_values_survive() {
    for value in [0u64, 1, 255, 256, u64::MAX - 1, u64::MAX] {
        let mut out = Vec::new();
        write_le(&mut out, value, 8);
        assert_eq!(out, value.to_le_bytes().to_vec());
        assert_eq!(read_le(&out, 0, 8), value);
    }
}

#[test]
fn signed_fields_use_twos_complement() {
    for value in [0i64, 1, -1, -2, 86_400, i64::MAX, i64::MIN, i64::MIN + 1] {
        let mut out = Vec::new();
        write_i64(&mut out, value);
        assert_eq!(out, value.to_le_bytes().to_vec());
        assert_eq!(read_i64(&out, 0), value);
    }
}

#[test]
fn zero_width_reads_nothing() {
    assert_eq!(read_le(&[1, 2, 3], 3, 0), 0);
    let mut out = vec![1];
    write_le(&mut out, 77, 0);
    assert_eq!(out, vec![1]);
}

#[test]
fn blocks_and_bytes_are_copied_as_they_are() {
    let data: Vec<u8> = (0u8..40).collect();
    let block = read_block(&data, 5);
    assert_eq!(block.to_vec(), (5u8..37).collect::<Vec<u8>>());
    let mut out = vec![9];
    write_bytes(&mut out, &block);
    assert_eq!(out.len(), 33);
    assert_eq!(out[1..], block[..]);
}
