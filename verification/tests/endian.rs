use fs_syscall::endian::{append_le, decode, encode};

#[test]
fn least_significant_byte_comes_first() {
    assert_eq!(encode(0x0102030405060708, 8), vec![8, 7, 6, 5, 4, 3, 2, 1]);
    assert_eq!(encode(0x0102030405060708, 4), vec![8, 7, 6, 5]);
    assert_eq!(encode(7, 0), Vec::<u8>::new());
}

#[test]
fn decode_reads_a_field() {
    let bytes = [0xff, 1, 2, 0, 0xff];
    assert_eq!(decode(&bytes, 1, 3), 0x0201);
    assert_eq!(decode(&bytes, 5, 0), 0);
    assert_eq!(decode(&[0xff; 8], 0, 8), u64::MAX);
}

#[test]
fn every_value_comes_back() {
    for value in [0u64, 1, 255, 256, 0xdead_beef, u64::MAX] {
        assert_eq!(decode(&encode(value, 8), 0, 8), value);
    }
    let bytes = [3u8, 0, 9, 200, 1, 2, 3, 255];
    assert_eq!(encode(decode(&bytes, 0, 8), 8), bytes.to_vec());
}

#[test]
fn append_keeps_what_is_there() {
    let mut bytes = vec![42u8];
    append_le(&mut bytes, 0x0a0b, 2);
    assert_eq!(bytes, vec![42, 0x0b, 0x0a]);
}
