use ambient_indexer::abi_util::{parse_i32, parse_u128, parse_u64};

fn slot_with_tail(tail: &[u8]) -> Vec<u8> {
    let mut slot = vec![0u8; 32 - tail.len()];
    slot.extend_from_slice(tail);
    slot
}

#[test]
fn parse_u64_reads_the_last_eight_bytes_big_endian() {
    let slot = slot_with_tail(&[0x01, 0x02, 0x03, 0x04, 0x05, 0x06, 0x07, 0x08]);
    assert_eq!(parse_u64(&slot, 0), 0x0102030405060708u64);
}

#[test]
fn parse_u64_ignores_the_bytes_before_its_field() {
    let mut slot = vec![0xffu8; 24];
    slot.extend_from_slice(&[0, 0, 0, 0, 0, 0, 0, 7]);
    assert_eq!(parse_u64(&slot, 0), 7);
}

#[test]
fn parse_u128_reads_the_last_sixteen_bytes_big_endian() {
    let mut tail = [0u8; 16];
    tail[0] = 0x80;
    tail[15] = 0x01;
    let slot = slot_with_tail(&tail);
    assert_eq!(parse_u128(&slot, 0), (1u128 << 127) + 1);
}

#[test]
fn parse_u128_reads_the_slot_at_the_given_start() {
    let mut data = slot_with_tail(&[9]);
    data.extend_from_slice(&slot_with_tail(&[1, 0]));
    assert_eq!(parse_u128(&data, 0), 9);
    assert_eq!(parse_u128(&data, 32), 256);
}

#[test]
fn parse_i32_reads_negative_ticks() {
    let slot = vec![0xffu8; 32];
    assert_eq!(parse_i32(&slot, 0), -1);
    let mut slot = vec![0xffu8; 28];
    slot.extend_from_slice(&[0xff, 0xff, 0xff, 0xf6]);
    assert_eq!(parse_i32(&slot, 0), -10);
}

#[test]
fn parse_i32_reads_the_extremes() {
    let slot = slot_with_tail(&[0x7f, 0xff, 0xff, 0xff]);
    assert_eq!(parse_i32(&slot, 0), i32::MAX);
    let slot = slot_with_tail(&[0x80, 0x00, 0x00, 0x00]);
    assert_eq!(parse_i32(&slot, 0), i32::MIN);
}
