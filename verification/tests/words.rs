use ambient_indexer::types::{parse_address, parse_uint256, write_be, Address, U256};

fn hex(text: &str) -> Vec<u8> {
    let digits: Vec<u8> = text
        .bytes()
        .map(|c| match c {
            b'0'..=b'9' => c - b'0',
            b'a'..=b'f' => c - b'a' + 10,
            b'A'..=b'F' => c - b'A' + 10,
            _ => panic!("not a hexadecimal digit"),
        })
        .collect();
    digits.chunks(2).map(|pair| pair[0] * 16 + pair[1]).collect()
}

#[test]
fn u256_from_be_bytes_reads_all_32_bytes() {
    let mut bytes = vec![0u8; 32];
    bytes[0] = 0x01;
    bytes[15] = 0x02;
    bytes[16] = 0x03;
    bytes[31] = 0x04;
    let v = U256::from_be_bytes(&bytes);
    assert_eq!(v.hi, (1u128 << 120) + 2);
    assert_eq!(v.lo, (3u128 << 120) + 4);
}

#[test]
fn u256_from_be_bytes_takes_short_input_as_a_small_number() {
    assert_eq!(U256::from_be_bytes(&[]), U256 { hi: 0, lo: 0 });
    assert_eq!(U256::from_be_bytes(&[0x12, 0x34]), U256 { hi: 0, lo: 0x1234 });
    let seventeen = hex("0102030405060708090a0b0c0d0e0f1011");
    assert_eq!(
        U256::from_be_bytes(&seventeen),
        U256 { hi: 0x01, lo: 0x02030405060708090a0b0c0d0e0f1011 }
    );
}

#[test]
fn u256_from_be_bytes_ignores_what_follows_the_first_32_bytes() {
    let mut bytes = vec![0u8; 31];
    bytes.push(9);
    bytes.push(0xaa);
    bytes.push(0xbb);
    assert_eq!(U256::from_be_bytes(&bytes), U256 { hi: 0, lo: 9 });
}

#[test]
fn u256_to_be_bytes_writes_32_bytes_and_reads_back() {
    let v = U256 { hi: 0x0102, lo: u128::MAX - 5 };
    let bytes = v.to_be_bytes();
    assert_eq!(bytes.len(), 32);
    assert_eq!(bytes[14], 0x01);
    assert_eq!(bytes[15], 0x02);
    assert_eq!(bytes[31], 0xfa);
    assert_eq!(U256::from_be_bytes(&bytes), v);
    assert_eq!(U256::from_u64(1000).to_be_bytes()[30..], [0x03, 0xe8]);
}

#[test]
fn u256_order_is_the_order_of_the_numbers() {
    let small = U256 { hi: 0, lo: u128::MAX };
    let large = U256 { hi: 1, lo: 0 };
    assert!(small.le(&large));
    assert!(!large.le(&small));
    assert!(large.le(&large));
    assert_eq!(small.min(large), small);
    assert_eq!(large.min(small), small);
    assert!(small < large);
}

#[test]
fn u256_saturating_add_carries_and_saturates() {
    assert_eq!(U256::from_u64(7).saturating_add(1000), U256::from_u64(1007));
    assert_eq!(
        U256 { hi: 0, lo: u128::MAX }.saturating_add(1),
        U256 { hi: 1, lo: 0 }
    );
    assert_eq!(
        U256 { hi: 3, lo: u128::MAX - 1 }.saturating_add(1000),
        U256 { hi: 4, lo: 998 }
    );
    let top = U256 { hi: u128::MAX, lo: u128::MAX - 10 };
    assert_eq!(top.saturating_add(10), U256 { hi: u128::MAX, lo: u128::MAX });
    assert_eq!(top.saturating_add(11), U256 { hi: u128::MAX, lo: u128::MAX });
    assert_eq!(U256::zero().saturating_add(0), U256::from_u128(0));
}

#[test]
fn write_be_pads_on_the_left() {
    assert_eq!(write_be(0x0102, 4), vec![0, 0, 1, 2]);
    assert_eq!(write_be(0, 0), Vec::<u8>::new());
    assert_eq!(write_be(255, 1), vec![255]);
}

#[test]
fn address_from_slice_wants_exactly_20_bytes() {
    assert_eq!(Address::from_slice(&[0u8; 19]), None);
    assert_eq!(Address::from_slice(&[0u8; 21]), None);
    assert_eq!(Address::from_slice(&[]), None);
    let bytes = hex("7580bFE88Dd3d07947908FAE12d95872a260F2D8");
    let a = Address::from_slice(&bytes).unwrap();
    assert_eq!(a.hi, 0x7580bfe8);
    assert_eq!(a.lo, 0x8dd3d07947908fae12d95872a260f2d8);
    assert_eq!(a.to_bytes(), bytes);
}

#[test]
fn parse_address_takes_the_low_20_bytes_of_the_slot() {
    let mut data = vec![0u8; 32];
    data.extend_from_slice(&[0xee; 12]);
    data.extend_from_slice(&hex("0412C7c846bb6b7DC462CF6B453f76D8440b2609"));
    let a = parse_address(&data, 32);
    assert_eq!(a.to_bytes(), hex("0412C7c846bb6b7DC462CF6B453f76D8440b2609"));
    assert_eq!(parse_address(&data, 0), Address { hi: 0, lo: 0 });
}

#[test]
fn parse_uint256_reads_the_whole_slot() {
    let mut data = vec![0xffu8; 32];
    data.extend_from_slice(&[0u8; 30]);
    data.extend_from_slice(&[0x8c, 0xa0]);
    assert_eq!(parse_uint256(&data, 0), U256 { hi: u128::MAX, lo: u128::MAX });
    assert_eq!(parse_uint256(&data, 32), U256::from_u64(36000));
}
