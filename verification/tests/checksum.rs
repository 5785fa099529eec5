use typenet::checksum::calculate;

#[test]
fn checksum_of_zeros_is_all_ones() {
    // All zeros should produce 0xFFFF (one's complement of 0x0000)
    assert_eq!(calculate(&[0u8; 20]), 0xFFFF);
}

#[test]
fn checksum_of_all_ones_is_zero() {
    // All ones should produce 0x0000 (one's complement of 0xFFFF)
    assert_eq!(calculate(&[0xFFu8; 20]), 0x0000);
}

#[test]
fn handles_odd_length() {
    // 3 bytes: 0x1234 + 0x5600 = 0x6834, ~0x6834 = 0x97CB
    let data1 = [0x12, 0x34, 0x56];
    assert_eq!(calculate(&data1), 0x97CB);

    // 5 bytes: 0x1234 + 0x5678 + 0xAB00 = 0x113AC, fold: 0x13AD, ~0x13AD = 0xEC52
    let data2 = [0x12, 0x34, 0x56, 0x78, 0xAB];
    assert_eq!(calculate(&data2), 0xEC52);
}

#[test]
fn folds_carry_bits() {
    // 0xFFFF + 0xFFFF = 0x1FFFE, fold: 0xFFFF, ~0xFFFF = 0x0000
    let data1 = [0xFF, 0xFF, 0xFF, 0xFF];
    assert_eq!(calculate(&data1), 0x0000);

    // 0xAAAA + 0xBBBB = 0x16665, fold: 0x6666, ~0x6666 = 0x9999
    let data2 = [0xAA, 0xAA, 0xBB, 0xBB];
    assert_eq!(calculate(&data2), 0x9999);
}

#[test]
fn checksum_of_known_ipv4_header_without_folding() {
    let header = [
        0x45, 0x00, // Version/IHL, TOS
        0x00, 0x20, // Total Length
        0x00, 0x01, // Identification
        0x00, 0x00, // Flags, Fragment Offset
        0x40, 0x11, // TTL, Protocol
        0x00, 0x00, // Checksum (zeroed)
        0x0a, 0x00, // Source IP: 10.0.0.1
        0x00, 0x01, //
        0x0a, 0x00, // Dest IP: 10.0.0.2
        0x00, 0x02, //
    ];

    // Sum = 0x9935, no carry, one's complement = 0x66CA
    assert_eq!(calculate(&header), 0x66CA);
}

#[test]
fn checksum_of_known_ipv4_header_with_folding() {
    let header = [
        0x45, 0x00, // Version/IHL, TOS
        0x00, 0x54, // Total Length
        0xab, 0xcd, // Identification
        0x00, 0x00, // Flags, Fragment Offset
        0x40, 0x06, // TTL, Protocol
        0x00, 0x00, // Checksum (zeroed)
        0xc0, 0xa8, // Source IP: 192.168.255.100
        0xff, 0x64, //
        0xc0, 0xa8, // Dest IP: 192.168.255.200
        0xff, 0xc8, //
    ];

    // Sum = 0x4B1A3, fold = 0xB1A7, one's complement = 0x4E58
    assert_eq!(calculate(&header), 0x4E58);
}

#[test]
fn roundtrip_produces_zero() {
    let data = [
        0x45, 0x00, 0x00, 0x3c, //
        0x1c, 0x46, 0x40, 0x00, //
        0x40, 0x06, 0xb1, 0xe6, // Checksum embedded here (0xb1e6)
        0xac, 0x10, 0x0a, 0x63, //
        0xac, 0x10, 0x0a, 0x0c, //
    ];

    // When the checksum is already included, the result is 0
    assert_eq!(calculate(&data), 0x0000);
}

#[test]
fn commutative_over_16_bit_word_order() {
    let data1 = [0x12, 0x34, 0x56, 0x78, 0x9A, 0xBC, 0xDE, 0xF0];
    let data2 = [0x9A, 0xBC, 0x12, 0x34, 0xDE, 0xF0, 0x56, 0x78];
    assert_eq!(calculate(&data1), calculate(&data2));
}

#[test]
fn empty_data_checksum_is_all_ones() {
    assert_eq!(calculate(&[]), 0xFFFF);
}

#[test]
fn writing_the_checksum_back_makes_it_zero() {
    // Writing the checksum into its zeroed field makes the checksum of the result zero
    let mut data = [0x45, 0x00, 0x00, 0x3c, 0x1c, 0x46, 0x40, 0x00, 0x40, 0x06, 0x00, 0x00];
    let c = calculate(&data);
    data[10..12].copy_from_slice(&c.to_be_bytes());
    assert_eq!(calculate(&data), 0);
}
