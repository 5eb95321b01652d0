use pngencoder::crc::{crc, make_crc_table, update_crc};

#[test]
fn table_has_256_entries() {
    assert_eq!(make_crc_table().len(), 256);
}

#[test]
fn table_holds_the_known_entries() {
    let table = make_crc_table();
    assert_eq!(table[0], 0x0000_0000);
    assert_eq!(table[1], 0x7707_3096);
    assert_eq!(table[2], 0xEE0E_612C);
    assert_eq!(table[128], 0xEDB8_8320);
    assert_eq!(table[255], 0x2D02_EF8D);
}

#[test]
fn table_is_the_same_every_time() {
    assert_eq!(make_crc_table(), make_crc_table());
}

#[test]
fn checksum_of_iend_is_the_reference_value() {
    assert_eq!(crc(b"IEND", make_crc_table()), 0xAE42_6082);
}

#[test]
fn checksum_of_nothing_is_zero() {
    assert_eq!(crc(b"", make_crc_table()), 0);
}

#[test]
fn checksum_of_the_check_string() {
    assert_eq!(crc(b"123456789", make_crc_table()), 0xCBF4_3926);
}

#[test]
fn checksum_of_a_one_pixel_rgb_header() {
    let body: Vec<u8> = vec![
        0x49, 0x48, 0x44, 0x52, 0, 0, 0, 1, 0, 0, 0, 1, 8, 2, 0, 0, 0,
    ];
    assert_eq!(crc(&body, make_crc_table()), 0x9077_53DE);
}

#[test]
fn update_leaves_the_accumulator_alone_on_no_input() {
    assert_eq!(update_crc(0x1234_5678, b"", make_crc_table()), 0x1234_5678);
}

#[test]
fn update_of_one_byte_follows_the_table() {
    let table = make_crc_table();
    let acc: u32 = 0xFFFF_FFFF;
    let expected = table[((acc ^ 0x49) & 0xff) as usize] ^ (acc >> 8);
    assert_eq!(update_crc(acc, b"I", make_crc_table()), expected);
    assert_eq!(expected, 0x22FD_E946);
}

#[test]
fn update_in_two_parts_is_update_of_the_whole() {
    let first = update_crc(0xFFFF_FFFF, b"IE", make_crc_table());
    let both = update_crc(first, b"ND", make_crc_table());
    assert_eq!(both, update_crc(0xFFFF_FFFF, b"IEND", make_crc_table()));
    assert_eq!(both ^ 0xFFFF_FFFF, 0xAE42_6082);
}

#[test]
fn checksum_agrees_with_the_compressor_crate() {
    let data: Vec<u8> = (0..=255u8).collect();
    let mut reference = flate2::Crc::new();
    reference.update(&data);
    assert_eq!(crc(&data, make_crc_table()), reference.sum());
}

#[test]
fn entries_past_the_first_256_are_not_read() {
    let mut longer = make_crc_table();
    longer.extend([0xDEAD_BEEFu32; 16]);
    assert_eq!(crc(b"IEND", longer), 0xAE42_6082);
}
