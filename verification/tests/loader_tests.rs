use pngencoder::error::EncodeError;
use pngencoder::loader::{find_byte, parse_line, parse_token, read_raw_image, trimmed_length};
use pngencoder::number::parse_number;

#[test]
fn four_lines_of_one_token() {
    let source = b"00000000\n11111111\n01010101\n10101010\n";
    assert_eq!(read_raw_image(source), Ok(vec![0x00, 0xFF, 0x55, 0xAA]));
}

#[test]
fn tokens_keep_their_order_within_and_across_lines() {
    let source = b"00000001 00000010\n00000011 00000100";
    assert_eq!(read_raw_image(source), Ok(vec![1, 2, 3, 4]));
}

#[test]
fn empty_text_holds_no_samples() {
    assert_eq!(read_raw_image(b""), Ok(Vec::new()));
}

#[test]
fn white_space_at_the_end_of_a_line_is_dropped() {
    assert_eq!(read_raw_image(b"00000001 \t\r\n00000010\r\n"), Ok(vec![1, 2]));
}

#[test]
fn a_decimal_token_is_rejected() {
    assert_eq!(read_raw_image(b"123\n"), Err(EncodeError::TokenFormat));
    assert_eq!(parse_token(b"123"), None);
}

#[test]
fn a_word_is_rejected() {
    assert_eq!(read_raw_image(b"garbage\n"), Err(EncodeError::TokenFormat));
    assert_eq!(parse_token(b"garbage"), None);
}

#[test]
fn a_bad_token_after_good_ones_is_rejected() {
    assert_eq!(
        read_raw_image(b"00000000 11111111\n00000000 2\n"),
        Err(EncodeError::TokenFormat)
    );
}

#[test]
fn a_token_above_one_byte_is_rejected() {
    assert_eq!(parse_token(b"11111111"), Some(255));
    assert_eq!(parse_token(b"100000000"), None);
    assert_eq!(read_raw_image(b"100000000"), Err(EncodeError::TokenFormat));
}

#[test]
fn a_signed_token_is_rejected() {
    assert_eq!(parse_token(b"+1"), None);
    assert_eq!(parse_token(b"-1"), None);
}

#[test]
fn zeros_in_front_do_not_change_the_byte() {
    assert_eq!(parse_token(b"1"), Some(1));
    assert_eq!(parse_token(b"0000000000101"), Some(5));
}

#[test]
fn an_empty_token_is_rejected() {
    assert_eq!(parse_token(b""), None);
    assert_eq!(parse_line(b"00000001  00000010"), None);
    assert_eq!(parse_line(b" 00000001"), None);
    assert_eq!(parse_line(b""), None);
}

#[test]
fn a_blank_line_is_rejected() {
    assert_eq!(read_raw_image(b"00000001\n\n00000010\n"), Err(EncodeError::TokenFormat));
    assert_eq!(read_raw_image(b"\n"), Err(EncodeError::TokenFormat));
}

#[test]
fn a_tab_between_tokens_is_rejected() {
    assert_eq!(parse_line(b"00000001\t00000010"), None);
}

#[test]
fn a_line_parses_to_its_samples() {
    assert_eq!(parse_line(b"00000001 11111110 10000000  "), Some(vec![1, 254, 128]));
}

#[test]
fn find_byte_stops_at_the_first_match_or_the_end() {
    assert_eq!(find_byte(b"ab cd ef", b' ', 0), 2);
    assert_eq!(find_byte(b"ab cd ef", b' ', 2), 2);
    assert_eq!(find_byte(b"ab cd ef", b' ', 3), 5);
    assert_eq!(find_byte(b"ab cd ef", b' ', 6), 8);
    assert_eq!(find_byte(b"", b' ', 0), 0);
}

#[test]
fn trimmed_length_drops_only_the_end() {
    assert_eq!(trimmed_length(b"  ab  "), 4);
    assert_eq!(trimmed_length(b"ab\x0b\x0c\r\n\t "), 2);
    assert_eq!(trimmed_length(b"   "), 0);
    assert_eq!(trimmed_length(b""), 0);
    assert_eq!(trimmed_length(b"ab\x00"), 3);
}

#[test]
fn numbers_in_decimal() {
    assert_eq!(parse_number(b"0", 10, u32::MAX), Some(0));
    assert_eq!(parse_number(b"640", 10, u32::MAX), Some(640));
    assert_eq!(parse_number(b"4294967295", 10, u32::MAX), Some(u32::MAX));
    assert_eq!(parse_number(b"4294967296", 10, u32::MAX), None);
    assert_eq!(parse_number(b"99999999999999999999999", 10, u32::MAX), None);
    assert_eq!(parse_number(b"256", 10, 255), None);
    assert_eq!(parse_number(b"", 10, 255), None);
    assert_eq!(parse_number(b"12a", 10, 255), None);
    assert_eq!(parse_number(b"/", 10, 255), None);
    assert_eq!(parse_number(b":", 10, 255), None);
}

#[test]
fn numbers_in_other_bases() {
    assert_eq!(parse_number(b"777", 8, 1000), Some(511));
    assert_eq!(parse_number(b"778", 8, 1000), None);
    assert_eq!(parse_number(b"102", 2, 1000), None);
}
