use pngencoder::chunk::{
    build_chunk, chunk_is_sound, generate_iend, generate_ihdr, generate_signature, push_be_bytes,
    read_be_bytes,
};
use pngencoder::crc::{crc, make_crc_table};
use pngencoder::image::ImageProperties;

#[test]
fn signature_is_the_png_magic() {
    assert_eq!(
        generate_signature(),
        vec![0x89, 0x50, 0x4E, 0x47, 0x0D, 0x0A, 0x1A, 0x0A]
    );
}

#[test]
fn header_of_a_two_by_two_grayscale_image() {
    let image = ImageProperties::new(2, 2, 0).unwrap();
    assert_eq!(
        generate_ihdr(&image),
        vec![
            0x00, 0x00, 0x00, 0x0D, 0x49, 0x48, 0x44, 0x52, 0x00, 0x00, 0x00, 0x02, 0x00, 0x00,
            0x00, 0x02, 0x08, 0x00, 0x00, 0x00, 0x00, 0x57, 0xDD, 0x52, 0xF8,
        ]
    );
}

#[test]
fn header_of_a_one_pixel_rgb_image() {
    let image = ImageProperties::new(1, 1, 2).unwrap();
    assert_eq!(
        generate_ihdr(&image),
        vec![
            0x00, 0x00, 0x00, 0x0D, 0x49, 0x48, 0x44, 0x52, 0x00, 0x00, 0x00, 0x01, 0x00, 0x00,
            0x00, 0x01, 0x08, 0x02, 0x00, 0x00, 0x00, 0x90, 0x77, 0x53, 0xDE,
        ]
    );
}

#[test]
fn header_writes_every_field_as_given() {
    let image = ImageProperties {
        width: 0x0102_0304,
        height: 0xA0B0_C0D0,
        bit_depth: 16,
        color_type: 6,
        compression_method: 7,
        filter_method: 8,
        interlace_method: 9,
    };
    let header = generate_ihdr(&image);
    assert_eq!(
        &header[8..21],
        &[0x01, 0x02, 0x03, 0x04, 0xA0, 0xB0, 0xC0, 0xD0, 16, 6, 7, 8, 9]
    );
    assert!(chunk_is_sound(&header));
}

#[test]
fn closing_chunk_is_always_the_same_twelve_bytes() {
    assert_eq!(
        generate_iend(),
        vec![0x00, 0x00, 0x00, 0x00, 0x49, 0x45, 0x4E, 0x44, 0xAE, 0x42, 0x60, 0x82]
    );
}

#[test]
fn a_chunk_is_length_type_data_checksum() {
    let chunk = build_chunk(*b"tEXt", b"ab").unwrap();
    assert_eq!(
        chunk,
        vec![0x00, 0x00, 0x00, 0x02, 0x74, 0x45, 0x58, 0x74, 0x61, 0x62, 0x33, 0x79, 0x84, 0x1E]
    );
}

#[test]
fn length_field_counts_the_data_only() {
    let data: Vec<u8> = vec![7; 300];
    let chunk = build_chunk(*b"IDAT", &data).unwrap();
    assert_eq!(chunk.len(), 312);
    assert_eq!(read_be_bytes(&chunk, 0), 300);
    assert_eq!(&chunk[0..4], &[0x00, 0x00, 0x01, 0x2C]);
    assert_eq!(&chunk[4..8], b"IDAT");
    assert_eq!(&chunk[8..308], &data[..]);
}

#[test]
fn checksum_covers_type_and_data_and_not_the_length() {
    let chunk = build_chunk(*b"IDAT", &[1, 2, 3, 4, 5]).unwrap();
    let end = chunk.len() - 4;
    let again = crc(&chunk[4..end], make_crc_table());
    assert_eq!(read_be_bytes(&chunk, end), again);
    assert_ne!(read_be_bytes(&chunk, end), crc(&chunk[0..end], make_crc_table()));
}

#[test]
fn generated_chunks_are_sound() {
    assert!(chunk_is_sound(&generate_iend()));
    assert!(chunk_is_sound(&generate_ihdr(&ImageProperties::new(640, 480, 2).unwrap())));
    assert!(chunk_is_sound(&build_chunk(*b"IDAT", &[9; 1000]).unwrap()));
}

#[test]
fn a_changed_chunk_is_not_sound() {
    let good = build_chunk(*b"IDAT", &[1, 2, 3]).unwrap();
    let mut data_changed = good.clone();
    data_changed[9] ^= 1;
    assert!(!chunk_is_sound(&data_changed));
    let mut length_changed = good.clone();
    length_changed[3] += 1;
    assert!(!chunk_is_sound(&length_changed));
    let mut sum_changed = good.clone();
    sum_changed[14] ^= 0x80;
    assert!(!chunk_is_sound(&sum_changed));
    assert!(!chunk_is_sound(&good[..11]));
    assert!(!chunk_is_sound(b""));
}

#[test]
fn big_endian_bytes_go_out_most_significant_first() {
    let mut out: Vec<u8> = vec![0xEE];
    push_be_bytes(&mut out, 0x0102_03FF);
    assert_eq!(out, vec![0xEE, 0x01, 0x02, 0x03, 0xFF]);
    assert_eq!(read_be_bytes(&out, 1), 0x0102_03FF);
    push_be_bytes(&mut out, u32::MAX);
    assert_eq!(read_be_bytes(&out, 5), u32::MAX);
}
