//! PNG chunks: a big-endian length, a four-byte type, the data and a CRC-32
//! over type and data.

use vstd::prelude::*;
use vstd::slice::slice_subrange;
use crate::crc::{crc, crc32, lemma_crc32_of_iend, make_crc_table};
use crate::error::EncodeError;
use crate::image::ImageProperties;

verus! {

/// The four bytes of `n`, most significant first.
pub open spec fn be_bytes(n: u32) -> Seq<u8> {
    seq![
        (n / 0x100_0000) as u8,
        (n / 0x1_0000 % 0x100) as u8,
        (n / 0x100 % 0x100) as u8,
        (n % 0x100) as u8,
    ]
}

/// The number that the first four bytes of `b` spell, most significant first.
pub open spec fn be_value(b: Seq<u8>) -> int {
    b[0] * 0x100_0000 + b[1] * 0x1_0000 + b[2] * 0x100 + b[3]
}

/// The eight bytes every PNG file starts with.
pub open spec fn png_signature() -> Seq<u8> {
    seq![0x89u8, 0x50u8, 0x4Eu8, 0x47u8, 0x0Du8, 0x0Au8, 0x1Au8, 0x0Au8]
}

/// The type of the header chunk, `IHDR`.
pub open spec fn ihdr_tag() -> Seq<u8> {
    seq![0x49u8, 0x48u8, 0x44u8, 0x52u8]
}

/// The type of the image data chunk, `IDAT`.
pub open spec fn idat_tag() -> Seq<u8> {
    seq![0x49u8, 0x44u8, 0x41u8, 0x54u8]
}

/// The type of the closing chunk, `IEND`.
pub open spec fn iend_tag() -> Seq<u8> {
    seq![0x49u8, 0x45u8, 0x4Eu8, 0x44u8]
}

/// The bytes of the chunk of type `tag` that carries `data`.
pub open spec fn chunk_bytes(tag: Seq<u8>, data: Seq<u8>) -> Seq<u8>
    recommends
        tag.len() == 4,
        data.len() <= u32::MAX,
{
    be_bytes(data.len() as u32) + tag + data + be_bytes(crc32(tag + data))
}

/// The thirteen data bytes of the header chunk of `image`.
pub open spec fn ihdr_data(image: ImageProperties) -> Seq<u8> {
    be_bytes(image.width) + be_bytes(image.height) + seq![
        image.bit_depth,
        image.color_type,
        image.compression_method,
        image.filter_method,
        image.interlace_method,
    ]
}

/// The bytes of the closing chunk, which are the same in every file.
pub open spec fn iend_chunk() -> Seq<u8> {
    seq![
        0x00u8, 0x00u8, 0x00u8, 0x00u8,
        0x49u8, 0x45u8, 0x4Eu8, 0x44u8,
        0xAEu8, 0x42u8, 0x60u8, 0x82u8,
    ]
}

/// `bytes` is one whole chunk: its length field counts the data between the
/// type and the checksum, and its checksum is that of type and data.
pub open spec fn sound_chunk(bytes: Seq<u8>) -> bool {
    &&& bytes.len() >= 12
    &&& be_value(bytes.subrange(0, 4)) == bytes.len() - 12
    &&& be_value(bytes.subrange(bytes.len() - 4, bytes.len() as int)) == crc32(
        bytes.subrange(4, bytes.len() - 4),
    )
}

/// Four bytes spell the number they were made from.
pub proof fn lemma_be_round_trip(n: u32)
    ensures
        be_bytes(n).len() == 4,
        be_value(be_bytes(n)) == n,
{
}

/// A chunk is its four parts in order: the length of the data, the type, the
/// data, and the checksum of type and data. Computing the checksum of type
/// and data again gives the checksum the chunk carries.
pub proof fn lemma_chunk_round_trip(tag: Seq<u8>, data: Seq<u8>)
    requires
        tag.len() == 4,
        data.len() <= u32::MAX,
    ensures
        chunk_bytes(tag, data).len() == 12 + data.len(),
        be_value(chunk_bytes(tag, data).subrange(0, 4)) == data.len(),
        chunk_bytes(tag, data).subrange(4, 8) == tag,
        chunk_bytes(tag, data).subrange(8, 8 + data.len() as int) == data,
        be_value(
            chunk_bytes(tag, data).subrange(8 + data.len() as int, 12 + data.len() as int),
        ) == crc32(
            tag + data,
        ),
        sound_chunk(chunk_bytes(tag, data)),
{
    let chunk = chunk_bytes(tag, data);
    let n = data.len() as int;
    lemma_be_round_trip(n as u32);
    lemma_be_round_trip(crc32(tag + data));
    assert(chunk.subrange(0, 4) =~= be_bytes(n as u32));
    assert(chunk.subrange(4, 8) =~= tag);
    assert(chunk.subrange(8, 8 + n) =~= data);
    assert(chunk.subrange(8 + n, 12 + n) =~= be_bytes(crc32(tag + data)));
    assert(chunk.subrange(4, 8 + n) =~= tag + data);
}

/// The closing chunk is the twelve bytes of [`iend_chunk`].
pub proof fn lemma_iend_chunk()
    ensures
        chunk_bytes(iend_tag(), Seq::<u8>::empty()) == iend_chunk(),
{
    lemma_crc32_of_iend();
    assert(iend_tag() + Seq::<u8>::empty() =~= iend_tag());
    assert(be_bytes(0xAE42_6082u32) =~= seq![0xAEu8, 0x42u8, 0x60u8, 0x82u8]);
    assert(be_bytes(0u32) =~= seq![0x00u8, 0x00u8, 0x00u8, 0x00u8]);
    assert(chunk_bytes(iend_tag(), Seq::<u8>::empty()) =~= iend_chunk());
}

/// The number that the four bytes of `bytes` at `at` spell, most significant
/// first.
pub fn read_be_bytes(bytes: &[u8], at: usize) -> (n: u32)
    requires
        at + 4 <= bytes@.len(),
    ensures
        n == be_value(bytes@.subrange(at as int, at + 4)),
{
    let b0: u32 = bytes[at] as u32;
    let b1: u32 = bytes[at + 1] as u32;
    let b2: u32 = bytes[at + 2] as u32;
    let b3: u32 = bytes[at + 3] as u32;
    b0 * 0x100_0000 + b1 * 0x1_0000 + b2 * 0x100 + b3
}

/// Whether `bytes` is one whole chunk whose length field and checksum agree
/// with what it carries.
pub fn chunk_is_sound(bytes: &[u8]) -> (sound: bool)
    ensures
        sound == sound_chunk(bytes@),
{
    let len: usize = bytes.len();
    if len < 12 {
        return false;
    }
    let stated: u32 = read_be_bytes(bytes, 0);
    let carried: u32 = read_be_bytes(bytes, len - 4);
    let sum: u32 = crc(slice_subrange(bytes, 4, len - 4), make_crc_table());
    stated as u64 == (len - 12) as u64 && carried == sum
}

/// Appends the four bytes of `n`, most significant first, to `out`.
pub fn push_be_bytes(out: &mut Vec<u8>, n: u32)
    ensures
        final(out)@ == old(out)@ + be_bytes(n),
{
    out.push((n / 0x100_0000) as u8);
    out.push((n / 0x1_0000 % 0x100) as u8);
    out.push((n / 0x100 % 0x100) as u8);
    out.push((n % 0x100) as u8);
    assert(out@ =~= old(out)@ + be_bytes(n));
}

/// Builds the chunk of type `tag` around `data`.
fn frame_chunk(tag: [u8; 4], data: &[u8]) -> (chunk: Vec<u8>)
    requires
        data@.len() <= u32::MAX,
    ensures
        chunk@ == chunk_bytes(tag@, data@),
{
    let mut body: Vec<u8> = Vec::new();
    body.extend_from_slice(tag.as_slice());
    body.extend_from_slice(data);
    assert(body@ =~= tag@ + data@);
    let sum: u32 = crc(body.as_slice(), make_crc_table());
    let mut chunk: Vec<u8> = Vec::new();
    push_be_bytes(&mut chunk, data.len() as u32);
    chunk.extend_from_slice(body.as_slice());
    push_be_bytes(&mut chunk, sum);
    assert(chunk@ =~= chunk_bytes(tag@, data@));
    chunk
}

/// Builds the chunk of type `tag` around `data`, or fails with `ChunkTooLarge`
/// where the length of `data` does not fit the length field.
pub fn build_chunk(tag: [u8; 4], data: &[u8]) -> (r: Result<Vec<u8>, EncodeError>)
    ensures
        match r {
            Ok(chunk) => data@.len() <= u32::MAX && chunk@ == chunk_bytes(tag@, data@),
            Err(e) => data@.len() > u32::MAX && e == EncodeError::ChunkTooLarge,
        },
{
    if data.len() > 0xFFFF_FFFF {
        return Err(EncodeError::ChunkTooLarge);
    }
    Ok(frame_chunk(tag, data))
}

/// The signature that opens every PNG file.
pub fn generate_signature() -> (signature: Vec<u8>)
    ensures
        signature@ == png_signature(),
{
    let signature: Vec<u8> = vec![0x89u8, 0x50u8, 0x4Eu8, 0x47u8, 0x0Du8, 0x0Au8, 0x1Au8, 0x0Au8];
    assert(signature@ =~= png_signature());
    signature
}

/// The header chunk of `image`.
pub fn generate_ihdr(image: &ImageProperties) -> (header: Vec<u8>)
    ensures
        header@ == chunk_bytes(ihdr_tag(), ihdr_data(*image)),
        header@.len() == 25,
{
    let mut data: Vec<u8> = Vec::new();
    push_be_bytes(&mut data, image.width);
    push_be_bytes(&mut data, image.height);
    data.push(image.bit_depth);
    data.push(image.color_type);
    data.push(image.compression_method);
    data.push(image.filter_method);
    data.push(image.interlace_method);
    assert(data@ =~= ihdr_data(*image));
    let tag: [u8; 4] = [0x49u8, 0x48u8, 0x44u8, 0x52u8];
    assert(tag@ =~= ihdr_tag());
    frame_chunk(tag, data.as_slice())
}

/// The chunk that closes the file. It carries no data.
pub fn generate_iend() -> (iend: Vec<u8>)
    ensures
        iend@ == chunk_bytes(iend_tag(), Seq::<u8>::empty()),
        iend@ == iend_chunk(),
{
    proof {
        lemma_iend_chunk();
    }
    let data: Vec<u8> = Vec::new();
    let tag: [u8; 4] = [0x49u8, 0x45u8, 0x4Eu8, 0x44u8];
    assert(tag@ =~= iend_tag());
    assert(data@ =~= Seq::<u8>::empty());
    frame_chunk(tag, data.as_slice())
}

} // verus!
