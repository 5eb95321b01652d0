//! The encoder proper: samples in, PNG file out.
//!
//! A file is the signature, the header chunk, one image data chunk with the
//! whole compressed image, and the closing chunk.

use vstd::prelude::*;
use crate::chunk::{
    build_chunk, chunk_bytes, generate_iend, generate_ihdr, generate_signature, idat_tag,
    iend_tag, ihdr_data, ihdr_tag, png_signature,
};
use crate::compress::{compress_image, zlib_outcome};
use crate::error::EncodeError;
use crate::filter::{fills_scanlines, filter_image, filtered_scanlines, lemma_filtered_length};
use crate::image::{scanline_width, ImageProperties};
use crate::loader::{read_raw_image, text_samples};

verus! {

/// What a function that returns bytes came to, with the bytes as a sequence.
pub open spec fn outcome(r: Result<Vec<u8>, EncodeError>) -> Result<Seq<u8>, EncodeError> {
    match r {
        Ok(bytes) => Ok(bytes@),
        Err(e) => Err(e),
    }
}

/// The image data chunk around what the compressor came to: `Compression`
/// where it has no stream, `ChunkTooLarge` where its stream is too long for
/// the length field, and the chunk that carries the stream otherwise.
pub open spec fn idat_of_stream(stream: Option<Seq<u8>>) -> Result<Seq<u8>, EncodeError> {
    match stream {
        None => Err(EncodeError::Compression),
        Some(data) => if data.len() > u32::MAX {
            Err(EncodeError::ChunkTooLarge)
        } else {
            Ok(chunk_bytes(idat_tag(), data))
        },
    }
}

/// The image data chunk for the samples `raw` of an image `width` pixels
/// wide: `ShapeMismatch` where the samples do not fill a whole number of
/// scanlines, and otherwise the chunk around the compressed scanlines.
pub open spec fn idat_of_samples(raw: Seq<u8>, width: u32, color_type: u8) -> Result<
    Seq<u8>,
    EncodeError,
> {
    let line = scanline_width(width, color_type);
    if fills_scanlines(raw.len() as int, line) {
        idat_of_stream(zlib_outcome(filtered_scanlines(raw, line)))
    } else {
        Err(EncodeError::ShapeMismatch)
    }
}

/// The image data chunk for the source text `text`: `TokenFormat` where a
/// token spells no byte, and otherwise the chunk for its samples.
pub open spec fn idat_of_text(text: Seq<u8>, width: u32, color_type: u8) -> Result<
    Seq<u8>,
    EncodeError,
> {
    match text_samples(text) {
        None => Err(EncodeError::TokenFormat),
        Some(raw) => idat_of_samples(raw, width, color_type),
    }
}

/// The bytes of the PNG file of `image` around the image data chunk `idat`.
pub open spec fn png_file(image: ImageProperties, idat: Seq<u8>) -> Seq<u8> {
    png_signature() + chunk_bytes(ihdr_tag(), ihdr_data(image)) + idat + chunk_bytes(
        iend_tag(),
        Seq::empty(),
    )
}

/// The PNG file of `image` for the samples `raw`: `ArgumentParse` where the
/// image is not well formed, `ShapeMismatch` where the samples are not one
/// for each channel of each pixel, and otherwise the file around the chunk of
/// the compressed scanlines, or the failure that kept that chunk from being
/// made.
pub open spec fn png_of_samples(image: ImageProperties, raw: Seq<u8>) -> Result<
    Seq<u8>,
    EncodeError,
> {
    if !image.well_formed() {
        Err(EncodeError::ArgumentParse)
    } else if raw.len() != image.sample_count() {
        Err(EncodeError::ShapeMismatch)
    } else {
        match idat_of_stream(
            zlib_outcome(
                filtered_scanlines(raw, scanline_width(image.width, image.color_type)),
            ),
        ) {
            Ok(idat) => Ok(png_file(image, idat)),
            Err(e) => Err(e),
        }
    }
}

/// The PNG file of `image` for the source text `text`: `ArgumentParse` where
/// the image is not well formed, `TokenFormat` where a token spells no byte,
/// and otherwise the file for the samples of the text.
pub open spec fn png_of_text(image: ImageProperties, text: Seq<u8>) -> Result<
    Seq<u8>,
    EncodeError,
> {
    if !image.well_formed() {
        Err(EncodeError::ArgumentParse)
    } else {
        match text_samples(text) {
            None => Err(EncodeError::TokenFormat),
            Some(raw) => png_of_samples(image, raw),
        }
    }
}

/// Wraps what the compressor returned in an image data chunk. A failure of
/// the compressor becomes `Compression`; a stream too long for the length
/// field becomes `ChunkTooLarge`.
pub fn frame_idat(compressed: Result<Vec<u8>, std::io::Error>) -> (r: Result<Vec<u8>, EncodeError>)
    ensures
        outcome(r) == idat_of_stream(
            match compressed {
                Ok(data) => Some(data@),
                Err(_) => None,
            },
        ),
{
    match compressed {
        Ok(data) => {
            let tag: [u8; 4] = [0x49u8, 0x44u8, 0x41u8, 0x54u8];
            assert(tag@ =~= idat_tag());
            build_chunk(tag, data.as_slice())
        },
        Err(_) => Err(EncodeError::Compression),
    }
}

/// The image data chunk for the samples of `raw_image`, framed as scanlines
/// of an image `width` pixels wide and compressed.
///
/// Fails with `ShapeMismatch` exactly where the samples do not fill a whole
/// number of scanlines, with `Compression` exactly where they do and the
/// compressor has no stream for the scanlines, and with `ChunkTooLarge`
/// exactly where it has one that is too long for one chunk.
pub fn idat_from_samples(raw_image: Vec<u8>, width: u32, color_type: u8) -> (r: Result<
    Vec<u8>,
    EncodeError,
>)
    ensures
        outcome(r) == idat_of_samples(raw_image@, width, color_type),
{
    match filter_image(raw_image, width, color_type) {
        Ok(filtered) => frame_idat(compress_image(filtered)),
        Err(e) => Err(e),
    }
}

/// The image data chunk for the source text `source` of an image `width`
/// pixels wide.
///
/// Fails with `TokenFormat` exactly where a token of the text spells no byte,
/// and otherwise exactly as [`idat_from_samples`] does on the samples of the
/// text.
pub fn generate_idat(source: &[u8], width: u32, color_type: u8) -> (r: Result<Vec<u8>, EncodeError>)
    ensures
        outcome(r) == idat_of_text(source@, width, color_type),
{
    match read_raw_image(source) {
        Ok(raw_image) => idat_from_samples(raw_image, width, color_type),
        Err(e) => Err(e),
    }
}

/// Puts the file together: signature, header chunk of `image`, the image
/// data chunk `idat` and the closing chunk.
pub fn assemble_png(image: &ImageProperties, idat: &[u8]) -> (png: Vec<u8>)
    ensures
        png@ == png_file(*image, idat@),
{
    let mut png: Vec<u8> = generate_signature();
    let header: Vec<u8> = generate_ihdr(image);
    png.extend_from_slice(header.as_slice());
    png.extend_from_slice(idat);
    let iend: Vec<u8> = generate_iend();
    png.extend_from_slice(iend.as_slice());
    png
}

/// Encodes the samples of `raw_image` as the PNG file of `image`.
///
/// Fails with `ArgumentParse` exactly where `image` is not well formed, and
/// with `ShapeMismatch` exactly where it is but `raw_image` does not hold one
/// sample for each channel of each pixel. Past that it fails with
/// `Compression` exactly where the compressor has no stream for the
/// scanlines, and with `ChunkTooLarge` exactly where it has one that is too
/// long for one chunk. A file that comes back opens with the signature.
pub fn encode_samples(image: &ImageProperties, raw_image: Vec<u8>) -> (r: Result<
    Vec<u8>,
    EncodeError,
>)
    ensures
        outcome(r) == png_of_samples(*image, raw_image@),
        r matches Ok(png) ==> png@.len() >= 8 && png@.subrange(0, 8) == png_signature(),
{
    if !image.is_well_formed() {
        return Err(EncodeError::ArgumentParse);
    }
    let samples: u128 = if image.color_type == 2 {
        3
    } else {
        1
    };
    assert(image.width * image.height <= 0xFFFF_FFFF * 0xFFFF_FFFF) by (nonlinear_arith)
        requires
            image.width <= 0xFFFF_FFFF,
            image.height <= 0xFFFF_FFFF,
    ;
    let pixels: u128 = (image.width as u128) * (image.height as u128);
    let wanted: u128 = pixels * samples;
    assert(wanted == image.sample_count());
    if raw_image.len() as u128 != wanted {
        return Err(EncodeError::ShapeMismatch);
    }
    proof {
        lemma_filtered_length(raw_image@, image.width, image.height, image.color_type);
    }
    match idat_from_samples(raw_image, image.width, image.color_type) {
        Ok(idat) => {
            let png: Vec<u8> = assemble_png(image, idat.as_slice());
            proof {
                lemma_png_opens_with_signature(*image, idat@);
            }
            Ok(png)
        },
        Err(e) => Err(e),
    }
}

/// Encodes the source text `source` as the PNG file of `image`.
///
/// Fails with `ArgumentParse` exactly where `image` is not well formed, with
/// `TokenFormat` exactly where it is but a token of the text spells no byte,
/// and otherwise exactly as [`encode_samples`] does on the samples of the
/// text. A file that comes back opens with the signature.
pub fn encode_png(image: &ImageProperties, source: &[u8]) -> (r: Result<Vec<u8>, EncodeError>)
    ensures
        outcome(r) == png_of_text(*image, source@),
        r matches Ok(png) ==> png@.len() >= 8 && png@.subrange(0, 8) == png_signature(),
{
    if !image.is_well_formed() {
        return Err(EncodeError::ArgumentParse);
    }
    match read_raw_image(source) {
        Ok(raw_image) => encode_samples(image, raw_image),
        Err(e) => Err(e),
    }
}

/// Every PNG file opens with the eight bytes of the signature.
pub proof fn lemma_png_opens_with_signature(image: ImageProperties, idat: Seq<u8>)
    ensures
        png_file(image, idat).len() >= 8,
        png_file(image, idat).subrange(0, 8) == png_signature(),
{
    assert(png_signature().len() == 8);
    assert(png_file(image, idat).subrange(0, 8) =~= png_signature());
}

/// Whatever the samples or the text, a file that the encoder produces opens
/// with the signature.
pub proof fn lemma_encoded_opens_with_signature(
    image: ImageProperties,
    raw: Seq<u8>,
    text: Seq<u8>,
)
    ensures
        png_of_samples(image, raw) matches Ok(png) ==> png.len() >= 8 && png.subrange(0, 8)
            == png_signature(),
        png_of_text(image, text) matches Ok(png) ==> png.len() >= 8 && png.subrange(0, 8)
            == png_signature(),
{
    let line = scanline_width(image.width, image.color_type);
    match idat_of_stream(zlib_outcome(filtered_scanlines(raw, line))) {
        Ok(idat) => lemma_png_opens_with_signature(image, idat),
        Err(_) => {},
    }
    match text_samples(text) {
        Some(samples) => match idat_of_stream(zlib_outcome(filtered_scanlines(samples, line))) {
            Ok(idat) => lemma_png_opens_with_signature(image, idat),
            Err(_) => {},
        },
        None => {},
    }
}

} // verus!
