//! The zlib compressor that turns the filtered scanlines into the data of the
//! IDAT chunk. The compression itself is the work of the `flate2` crate; this
//! module only hands it the bytes and takes its stream back.

use vstd::prelude::*;
use std::io::Write;
use flate2::write::ZlibEncoder;
use flate2::Compression;

verus! {

/// `std::io::Error`, the error that the compressor's writer reports. Nothing
/// is known of what it holds; it is only passed on.
#[verifier::external_type_specification]
#[verifier::external_body]
pub struct ExIoError(std::io::Error);

/// What `flate2` makes of `data` at its default compression level: the zlib
/// stream (a two-byte header, the deflate blocks and an Adler-32 trailer)
/// where it succeeds, and `None` where it reports an error. The compressor
/// writes into memory and reads nothing but `data`, so the same bytes have
/// the same outcome every time.
pub uninterp spec fn zlib_outcome(data: Seq<u8>) -> Option<Seq<u8>>;

/// Compresses `filtered_image` into one zlib stream.
///
/// Trusted: the body writes all of `filtered_image` into a
/// `flate2::write::ZlibEncoder` over an empty `Vec` at
/// `Compression::default()` and finishes it. The contract claims that what
/// comes back is the outcome named [`zlib_outcome`]: on success the bytes of
/// its stream, and an error exactly where it has none. It promises neither
/// success on any input nor anything about what the stream holds.
#[verifier::external_body]
pub(crate) fn compress_image(filtered_image: Vec<u8>) -> (r: Result<Vec<u8>, std::io::Error>)
    ensures
        match r {
            Ok(compressed) => zlib_outcome(filtered_image@) == Some(compressed@),
            Err(_) => zlib_outcome(filtered_image@).is_none(),
        },
{
    let mut encoder = ZlibEncoder::new(Vec::new(), Compression::default());
    encoder.write_all(&filtered_image)?;
    encoder.finish()
}

} // verus!
