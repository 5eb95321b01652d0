//! Encoder for 8-bit grayscale and RGB PNG images.
//!
//! The pixel samples arrive as text, one binary token per sample. The crate
//! parses them, frames them as unfiltered scanlines, compresses the scanlines
//! into a zlib stream and wraps everything in the IHDR, IDAT and IEND chunks
//! that follow the PNG signature.

pub mod crc;
pub mod error;
pub mod image;
pub mod chunk;
pub mod filter;
pub mod number;
pub mod loader;
pub mod compress;
pub mod encoder;
pub mod args;
