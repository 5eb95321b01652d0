//! The properties of an image, as the IHDR chunk records them.

use vstd::prelude::*;
use crate::error::EncodeError;

verus! {

/// The color type of a grayscale image.
pub const GRAYSCALE: u8 = 0;

/// The color type of an RGB image.
pub const RGB: u8 = 2;

/// The number of samples that make up one pixel: three for RGB, one otherwise.
pub open spec fn samples_per_pixel(color_type: u8) -> int {
    if color_type == RGB {
        3
    } else {
        1
    }
}

/// The number of samples in one scanline of an image `width` pixels wide.
pub open spec fn scanline_width(width: u32, color_type: u8) -> int {
    width * samples_per_pixel(color_type)
}

/// What the header chunk says of an image.
#[derive(Debug, Clone, Copy, PartialEq, Eq, Structural)]
pub struct ImageProperties {
    pub width: u32,
    pub height: u32,
    pub bit_depth: u8,
    pub color_type: u8,
    pub compression_method: u8,
    pub filter_method: u8,
    pub interlace_method: u8,
}

impl ImageProperties {
    /// The image has at least one pixel, is grayscale or RGB with eight bits
    /// per sample, and uses the only compression, filter and interlace methods
    /// this encoder produces.
    pub open spec fn well_formed(&self) -> bool {
        &&& self.width > 0
        &&& self.height > 0
        &&& self.bit_depth == 8
        &&& (self.color_type == GRAYSCALE || self.color_type == RGB)
        &&& self.compression_method == 0
        &&& self.filter_method == 0
        &&& self.interlace_method == 0
    }

    /// Whether the image is well formed.
    pub fn is_well_formed(&self) -> (b: bool)
        ensures
            b == self.well_formed(),
    {
        self.width > 0 && self.height > 0 && self.bit_depth == 8 && (self.color_type == GRAYSCALE
            || self.color_type == RGB) && self.compression_method == 0 && self.filter_method == 0
            && self.interlace_method == 0
    }

    /// The number of samples the image holds.
    pub open spec fn sample_count(&self) -> int {
        self.width * self.height * samples_per_pixel(self.color_type)
    }

    /// The properties of an 8-bit, non-interlaced image of the given size and
    /// color type, or `ArgumentParse` where the size is empty or the color type
    /// is neither grayscale nor RGB.
    pub fn new(width: u32, height: u32, color_type: u8) -> (r: Result<ImageProperties, EncodeError>)
        ensures
            match r {
                Ok(image) => {
                    &&& width > 0
                    &&& height > 0
                    &&& (color_type == GRAYSCALE || color_type == RGB)
                    &&& image == (ImageProperties {
                        width,
                        height,
                        bit_depth: 8,
                        color_type,
                        compression_method: 0,
                        filter_method: 0,
                        interlace_method: 0,
                    })
                    &&& image.well_formed()
                },
                Err(e) => {
                    &&& e == EncodeError::ArgumentParse
                    &&& (width == 0 || height == 0 || (color_type != GRAYSCALE && color_type != RGB))
                },
            },
    {
        if width == 0 || height == 0 || (color_type != GRAYSCALE && color_type != RGB) {
            return Err(EncodeError::ArgumentParse);
        }
        Ok(
            ImageProperties {
                width,
                height,
                bit_depth: 8,
                color_type,
                compression_method: 0,
                filter_method: 0,
                interlace_method: 0,
            },
        )
    }
}

} // verus!
