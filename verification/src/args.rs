//! The command line: width, height, color type, source file, output file.

use vstd::prelude::*;
use vstd::utf8::encode_utf8;
use crate::error::{failed_with, EncodeError};
use crate::image::{ImageProperties, GRAYSCALE, RGB};
use crate::number::{number_value, parse_number};

verus! {

/// The number of arguments the encoder takes.
pub const ARGUMENT_COUNT: usize = 5;

/// The two files named on the command line.
#[derive(Debug)]
pub struct Arguments {
    pub source_file: String,
    pub output_file: String,
}

/// The image that the decimal numbers `width`, `height` and `color_type`
/// describe: the width and the height are at least 1 and fit in 32 bits, and
/// the color type is 0 or 2. Anything else describes no image.
pub open spec fn image_from_text(width: Seq<u8>, height: Seq<u8>, color_type: Seq<u8>) -> Option<
    ImageProperties,
> {
    match (
        number_value(width, 10, u32::MAX as int),
        number_value(height, 10, u32::MAX as int),
        number_value(color_type, 10, u8::MAX as int),
    ) {
        (Some(w), Some(h), Some(c)) => if w > 0 && h > 0 && (c == GRAYSCALE || c == RGB) {
            Some(
                ImageProperties {
                    width: w as u32,
                    height: h as u32,
                    bit_depth: 8,
                    color_type: c as u8,
                    compression_method: 0,
                    filter_method: 0,
                    interlace_method: 0,
                },
            )
        } else {
            None
        },
        _ => None,
    }
}

/// The source and output files of a command line of five arguments, or
/// `ArgumentCount` where the arguments are not five.
pub fn parse_args(args: &Vec<String>) -> (r: Result<Arguments, EncodeError>)
    ensures
        match r {
            Ok(files) => {
                &&& args@.len() == ARGUMENT_COUNT
                &&& files.source_file@ == args@[3]@
                &&& files.output_file@ == args@[4]@
            },
            Err(e) => e == EncodeError::ArgumentCount && args@.len() != ARGUMENT_COUNT,
        },
{
    if args.len() != ARGUMENT_COUNT {
        return Err(EncodeError::ArgumentCount);
    }
    Ok(Arguments { source_file: args[3].clone(), output_file: args[4].clone() })
}

/// The properties of the image that the first three of five arguments
/// describe.
///
/// Fails with `ArgumentCount` exactly where the arguments are not five, and
/// with `ArgumentParse` exactly where they are five but the first three do
/// not describe an image.
pub fn set_image_properties(args: &Vec<String>) -> (r: Result<ImageProperties, EncodeError>)
    ensures
        args@.len() != ARGUMENT_COUNT ==> failed_with(r, EncodeError::ArgumentCount),
        args@.len() == ARGUMENT_COUNT ==> match image_from_text(
            encode_utf8(args@[0]@),
            encode_utf8(args@[1]@),
            encode_utf8(args@[2]@),
        ) {
            Some(image) => r == Ok::<ImageProperties, EncodeError>(image) && image.well_formed(),
            None => failed_with(r, EncodeError::ArgumentParse),
        },
{
    if args.len() != ARGUMENT_COUNT {
        return Err(EncodeError::ArgumentCount);
    }
    let width: Option<u32> = parse_number(args[0].as_str().as_bytes(), 10, 0xFFFF_FFFF);
    let height: Option<u32> = parse_number(args[1].as_str().as_bytes(), 10, 0xFFFF_FFFF);
    let color_type: Option<u32> = parse_number(args[2].as_str().as_bytes(), 10, 255);
    match (width, height, color_type) {
        (Some(w), Some(h), Some(c)) => ImageProperties::new(w, h, c as u8),
        _ => Err(EncodeError::ArgumentParse),
    }
}

} // verus!
