//! Scanline framing: every row of samples gets a leading filter-type byte.
//! Only filter type 0, which leaves the samples as they are, is produced.

use vstd::prelude::*;
use vstd::arithmetic::div_mod::lemma_fundamental_div_mod_converse;
use crate::error::EncodeError;
use crate::image::{samples_per_pixel, scanline_width};

verus! {

/// The filter type that leaves the samples of a scanline unchanged.
pub const FILTER_NONE: u8 = 0;

/// `len` samples fill a whole number of scanlines of `line` samples each.
pub open spec fn fills_scanlines(len: int, line: int) -> bool {
    if line > 0 {
        len % line == 0
    } else {
        len == 0
    }
}

/// The samples of `raw`, cut into scanlines of `line` samples, each scanline
/// behind a filter-type byte of 0.
pub open spec fn filtered_scanlines(raw: Seq<u8>, line: int) -> Seq<u8> {
    if line > 0 {
        Seq::new(
            (raw.len() as int + raw.len() as int / line) as nat,
            |i: int|
                if i % (line + 1) == 0 {
                    FILTER_NONE
                } else {
                    raw[i - i / (line + 1) - 1]
                },
        )
    } else {
        Seq::empty()
    }
}

/// In rows of `m` cells, the cell `t` of row `r` has the position `r * m + t`.
pub proof fn lemma_cell_position(r: int, t: int, m: int)
    requires
        0 <= t < m,
    ensures
        (r * m + t) / m == r,
        (r * m + t) % m == t,
{
    lemma_fundamental_div_mod_converse(r * m + t, m, r, t);
}

/// Byte 0 of every scanline of the filtered stream is the filter type, and
/// byte `1 + c` is sample `c` of the same row of `raw`.
pub proof fn lemma_scanline_layout(raw: Seq<u8>, line: int, r: int, c: int)
    requires
        line > 0,
        raw.len() as int % line == 0,
        0 <= r < raw.len() as int / line,
        0 <= c < line,
    ensures
        filtered_scanlines(raw, line).len() == (raw.len() as int / line) * (line + 1),
        0 <= r * (line + 1) + 1 + c < filtered_scanlines(raw, line).len(),
        0 <= r * line + c < raw.len(),
        filtered_scanlines(raw, line)[r * (line + 1)] == FILTER_NONE,
        filtered_scanlines(raw, line)[r * (line + 1) + 1 + c] == raw[r * line + c],
{
    let rows = raw.len() as int / line;
    let n = raw.len() as int;
    assert(n == line * rows) by {
        vstd::arithmetic::div_mod::lemma_fundamental_div_mod(n, line);
    }
    assert(n + rows == rows * (line + 1)) by (nonlinear_arith)
        requires
            n == line * rows,
    ;
    assert(r * (line + 1) + 1 + c < rows * (line + 1) && 0 <= r * (line + 1) && r * line + c < line
        * rows && 0 <= r * line) by (nonlinear_arith)
        requires
            0 <= r < rows,
            0 <= c < line,
    ;
    lemma_cell_position(r, 0, line + 1);
    lemma_cell_position(r, 1 + c, line + 1);
    assert(r * (line + 1) + 1 + c - r - 1 == r * line + c) by (nonlinear_arith);
}

/// Frames the samples of `raw_image` as scanlines of an image `width` pixels
/// wide, or fails with `ShapeMismatch` where the samples do not fill a whole
/// number of scanlines.
pub fn filter_image(raw_image: Vec<u8>, width: u32, color_type: u8) -> (r: Result<
    Vec<u8>,
    EncodeError,
>)
    ensures
        match r {
            Ok(filtered) => {
                &&& fills_scanlines(raw_image@.len() as int, scanline_width(width, color_type))
                &&& filtered@ == filtered_scanlines(raw_image@, scanline_width(width, color_type))
            },
            Err(e) => {
                &&& e == EncodeError::ShapeMismatch
                &&& !fills_scanlines(raw_image@.len() as int, scanline_width(width, color_type))
            },
        },
{
    let samples: u64 = if color_type == 2 {
        3
    } else {
        1
    };
    let line: u64 = (width as u64) * samples;
    let n: usize = raw_image.len();
    if n == 0 {
        assert(0int % scanline_width(width, color_type) == 0 || scanline_width(width, color_type)
            <= 0);
        assert(filtered_scanlines(raw_image@, scanline_width(width, color_type)) =~= Seq::<
            u8,
        >::empty()) by {
            if line > 0 {
                assert(0int / (line as int) == 0);
            }
        }
        return Ok(Vec::new());
    }
    if line == 0 || (n as u64) % line != 0 {
        return Err(EncodeError::ShapeMismatch);
    }
    assert(line <= n) by {
        if line > n {
            vstd::arithmetic::div_mod::lemma_small_mod(n as nat, line as nat);
        }
    }
    let line: usize = line as usize;
    let rows: usize = n / line;
    proof {
        vstd::arithmetic::div_mod::lemma_fundamental_div_mod(n as int, line as int);
    }
    let ghost want = filtered_scanlines(raw_image@, line as int);
    let mut filtered: Vec<u8> = Vec::new();
    let mut i: usize = 0;
    let mut row: usize = 0;
    while row < rows
        invariant
            line > 0,
            n == raw_image@.len(),
            n == line * rows,
            row <= rows,
            i == row * line,
            filtered@.len() == row * (line + 1),
            want == filtered_scanlines(raw_image@, line as int),
            want.len() == n + rows,
            forall|k: int| 0 <= k < filtered@.len() ==> filtered@[k] == want[k],
        decreases rows - row,
    {
        proof {
            lemma_row_bounds(row as int, rows as int, line as int);
            lemma_cell_position(row as int, 0, line + 1);
            assert((row + 1) * (line + 1) == row * (line + 1) + line + 1) by (nonlinear_arith);
        }
        filtered.push(FILTER_NONE);
        assert(want[row * (line + 1)] == FILTER_NONE);
        let mut col: usize = 0;
        while col < line
            invariant
                line > 0,
                n == raw_image@.len(),
                n == line * rows,
                row < rows,
                col <= line,
                i == row * line + col,
                (row + 1) * line <= n,
                (row + 1) * (line + 1) <= n + rows,
                filtered@.len() == row * (line + 1) + 1 + col,
                want == filtered_scanlines(raw_image@, line as int),
                want.len() == n + rows,
                forall|k: int| 0 <= k < filtered@.len() ==> filtered@[k] == want[k],
            decreases line - col,
        {
            proof {
                lemma_cell_position(row as int, 1 + col, line + 1);
                assert(row * (line + 1) + 1 + col - row - 1 == row * line + col)
                    by (nonlinear_arith);
                assert((row + 1) * line == row * line + line) by (nonlinear_arith);
                assert((row + 1) * (line + 1) == row * (line + 1) + line + 1) by (nonlinear_arith);
            }
            filtered.push(raw_image[i]);
            i = i + 1;
            col = col + 1;
        }
        proof {
            assert((row + 1) * line == row * line + line) by (nonlinear_arith);
            assert((row + 1) * (line + 1) == row * (line + 1) + line + 1) by (nonlinear_arith);
        }
        row = row + 1;
    }
    assert(filtered@.len() == n + rows) by (nonlinear_arith)
        requires
            filtered@.len() == rows * (line + 1),
            n == line * rows,
    ;
    assert(filtered@ =~= want);
    Ok(filtered)
}

/// Row `row` of `rows` rows of `line` cells ends within the cells, and does so
/// too when every row is one cell longer.
proof fn lemma_row_bounds(row: int, rows: int, line: int)
    requires
        0 <= row < rows,
        line > 0,
    ensures
        (row + 1) * line <= line * rows,
        (row + 1) * (line + 1) <= line * rows + rows,
        0 <= row * line,
        0 <= row * (line + 1),
{
    assert((row + 1) * line <= line * rows && (row + 1) * (line + 1) <= line * rows + rows && 0
        <= row * line && 0 <= row * (line + 1)) by (nonlinear_arith)
        requires
            0 <= row < rows,
            line > 0,
    ;
}

/// An image of `width` by `height` pixels whose samples are all there fills
/// whole scanlines, and its filtered stream holds one byte more per row:
/// `height * (1 + width * samples_per_pixel)` bytes.
pub proof fn lemma_filtered_length(raw: Seq<u8>, width: u32, height: u32, color_type: u8)
    requires
        width > 0,
        raw.len() == width * height * samples_per_pixel(color_type),
    ensures
        fills_scanlines(raw.len() as int, scanline_width(width, color_type)),
        filtered_scanlines(raw, scanline_width(width, color_type)).len() == height * (1 + width
            * samples_per_pixel(color_type)),
{
    let line = scanline_width(width, color_type);
    let n = raw.len() as int;
    assert(line > 0 && n == height * line && height * (1 + line) == n + height)
        by (nonlinear_arith)
        requires
            width > 0,
            n == width * height * samples_per_pixel(color_type),
            line == width * samples_per_pixel(color_type),
            samples_per_pixel(color_type) == 1 || samples_per_pixel(color_type) == 3,
    ;
    lemma_cell_position(height as int, 0, line);
}

} // verus!
