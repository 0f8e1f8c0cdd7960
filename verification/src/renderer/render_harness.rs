//! Offscreen rendering target: extent check and the layout of the pixel readback.
use vstd::prelude::*;

use crate::align_up;
use crate::div_ceil_spec;
use crate::renderer::error::{PaintError, RendererError};

verus! {

/// Row pitch that texture-to-buffer copies require.
pub const COPY_BYTES_PER_ROW_ALIGNMENT: u32 = 256;

/// Rejects an empty render target.
pub fn check_extent(width: u32, height: u32) -> (r: Result<(), RendererError>)
    ensures
        (width == 0 || height == 0) ==> r == Err::<(), RendererError>(
            RendererError::Paint(PaintError::Other("zero-extent render target")),
        ),
        (width != 0 && height != 0) ==> r is Ok,
{
    if width == 0 || height == 0 {
        return Err(RendererError::Paint(PaintError::Other("zero-extent render target")));
    }
    Ok(())
}

/// Byte layout of a readback of a `width` x `height` RGBA8 image.
#[derive(Clone, Copy, Debug, PartialEq, Eq, Structural)]
pub struct ReadbackLayout {
    /// Bytes of pixel data per row.
    pub unpadded_bytes_per_row: u32,
    /// Bytes per row in the buffer, padded to the copy alignment.
    pub bytes_per_row: u32,
    /// Size of the readback buffer.
    pub buffer_size: u64,
}

/// The readback layout of a `width` x `height` image.
pub fn readback_layout(width: u32, height: u32) -> (r: ReadbackLayout)
    requires
        div_ceil_spec(4 * width, 256) * 256 <= u32::MAX,
    ensures
        r.unpadded_bytes_per_row == 4 * width,
        r.bytes_per_row == div_ceil_spec(4 * width, 256) * 256,
        r.buffer_size == r.bytes_per_row * height,
{
    let unpadded = 4 * width;
    let padded = align_up(unpadded, COPY_BYTES_PER_ROW_ALIGNMENT);
    assert((padded as u64) * (height as u64) <= u64::MAX) by (nonlinear_arith)
        requires
            padded <= u32::MAX,
            height <= u32::MAX,
    ;
    ReadbackLayout { unpadded_bytes_per_row: unpadded, bytes_per_row: padded, buffer_size: (padded as u64) * (height as u64) }
}

/// The first `rows` rows of `data`: `row_len` bytes taken at every `pitch` bytes.
pub open spec fn unpadded_rows(data: Seq<u8>, row_len: int, pitch: int, rows: int) -> Seq<u8>
    decreases rows,
{
    if rows <= 0 {
        Seq::empty()
    } else {
        unpadded_rows(data, row_len, pitch, rows - 1) + data.subrange((rows - 1) * pitch, (rows - 1) * pitch + row_len)
    }
}

/// Stripping the padding keeps `row_len` bytes of each of the `rows` rows: the result
/// holds `row_len * rows` bytes, and its byte at row `r`, column `c` is the byte at
/// row `r`, column `c` of the padded buffer.
pub proof fn law_unpadded_rows_layout(data: Seq<u8>, row_len: int, pitch: int, rows: int)
    requires
        0 <= row_len <= pitch,
        0 <= rows,
        rows * pitch <= data.len(),
    ensures
        unpadded_rows(data, row_len, pitch, rows).len() == row_len * rows,
        forall|r: int, c: int|
            0 <= r < rows && 0 <= c < row_len ==> #[trigger] unpadded_rows(data, row_len, pitch, rows)[r * row_len + c]
                == data[r * pitch + c],
    decreases rows,
{
    if rows > 0 {
        assert((rows - 1) * pitch <= data.len() && (rows - 1) * pitch + row_len <= rows * pitch) by (nonlinear_arith)
            requires
                0 <= row_len <= pitch,
                1 <= rows,
                rows * pitch <= data.len(),
        ;
        assert(row_len * rows == row_len * (rows - 1) + row_len) by (nonlinear_arith);
        law_unpadded_rows_layout(data, row_len, pitch, rows - 1);
        let prev = unpadded_rows(data, row_len, pitch, rows - 1);
        let last = data.subrange((rows - 1) * pitch, (rows - 1) * pitch + row_len);
        let all = unpadded_rows(data, row_len, pitch, rows);
        assert(all == prev + last);
        assert forall|r: int, c: int| 0 <= r < rows && 0 <= c < row_len implies #[trigger] all[r * row_len + c]
            == data[r * pitch + c] by {
            if r < rows - 1 {
                assert(r * row_len + c < row_len * (rows - 1)) by (nonlinear_arith)
                    requires
                        0 <= r < rows - 1,
                        0 <= c < row_len,
                ;
                assert(0 <= r * row_len) by (nonlinear_arith)
                    requires
                        0 <= r,
                        0 <= row_len,
                ;
                assert(all[r * row_len + c] == prev[r * row_len + c]);
            } else {
                assert(r * row_len == row_len * (rows - 1)) by (nonlinear_arith)
                    requires
                        r == rows - 1,
                ;
                assert(all[r * row_len + c] == last[c]);
                assert(r * pitch == (rows - 1) * pitch);
            }
        }
    }
}

/// Strips the row padding of a readback buffer: keeps `4 * width` bytes of every row.
pub fn unpad_rows(data: &[u8], width: u32, height: u32, bytes_per_row: u32) -> (r: Vec<u8>)
    requires
        4 * width <= bytes_per_row,
        bytes_per_row as int * height as int <= data@.len(),
        bytes_per_row as int * height as int <= u32::MAX,
    ensures
        r@ == unpadded_rows(data@, 4 * width as int, bytes_per_row as int, height as int),
        r@.len() == 4 * width * height,
        forall|row: int, c: int|
            0 <= row < height && 0 <= c < 4 * width ==> #[trigger] r@[row * (4 * width) + c] == data@[row
                * bytes_per_row + c],
{
    proof {
        assert(height as int * bytes_per_row as int == bytes_per_row as int * height as int) by (nonlinear_arith);
        law_unpadded_rows_layout(data@, 4 * width as int, bytes_per_row as int, height as int);
        assert((4 * width) * height == 4 * width * height) by (nonlinear_arith);
    }
    let row_len = 4 * width;
    let mut pixels: Vec<u8> = Vec::new();
    let mut row: u32 = 0;
    while row < height
        invariant
            row <= height,
            row_len == 4 * width,
            4 * width <= bytes_per_row,
            bytes_per_row as int * height as int <= data@.len(),
            bytes_per_row as int * height as int <= u32::MAX,
            pixels@ == unpadded_rows(data@, row_len as int, bytes_per_row as int, row as int),
        decreases height - row,
    {
        assert(row as int * bytes_per_row as int + bytes_per_row as int <= bytes_per_row as int * height as int) by (nonlinear_arith)
            requires
                row < height,
        ;
        let start = row * bytes_per_row;
        let end = start + row_len;
        let ghost before = pixels@;
        let mut k: u32 = start;
        while k < end
            invariant
                start <= k <= end,
                end as int <= data@.len(),
                pixels@ == before + data@.subrange(start as int, k as int),
            decreases end - k,
        {
            pixels.push(data[k as usize]);
            assert(data@.subrange(start as int, k as int + 1) =~= data@.subrange(start as int, k as int).push(
                data@[k as int],
            ));
            k = k + 1;
        }
        row = row + 1;
    }
    pixels
}

} // verus!
