//! The buffer packer: rows without their padding.

use vstd::prelude::*;

use crate::error::ExtractionError;

verus! {

/// Bytes that one pixel takes in a packed 24-bit RGB row.
pub const BYTES_PER_PIXEL: usize = 3;

/// A converted picture as the scaler leaves it: `height` rows of 24-bit RGB
/// pixels, the start of each row `stride` bytes after the start of the one
/// before. Where `stride` exceeds the width of a row in bytes, the bytes in
/// between are padding. The bytes stay where the scaler put them.
#[derive(Clone, Copy, Debug, PartialEq, Eq)]
pub struct ConvertedFrame<'a> {
    pub data: &'a [u8],
    pub stride: usize,
    pub width: u32,
    pub height: u32,
}

/// The first `count` rows of `data`, each `row_bytes` long and `stride`
/// apart, laid end to end: row `i` is `data[i * stride .. i * stride + row_bytes]`.
pub open spec fn rows(data: Seq<u8>, stride: int, row_bytes: int, count: nat) -> Seq<u8>
    decreases count,
{
    if count == 0 {
        Seq::empty()
    } else {
        rows(data, stride, row_bytes, (count - 1) as nat) + data.subrange(
            (count - 1) * stride,
            (count - 1) * stride + row_bytes,
        )
    }
}

impl<'a> ConvertedFrame<'a> {
    /// Width of one row of pixels in bytes.
    pub open spec fn row_bytes(self) -> int {
        3 * self.width
    }

    /// The picture is not empty, its rows do not overlap, and every row lies
    /// within the data. The last row needs no padding after it.
    pub open spec fn valid(self) -> bool {
        &&& self.width >= 1
        &&& self.height >= 1
        &&& self.row_bytes() <= self.stride
        &&& (self.height - 1) * self.stride + self.row_bytes() <= self.data@.len()
    }

    /// The tightly packed picture: the rows without their padding.
    pub open spec fn packed(self) -> Seq<u8> {
        rows(self.data@, self.stride as int, self.row_bytes(), self.height as nat)
    }

    /// Tells whether the geometry is valid.
    pub fn is_valid(&self) -> (ok: bool)
        ensures
            ok == self.valid(),
    {
        if self.width == 0 || self.height == 0 {
            return false;
        }
        let row: u128 = 3 * (self.width as u128);
        if row > self.stride as u128 {
            return false;
        }
        assert((self.height - 1) * self.stride <= 0xffff_ffff * 0xffff_ffff_ffff_ffff)
            by (nonlinear_arith)
            requires
                0 <= self.height - 1 <= 0xffff_ffff,
                0 <= self.stride <= 0xffff_ffff_ffff_ffff,
        ;
        let reach: u128 = (self.height as u128 - 1) * (self.stride as u128) + row;
        reach <= self.data.len() as u128
    }

    /// Strips the padding: copies the `3 * width` bytes of each row, one row
    /// after the other, into a buffer of exactly `3 * width * height` bytes.
    /// A frame whose geometry is not valid is refused with `Conversion`.
    pub fn pack_rows(&self) -> (result: Result<Vec<u8>, ExtractionError>)
        ensures
            match result {
                Ok(buffer) => self.valid() && buffer@ == self.packed() && buffer@.len() == 3
                    * self.width * self.height,
                Err(e) => !self.valid() && e == ExtractionError::Conversion,
            },
    {
        if !self.is_valid() {
            return Err(ExtractionError::Conversion);
        }
        let stride = self.stride;
        let height = self.height as usize;
        let row = BYTES_PER_PIXEL * (self.width as usize);
        let available = self.data.len();
        let mut buffer: Vec<u8> = Vec::new();
        let mut line: usize = 0;
        while line < height
            invariant
                self.valid(),
                available == self.data@.len(),
                stride == self.stride,
                height == self.height,
                row == self.row_bytes(),
                line <= height,
                buffer@ == rows(self.data@, stride as int, row as int, line as nat),
            decreases height - line,
        {
            assert(0 <= line * stride && line * stride + row <= available) by (nonlinear_arith)
                requires
                    0 <= line <= height - 1,
                    0 <= stride,
                    (height - 1) * stride + row <= available,
            ;
            let begin = line * stride;
            let end = begin + row;
            let ghost before = buffer@;
            buffer.extend_from_slice(vstd::slice::slice_subrange(self.data, begin, end));
            assert(buffer@ =~= before + self.data@.subrange(begin as int, end as int));
            line = line + 1;
        }
        proof {
            lemma_rows_len(self.data@, stride as int, row as int, height as nat);
            assert(row * height == 3 * self.width * self.height) by (nonlinear_arith)
                requires
                    row == 3 * self.width,
                    height == self.height,
            ;
        }
        Ok(buffer)
    }
}

/// `count` rows laid end to end take `count * row_bytes` bytes.
pub proof fn lemma_rows_len(data: Seq<u8>, stride: int, row_bytes: int, count: nat)
    requires
        0 <= row_bytes <= stride,
        count >= 1 ==> (count - 1) * stride + row_bytes <= data.len(),
    ensures
        rows(data, stride, row_bytes, count).len() == count * row_bytes,
    decreases count,
{
    if count > 0 {
        assert((count - 2) * stride + row_bytes <= (count - 1) * stride + row_bytes
            && 0 <= (count - 1) * stride) by (nonlinear_arith)
            requires
                count >= 1,
                0 <= stride,
        ;
        lemma_rows_len(data, stride, row_bytes, (count - 1) as nat);
        assert((count - 1) * row_bytes + row_bytes == count * row_bytes) by (nonlinear_arith);
    }
}

/// Byte `column` of row `line` of the packed picture is byte
/// `line * stride + column` of the data: padding never reaches the output.
pub proof fn lemma_rows_index(
    data: Seq<u8>,
    stride: int,
    row_bytes: int,
    count: nat,
    line: int,
    column: int,
)
    requires
        0 <= row_bytes <= stride,
        count >= 1 ==> (count - 1) * stride + row_bytes <= data.len(),
        0 <= line < count,
        0 <= column < row_bytes,
    ensures
        0 <= line * row_bytes + column < rows(data, stride, row_bytes, count).len(),
        0 <= line * stride + column < data.len(),
        rows(data, stride, row_bytes, count)[line * row_bytes + column] == data[line * stride
            + column],
    decreases count,
{
    assert((count - 2) * stride + row_bytes <= (count - 1) * stride + row_bytes && 0 <= (count
        - 1) * stride) by (nonlinear_arith)
        requires
            count >= 1,
            0 <= stride,
    ;
    lemma_rows_len(data, stride, row_bytes, (count - 1) as nat);
    lemma_rows_len(data, stride, row_bytes, count);
    if line == count - 1 {
    } else {
        lemma_rows_index(data, stride, row_bytes, (count - 1) as nat, line, column);
        assert(line * row_bytes + column < (count - 1) * row_bytes) by (nonlinear_arith)
            requires
                0 <= line < count - 1,
                0 <= column < row_bytes,
        ;
    }
}

/// Stride stripping: the packed picture of a valid frame has `3 * width *
/// height` bytes, and wherever the stride exceeds the width of a row that is
/// strictly less than the `stride * height` bytes of the rows with their
/// padding.
pub proof fn lemma_padding_is_stripped(frame: ConvertedFrame)
    requires
        frame.valid(),
    ensures
        frame.packed().len() == 3 * frame.width * frame.height,
        frame.packed().len() >= 3,
        frame.stride > frame.row_bytes() ==> frame.packed().len() < frame.stride * frame.height,
{
    lemma_rows_len(frame.data@, frame.stride as int, frame.row_bytes(), frame.height as nat);
    let w = frame.width as int;
    let h = frame.height as int;
    let s = frame.stride as int;
    assert(h * (3 * w) == 3 * w * h && 3 * w * h >= 3) by (nonlinear_arith)
        requires
            w >= 1,
            h >= 1,
    ;
    if s > 3 * w {
        assert(h * (3 * w) < s * h) by (nonlinear_arith)
            requires
                s > 3 * w,
                h >= 1,
        ;
    }
}

} // verus!
