//! The picture of a framebuffer as the bytes of a bitmap file: a header of
//! 54 bytes, then the rows from the bottom up, three bytes to a pixel, each
//! row filled up to a multiple of four bytes.

use vstd::prelude::*;
use crate::color::Color;

verus! {

/// The length of the two headers of a bitmap file.
pub const HEADER_SIZE: u32 = 54;

/// The four bytes of a number, the lowest first.
pub open spec fn le32(value: int) -> Seq<u8> {
    seq![
        (value % 256) as u8,
        ((value / 256) % 256) as u8,
        ((value / 65536) % 256) as u8,
        ((value / 16777216) % 256) as u8,
    ]
}

/// The two bytes of a number, the lower first.
pub open spec fn le16(value: int) -> Seq<u8> {
    seq![(value % 256) as u8, ((value / 256) % 256) as u8]
}

/// The length in bytes of one row of the file: three bytes to a pixel,
/// rounded up to a multiple of four.
pub open spec fn row_size(width: nat) -> nat {
    ((3 * width + 3) / 4 * 4) as nat
}

/// The length in bytes of all rows of the file.
pub open spec fn data_size(width: nat, height: nat) -> nat {
    row_size(width) * height
}

/// The file header and the picture header: the signature `BM`, the length of
/// the file, where the rows start; then the length of the picture header, the
/// size of the picture, one plane of 24 bits to a pixel, no compression, the
/// length of the rows, 2835 pixels to the metre both ways and no palette.
pub open spec fn header(width: nat, height: nat) -> Seq<u8> {
    seq![0x42u8, 0x4du8] + le32(HEADER_SIZE + data_size(width, height)) + le32(0) + le32(
        HEADER_SIZE as int,
    ) + le32(40) + le32(width as int) + le32(height as int) + le16(1) + le16(24) + le32(0)
        + le32(data_size(width, height) as int) + le32(2835) + le32(2835) + le32(0) + le32(0)
}

/// The byte at place `i` of the rows: row 0 of the file is the lowest row of
/// the picture, a pixel is stored blue first, and the filling is zero.
pub open spec fn data_byte(width: nat, height: nat, pixels: Seq<u32>, i: int) -> u8 {
    let row = i / row_size(width) as int;
    let column = i % row_size(width) as int;
    if column < 3 * width {
        let color = Color::unpacked(pixels[(height - 1 - row) * width + column / 3] as int);
        if column % 3 == 0 {
            color.b
        } else if column % 3 == 1 {
            color.g
        } else {
            color.r
        }
    } else {
        0u8
    }
}

/// The bytes of the bitmap file that shows the given pixels.
pub open spec fn bitmap(width: nat, height: nat, pixels: Seq<u32>) -> Seq<u8> {
    header(width, height) + Seq::new(
        data_size(width, height),
        |i: int| data_byte(width, height, pixels, i),
    )
}

/// Whether a picture of this size can be written: the headers hold the width,
/// the height and the length of the file in 31 bits each.
pub open spec fn encodable(width: nat, height: nat) -> bool {
    width <= i32::MAX && height <= i32::MAX && HEADER_SIZE + data_size(width, height) <= i32::MAX
}

fn push_le32(out: &mut Vec<u8>, value: u32)
    ensures
        final(out)@ == old(out)@ + le32(value as int),
{
    out.push((value % 256) as u8);
    out.push(((value / 256) % 256) as u8);
    out.push(((value / 65536) % 256) as u8);
    out.push(((value / 16777216) % 256) as u8);
    assert(out@ =~= old(out)@ + le32(value as int));
}

fn push_le16(out: &mut Vec<u8>, value: u16)
    ensures
        final(out)@ == old(out)@ + le16(value as int),
{
    out.push((value % 256) as u8);
    out.push(((value / 256) % 256) as u8);
    assert(out@ =~= old(out)@ + le16(value as int));
}

/// The length of the rows of a picture, if the picture can be written.
fn rows_size(width: usize, height: usize) -> (size: Option<(u32, u32, u32)>)
    ensures
        match size {
            Some((w, h, bytes)) => encodable(width as nat, height as nat) && w == width && h
                == height && bytes == data_size(width as nat, height as nat),
            None => !encodable(width as nat, height as nat),
        },
{
    if width > 0x7fff_ffff || height > 0x7fff_ffff {
        return None;
    }
    let row: u64 = (3 * width as u64 + 3) / 4 * 4;
    assert(row * height <= 0x2_0000_0000 * 0x7fff_ffff) by (nonlinear_arith)
        requires
            0 <= row <= 0x2_0000_0000,
            0 <= height <= 0x7fff_ffff,
    ;
    let bytes: u64 = row * height as u64;
    if bytes + 54 > 0x7fff_ffff {
        return None;
    }
    Some((width as u32, height as u32, bytes as u32))
}

/// The two headers of the file for a picture of the given size.
fn encode_header(width: u32, height: u32, size: u32) -> (out: Vec<u8>)
    requires
        size == data_size(width as nat, height as nat),
        HEADER_SIZE + size <= i32::MAX,
    ensures
        out@ == header(width as nat, height as nat),
{
    let mut out: Vec<u8> = Vec::new();
    out.push(0x42);
    out.push(0x4d);
    push_le32(&mut out, HEADER_SIZE + size);
    push_le32(&mut out, 0);
    push_le32(&mut out, HEADER_SIZE);
    push_le32(&mut out, 40);
    push_le32(&mut out, width);
    push_le32(&mut out, height);
    push_le16(&mut out, 1);
    push_le16(&mut out, 24);
    push_le32(&mut out, 0);
    push_le32(&mut out, size);
    push_le32(&mut out, 2835);
    push_le32(&mut out, 2835);
    push_le32(&mut out, 0);
    push_le32(&mut out, 0);
    assert(out@ =~= header(width as nat, height as nat));
    out
}

/// The byte at place `i` of the rows.
fn encode_byte(width: usize, height: usize, pixels: &Vec<u32>, i: usize) -> (byte: u8)
    requires
        encodable(width as nat, height as nat),
        pixels.len() == width * height,
        i < data_size(width as nat, height as nat),
    ensures
        byte == data_byte(width as nat, height as nat, pixels@, i as int),
{
    assert(0 < row_size(width as nat) <= data_size(width as nat, height as nat))
        by (nonlinear_arith)
        requires
            i < row_size(width as nat) * height,
            data_size(width as nat, height as nat) == row_size(width as nat) * height,
            0 <= height,
    ;
    let stride: usize = (3 * width + 3) / 4 * 4;
    let row = i / stride;
    let column = i % stride;
    proof {
        vstd::arithmetic::div_mod::lemma_fundamental_div_mod(i as int, stride as int);
        assert(row < height) by (nonlinear_arith)
            requires
                i < stride * height,
                stride > 0,
                i == stride * row + column,
                0 <= column,
        ;
    }
    if column < 3 * width {
        proof {
            lemma_place(width as int, height as int, (column / 3) as int, height - 1 - row);
        }
        let color = Color::from_hex(pixels[(height - 1 - row) * width + column / 3]);
        if column % 3 == 0 {
            color.b
        } else if column % 3 == 1 {
            color.g
        } else {
            color.r
        }
    } else {
        0
    }
}

/// The bytes of the bitmap file that shows `pixels`, a grid of `width` by
/// `height` packed colours given row after row from the top. There is no
/// file where the grid does not hold `width * height` pixels or where the
/// headers cannot hold its size.
pub fn encode_bitmap(width: usize, height: usize, pixels: &Vec<u32>) -> (file: Option<Vec<u8>>)
    ensures
        match file {
            Some(bytes) => {
                &&& pixels.len() == width * height
                &&& encodable(width as nat, height as nat)
                &&& bytes@ == bitmap(width as nat, height as nat, pixels@)
            },
            None => pixels.len() != width * height || !encodable(width as nat, height as nat),
        },
{
    let (w, h, size) = match rows_size(width, height) {
        Some(sizes) => sizes,
        None => {
            return None;
        },
    };
    assert(width * height <= 0x7fff_ffff * 0x7fff_ffff) by (nonlinear_arith)
        requires
            0 <= width <= 0x7fff_ffff,
            0 <= height <= 0x7fff_ffff,
    ;
    if pixels.len() as u64 != width as u64 * height as u64 {
        return None;
    }
    let mut out = encode_header(w, h, size);
    let ghost head = out@;
    let ghost wide = width as nat;
    let ghost high = height as nat;
    let mut i: usize = 0;
    while i < size as usize
        invariant
            i <= size,
            wide == width,
            high == height,
            encodable(wide, high),
            size == data_size(wide, high),
            pixels.len() == width * height,
            head.len() == 54,
            out@ == head + Seq::new(i as nat, |j: int| data_byte(wide, high, pixels@, j)),
        decreases size - i,
    {
        let byte = encode_byte(width, height, pixels, i);
        out.push(byte);
        i += 1;
        assert(out@ =~= head + Seq::new(i as nat, |j: int| data_byte(wide, high, pixels@, j)));
    }
    Some(out)
}

/// Row `row` and column `column` of a grid lie inside it, and where in it.
proof fn lemma_place(width: int, height: int, column: int, row: int)
    requires
        0 <= column < width,
        0 <= row < height,
    ensures
        0 <= row * width + column < width * height,
        (row * width + column) % width == column,
        (row * width + column) / width == row,
{
    assert(row * width + column < width * height) by (nonlinear_arith)
        requires
            0 <= column < width,
            0 <= row < height,
    ;
    assert(0 <= row * width) by (nonlinear_arith)
        requires
            0 <= row,
            0 <= width,
    ;
    vstd::arithmetic::div_mod::lemma_fundamental_div_mod_converse(
        row * width + column,
        width,
        row,
        column,
    );
}

} // verus!
