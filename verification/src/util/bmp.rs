//! Decoding of BMP files: uncompressed images with a header of the
//! BITMAPINFOHEADER family and 24 or 32 bits per pixel.

use crate::util::common::Image;
use crate::util::common::Pixel;
use vstd::arithmetic::div_mod::lemma_fundamental_div_mod_converse;
use vstd::prelude::*;

verus! {

/// A decoded BMP file: the image with its width, height and pixels.
pub struct DecodedBMP {
    pub image: Image,
}

/// The fields of the DIB header that the decoder uses.
struct DIBHeader {
    width: u32,
    height: u32,
    depth: u16,
}

/// Size of the file header, which comes first.
pub const FILE_HEADER_SIZE: usize = 14;

/// What the decoder says of a file that ends before its data does.
pub open spec fn too_small() -> Seq<char> {
    "BMP file is too small."@
}

/// What the decoder says of a file that does not begin with `BM`.
pub open spec fn bad_magic() -> Seq<char> {
    "BMP file header has incorrect magic values."@
}

/// What the decoder says of a DIB header of a length it does not know.
pub open spec fn bad_header() -> Seq<char> {
    "Unsupported DIB header type."@
}

/// What the decoder says of a bit depth other than 24 and 32.
pub open spec fn bad_depth() -> Seq<char> {
    "Unsupported bit depth."@
}

/// The 16-bit number whose bytes stand at `at`, lowest byte first.
pub open spec fn le16(data: Seq<u8>, at: int) -> int {
    data[at] as int + 256 * data[at + 1] as int
}

/// The 32-bit number whose bytes stand at `at`, lowest byte first.
pub open spec fn le32(data: Seq<u8>, at: int) -> int {
    data[at] as int + 256 * data[at + 1] as int + 65536 * data[at + 2] as int + 16777216 * data[at
        + 3] as int
}

/// The lengths of the DIB headers that the decoder reads.
pub open spec fn header_supported(length: int) -> bool {
    length == 40 || length == 52 || length == 56 || length == 108 || length == 124
}

/// The bit depths that the decoder reads.
pub open spec fn depth_supported(depth: int) -> bool {
    depth == 24 || depth == 32
}

/// Bytes that one row of pixels takes in the file: the pixels, and as many
/// bytes of padding as the width leaves when divided by 4.
pub open spec fn row_stride(width: int, depth: int) -> int {
    width * (depth / 8) + width % 4
}

/// The pixel in row `row` and column `column` of the pixel array that begins
/// at `start`. Rows are counted in the order of the file. A pixel of 32 bits
/// is stored as alpha, blue, green, red; one of 24 bits as blue, green, red.
pub open spec fn pixel_at(data: Seq<u8>, start: int, width: int, depth: int, row: int, column: int)
    -> Pixel {
    let at = start + row * row_stride(width, depth) + column * (depth / 8);
    if depth == 32 {
        Pixel { alpha: data[at], blue: data[at + 1], green: data[at + 2], red: data[at + 3] }
    } else {
        Pixel { alpha: 0, blue: data[at], green: data[at + 1], red: data[at + 2] }
    }
}

/// The pixels of the array that begins at `start`: the rows of the file in
/// reverse order, each row in the order of the file.
pub open spec fn pixel_array(data: Seq<u8>, start: int, width: int, height: int, depth: int) -> Seq<
    Pixel,
> {
    Seq::new(
        (width * height) as nat,
        |k: int| pixel_at(data, start, width, depth, height - 1 - k / width, k % width),
    )
}

/// Length of the file's DIB header, as the file states it.
pub open spec fn dib_length(data: Seq<u8>) -> int {
    le32(data, 14)
}

/// Width of the image, as the file states it.
pub open spec fn bmp_width(data: Seq<u8>) -> int {
    le32(data, 18)
}

/// Height of the image, as the file states it.
pub open spec fn bmp_height(data: Seq<u8>) -> int {
    le32(data, 22)
}

/// Bits per pixel, as the file states them.
pub open spec fn bmp_depth(data: Seq<u8>) -> int {
    le16(data, 28)
}

/// Why a file cannot be decoded, if it cannot: the first of the checks that
/// fails, in the order in which the file is read.
pub open spec fn bmp_error(data: Seq<u8>) -> Option<Seq<char>> {
    if data.len() < 14 {
        Some(too_small())
    } else if data[0] != 66 || data[1] != 77 {
        Some(bad_magic())
    } else if data.len() < 18 {
        Some(too_small())
    } else if !header_supported(dib_length(data)) {
        Some(bad_header())
    } else if data.len() < 30 {
        Some(too_small())
    } else if !depth_supported(bmp_depth(data)) {
        Some(bad_depth())
    } else if data.len() < 14 + dib_length(data) {
        Some(too_small())
    } else if data.len() < 14 + dib_length(data) + bmp_height(data) * row_stride(
        bmp_width(data),
        bmp_depth(data),
    ) {
        Some(too_small())
    } else {
        None
    }
}

/// The pixels of a file that can be decoded.
pub open spec fn bmp_pixels(data: Seq<u8>) -> Seq<Pixel> {
    pixel_array(
        data,
        14 + dib_length(data),
        bmp_width(data),
        bmp_height(data),
        bmp_depth(data),
    )
}

/// A row that is not the last ends before the array does.
proof fn lemma_row_within(row: int, height: int, stride: int)
    requires
        0 <= row < height,
        0 <= stride,
    ensures
        0 <= row * stride,
        row * stride + stride <= height * stride,
        (row + 1) * stride == row * stride + stride,
{
    assert(0 <= row * stride) by (nonlinear_arith)
        requires
            0 <= row,
            0 <= stride,
    ;
    assert((row + 1) * stride == row * stride + stride) by (nonlinear_arith);
    assert((row + 1) * stride <= height * stride) by (nonlinear_arith)
        requires
            row + 1 <= height,
            0 <= stride,
    ;
}

/// Moves the cursor `n` bytes ahead, if the data has that many left.
pub fn consume_n(data: &Vec<u8>, cursor: &mut usize, n: usize) -> (result: Result<(), String>)
    ensures
        match result {
            Ok(_) => *old(cursor) + n <= data@.len() && *final(cursor) == *old(cursor) + n,
            Err(message) => *old(cursor) + n > data@.len() && *final(cursor) == *old(cursor)
                && message@ == too_small(),
        },
{
    if *cursor > data.len() || n > data.len() - *cursor {
        return Err("BMP file is too small.".to_string());
    }
    *cursor = *cursor + n;
    Ok(())
}

/// Reads `n` bytes and moves the cursor past them.
pub fn read_n_bytes<'a>(data: &'a Vec<u8>, cursor: &mut usize, n: usize) -> (result: Result<
    &'a [u8],
    String,
>)
    ensures
        match result {
            Ok(bytes) => *old(cursor) + n <= data@.len() && *final(cursor) == *old(cursor) + n
                && bytes@ == data@.subrange(*old(cursor) as int, *old(cursor) + n),
            Err(message) => *old(cursor) + n > data@.len() && *final(cursor) == *old(cursor)
                && message@ == too_small(),
        },
{
    let orig = *cursor;
    match consume_n(data, cursor, n) {
        Ok(_) => Ok(vstd::slice::slice_subrange(data.as_slice(), orig, orig + n)),
        Err(message) => Err(message),
    }
}

/// Reads a 32-bit number, lowest byte first.
pub fn read_dword(data: &Vec<u8>, cursor: &mut usize) -> (result: Result<u32, String>)
    ensures
        match result {
            Ok(value) => *old(cursor) + 4 <= data@.len() && *final(cursor) == *old(cursor) + 4
                && value == le32(data@, *old(cursor) as int),
            Err(message) => *old(cursor) + 4 > data@.len() && *final(cursor) == *old(cursor)
                && message@ == too_small(),
        },
{
    match read_n_bytes(data, cursor, 4) {
        Ok(bytes) => {
            let b0 = bytes[0] as u32;
            let b1 = bytes[1] as u32;
            let b2 = bytes[2] as u32;
            let b3 = bytes[3] as u32;
            Ok(b0 + 256 * b1 + 65536 * b2 + 16777216 * b3)
        },
        Err(message) => Err(message),
    }
}

/// Reads a 16-bit number, lowest byte first.
pub fn read_word(data: &Vec<u8>, cursor: &mut usize) -> (result: Result<u16, String>)
    ensures
        match result {
            Ok(value) => *old(cursor) + 2 <= data@.len() && *final(cursor) == *old(cursor) + 2
                && value == le16(data@, *old(cursor) as int),
            Err(message) => *old(cursor) + 2 > data@.len() && *final(cursor) == *old(cursor)
                && message@ == too_small(),
        },
{
    match read_n_bytes(data, cursor, 2) {
        Ok(bytes) => {
            let b0 = bytes[0] as u16;
            let b1 = bytes[1] as u16;
            Ok(b0 + 256 * b1)
        },
        Err(message) => Err(message),
    }
}

/// Reads one byte.
pub fn read_byte(data: &Vec<u8>, cursor: &mut usize) -> (result: Result<u8, String>)
    ensures
        match result {
            Ok(byte) => *old(cursor) < data@.len() && *final(cursor) == *old(cursor) + 1 && byte
                == data@[*old(cursor) as int],
            Err(message) => *old(cursor) >= data@.len() && *final(cursor) == *old(cursor)
                && message@ == too_small(),
        },
{
    let orig = *cursor;
    match consume_n(data, cursor, 1) {
        Ok(_) => Ok(data[orig]),
        Err(message) => Err(message),
    }
}

/// Reads the file header, of fourteen bytes, and checks that it begins with
/// `BM`. The cursor moves past the header also where the letters are wrong.
pub fn read_bmp_header(data: &Vec<u8>, cursor: &mut usize) -> (result: Result<(), String>)
    ensures
        match result {
            Ok(_) => {
                &&& *old(cursor) + 14 <= data@.len()
                &&& *final(cursor) == *old(cursor) + 14
                &&& data@[*old(cursor) as int] == 66
                &&& data@[*old(cursor) + 1] == 77
            },
            Err(message) => if *old(cursor) + 14 > data@.len() {
                &&& message@ == too_small()
                &&& *final(cursor) == *old(cursor)
            } else {
                &&& message@ == bad_magic()
                &&& *final(cursor) == *old(cursor) + 14
                &&& (data@[*old(cursor) as int] != 66 || data@[*old(cursor) + 1] != 77)
            },
        },
{
    let orig = *cursor;
    match consume_n(data, cursor, FILE_HEADER_SIZE) {
        Ok(_) => {},
        Err(message) => {
            return Err(message);
        },
    }
    if data[orig] != 66 || data[orig + 1] != 77 {
        return Err("BMP file header has incorrect magic values.".to_string());
    }
    Ok(())
}

/// Reads the DIB header, which follows the file header, and moves the
/// cursor to the pixel array.
fn read_dib_header(data: &Vec<u8>, cursor: &mut usize) -> (result: Result<DIBHeader, String>)
    requires
        *old(cursor) == 14,
    ensures
        match result {
            Ok(header) => {
                &&& data@.len() >= 14 + dib_length(data@)
                &&& header_supported(dib_length(data@))
                &&& depth_supported(bmp_depth(data@))
                &&& *final(cursor) == 14 + dib_length(data@)
                &&& header.width == bmp_width(data@)
                &&& header.height == bmp_height(data@)
                &&& header.depth == bmp_depth(data@)
            },
            Err(message) => Some(message@) == if data@.len() < 18 {
                Some(too_small())
            } else if !header_supported(dib_length(data@)) {
                Some(bad_header())
            } else if data@.len() < 30 {
                Some(too_small())
            } else if !depth_supported(bmp_depth(data@)) {
                Some(bad_depth())
            } else if data@.len() < 14 + dib_length(data@) {
                Some(too_small())
            } else {
                None
            },
        },
{
    let length = match read_dword(data, cursor) {
        Ok(length) => length,
        Err(message) => {
            return Err(message);
        },
    };
    if !(length == 40 || length == 52 || length == 56 || length == 108 || length == 124) {
        return Err("Unsupported DIB header type.".to_string());
    }
    let width = match read_dword(data, cursor) {
        Ok(width) => width,
        Err(message) => {
            return Err(message);
        },
    };
    let height = match read_dword(data, cursor) {
        Ok(height) => height,
        Err(message) => {
            return Err(message);
        },
    };
    match consume_n(data, cursor, 2) {
        Ok(_) => {},
        Err(message) => {
            return Err(message);
        },
    }
    let depth = match read_word(data, cursor) {
        Ok(depth) => depth,
        Err(message) => {
            return Err(message);
        },
    };
    if !(depth == 24 || depth == 32) {
        return Err("Unsupported bit depth.".to_string());
    }
    match consume_n(data, cursor, length as usize - 16) {
        Ok(_) => {},
        Err(message) => {
            return Err(message);
        },
    }
    Ok(DIBHeader { width, height, depth })
}

/// Reads the pixel array, which begins at the cursor, and moves the cursor
/// past it.
fn read_pixel_array(data: &Vec<u8>, cursor: &mut usize, info: &DIBHeader) -> (result: Result<
    Vec<Pixel>,
    String,
>)
    requires
        depth_supported(info.depth as int),
        *old(cursor) <= data@.len(),
    ensures
        match result {
            Ok(pixels) => {
                &&& *old(cursor) + info.height * row_stride(info.width as int, info.depth as int)
                    <= data@.len()
                &&& *final(cursor) == *old(cursor) + info.height * row_stride(
                    info.width as int,
                    info.depth as int,
                )
                &&& pixels@ == pixel_array(
                    data@,
                    *old(cursor) as int,
                    info.width as int,
                    info.height as int,
                    info.depth as int,
                )
            },
            Err(message) => {
                &&& *old(cursor) + info.height * row_stride(info.width as int, info.depth as int)
                    > data@.len()
                &&& message@ == too_small()
            },
        },
{
    let start = *cursor;
    let width = info.width as usize;
    let height = info.height as usize;
    let bytes: usize = if info.depth == 24 {
        3
    } else {
        4
    };
    let ghost stride_int = row_stride(info.width as int, info.depth as int);
    let ghost whole = pixel_array(
        data@,
        start as int,
        info.width as int,
        info.height as int,
        info.depth as int,
    );
    assert(stride_int == width * bytes + width % 4);
    assert(0 <= width * bytes <= 4 * 0xffff_ffff) by (nonlinear_arith)
        requires
            0 <= width <= 0xffff_ffff,
            3 <= bytes <= 4,
    ;
    let wide_stride: u128 = width as u128 * bytes as u128 + (info.width % 4) as u128;
    assert(0 <= height * stride_int <= 0xffff_ffff * (4 * 0xffff_ffff + 3)) by (nonlinear_arith)
        requires
            0 <= height <= 0xffff_ffff,
            0 <= stride_int <= 4 * 0xffff_ffff + 3,
    ;
    let needed: u128 = height as u128 * wide_stride;
    if needed > (data.len() - start) as u128 {
        return Err("BMP file is too small.".to_string());
    }
    let mut pixels: Vec<Pixel> = Vec::new();
    if height == 0 || width == 0 {
        assert(width * height == 0) by (nonlinear_arith)
            requires
                height == 0 || width == 0,
        ;
        *cursor = start + needed as usize;
        return Ok(pixels);
    }
    proof {
        lemma_row_within(height - 1, height as int, stride_int);
    }
    let stride = wide_stride as usize;
    let mut row_start: usize = start + (needed - wide_stride) as usize;
    let mut i: usize = 0;
    while i < height
        invariant
            0 < width == info.width,
            0 < height == info.height,
            depth_supported(info.depth as int),
            bytes == info.depth as int / 8,
            stride == stride_int == row_stride(info.width as int, info.depth as int),
            width * bytes <= stride,
            start + height * stride <= data@.len() <= usize::MAX,
            whole == pixel_array(
                data@,
                start as int,
                info.width as int,
                info.height as int,
                info.depth as int,
            ),
            i <= height,
            i < height ==> row_start == start + (height - 1 - i) * stride,
            pixels@.len() == i * width,
            pixels@.len() <= whole.len(),
            forall|k: int| 0 <= k < pixels@.len() ==> pixels@[k] == whole[k],
        decreases height - i,
    {
        let ghost row = height - 1 - i;
        proof {
            lemma_row_within(row, height as int, stride as int);
            lemma_row_within(i as int, height as int, width as int);
        }
        let mut at: usize = row_start;
        let mut c: usize = 0;
        while c < width
            invariant
                0 < width == info.width,
                0 < height == info.height,
                depth_supported(info.depth as int),
                bytes == info.depth as int / 8,
                stride == row_stride(info.width as int, info.depth as int),
                width * bytes <= stride,
                whole == pixel_array(
                    data@,
                    start as int,
                    info.width as int,
                    info.height as int,
                    info.depth as int,
                ),
                i < height,
                row == height - 1 - i,
                row_start == start + row * stride,
                row_start + stride <= data@.len() <= usize::MAX,
                i * width + width <= height * width,
                c <= width,
                at == row_start + c * bytes,
                pixels@.len() == i * width + c,
                forall|k: int| 0 <= k < pixels@.len() ==> pixels@[k] == whole[k],
            decreases width - c,
        {
            proof {
                lemma_row_within(c as int, width as int, bytes as int);
                lemma_fundamental_div_mod_converse(
                    i * width + c,
                    width as int,
                    i as int,
                    c as int,
                );
                assert(width * height == height * width) by (nonlinear_arith);
            }
            let pixel = if info.depth == 32 {
                Pixel {
                    alpha: data[at],
                    blue: data[at + 1],
                    green: data[at + 2],
                    red: data[at + 3],
                }
            } else {
                Pixel { alpha: 0, blue: data[at], green: data[at + 1], red: data[at + 2] }
            };
            assert(pixel == whole[i * width + c]);
            pixels.push(pixel);
            at = at + bytes;
            c += 1;
        }
        i += 1;
        if i < height {
            proof {
                lemma_row_within(row - 1, height as int, stride as int);
            }
            row_start = row_start - stride;
        }
    }
    proof {
        assert(width * height == height * width) by (nonlinear_arith);
    }
    *cursor = start + needed as usize;
    Ok(pixels)
}

/// Decodes the bytes of a BMP file into an image. The file is read from the
/// front: the file header, which must begin with `BM`; the DIB header, whose
/// length and bit depth must be among those supported; then the pixel
/// array. What follows the pixel array is not looked at.
pub fn decode_bmp(data: &Vec<u8>) -> (result: Result<DecodedBMP, String>)
    ensures
        match result {
            Ok(bmp) => {
                &&& bmp_error(data@).is_none()
                &&& bmp.image.width == bmp_width(data@)
                &&& bmp.image.height == bmp_height(data@)
                &&& bmp.image.data@ == bmp_pixels(data@)
            },
            Err(message) => bmp_error(data@) == Some(message@),
        },
{
    let mut cursor: usize = 0;
    match read_bmp_header(data, &mut cursor) {
        Ok(_) => {},
        Err(message) => {
            return Err(message);
        },
    }
    let info = match read_dib_header(data, &mut cursor) {
        Ok(info) => info,
        Err(message) => {
            return Err(message);
        },
    };
    let pixel_arr = match read_pixel_array(data, &mut cursor, &info) {
        Ok(pixel_arr) => pixel_arr,
        Err(message) => {
            return Err(message);
        },
    };
    let image = Image { width: info.width, height: info.height, data: pixel_arr };
    Ok(DecodedBMP { image })
}

} // verus!
