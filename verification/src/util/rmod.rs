//! Decoding of RMOD files, the engine's own binary model format: three
//! texture maps, a shininess and the mesh, written as a stream of bits with
//! the highest bit of each number first.
//!
//! Floats are kept as the 32 bits that the file has for them: one bit of
//! sign, eight of exponent and 23 of mantissa. The library moves them and
//! never computes with them.

use crate::util::common::Image;
use crate::util::common::Pixel;
use crate::util::common::Vector2;
use crate::util::common::Vector3;
use crate::util::common::Vertex;
use vstd::arithmetic::power2::lemma2_to64;
use vstd::arithmetic::power2::lemma_pow2_strictly_increases;
use vstd::arithmetic::power2::lemma_pow2_unfold;
use vstd::arithmetic::power2::pow2;
use vstd::prelude::*;

verus! {

/// A decoded RMOD file: the diffuse, specular and normal maps, where the
/// file has them, the vertices and indices of the mesh, and the shininess of
/// its material. The components of the vertices and the shininess are
/// floats, given as their 32 bits.
pub struct DecodedRMOD {
    pub diffuse: Option<Image>,
    pub specular: Option<Image>,
    pub normal: Option<Image>,
    pub vertices: Vec<Vertex<u32>>,
    pub elements: Vec<u32>,
    pub shininess: u32,
}

/// Number of bits in a byte.
pub const BITS_PER_BYTE: usize = 8;

/// What the decoder says of a file that ends before its data does.
pub open spec fn too_small() -> Seq<char> {
    "RMOD file is too small."@
}

/// What the decoder says of a file that goes on after its data.
pub open spec fn badly_sized() -> Seq<char> {
    "RMOD file is improperly sized."@
}

/// What the decoder says of a file that does not begin with `RUSTGAME`.
pub open spec fn bad_magic() -> Seq<char> {
    "Magic header is invalid."@
}

/// What is said of a request for more than 32 bits at once.
pub open spec fn too_many_bits() -> Seq<char> {
    "Too many bits to read at once."@
}

/// What is said of a request for a byte that begins within a byte.
pub open spec fn unaligned() -> Seq<char> {
    "Cannot read unaligned byte."@
}

/// The letters `RUSTGAME`, with which a file begins.
pub open spec fn magic() -> Seq<u8> {
    seq![82u8, 85u8, 83u8, 84u8, 71u8, 65u8, 77u8, 69u8]
}

/// The byte with only bit `position` set, counted from the highest bit.
pub open spec fn bit_mask(position: int) -> u8 {
    if position == 0 {
        128
    } else if position == 1 {
        64
    } else if position == 2 {
        32
    } else if position == 3 {
        16
    } else if position == 4 {
        8
    } else if position == 5 {
        4
    } else if position == 6 {
        2
    } else {
        1
    }
}

/// Bit `index` of the data, counted from the highest bit of the first byte.
pub open spec fn bit_at(data: Seq<u8>, index: int) -> bool {
    data[index / 8] & bit_mask(index % 8) != 0
}

/// The number that the `n` bits from bit `from` on spell, highest bit first.
pub open spec fn bits_value(data: Seq<u8>, from: int, n: nat) -> int
    decreases n,
{
    if n == 0 {
        0
    } else {
        2 * bits_value(data, from, (n - 1) as nat) + if bit_at(data, from + n - 1) {
            1int
        } else {
            0int
        }
    }
}

/// The 32-bit number whose bytes stand at byte `at`, highest byte first.
pub open spec fn be32(data: Seq<u8>, at: int) -> int {
    16777216 * data[at] as int + 65536 * data[at + 1] as int + 256 * data[at + 2] as int + data[at
        + 3] as int
}

/// Where the image that begins at byte `at` ends: after its width and
/// height if one of them is 0, else after four bytes for each pixel.
pub open spec fn image_end(data: Seq<u8>, at: int) -> int {
    if be32(data, at) == 0 || be32(data, at + 4) == 0 {
        at + 8
    } else {
        at + 8 + 4 * (be32(data, at) * be32(data, at + 4))
    }
}

/// The bytes from the start of the file that reading the image at `at`
/// asks for.
pub open spec fn image_needs(data: Seq<u8>, at: int) -> int {
    if data.len() < at + 8 {
        at + 8
    } else {
        image_end(data, at)
    }
}

/// The pixels of the image that begins at byte `at`, each stored as red,
/// green, blue, alpha.
pub open spec fn image_pixels(data: Seq<u8>, at: int) -> Seq<Pixel> {
    Seq::new(
        (be32(data, at) * be32(data, at + 4)) as nat,
        |k: int|
            Pixel {
                red: data[at + 8 + 4 * k],
                green: data[at + 8 + 4 * k + 1],
                blue: data[at + 8 + 4 * k + 2],
                alpha: data[at + 8 + 4 * k + 3],
            },
    )
}

/// `image` is what the file has at byte `at`: nothing if the width or the
/// height is 0, else the image of that width and height.
pub open spec fn image_matches(image: Option<Image>, data: Seq<u8>, at: int) -> bool {
    match image {
        None => be32(data, at) == 0 || be32(data, at + 4) == 0,
        Some(image) => {
            &&& be32(data, at) != 0
            &&& be32(data, at + 4) != 0
            &&& image.width == be32(data, at)
            &&& image.height == be32(data, at + 4)
            &&& image.data@ == image_pixels(data, at)
        },
    }
}

/// The two floats at byte `at`.
pub open spec fn vector2_at(data: Seq<u8>, at: int) -> Vector2<u32> {
    Vector2 { x: be32(data, at) as u32, y: be32(data, at + 4) as u32 }
}

/// The three floats at byte `at`.
pub open spec fn vector3_at(data: Seq<u8>, at: int) -> Vector3<u32> {
    Vector3 {
        x: be32(data, at) as u32,
        y: be32(data, at + 4) as u32,
        z: be32(data, at + 8) as u32,
    }
}

/// The vertex at byte `at`: position, normal, tangent, bitangent and
/// texture coordinate.
pub open spec fn vertex_at(data: Seq<u8>, at: int) -> Vertex<u32> {
    Vertex {
        pos: vector3_at(data, at),
        norm: vector3_at(data, at + 12),
        tangent: vector3_at(data, at + 24),
        bitangent: vector3_at(data, at + 36),
        tc: vector2_at(data, at + 48),
    }
}

/// Where the specular map begins: after the magic letters and the diffuse
/// map.
pub open spec fn specular_at(data: Seq<u8>) -> int {
    image_end(data, 8)
}

/// Where the normal map begins.
pub open spec fn normal_at(data: Seq<u8>) -> int {
    image_end(data, specular_at(data))
}

/// Where the shininess stands: after the three maps. The number of
/// vertices follows it.
pub open spec fn shininess_at(data: Seq<u8>) -> int {
    image_end(data, normal_at(data))
}

/// The number of vertices, as the file states it.
pub open spec fn vertex_count(data: Seq<u8>) -> int {
    be32(data, shininess_at(data) + 4)
}

/// Where the vertices begin.
pub open spec fn vertices_at(data: Seq<u8>) -> int {
    shininess_at(data) + 8
}

/// Where the number of indices stands: after the vertices.
pub open spec fn element_count_at(data: Seq<u8>) -> int {
    vertices_at(data) + 56 * vertex_count(data)
}

/// The number of indices, as the file states it.
pub open spec fn element_count(data: Seq<u8>) -> int {
    be32(data, element_count_at(data))
}

/// Where the indices begin.
pub open spec fn elements_at(data: Seq<u8>) -> int {
    element_count_at(data) + 4
}

/// The length that the file's own numbers give it, as far as they can be
/// read: where a number lies beyond the end of the data, the length up to
/// the end of that number.
pub open spec fn stated_length(data: Seq<u8>) -> int {
    if data.len() < 16 {
        16
    } else if data.len() < specular_at(data) + 8 {
        specular_at(data) + 8
    } else if data.len() < normal_at(data) + 8 {
        normal_at(data) + 8
    } else if data.len() < shininess_at(data) + 8 {
        shininess_at(data) + 8
    } else if data.len() < element_count_at(data) + 4 {
        element_count_at(data) + 4
    } else {
        elements_at(data) + 4 * element_count(data)
    }
}

/// What is wrong with the first letters of the file from letter `from` on,
/// if anything: the first letter that is missing or differs.
pub open spec fn magic_error(data: Seq<u8>, from: int) -> Option<Seq<char>>
    decreases 8 - from,
{
    if from < 0 || from >= 8 {
        None
    } else if from >= data.len() {
        Some(too_small())
    } else if data[from] != magic()[from] {
        Some(bad_magic())
    } else {
        magic_error(data, from + 1)
    }
}

/// Why a file cannot be decoded, if it cannot.
pub open spec fn rmod_error(data: Seq<u8>) -> Option<Seq<char>> {
    if magic_error(data, 0).is_some() {
        magic_error(data, 0)
    } else if stated_length(data) > data.len() {
        Some(too_small())
    } else if stated_length(data) < data.len() {
        Some(badly_sized())
    } else {
        None
    }
}

/// The vertices of a file that can be decoded.
pub open spec fn rmod_vertices(data: Seq<u8>) -> Seq<Vertex<u32>> {
    Seq::new(
        vertex_count(data) as nat,
        |i: int| vertex_at(data, vertices_at(data) + 56 * i),
    )
}

/// The indices of a file that can be decoded.
pub open spec fn rmod_elements(data: Seq<u8>) -> Seq<u32> {
    Seq::new(element_count(data) as nat, |j: int| be32(data, elements_at(data) + 4 * j) as u32)
}

/// The bits of a byte, highest first, spell the byte.
proof fn lemma_byte_bits(byte: u8)
    ensures
        byte == (if byte & 128 != 0 {
            128int
        } else {
            0int
        }) + (if byte & 64 != 0 {
            64int
        } else {
            0int
        }) + (if byte & 32 != 0 {
            32int
        } else {
            0int
        }) + (if byte & 16 != 0 {
            16int
        } else {
            0int
        }) + (if byte & 8 != 0 {
            8int
        } else {
            0int
        }) + (if byte & 4 != 0 {
            4int
        } else {
            0int
        }) + (if byte & 2 != 0 {
            2int
        } else {
            0int
        }) + (if byte & 1 != 0 {
            1int
        } else {
            0int
        }),
{
    assert(byte == (if byte & 128 != 0 {
        128u8
    } else {
        0u8
    }) | (if byte & 64 != 0 {
        64u8
    } else {
        0u8
    }) | (if byte & 32 != 0 {
        32u8
    } else {
        0u8
    }) | (if byte & 16 != 0 {
        16u8
    } else {
        0u8
    }) | (if byte & 8 != 0 {
        8u8
    } else {
        0u8
    }) | (if byte & 4 != 0 {
        4u8
    } else {
        0u8
    }) | (if byte & 2 != 0 {
        2u8
    } else {
        0u8
    }) | (if byte & 1 != 0 {
        1u8
    } else {
        0u8
    })) by (bit_vector);
    let b7: u8 = if byte & 128 != 0 {
        128u8
    } else {
        0u8
    };
    let b6: u8 = if byte & 64 != 0 {
        64u8
    } else {
        0u8
    };
    let b5: u8 = if byte & 32 != 0 {
        32u8
    } else {
        0u8
    };
    let b4: u8 = if byte & 16 != 0 {
        16u8
    } else {
        0u8
    };
    let b3: u8 = if byte & 8 != 0 {
        8u8
    } else {
        0u8
    };
    let b2: u8 = if byte & 4 != 0 {
        4u8
    } else {
        0u8
    };
    let b1: u8 = if byte & 2 != 0 {
        2u8
    } else {
        0u8
    };
    let b0: u8 = if byte & 1 != 0 {
        1u8
    } else {
        0u8
    };
    assert((b7 | b6 | b5 | b4 | b3 | b2 | b1 | b0) == b7 + b6 + b5 + b4 + b3 + b2 + b1 + b0)
        by (bit_vector)
        requires
            b7 == 128 || b7 == 0,
            b6 == 64 || b6 == 0,
            b5 == 32 || b5 == 0,
            b4 == 16 || b4 == 0,
            b3 == 8 || b3 == 0,
            b2 == 4 || b2 == 0,
            b1 == 2 || b1 == 0,
            b0 == 1 || b0 == 0,
    ;
}

/// Eight more bits that make up a whole byte add that byte below what was
/// read before.
proof fn lemma_bits_append_byte(data: Seq<u8>, from: int, n: nat)
    requires
        0 <= from,
        (from + n) % 8 == 0,
        (from + n) / 8 < data.len(),
    ensures
        bits_value(data, from, n + 8) == 256 * bits_value(data, from, n) + data[(from + n) / 8],
{
    let byte = data[(from + n) / 8];
    lemma_byte_bits(byte);
    reveal_with_fuel(bits_value, 9);
    assert(bit_at(data, from + n) == (byte & 128 != 0));
    assert(bit_at(data, from + n + 1) == (byte & 64 != 0));
    assert(bit_at(data, from + n + 2) == (byte & 32 != 0));
    assert(bit_at(data, from + n + 3) == (byte & 16 != 0));
    assert(bit_at(data, from + n + 4) == (byte & 8 != 0));
    assert(bit_at(data, from + n + 5) == (byte & 4 != 0));
    assert(bit_at(data, from + n + 6) == (byte & 2 != 0));
    assert(bit_at(data, from + n + 7) == (byte & 1 != 0));
}

/// Thirty-two bits that begin with a byte spell the four bytes, highest
/// byte first.
pub proof fn lemma_bits_be32(data: Seq<u8>, at: int)
    requires
        0 <= at,
        at + 4 <= data.len(),
    ensures
        bits_value(data, 8 * at, 32) == be32(data, at),
        0 <= be32(data, at) <= u32::MAX,
{
    lemma_bits_append_byte(data, 8 * at, 0);
    lemma_bits_append_byte(data, 8 * at, 8);
    lemma_bits_append_byte(data, 8 * at, 16);
    lemma_bits_append_byte(data, 8 * at, 24);
}

/// A number of `n` bits is below two to the `n`.
proof fn lemma_bits_value_bound(data: Seq<u8>, from: int, n: nat)
    ensures
        0 <= bits_value(data, from, n) < pow2(n),
    decreases n,
{
    if n == 0 {
        lemma2_to64();
    } else {
        lemma_bits_value_bound(data, from, (n - 1) as nat);
        lemma_pow2_unfold(n);
    }
}

/// Moves the cursor `n` bits ahead, if the data has that many left.
pub fn consume_n(data: &Vec<u8>, cursor: &mut usize, n: usize) -> (result: Result<(), String>)
    requires
        data@.len() * 8 <= usize::MAX,
    ensures
        match result {
            Ok(_) => *old(cursor) + n <= data@.len() * 8 && *final(cursor) == *old(cursor) + n,
            Err(message) => *old(cursor) + n > data@.len() * 8 && *final(cursor) == *old(cursor)
                && message@ == too_small(),
        },
{
    let total = data.len() * BITS_PER_BYTE;
    if *cursor > total || n > total - *cursor {
        return Err("RMOD file is too small.".to_string());
    }
    *cursor = *cursor + n;
    Ok(())
}

/// Bit `index` of the data.
fn bit(data: &Vec<u8>, index: usize) -> (set: bool)
    requires
        index < data@.len() * 8,
    ensures
        set == bit_at(data@, index as int),
{
    let byte = data[index / BITS_PER_BYTE];
    let position = index % BITS_PER_BYTE;
    let mask: u8 = if position == 0 {
        128
    } else if position == 1 {
        64
    } else if position == 2 {
        32
    } else if position == 3 {
        16
    } else if position == 4 {
        8
    } else if position == 5 {
        4
    } else if position == 6 {
        2
    } else {
        1
    };
    byte & mask != 0
}

/// Reads one bit.
pub fn read_bit(data: &Vec<u8>, cursor: &mut usize) -> (result: Result<bool, String>)
    requires
        data@.len() * 8 <= usize::MAX,
    ensures
        match result {
            Ok(set) => *old(cursor) < data@.len() * 8 && *final(cursor) == *old(cursor) + 1 && set
                == bit_at(data@, *old(cursor) as int),
            Err(message) => *old(cursor) >= data@.len() * 8 && *final(cursor) == *old(cursor)
                && message@ == too_small(),
        },
{
    let orig = *cursor;
    match consume_n(data, cursor, 1) {
        Ok(_) => Ok(bit(data, orig)),
        Err(message) => Err(message),
    }
}

/// Reads `n` bits, at most 32, as one number, highest bit first.
pub fn read_n_bits(data: &Vec<u8>, cursor: &mut usize, n: usize) -> (result: Result<u32, String>)
    requires
        data@.len() * 8 <= usize::MAX,
    ensures
        match result {
            Ok(value) => {
                &&& n <= 32
                &&& *old(cursor) + n <= data@.len() * 8
                &&& *final(cursor) == *old(cursor) + n
                &&& value == bits_value(data@, *old(cursor) as int, n as nat)
            },
            Err(message) => {
                &&& *final(cursor) == *old(cursor)
                &&& if n > 32 {
                    message@ == too_many_bits()
                } else {
                    *old(cursor) + n > data@.len() * 8 && message@ == too_small()
                }
            },
        },
{
    if n > 32 {
        return Err("Too many bits to read at once.".to_string());
    }
    let orig = *cursor;
    match consume_n(data, cursor, n) {
        Ok(_) => {},
        Err(message) => {
            return Err(message);
        },
    }
    let mut result: u32 = 0;
    let mut k: usize = 0;
    while k < n
        invariant
            k <= n <= 32,
            orig + n <= data@.len() * 8 <= usize::MAX,
            result == bits_value(data@, orig as int, k as nat),
        decreases n - k,
    {
        proof {
            lemma_bits_value_bound(data@, orig as int, k as nat);
            lemma2_to64();
            if k < 31 {
                lemma_pow2_strictly_increases(k as nat, 31);
            }
        }
        let value: u32 = if bit(data, orig + k) {
            1
        } else {
            0
        };
        result = (result * 2) + value;
        k += 1;
    }
    Ok(result)
}

/// Reads the 32 bits of a float: the sign, the exponent and the mantissa,
/// returned as they stand.
fn read_f32(data: &Vec<u8>, cursor: &mut usize) -> (result: Result<u32, String>)
    requires
        data@.len() * 8 <= usize::MAX,
        *old(cursor) % 8 == 0,
    ensures
        match result {
            Ok(value) => {
                &&& *old(cursor) as int / 8 + 4 <= data@.len()
                &&& *final(cursor) == *old(cursor) + 32
                &&& value == be32(data@, *old(cursor) as int / 8)
            },
            Err(message) => {
                &&& *old(cursor) as int / 8 + 4 > data@.len()
                &&& *final(cursor) == *old(cursor)
                &&& message@ == too_small()
            },
        },
{
    read_u32(data, cursor)
}

/// Reads one byte. The cursor has to stand at the beginning of a byte.
pub fn read_byte(data: &Vec<u8>, cursor: &mut usize) -> (result: Result<u8, String>)
    requires
        data@.len() * 8 <= usize::MAX,
    ensures
        match result {
            Ok(byte) => {
                &&& *old(cursor) % 8 == 0
                &&& *old(cursor) as int / 8 < data@.len()
                &&& *final(cursor) == *old(cursor) + 8
                &&& byte == data@[*old(cursor) as int / 8]
            },
            Err(message) => {
                &&& *final(cursor) == *old(cursor)
                &&& if *old(cursor) % 8 != 0 {
                    message@ == unaligned()
                } else {
                    *old(cursor) as int / 8 >= data@.len() && message@ == too_small()
                }
            },
        },
{
    let orig = *cursor;
    if orig % BITS_PER_BYTE != 0 {
        return Err("Cannot read unaligned byte.".to_string());
    }
    match consume_n(data, cursor, 8) {
        Ok(_) => Ok(data[orig / BITS_PER_BYTE]),
        Err(message) => Err(message),
    }
}

/// Reads a 32-bit number, highest bit first.
fn read_u32(data: &Vec<u8>, cursor: &mut usize) -> (result: Result<u32, String>)
    requires
        data@.len() * 8 <= usize::MAX,
        *old(cursor) % 8 == 0,
    ensures
        match result {
            Ok(value) => {
                &&& *old(cursor) as int / 8 + 4 <= data@.len()
                &&& *final(cursor) == *old(cursor) + 32
                &&& value == be32(data@, *old(cursor) as int / 8)
            },
            Err(message) => {
                &&& *old(cursor) as int / 8 + 4 > data@.len()
                &&& *final(cursor) == *old(cursor)
                &&& message@ == too_small()
            },
        },
{
    let ghost at = *cursor as int / 8;
    match read_n_bits(data, cursor, 32) {
        Ok(value) => {
            proof {
                lemma_bits_be32(data@, at);
            }
            Ok(value)
        },
        Err(message) => Err(message),
    }
}

/// Checks that the data begins with the letters `RUSTGAME`.
fn read_magic_header(data: &Vec<u8>, cursor: &mut usize) -> (result: Result<(), String>)
    requires
        data@.len() * 8 <= usize::MAX,
        *old(cursor) == 0,
    ensures
        match result {
            Ok(_) => magic_error(data@, 0).is_none() && data@.len() >= 8 && *final(cursor) == 64,
            Err(message) => magic_error(data@, 0) == Some(message@),
        },
{
    let mut i: usize = 0;
    while i < 8
        invariant
            data@.len() * 8 <= usize::MAX,
            i <= 8,
            *cursor == 8 * i,
            i <= data@.len(),
            magic_error(data@, 0) == magic_error(data@, i as int),
        decreases 8 - i,
    {
        let byte = match read_byte(data, cursor) {
            Ok(byte) => byte,
            Err(message) => {
                return Err(message);
            },
        };
        let letter: u8 = if i == 0 {
            82
        } else if i == 1 {
            85
        } else if i == 2 {
            83
        } else if i == 3 {
            84
        } else if i == 4 {
            71
        } else if i == 5 {
            65
        } else if i == 6 {
            77
        } else {
            69
        };
        assert(letter == magic()[i as int]);
        if byte != letter {
            return Err("Magic header is invalid.".to_string());
        }
        i += 1;
    }
    Ok(())
}

/// Reads an image: its width and height and, unless one of them is 0, its
/// pixels.
fn read_image(data: &Vec<u8>, cursor: &mut usize) -> (result: Result<Option<Image>, String>)
    requires
        data@.len() * 8 <= usize::MAX,
        *old(cursor) % 8 == 0,
    ensures
        match result {
            Ok(image) => {
                &&& image_needs(data@, *old(cursor) as int / 8) <= data@.len()
                &&& *final(cursor) == 8 * image_end(data@, *old(cursor) as int / 8)
                &&& image_matches(image, data@, *old(cursor) as int / 8)
            },
            Err(message) => {
                &&& image_needs(data@, *old(cursor) as int / 8) > data@.len()
                &&& message@ == too_small()
            },
        },
{
    let ghost at = *cursor as int / 8;
    let width = match read_u32(data, cursor) {
        Ok(width) => width,
        Err(message) => {
            return Err(message);
        },
    };
    let height = match read_u32(data, cursor) {
        Ok(height) => height,
        Err(message) => {
            return Err(message);
        },
    };
    if width == 0 || height == 0 {
        return Ok(None);
    }
    assert(0 < width * height <= 0xffff_ffff * 0xffff_ffff) by (nonlinear_arith)
        requires
            0 < width <= 0xffff_ffff,
            0 < height <= 0xffff_ffff,
    ;
    let count: u64 = width as u64 * height as u64;
    let ghost whole = image_pixels(data@, at);
    let mut pixels: Vec<Pixel> = Vec::new();
    let mut k: u64 = 0;
    while k < count
        invariant
            data@.len() * 8 <= usize::MAX,
            at + 8 <= data@.len(),
            0 <= at,
            at == *old(cursor) as int / 8,
            0 < width == be32(data@, at),
            0 < height == be32(data@, at + 4),
            count == width * height,
            k <= count,
            *cursor == 8 * (at + 8 + 4 * k),
            at + 8 + 4 * k <= data@.len(),
            whole == image_pixels(data@, at),
            pixels@.len() == k,
            forall|j: int| 0 <= j < k ==> pixels@[j] == whole[j],
        decreases count - k,
    {
        let r = match read_byte(data, cursor) {
            Ok(byte) => byte,
            Err(message) => {
                return Err(message);
            },
        };
        let g = match read_byte(data, cursor) {
            Ok(byte) => byte,
            Err(message) => {
                return Err(message);
            },
        };
        let b = match read_byte(data, cursor) {
            Ok(byte) => byte,
            Err(message) => {
                return Err(message);
            },
        };
        let a = match read_byte(data, cursor) {
            Ok(byte) => byte,
            Err(message) => {
                return Err(message);
            },
        };
        pixels.push(Pixel { red: r, green: g, blue: b, alpha: a });
        k += 1;
    }
    proof {
        assert(pixels@ =~= whole);
    }
    Ok(Some(Image { width, height, data: pixels }))
}

/// Reads three floats.
fn read_vec3(data: &Vec<u8>, cursor: &mut usize) -> (result: Result<Vector3<u32>, String>)
    requires
        data@.len() * 8 <= usize::MAX,
        *old(cursor) % 8 == 0,
    ensures
        match result {
            Ok(vector) => {
                &&& *old(cursor) as int / 8 + 12 <= data@.len()
                &&& *final(cursor) == *old(cursor) + 96
                &&& vector == vector3_at(data@, *old(cursor) as int / 8)
            },
            Err(message) => *old(cursor) as int / 8 + 12 > data@.len() && message@ == too_small(),
        },
{
    let v1 = match read_f32(data, cursor) {
        Ok(value) => value,
        Err(message) => {
            return Err(message);
        },
    };
    let v2 = match read_f32(data, cursor) {
        Ok(value) => value,
        Err(message) => {
            return Err(message);
        },
    };
    let v3 = match read_f32(data, cursor) {
        Ok(value) => value,
        Err(message) => {
            return Err(message);
        },
    };
    Ok(Vector3 { x: v1, y: v2, z: v3 })
}

/// Reads two floats.
fn read_vec2(data: &Vec<u8>, cursor: &mut usize) -> (result: Result<Vector2<u32>, String>)
    requires
        data@.len() * 8 <= usize::MAX,
        *old(cursor) % 8 == 0,
    ensures
        match result {
            Ok(vector) => {
                &&& *old(cursor) as int / 8 + 8 <= data@.len()
                &&& *final(cursor) == *old(cursor) + 64
                &&& vector == vector2_at(data@, *old(cursor) as int / 8)
            },
            Err(message) => *old(cursor) as int / 8 + 8 > data@.len() && message@ == too_small(),
        },
{
    let v1 = match read_f32(data, cursor) {
        Ok(value) => value,
        Err(message) => {
            return Err(message);
        },
    };
    let v2 = match read_f32(data, cursor) {
        Ok(value) => value,
        Err(message) => {
            return Err(message);
        },
    };
    Ok(Vector2 { x: v1, y: v2 })
}

/// Reads a vertex: position, normal, tangent, bitangent, texture coordinate.
fn read_vertex(data: &Vec<u8>, cursor: &mut usize) -> (result: Result<Vertex<u32>, String>)
    requires
        data@.len() * 8 <= usize::MAX,
        *old(cursor) % 8 == 0,
    ensures
        match result {
            Ok(vertex) => {
                &&& *old(cursor) as int / 8 + 56 <= data@.len()
                &&& *final(cursor) == *old(cursor) + 448
                &&& vertex == vertex_at(data@, *old(cursor) as int / 8)
            },
            Err(message) => *old(cursor) as int / 8 + 56 > data@.len() && message@ == too_small(),
        },
{
    let position = match read_vec3(data, cursor) {
        Ok(vector) => vector,
        Err(message) => {
            return Err(message);
        },
    };
    let normal = match read_vec3(data, cursor) {
        Ok(vector) => vector,
        Err(message) => {
            return Err(message);
        },
    };
    let tangent = match read_vec3(data, cursor) {
        Ok(vector) => vector,
        Err(message) => {
            return Err(message);
        },
    };
    let bitangent = match read_vec3(data, cursor) {
        Ok(vector) => vector,
        Err(message) => {
            return Err(message);
        },
    };
    let tcoord = match read_vec2(data, cursor) {
        Ok(vector) => vector,
        Err(message) => {
            return Err(message);
        },
    };
    Ok(Vertex { pos: position, norm: normal, tangent, bitangent, tc: tcoord })
}

/// Decodes the bytes of an RMOD file. The file begins with the letters
/// `RUSTGAME`. Then come the diffuse, the specular and the normal map, each
/// as width, height and pixels; the shininess; the number of vertices and
/// the vertices; the number of indices and the indices. All numbers have 32
/// bits. The file has to end where the indices end.
pub fn decode_rmod(data: &Vec<u8>) -> (result: Result<DecodedRMOD, String>)
    requires
        data@.len() * 8 <= usize::MAX,
    ensures
        match result {
            Ok(rmod) => {
                &&& rmod_error(data@).is_none()
                &&& image_matches(rmod.diffuse, data@, 8)
                &&& image_matches(rmod.specular, data@, specular_at(data@))
                &&& image_matches(rmod.normal, data@, normal_at(data@))
                &&& rmod.shininess == be32(data@, shininess_at(data@))
                &&& rmod.vertices@ == rmod_vertices(data@)
                &&& rmod.elements@ == rmod_elements(data@)
            },
            Err(message) => rmod_error(data@) == Some(message@),
        },
{
    let mut cursor: usize = 0;
    match read_magic_header(data, &mut cursor) {
        Ok(_) => {},
        Err(message) => {
            return Err(message);
        },
    }
    let diffuse = match read_image(data, &mut cursor) {
        Ok(image) => image,
        Err(message) => {
            return Err(message);
        },
    };
    let specular = match read_image(data, &mut cursor) {
        Ok(image) => image,
        Err(message) => {
            return Err(message);
        },
    };
    let normal = match read_image(data, &mut cursor) {
        Ok(image) => image,
        Err(message) => {
            return Err(message);
        },
    };
    let shininess = match read_f32(data, &mut cursor) {
        Ok(value) => value,
        Err(message) => {
            return Err(message);
        },
    };
    let num_vertices = match read_u32(data, &mut cursor) {
        Ok(value) => value,
        Err(message) => {
            return Err(message);
        },
    };
    let ghost first_vertex = vertices_at(data@);
    let ghost all_vertices = rmod_vertices(data@);
    let mut vertices: Vec<Vertex<u32>> = Vec::new();
    let mut i: u32 = 0;
    while i < num_vertices
        invariant
            data@.len() * 8 <= usize::MAX,
            magic_error(data@, 0).is_none(),
            data@.len() >= shininess_at(data@) + 8,
            data@.len() >= normal_at(data@) + 8,
            data@.len() >= specular_at(data@) + 8,
            data@.len() >= 16,
            first_vertex == vertices_at(data@),
            0 <= first_vertex,
            num_vertices == vertex_count(data@),
            all_vertices == rmod_vertices(data@),
            i <= num_vertices,
            cursor == 8 * (first_vertex + 56 * i),
            first_vertex + 56 * i <= data@.len(),
            vertices@.len() == i,
            forall|j: int| 0 <= j < i ==> vertices@[j] == all_vertices[j],
        decreases num_vertices - i,
    {
        let vertex = match read_vertex(data, &mut cursor) {
            Ok(vertex) => vertex,
            Err(message) => {
                return Err(message);
            },
        };
        vertices.push(vertex);
        i += 1;
    }
    let num_elements = match read_u32(data, &mut cursor) {
        Ok(value) => value,
        Err(message) => {
            return Err(message);
        },
    };
    let ghost first_element = elements_at(data@);
    let ghost all_elements = rmod_elements(data@);
    let mut elements: Vec<u32> = Vec::new();
    let mut j: u32 = 0;
    while j < num_elements
        invariant
            data@.len() * 8 <= usize::MAX,
            magic_error(data@, 0).is_none(),
            data@.len() >= element_count_at(data@) + 4,
            data@.len() >= shininess_at(data@) + 8,
            data@.len() >= normal_at(data@) + 8,
            data@.len() >= specular_at(data@) + 8,
            data@.len() >= 16,
            first_element == elements_at(data@),
            0 <= first_element,
            num_elements == element_count(data@),
            all_elements == rmod_elements(data@),
            j <= num_elements,
            cursor == 8 * (first_element + 4 * j),
            first_element + 4 * j <= data@.len(),
            elements@.len() == j,
            forall|k: int| 0 <= k < j ==> elements@[k] == all_elements[k],
        decreases num_elements - j,
    {
        let element = match read_u32(data, &mut cursor) {
            Ok(value) => value,
            Err(message) => {
                return Err(message);
            },
        };
        elements.push(element);
        j += 1;
    }
    if cursor != data.len() * BITS_PER_BYTE {
        return Err("RMOD file is improperly sized.".to_string());
    }
    Ok(DecodedRMOD { diffuse, specular, normal, vertices, elements, shininess })
}

} // verus!
