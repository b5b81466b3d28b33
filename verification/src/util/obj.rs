//! The parts of an OBJ file that are made of text and whole numbers: the
//! pieces of a line, the corners of a face, each written as
//! `vertex/texture/normal` with the texture coordinate optional, and the
//! numbering of the corners, by which faces share their vertices.

use crate::util::common::Vertex;
use core::num::ParseIntError;
use std::collections::HashMap;
use vstd::prelude::*;
use vstd::string::*;

verus! {

/// The result of decoding an OBJ file: the vertices of the mesh and its
/// triangles, each triangle as the indices of its three corners. `T` is the
/// type of one component of a vertex.
pub struct DecodedOBJ<T> {
    pub vertices: Vec<Vertex<T>>,
    pub elements: Vec<(u32, u32, u32)>,
}

/// What separates the pieces of a text.
#[derive(Clone, Copy, Debug, PartialEq, Eq, Structural)]
pub enum Separator {
    /// The slash between the numbers of a corner.
    Slash,
    /// Any white space, as between the words of a line.
    Whitespace,
}

/// What `char::is_whitespace` of the standard library says of a character:
/// whether it has the Unicode property White_Space.
pub uninterp spec fn is_whitespace(c: char) -> bool;

/// Calls `char::is_whitespace`. The contract gives its answer the name
/// `is_whitespace` and claims nothing else of it.
#[verifier::external_body]
fn whitespace(c: char) -> (white: bool)
    ensures
        white == is_whitespace(c),
{
    c.is_whitespace()
}

/// The character is a separator of this kind.
pub open spec fn separates(separator: Separator, c: char) -> bool {
    match separator {
        Separator::Slash => c == '/',
        Separator::Whitespace => is_whitespace(c),
    }
}

/// The pieces of a text between its separators: one more than it has
/// separators. Two separators in a row have an empty piece between them.
pub open spec fn split(text: Seq<char>, separator: Separator) -> Seq<Seq<char>>
    decreases text.len(),
{
    if text.len() == 0 {
        seq![Seq::empty()]
    } else {
        let pieces = split(text.drop_last(), separator);
        if separates(separator, text.last()) {
            pieces.push(Seq::empty())
        } else {
            pieces.update(pieces.len() - 1, pieces.last().push(text.last()))
        }
    }
}

/// Whether the character is a separator of this kind.
fn is_separator(c: char, separator: Separator) -> (separator_found: bool)
    ensures
        separator_found == separates(separator, c),
{
    match separator {
        Separator::Slash => c == '/',
        Separator::Whitespace => whitespace(c),
    }
}

/// Splits a text at its separators.
pub fn split_text<'a>(text: &'a str, separator: Separator) -> (pieces: Vec<&'a str>)
    ensures
        pieces@.len() == split(text@, separator).len(),
        forall|k: int| 0 <= k < pieces@.len() ==> pieces@[k]@ == split(text@, separator)[k],
{
    let length = text.unicode_len();
    let mut pieces: Vec<&'a str> = Vec::new();
    let mut start: usize = 0;
    let mut i: usize = 0;
    while i < length
        invariant
            length == text@.len(),
            start <= i <= length,
            split(text@.take(i as int), separator).len() == pieces@.len() + 1,
            forall|k: int|
                0 <= k < pieces@.len() ==> pieces@[k]@ == split(
                    text@.take(i as int),
                    separator,
                )[k],
            split(text@.take(i as int), separator).last() == text@.subrange(
                start as int,
                i as int,
            ),
        decreases length - i,
    {
        proof {
            assert(text@.take(i + 1).drop_last() == text@.take(i as int));
            assert(text@.take(i + 1).last() == text@[i as int]);
        }
        if is_separator(text.get_char(i), separator) {
            pieces.push(text.substring_char(start, i));
            start = i + 1;
            proof {
                assert(text@.subrange(start as int, i + 1) == Seq::<char>::empty());
            }
        } else {
            proof {
                assert(text@.subrange(start as int, i + 1) == text@.subrange(
                    start as int,
                    i as int,
                ).push(text@[i as int]));
            }
        }
        i += 1;
    }
    proof {
        assert(text@.take(i as int) == text@);
    }
    pieces.push(text.substring_char(start, length));
    pieces
}

/// The character is one of the digits `0` to `9`.
pub open spec fn is_digit(c: char) -> bool {
    48 <= c as u32 <= 57
}

/// The number that decimal digits spell.
pub open spec fn digits_value(digits: Seq<char>) -> int
    decreases digits.len(),
{
    if digits.len() == 0 {
        0
    } else {
        10 * digits_value(digits.drop_last()) + (digits.last() as u32 - 48)
    }
}

/// The text without the plus sign that it may begin with.
pub open spec fn unsigned_part(text: Seq<char>) -> Seq<char> {
    if text.len() > 0 && text[0] == '+' {
        text.skip(1)
    } else {
        text
    }
}

/// The text is a number that fits 32 bits: an optional plus sign, then
/// digits and nothing else, at least one.
pub open spec fn is_number(text: Seq<char>) -> bool {
    let digits = unsigned_part(text);
    &&& digits.len() > 0
    &&& forall|i: int| 0 <= i < digits.len() ==> is_digit(#[trigger] digits[i])
    &&& digits_value(digits) <= u32::MAX
}

/// The number that the text spells.
pub open spec fn number_value(text: Seq<char>) -> int {
    digits_value(unsigned_part(text))
}

/// The error of parsing a number, as the standard library gives it.
#[verifier::external_type_specification]
#[verifier::external_body]
pub struct ExParseIntError(ParseIntError);

/// Calls `str::parse` for `u32`, the standard library's reading of a
/// decimal number. By its documentation the text has to be an optional plus
/// sign followed by digits only, and the number has to fit the type; the
/// contract says that it succeeds on exactly these texts, with the number
/// they spell.
#[verifier::external_body]
fn parse_u32(text: &str) -> (result: Result<u32, ParseIntError>)
    ensures
        result.is_ok() <==> is_number(text@),
        result.is_ok() ==> result.unwrap() == number_value(text@),
{
    text.parse::<u32>()
}

/// Calls `to_string` on the standard library's error: its message. Nothing
/// is claimed of the text.
#[verifier::external_body]
fn describe(error: &ParseIntError) -> (message: String) {
    error.to_string()
}

/// What is said of a corner that is not of the form `v/t/n` or `v//n`.
pub open spec fn face_error() -> Seq<char> {
    "Invalid face declaration."@
}

/// What is said of a face that has not three corners.
pub open spec fn triangle_error() -> Seq<char> {
    "The decoder only supports triangle meshes."@
}

/// What the text of a corner means.
pub enum Corner {
    /// The corner with these numbers, 0 for a texture coordinate that is
    /// left out.
    Indices(u32, u32, u32),
    /// Piece `0`, `1` or `2` is neither empty nor a number.
    NotANumber(usize),
    /// The text has not three pieces, or lacks the vertex or the normal.
    Malformed,
}

/// The number of a piece: none for an empty piece.
pub open spec fn piece_value(piece: Seq<char>) -> Option<u32> {
    if piece.len() == 0 {
        None
    } else {
        Some(number_value(piece) as u32)
    }
}

/// A piece can be read: it is empty or a number.
pub open spec fn piece_readable(piece: Seq<char>) -> bool {
    piece.len() == 0 || is_number(piece)
}

/// What the text of a corner means. The pieces are read in their order,
/// and the first that cannot be read decides.
pub open spec fn corner(text: Seq<char>) -> Corner {
    let pieces = split(text, Separator::Slash);
    if pieces.len() != 3 {
        Corner::Malformed
    } else if !piece_readable(pieces[0]) {
        Corner::NotANumber(0)
    } else if !piece_readable(pieces[1]) {
        Corner::NotANumber(1)
    } else if !piece_readable(pieces[2]) {
        Corner::NotANumber(2)
    } else {
        match (piece_value(pieces[0]), piece_value(pieces[1]), piece_value(pieces[2])) {
            (Some(v), Some(t), Some(n)) => Corner::Indices(v, t, n),
            (Some(v), None, Some(n)) => Corner::Indices(v, 0, n),
            _ => Corner::Malformed,
        }
    }
}

/// Reads one piece of a corner: nothing for an empty piece, else its number.
fn process_piece(piece: &str) -> (result: Result<Option<u32>, String>)
    ensures
        match result {
            Ok(value) => piece_readable(piece@) && value == piece_value(piece@),
            Err(_) => !piece_readable(piece@),
        },
{
    if piece.unicode_len() == 0 {
        return Ok(None);
    }
    match parse_u32(piece) {
        Ok(value) => Ok(Some(value)),
        Err(error) => Err(describe(&error)),
    }
}

/// Reads a corner of a face: `v/t/n`, or `v//n` without a texture
/// coordinate, for which 0 is returned. A piece that is neither empty nor a
/// number is refused with the standard library's message for it; any other
/// text that is not a corner with "Invalid face declaration.".
pub fn process_triplet(triplet: &str) -> (result: Result<(u32, u32, u32), String>)
    ensures
        match result {
            Ok(indices) => corner(triplet@) == Corner::Indices(indices.0, indices.1, indices.2),
            Err(message) => {
                &&& !(corner(triplet@) is Indices)
                &&& corner(triplet@) is Malformed ==> message@ == face_error()
            },
        },
{
    let split = split_text(triplet, Separator::Slash);
    if split.len() != 3 {
        return Err("Invalid face declaration.".to_string());
    }
    let t1 = match process_piece(split[0]) {
        Ok(value) => value,
        Err(message) => {
            return Err(message);
        },
    };
    let t2 = match process_piece(split[1]) {
        Ok(value) => value,
        Err(message) => {
            return Err(message);
        },
    };
    let t3 = match process_piece(split[2]) {
        Ok(value) => value,
        Err(message) => {
            return Err(message);
        },
    };
    match t1 {
        Some(v) => match t3 {
            Some(n) => match t2 {
                Some(t) => Ok((v, t, n)),
                None => Ok((v, 0, n)),
            },
            None => Err("Invalid face declaration.".to_string()),
        },
        None => Err("Invalid face declaration.".to_string()),
    }
}

/// The number that stands for a corner in the table's index: its three
/// numbers side by side, 32 bits each.
pub open spec fn corner_key(corner: (u32, u32, u32)) -> u128 {
    (corner.0 as int * 0x1_0000_0000_0000_0000 + corner.1 as int * 0x1_0000_0000
        + corner.2 as int) as u128
}

/// No corner stands twice in the sequence.
pub open spec fn distinct(corners: Seq<(u32, u32, u32)>) -> bool {
    forall|i: int, j: int|
        0 <= i < corners.len() && 0 <= j < corners.len() && corners[i] == corners[j] ==> i == j
}

/// The number of a corner in a table, and whether the corner is new to the
/// table: a corner of the table has the number of its place, a new one the
/// number of the place after the last.
pub open spec fn number_of(table: Seq<(u32, u32, u32)>, corner: (u32, u32, u32)) -> (u32, bool) {
    if table.contains(corner) {
        (table.index_of(corner) as u32, false)
    } else {
        (table.len() as u32, true)
    }
}

/// The table with the corner in it: as it is, or with the new corner at
/// the end.
pub open spec fn with_corner(table: Seq<(u32, u32, u32)>, corner: (u32, u32, u32)) -> Seq<
    (u32, u32, u32),
> {
    if table.contains(corner) {
        table
    } else {
        table.push(corner)
    }
}

/// The corners and the index that finds them.
struct CornerStore {
    corners: Vec<(u32, u32, u32)>,
    indices: HashMap<u128, u32>,
}

/// The corners of a mesh, each of them once, numbered in the order in which
/// they first came up. A corner that comes up again in another face gets
/// the number it has, so that faces share their vertices.
pub struct CornerTable {
    store: CornerStore,
}

impl View for CornerTable {
    type V = Seq<(u32, u32, u32)>;

    closed spec fn view(&self) -> Seq<(u32, u32, u32)> {
        self.store.corners@
    }
}

impl CornerStore {
    /// The index finds every corner at its place, and nothing else.
    spec fn wf(self) -> bool {
        &&& self.corners@.len() <= u32::MAX
        &&& forall|i: int|
            0 <= i < self.corners@.len() ==> self.indices@.contains_key(
                #[trigger] corner_key(self.corners@[i]),
            ) && self.indices@[corner_key(self.corners@[i])] == i
        &&& forall|key: u128| #[trigger]
            self.indices@.contains_key(key) ==> self.indices@[key] < self.corners@.len()
                && corner_key(self.corners@[self.indices@[key] as int]) == key
    }

    /// A store without corners.
    fn new() -> (store: CornerStore)
        ensures
            store.wf(),
            store.corners@.len() == 0,
    {
        CornerStore { corners: Vec::new(), indices: HashMap::new() }
    }
}

/// Two corners with the same key are the same corner.
proof fn lemma_corner_key_injective(a: (u32, u32, u32), b: (u32, u32, u32))
    requires
        corner_key(a) == corner_key(b),
    ensures
        a == b,
{
    let ka = a.0 as int * 0x1_0000_0000_0000_0000 + a.1 as int * 0x1_0000_0000 + a.2 as int;
    let kb = b.0 as int * 0x1_0000_0000_0000_0000 + b.1 as int * 0x1_0000_0000 + b.2 as int;
    assert(0 <= ka < 0x1_0000_0000_0000_0000_0000_0000);
    assert(0 <= kb < 0x1_0000_0000_0000_0000_0000_0000);
    assert(ka == kb);
}

impl CornerTable {
    #[verifier::type_invariant]
    spec fn well_formed(self) -> bool {
        self.store.wf()
    }

    /// A table without corners.
    pub fn new() -> (table: CornerTable)
        ensures
            table@.len() == 0,
    {
        CornerTable { store: CornerStore::new() }
    }

    /// Number of corners in the table. No corner stands in it twice.
    pub fn len(&self) -> (len: usize)
        ensures
            len == self@.len(),
            len <= u32::MAX,
            distinct(self@),
    {
        proof {
            use_type_invariant(self);
            assert forall|i: int, j: int|
                0 <= i < self@.len() && 0 <= j < self@.len() && self@[i] == self@[j] implies i
                == j by {
                assert(self.store.indices@[corner_key(self@[i])] == i);
                assert(self.store.indices@[corner_key(self@[j])] == j);
            }
        }
        self.store.corners.len()
    }

    /// The corner with the number `index`.
    pub fn corner(&self, index: u32) -> (corner: (u32, u32, u32))
        requires
            index < self@.len(),
        ensures
            corner == self@[index as int],
    {
        self.store.corners[index as usize]
    }

    /// The number of a corner, and whether the corner is new to the table. A
    /// corner that is in the table has its number from before; one that is
    /// not is added at the end.
    pub fn index_of(&mut self, corner: (u32, u32, u32)) -> (found: (u32, bool))
        requires
            old(self)@.len() < u32::MAX,
        ensures
            found == number_of(old(self)@, corner),
            final(self)@ == with_corner(old(self)@, corner),
            final(self)@[found.0 as int] == corner,
    {
        broadcast use vstd::std_specs::hash::group_hash_axioms;

        proof {
            use_type_invariant(&*self);
        }
        let key: u128 = corner.0 as u128 * 0x1_0000_0000_0000_0000 + corner.1 as u128
            * 0x1_0000_0000 + corner.2 as u128;
        assert(key == corner_key(corner));
        match self.store.indices.get(&key) {
            Some(index) => {
                proof {
                    lemma_corner_key_injective(corner, self@[*index as int]);
                    let chosen = self@.index_of(corner);
                    assert(self.store.indices@[corner_key(self@[chosen])] == chosen);
                }
                (*index, false)
            },
            None => {
                proof {
                    assert forall|i: int| 0 <= i < self@.len() implies self@[i] != corner by {
                        assert(self.store.indices@.contains_key(corner_key(self@[i])));
                    }
                }
                let mut store = CornerStore::new();
                std::mem::swap(&mut store, &mut self.store);
                let index = store.corners.len() as u32;
                store.corners.push(corner);
                store.indices.insert(key, index);
                proof {
                    let before = old(self).store;
                    assert forall|i: int| 0 <= i < store.corners@.len() implies store.indices@.contains_key(
                        #[trigger] corner_key(store.corners@[i]),
                    ) && store.indices@[corner_key(store.corners@[i])] == i by {
                        if i < before.corners@.len() {
                            assert(before.indices@.contains_key(corner_key(before.corners@[i])));
                            assert(store.corners@[i] == before.corners@[i]);
                        }
                    }
                    assert forall|k: u128| #[trigger]
                        store.indices@.contains_key(k) implies store.indices@[k]
                        < store.corners@.len() && corner_key(
                        store.corners@[store.indices@[k] as int],
                    ) == k by {
                        if k != key {
                            assert(before.indices@.contains_key(k));
                            assert(store.corners@[before.indices@[k] as int]
                                == before.corners@[before.indices@[k] as int]);
                        }
                    }
                }
                self.store = store;
                (index, true)
            },
        }
    }
}

/// A face as the table numbers it: its three corners, the number of each in
/// the table, and whether the face brought the corner into the table.
pub struct Face {
    pub corners: ((u32, u32, u32), (u32, u32, u32), (u32, u32, u32)),
    pub elements: (u32, u32, u32),
    pub fresh: (bool, bool, bool),
}

/// The first of the three texts that is not a corner, if there is one.
pub open spec fn first_fault(info: Seq<&str>) -> Option<int> {
    if !(corner(info[0]@) is Indices) {
        Some(0)
    } else if !(corner(info[1]@) is Indices) {
        Some(1)
    } else if !(corner(info[2]@) is Indices) {
        Some(2)
    } else {
        None
    }
}

/// The three numbers of a text that is a corner.
pub open spec fn indices_of(text: Seq<char>) -> (u32, u32, u32) {
    (corner(text)->Indices_0, corner(text)->Indices_1, corner(text)->Indices_2)
}

/// Reads a face, which has to have three corners, and numbers its corners
/// by the table: a corner that the table has keeps its number, a new one
/// is added. A face that cannot be read leaves the table as it is. It is
/// refused with "The decoder only supports triangle meshes." if it has not
/// three corners, else with what `process_triplet` says of the first text
/// that is not a corner.
pub fn process_face(info: &[&str], table: &mut CornerTable) -> (result: Result<Face, String>)
    requires
        old(table)@.len() + 3 <= u32::MAX,
    ensures
        match result {
            Ok(face) => {
                let first = with_corner(old(table)@, face.corners.0);
                let second = with_corner(first, face.corners.1);
                &&& info@.len() == 3
                &&& first_fault(info@).is_none()
                &&& face.corners == (
                    indices_of(info@[0]@),
                    indices_of(info@[1]@),
                    indices_of(info@[2]@),
                )
                &&& (face.elements.0, face.fresh.0) == number_of(old(table)@, face.corners.0)
                &&& (face.elements.1, face.fresh.1) == number_of(first, face.corners.1)
                &&& (face.elements.2, face.fresh.2) == number_of(second, face.corners.2)
                &&& final(table)@ == with_corner(second, face.corners.2)
            },
            Err(message) => {
                &&& final(table)@ == old(table)@
                &&& if info@.len() != 3 {
                    message@ == triangle_error()
                } else {
                    &&& first_fault(info@).is_some()
                    &&& corner(info@[first_fault(info@).unwrap()]@) is Malformed ==> message@
                        == face_error()
                }
            },
        },
{
    if info.len() != 3 {
        return Err("The decoder only supports triangle meshes.".to_string());
    }
    let c0 = match process_triplet(info[0]) {
        Ok(corner) => corner,
        Err(message) => {
            return Err(message);
        },
    };
    let c1 = match process_triplet(info[1]) {
        Ok(corner) => corner,
        Err(message) => {
            return Err(message);
        },
    };
    let c2 = match process_triplet(info[2]) {
        Ok(corner) => corner,
        Err(message) => {
            return Err(message);
        },
    };
    let (e0, f0) = table.index_of(c0);
    let (e1, f1) = table.index_of(c1);
    let (e2, f2) = table.index_of(c2);
    Ok(Face { corners: (c0, c1, c2), elements: (e0, e1, e2), fresh: (f0, f1, f2) })
}

} // verus!
