use mmo::util::obj::process_face;
use mmo::util::obj::process_triplet;
use mmo::util::obj::split_text;
use mmo::util::obj::CornerTable;
use mmo::util::obj::Separator;

fn face_error() -> Result<(u32, u32, u32), String> {
    Err("Invalid face declaration.".to_string())
}

#[test]
fn a_corner_with_all_three_numbers() {
    assert_eq!(process_triplet("1/2/3"), Ok((1, 2, 3)));
    assert_eq!(process_triplet("35947/0/4294967295"), Ok((35947, 0, 4294967295)));
    assert_eq!(process_triplet("007/08/0009"), Ok((7, 8, 9)));
}

#[test]
fn a_corner_without_texture_coordinate_has_zero_for_it() {
    assert_eq!(process_triplet("1//3"), Ok((1, 0, 3)));
    assert_eq!(process_triplet("12//34"), Ok((12, 0, 34)));
}

#[test]
fn a_plus_sign_is_read() {
    assert_eq!(process_triplet("+1/+2/+3"), Ok((1, 2, 3)));
}

#[test]
fn a_corner_needs_three_pieces() {
    assert_eq!(process_triplet(""), face_error());
    assert_eq!(process_triplet("1"), face_error());
    assert_eq!(process_triplet("1/2"), face_error());
    assert_eq!(process_triplet("1/2/3/4"), face_error());
    assert_eq!(process_triplet("1/2/3/"), face_error());
    assert_eq!(process_triplet("x"), face_error());
    assert_eq!(process_triplet("x/y/z/w"), face_error());
}

#[test]
fn a_corner_needs_vertex_and_normal() {
    assert_eq!(process_triplet("/2/3"), face_error());
    assert_eq!(process_triplet("1/2/"), face_error());
    assert_eq!(process_triplet("//"), face_error());
    assert_eq!(process_triplet("//3"), face_error());
    assert_eq!(process_triplet("1//"), face_error());
    assert_eq!(process_triplet("/2/"), face_error());
}

#[test]
fn a_piece_that_is_no_number_is_refused_with_its_own_message() {
    for text in [
        "a/2/3",
        "1/b/3",
        "1/2/c",
        "1/2/3 ",
        " 1/2/3",
        "1/ /3",
        "-1/2/3",
        "1/-0/3",
        "1.5/2/3",
        "1/2/4294967296",
        "99999999999/2/3",
        "+/2/3",
        "1/2/+",
        "1_0/2/3",
        "0x1/2/3",
        "\u{661}/2/3",
    ] {
        let result = process_triplet(text);
        assert!(result.is_err(), "{}", text);
        assert_ne!(result, face_error(), "{}", text);
    }
}

#[test]
fn the_first_unreadable_piece_is_reported_before_a_missing_one() {
    // The vertex is missing, but the texture coordinate is looked at first.
    let result = process_triplet("/x/3");
    assert!(result.is_err());
    assert_ne!(result, face_error());
    let result = process_triplet("/2/x");
    assert!(result.is_err());
    assert_ne!(result, face_error());
}

#[test]
fn other_characters_than_slashes_do_not_split() {
    assert!(process_triplet("1\\2\\3").is_err());
    assert_eq!(process_triplet("1\\2\\3"), face_error());
    assert_eq!(process_triplet("1 2 3"), face_error());
}

#[test]
fn corner_table_numbers_corners_in_the_order_of_their_coming() {
    let mut table = CornerTable::new();
    assert_eq!(table.len(), 0);
    assert_eq!(table.index_of((1, 1, 1)), (0, true));
    assert_eq!(table.index_of((2, 1, 1)), (1, true));
    assert_eq!(table.index_of((1, 1, 1)), (0, false));
    assert_eq!(table.index_of((1, 0, 1)), (2, true));
    assert_eq!(table.index_of((1, 1, 0)), (3, true));
    assert_eq!(table.index_of((0, 1, 1)), (4, true));
    assert_eq!(table.index_of((2, 1, 1)), (1, false));
    assert_eq!(table.len(), 5);
    assert_eq!(table.corner(0), (1, 1, 1));
    assert_eq!(table.corner(1), (2, 1, 1));
    assert_eq!(table.corner(2), (1, 0, 1));
    assert_eq!(table.corner(3), (1, 1, 0));
    assert_eq!(table.corner(4), (0, 1, 1));
}

#[test]
fn corner_table_tells_corners_apart_that_differ_in_one_number() {
    let mut table = CornerTable::new();
    let corners = [
        (0, 0, 1),
        (0, 1, 0),
        (1, 0, 0),
        (0, 0, u32::MAX),
        (0, u32::MAX, 0),
        (u32::MAX, 0, 0),
        (u32::MAX, u32::MAX, u32::MAX),
        (0, 0, 0),
    ];
    for (i, corner) in corners.iter().enumerate() {
        assert_eq!(table.index_of(*corner), (i as u32, true));
    }
    for (i, corner) in corners.iter().enumerate() {
        assert_eq!(table.index_of(*corner), (i as u32, false));
        assert_eq!(table.corner(i as u32), *corner);
    }
    assert_eq!(table.len(), 8);
}

#[test]
fn split_text_at_slashes() {
    assert_eq!(split_text("1/2/3", Separator::Slash), vec!["1", "2", "3"]);
    assert_eq!(split_text("1//3", Separator::Slash), vec!["1", "", "3"]);
    assert_eq!(split_text("", Separator::Slash), vec![""]);
    assert_eq!(split_text("/", Separator::Slash), vec!["", ""]);
    assert_eq!(split_text("a b/c d", Separator::Slash), vec!["a b", "c d"]);
    assert_eq!(split_text("\u{e9}/\u{4e16}\u{754c}/", Separator::Slash), vec!["\u{e9}", "\u{4e16}\u{754c}", ""]);
}

#[test]
fn split_text_at_white_space() {
    assert_eq!(split_text("v 1.0 2.0 3.0", Separator::Whitespace), vec!["v", "1.0", "2.0", "3.0"]);
    assert_eq!(split_text("f 1/2/3\t4/5/6", Separator::Whitespace), vec!["f", "1/2/3", "4/5/6"]);
    // Two separators in a row have an empty piece between them.
    assert_eq!(split_text("v  1", Separator::Whitespace), vec!["v", "", "1"]);
    assert_eq!(split_text(" v ", Separator::Whitespace), vec!["", "v", ""]);
    assert_eq!(split_text("", Separator::Whitespace), vec![""]);
    assert_eq!(split_text("a\u{a0}b\u{3000}c", Separator::Whitespace), vec!["a", "b", "c"]);
    assert_eq!(split_text("a/b", Separator::Whitespace), vec!["a/b"]);
}

#[test]
fn process_face_numbers_the_corners() {
    let mut table = CornerTable::new();
    let face = process_face(&["1/1/1", "2/2/1", "3//1"], &mut table).unwrap();
    assert_eq!(face.corners, ((1, 1, 1), (2, 2, 1), (3, 0, 1)));
    assert_eq!(face.elements, (0, 1, 2));
    assert_eq!(face.fresh, (true, true, true));
    // The next face shares two corners with the first.
    let face = process_face(&["3//1", "2/2/1", "4/4/1"], &mut table).unwrap();
    assert_eq!(face.corners, ((3, 0, 1), (2, 2, 1), (4, 4, 1)));
    assert_eq!(face.elements, (2, 1, 3));
    assert_eq!(face.fresh, (false, false, true));
    assert_eq!(table.len(), 4);
    // A face whose corners are all the same.
    let face = process_face(&["9/9/9", "9/9/9", "9/9/9"], &mut table).unwrap();
    assert_eq!(face.elements, (4, 4, 4));
    assert_eq!(face.fresh, (true, false, false));
    assert_eq!(table.len(), 5);
}

#[test]
fn process_face_takes_triangles_only() {
    let mut table = CornerTable::new();
    let error = Err("The decoder only supports triangle meshes.".to_string());
    assert_eq!(process_face(&[], &mut table).map(|f| f.elements), error);
    assert_eq!(process_face(&["1/1/1", "2/2/2"], &mut table).map(|f| f.elements), error);
    assert_eq!(
        process_face(&["1/1/1", "2/2/2", "3/3/3", "4/4/4"], &mut table).map(|f| f.elements),
        error
    );
    // With white space at its end a line has an empty piece after its face.
    assert_eq!(
        process_face(&["1/1/1", "2/2/2", "3/3/3", ""], &mut table).map(|f| f.elements),
        error
    );
    assert_eq!(table.len(), 0);
}

#[test]
fn process_face_with_a_bad_corner_leaves_the_table_alone() {
    let mut table = CornerTable::new();
    process_face(&["1/1/1", "2/2/2", "3/3/3"], &mut table).unwrap();
    let result = process_face(&["4/4/4", "5/5", "6/6/6"], &mut table);
    assert_eq!(result.map(|f| f.elements), Err("Invalid face declaration.".to_string()));
    assert_eq!(table.len(), 3);
    let result = process_face(&["4/4/4", "5/5/5", "6/x/6"], &mut table);
    assert!(result.is_err());
    assert_eq!(table.len(), 3);
    // The first corner that cannot be read decides what is said.
    let result = process_face(&["4/4/4", "5/x/5", "6/6"], &mut table).map(|f| f.elements);
    assert!(result.is_err());
    assert_ne!(result, Err("Invalid face declaration.".to_string()));
    let result = process_face(&["4/4", "5/x/5", "6/6/6"], &mut table).map(|f| f.elements);
    assert_eq!(result, Err("Invalid face declaration.".to_string()));
}
