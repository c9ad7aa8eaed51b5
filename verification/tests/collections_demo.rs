use basics::decimal::format_i32;
use basics::scores::ScoreMap;
use basics::sequence::{build_sequence, elements, format_sequence, literal_sequence};
use basics::text::{concat_text, greeting, labeled_line, slice_bytes, str_eq, to_owned_text, TextError};

#[test]
fn literal_sequence_iterates_in_order() {
    let v = literal_sequence();
    let seen = elements(&v);
    assert_eq!(seen, vec![1, 2, 3, 4, 5]);
}

#[test]
fn appended_sequence_formats_exactly() {
    let v = build_sequence();
    assert_eq!(format_sequence(&v), "[5, 6, 7, 8]");
}

#[test]
fn literal_sequence_formats_exactly() {
    let v = literal_sequence();
    assert_eq!(format_sequence(&v), "[1, 2, 3, 4, 5]");
}

#[test]
fn empty_and_single_sequences_format() {
    let empty: Vec<i32> = Vec::new();
    assert_eq!(format_sequence(&empty), "[]");
    let one = vec![5];
    assert_eq!(format_sequence(&one), "[5]");
    let negatives = vec![-1, 0, -2147483648, 2147483647];
    assert_eq!(format_sequence(&negatives), "[-1, 0, -2147483648, 2147483647]");
}

#[test]
fn decimal_rendering_exact_values() {
    assert_eq!(format_i32(0), "0");
    assert_eq!(format_i32(7), "7");
    assert_eq!(format_i32(10), "10");
    assert_eq!(format_i32(42), "42");
    assert_eq!(format_i32(100), "100");
    assert_eq!(format_i32(-7), "-7");
    assert_eq!(format_i32(2147483647), "2147483647");
    assert_eq!(format_i32(-2147483648), "-2147483648");
}

#[test]
fn greeting_built_piecewise() {
    assert_eq!(greeting(), "Hello world!");
}

#[test]
fn concatenation_consumes_left_operand() {
    let s1 = String::from("Hello");
    let s2 = "World!";
    let s3 = concat_text(s1, s2);
    assert_eq!(s3, "HelloWorld!");
}

#[test]
fn slicing_a_prefix_leaves_original_usable() {
    let s1 = "Hello, world!";
    let s2 = slice_bytes(s1, 0, 5).unwrap();
    assert_eq!(s2, "Hello");
    assert_eq!(s1, "Hello, world!");
    assert_eq!(slice_bytes(s1, 7, 13).unwrap(), "world!");
}

#[test]
fn slicing_inside_a_character_fails() {
    let s = "h\u{e9}llo";
    assert_eq!(s.len(), 6);
    assert_eq!(slice_bytes(s, 0, 2), Err(TextError::InvalidSliceBoundary));
    assert_eq!(slice_bytes(s, 2, 3), Err(TextError::InvalidSliceBoundary));
    assert_eq!(slice_bytes(s, 0, 3).unwrap(), "h\u{e9}");
}

#[test]
fn slicing_a_bad_range_fails() {
    let s = "Hello";
    assert_eq!(slice_bytes(s, 3, 2), Err(TextError::InvalidSliceBoundary));
    assert_eq!(slice_bytes(s, 0, 6), Err(TextError::InvalidSliceBoundary));
    assert_eq!(slice_bytes(s, 0, 5).unwrap(), "Hello");
    assert_eq!(slice_bytes(s, 5, 5).unwrap(), "");
}

#[test]
fn owned_copy_equals_original() {
    let s1 = "Hello, world!";
    let s3 = to_owned_text(s1);
    assert_eq!(s3, s1);
}

#[test]
fn labeled_line_prefixes() {
    assert_eq!(labeled_line("Inside print_str: ", "Hello, world!"), "Inside print_str: Hello, world!");
}

#[test]
fn str_eq_compares_contents() {
    assert!(str_eq("abc", "abc"));
    assert!(!str_eq("abc", "abd"));
    assert!(!str_eq("abc", "abcd"));
    assert!(str_eq("", ""));
    assert!(str_eq("h\u{e9}llo", "h\u{e9}llo"));
    assert!(!str_eq("h\u{e9}llo", "hello"));
}

#[test]
fn inserted_keys_look_up_to_stored_values() {
    let mut scores = ScoreMap::new();
    scores.insert(String::from("Blue"), 10);
    scores.insert(String::from("Yellow"), 50);
    assert_eq!(scores.get("Blue"), Some(10));
    assert_eq!(scores.get("Yellow"), Some(50));
    assert_eq!(scores.get("Green"), None);
    assert_eq!(scores.get(""), None);
}

#[test]
fn inserting_a_present_key_overwrites() {
    let mut scores = ScoreMap::new();
    scores.insert(String::from("Blue"), 10);
    scores.insert(String::from("Blue"), 99);
    assert_eq!(scores.len(), 1);
    assert_eq!(scores.get("Blue"), Some(99));
}

#[test]
fn traversal_visits_every_entry_once() {
    let mut scores = ScoreMap::new();
    scores.insert(String::from("Blue"), 10);
    scores.insert(String::from("Yellow"), 50);
    assert_eq!(scores.len(), 2);
    let mut seen: Vec<(String, i32)> = Vec::new();
    let mut i = 0;
    while i < scores.len() {
        seen.push((scores.key_at(i).clone(), scores.value_at(i)));
        i += 1;
    }
    assert_eq!(seen, vec![(String::from("Blue"), 10), (String::from("Yellow"), 50)]);
}
