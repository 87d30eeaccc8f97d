use otternel::text::{
    ends_with, find_first, find_last, is_whitespace, matches_at, same_text, to_chars, trim,
    trim_bounds,
};

#[test]
fn characters_come_out_in_order() {
    assert_eq!(to_chars("aé😀"), vec!['a', 'é', '😀']);
    assert_eq!(to_chars(""), Vec::<char>::new());
}

#[test]
fn texts_are_the_same_when_all_characters_are() {
    assert!(same_text("", ""));
    assert!(same_text("été", "été"));
    assert!(!same_text("été", "ete"));
    assert!(!same_text("a", "ab"));
    assert!(!same_text("ab", "a"));
    assert!(!same_text("ab", "ac"));
}

#[test]
fn white_space_is_what_the_standard_library_calls_so() {
    let mut code: u32 = 0;
    while code <= 0x10FFFF {
        if let Some(c) = char::from_u32(code) {
            assert_eq!(is_whitespace(c), c.is_whitespace(), "code point {:#x}", code);
        }
        code += 1;
    }
}

#[test]
fn trimming_agrees_with_the_standard_library() {
    let texts = ["", " ", "a", " a", "a ", "  a b  ", "\t\r\n", "\u{00A0}x\u{2003}", "é \u{3000}"];
    for text in texts {
        assert_eq!(trim(text), text.trim(), "text {:?}", text);
    }
    assert_eq!(trim_bounds(&to_chars("  ab ")), (2, 4));
    assert_eq!(trim_bounds(&to_chars("   ")), (3, 3));
    assert_eq!(trim_bounds(&to_chars("")), (0, 0));
}

#[test]
fn last_occurrence_within_a_prefix() {
    let chars = to_chars("a.b.c");
    assert_eq!(find_last(&chars, 5, '.'), Some(3));
    assert_eq!(find_last(&chars, 3, '.'), Some(1));
    assert_eq!(find_last(&chars, 1, '.'), None);
    assert_eq!(find_last(&chars, 0, '.'), None);
    assert_eq!(find_last(&chars, 5, 'x'), None);
}

#[test]
fn first_occurrence_from_a_position() {
    let chars = to_chars("ab]: cd]: e");
    let pattern = to_chars("]: ");
    assert_eq!(find_first(&chars, 11, &pattern, 0), Some(2));
    assert_eq!(find_first(&chars, 11, &pattern, 2), Some(2));
    assert_eq!(find_first(&chars, 11, &pattern, 3), Some(7));
    assert_eq!(find_first(&chars, 11, &pattern, 8), None);
    assert_eq!(find_first(&chars, 9, &pattern, 3), None);
    assert_eq!(find_first(&chars, 11, &Vec::new(), 4), Some(4));
    assert_eq!(find_first(&chars, 11, &Vec::new(), 11), Some(11));
    assert!(matches_at(&chars, 11, &pattern, 7));
    assert!(!matches_at(&chars, 9, &pattern, 7));
    assert!(!matches_at(&chars, 11, &pattern, 6));
    assert!(!matches_at(&chars, 11, &pattern, 12));
}

#[test]
fn suffix_of_a_range() {
    let chars = to_chars("x left the game y");
    let suffix = to_chars(" left the game");
    assert!(ends_with(&chars, 0, 15, &suffix));
    assert!(ends_with(&chars, 1, 15, &suffix));
    assert!(!ends_with(&chars, 2, 15, &suffix));
    assert!(!ends_with(&chars, 0, 17, &suffix));
    assert!(ends_with(&chars, 3, 3, &Vec::new()));
}
