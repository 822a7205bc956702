use drake::files::Source;

#[test]
fn line_index_finds_the_line_of_each_offset() {
    let src = Source::new("ab\ncd\n\nxyz".to_string());
    assert_eq!(src.line_count(), 4);
    // line starts: 0, 3, 6, 7
    assert_eq!(src.line_index(0), 0);
    assert_eq!(src.line_index(2), 0);
    assert_eq!(src.line_index(3), 1);
    assert_eq!(src.line_index(5), 1);
    assert_eq!(src.line_index(6), 2);
    assert_eq!(src.line_index(7), 3);
    assert_eq!(src.line_index(9), 3);
    assert_eq!(src.line_index(1000), 3);
}

#[test]
fn line_index_counts_bytes_not_characters() {
    // 'é' takes two bytes, so the second line starts at offset 3.
    let src = Source::new("é\nb".to_string());
    assert_eq!(src.line_count(), 2);
    assert_eq!(src.line_index(2), 0);
    assert_eq!(src.line_index(3), 1);
}

#[test]
fn empty_source_has_one_line() {
    let src = Source::new(String::new());
    assert_eq!(src.line_count(), 1);
    assert_eq!(src.line_index(0), 0);
    assert_eq!(src.line_range(0), Ok(0..0));
}

#[test]
fn line_range_of_the_last_line_reaches_the_end() {
    let src = Source::new("ab\ncd\n\nxyz".to_string());
    assert_eq!(src.line_range(3), Ok(7..10));
}

#[test]
fn line_range_of_an_earlier_line_names_the_last_line() {
    let src = Source::new("ab\ncd\n\nxyz".to_string());
    assert_eq!(src.line_range(0), Err(3));
    assert_eq!(src.line_range(2), Err(3));
}

#[test]
fn source_hands_its_text_back() {
    let src = Source::new("a = 1\n".to_string());
    assert_eq!(src.as_str(), "a = 1\n");
    assert_eq!(src.into_inner(), "a = 1\n".to_string());
}
