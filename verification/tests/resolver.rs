use hcl_diag::location::locate_error;

#[test]
fn offset_is_preserved() {
    let input = b"a = 1\nb = \n";
    for o in 0..=input.len() {
        let (_, loc) = locate_error(input, o);
        assert_eq!(loc.offset(), o);
    }
}

#[test]
fn offset_zero_is_line_one_column_one() {
    for input in [&b""[..], &b"x"[..], &b"\n"[..], &b"a = 1\nb = \n"[..]] {
        let (_, loc) = locate_error(input, 0);
        assert_eq!(loc.line(), 1);
        assert_eq!(loc.column(), 1);
        assert_eq!(loc.offset(), 0);
    }
}

#[test]
fn line_is_newline_count_plus_one() {
    let input = b"x\ny\nz";
    let cases = [(0, 1), (1, 1), (2, 2), (3, 2), (4, 3), (5, 3)];
    for (o, expected_line) in cases {
        let (_, loc) = locate_error(input, o);
        let newlines = input[..o].iter().filter(|&&b| b == b'\n').count();
        assert_eq!(loc.line(), newlines + 1);
        assert_eq!(loc.line(), expected_line);
    }
}

#[test]
fn line_text_never_contains_newline() {
    let input = b"first\nsecond\n\nfourth";
    for o in 0..=input.len() {
        let (line, _) = locate_error(input, o);
        assert!(!line.contains(&b'\n'));
    }
}

#[test]
fn terminating_newline_is_excluded() {
    let input = b"ab\ncd";
    let (line, loc) = locate_error(input, 0);
    assert_eq!(line, b"ab");
    assert_eq!(loc.line(), 1);
}

#[test]
fn failure_on_newline_byte_reports_the_line_it_ends() {
    // The newline at offset 5 is not part of the reported line, but the
    // column still reflects its position within that line.
    let input = b"a = 1\nb";
    let (line, loc) = locate_error(input, 5);
    assert_eq!(line, b"a = 1");
    assert_eq!(loc.line(), 1);
    assert_eq!(loc.column(), 6);
}

#[test]
fn failure_on_empty_line() {
    let input = b"a\n\nb";
    let (line, loc) = locate_error(input, 2);
    assert_eq!(line, b"");
    assert_eq!(loc.line(), 2);
    assert_eq!(loc.column(), 1);
}

#[test]
fn no_trailing_newline_failure_at_last_byte() {
    let input = b"a = 1\nb = 2";
    let (line, loc) = locate_error(input, input.len() - 1);
    assert_eq!(line, b"b = 2");
    assert_eq!(loc.line(), 2);
    assert_eq!(loc.column(), 5);
    let (line, loc) = locate_error(input, input.len());
    assert_eq!(line, b"b = 2");
    assert_eq!(loc.line(), 2);
    assert_eq!(loc.column(), 6);
}

#[test]
fn locations_compare_structurally() {
    let input = b"a\nb";
    let (_, a) = locate_error(input, 2);
    let (_, b) = locate_error(input, 2);
    let (_, c) = locate_error(input, 1);
    assert_eq!(a, b);
    assert_ne!(a, c);
}
