use hcl_diag::context::ContextError;
use hcl_diag::error::Error;

#[test]
fn second_line_missing_value() {
    let input = b"a = 1\nb = \n";
    // The value of the second attribute is missing; the parser stops at
    // the newline that ends the second line, offset 10.
    let mut err = ContextError::new(10);
    err.annotate_label("attribute value".to_string());
    err.annotate_expected("expression".to_string());

    let diag = Error::from_parse_error(input, &err);
    assert_eq!(diag.location().line(), 2);
    assert_eq!(diag.location().column(), 5);
    assert_eq!(diag.location().offset(), 10);
    assert_eq!(diag.line(), "b = ");

    let rendered = diag.to_display_string();
    let expected = [
        " --> HCL parse error in line 2, column 5",
        "  |",
        "2 | b = ",
        "  |     ^---",
        "  |",
        "  = invalid attribute value; expected expression",
    ]
    .join("\n");
    assert_eq!(rendered, expected);
}

#[test]
fn diagnostic_without_trailing_newline() {
    let input = b"a = 1\nb = {";
    let err = ContextError::new(input.len() - 1);
    let diag = Error::from_parse_error(input, &err);
    assert_eq!(diag.location().line(), 2);
    assert_eq!(diag.location().column(), 5);
    assert_eq!(diag.line(), "b = {");
}

#[test]
fn failure_at_end_of_input() {
    let input = b"a = ";
    let err = ContextError::new(input.len());
    let diag = Error::from_parse_error(input, &err);
    assert_eq!(diag.location().line(), 1);
    assert_eq!(diag.location().column(), 5);
    assert_eq!(diag.line(), "a = ");
}

#[test]
fn gutter_widens_with_the_line_number() {
    let mut input = Vec::new();
    for _ in 0..9 {
        input.extend_from_slice(b"x = 1\n");
    }
    input.extend_from_slice(b"y = ?");
    // Failure in line 10: the printed line number is two digits wide,
    // so the gutter is two spaces.
    let err = ContextError::new(input.len() - 1);
    let diag = Error::from_parse_error(&input, &err);
    assert_eq!(diag.location().line(), 10);
    assert_eq!(diag.location().column(), 5);
    let expected = [
        "  --> HCL parse error in line 10, column 5",
        "   |",
        "10 | y = ?",
        "   |     ^---",
        "   |",
        "   = unexpected token",
    ]
    .join("\n");
    assert_eq!(diag.to_display_string(), expected);
}

#[test]
fn invalid_utf8_is_replaced_in_the_line_text() {
    // The line is decoded lossily: each invalid byte becomes U+FFFD.
    let input = &[b'x', b' ', 0xFF, b'\n', b'y'][..];
    let err = ContextError::new(1);
    let diag = Error::from_parse_error(input, &err);
    assert_eq!(diag.line(), "x \u{FFFD}");
    assert_eq!(diag.location().line(), 1);
}

#[test]
fn same_input_and_context_give_equal_diagnostics() {
    let input = b"a = 1\nb = \n";
    let mut err = ContextError::new(10);
    err.annotate_label("attribute value".to_string());
    err.annotate_expected("expression".to_string());
    err.attach_cause("bad digit".to_string());

    let first = Error::from_parse_error(input, &err);
    let second = Error::from_parse_error(input, &err);
    assert_eq!(first, second);
    assert_eq!(first.to_display_string(), second.to_display_string());
}

#[test]
fn diagnostic_is_independent_of_the_input_buffer() {
    let diag = {
        let input = Vec::from(&b"a = 1\nb = \n"[..]);
        let err = ContextError::new(6);
        Error::from_parse_error(&input, &err)
    };
    assert_eq!(diag.line(), "b = ");
    assert_eq!(diag.location().line(), 2);
    assert_eq!(diag.location().column(), 1);
}

#[test]
fn cause_appears_in_the_rendered_block() {
    let input = b"n = 99999999999999999999";
    let mut err = ContextError::new(4);
    err.annotate_expected("number".to_string());
    err.attach_cause("number too large to fit in target type".to_string());
    let diag = Error::from_parse_error(input, &err);
    let rendered = diag.to_display_string();
    assert!(rendered.ends_with("= expected number; number too large to fit in target type"));
}
