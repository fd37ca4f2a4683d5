use libcamera_cgen::docfmt::format_docstring;

#[test]
fn block_two_lines_trailing_newline() {
    let out = format_docstring("line1\nline2\n", 4);
    assert_eq!(out, "    /**\n     * line1\n     * line2\n     */\n");
    assert_eq!(out.lines().count(), 4);
}

#[test]
fn block_single_line_no_trailing_newline() {
    assert_eq!(format_docstring("abc", 0), "/**\n * abc\n */\n");
}

#[test]
fn block_empty_text() {
    assert_eq!(format_docstring("", 2), "  /**\n   */\n");
}

#[test]
fn block_interior_blank_line() {
    assert_eq!(
        format_docstring("a\n\nb\n", 1),
        " /**\n  * a\n  *\n  * b\n  */\n"
    );
}

#[test]
fn block_lines_kept_verbatim() {
    assert_eq!(
        format_docstring("  spaced   out  \n", 0),
        "/**\n *   spaced   out  \n */\n"
    );
}

#[test]
fn block_only_newlines() {
    assert_eq!(format_docstring("\n\n", 0), "/**\n *\n *\n */\n");
}
