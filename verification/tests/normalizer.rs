use pandoc_book::headings::normalize;
use pandoc_book::headings::shift_headings;

#[test]
fn heading_shift_two_levels() {
    let out = normalize("# H1\n## H2\nplain", 2, "T");
    assert_eq!(out, "## T\n\n### H1\n#### H2\nplain");
}

#[test]
fn depth_zero_passes_content_through() {
    let out = normalize("# A\ntext", 0, "ignored");
    assert_eq!(out, "# A\ntext");
}

#[test]
fn shift_adds_one_level_to_each_heading() {
    assert_eq!(shift_headings("# a\nb\n# c", 1), "## a\nb\n## c");
}

#[test]
fn shift_preserves_trailing_newline() {
    assert_eq!(shift_headings("#x\n", 3), "####x\n");
}

#[test]
fn shift_of_empty_content_is_empty() {
    assert_eq!(shift_headings("", 2), "");
}

#[test]
fn bare_hash_line_counts_as_heading() {
    assert_eq!(shift_headings("#\nno", 1), "##\nno");
}

#[test]
fn hash_inside_a_line_is_untouched() {
    assert_eq!(shift_headings("a # b", 5), "a # b");
}

#[test]
fn non_heading_lines_are_byte_identical() {
    let input = "text\n\n  indented\n# h\nafter";
    let out = shift_headings(input, 2);
    assert_eq!(out, "text\n\n  indented\n### h\nafter");
}

#[test]
fn title_line_comes_first_with_blank_line() {
    let out = normalize("body", 2, "Setup");
    assert_eq!(out.lines().next(), Some("## Setup"));
    assert_eq!(out, "## Setup\n\nbody");
}

#[test]
fn normalize_of_empty_content_keeps_title() {
    assert_eq!(normalize("", 1, "Intro"), "# Intro\n\n");
}
