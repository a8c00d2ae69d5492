use tui_realm_textarea::fmt::LineFmt;
use tuirealm::props::{Color, Style, TextModifiers};

#[test]
fn plain_text_renders_verbatim() {
    let lf = LineFmt::new("hello world", Style::default());
    assert_eq!(lf.fmt(3, 7), "hello world");
}

#[test]
fn row_and_col_render_one_based() {
    let lf = LineFmt::new("Ln {ROW}, Col {COL}", Style::default());
    assert_eq!(lf.fmt(4, 9), "Ln 5, Col 10");
}

#[test]
fn adjacent_placeholders_have_no_separator() {
    let lf = LineFmt::new("{ROW}{COL}", Style::default());
    assert_eq!(lf.fmt(0, 0), "11");
}

#[test]
fn unknown_key_is_dropped() {
    let lf = LineFmt::new("prefix {UNKNOWN} suffix", Style::default());
    assert_eq!(lf.fmt(0, 0), "prefix  suffix");
}

#[test]
fn empty_format_renders_empty() {
    let lf = LineFmt::new("", Style::default());
    assert_eq!(lf.fmt(5, 6), "");
}

#[test]
fn compiling_twice_renders_identically() {
    let a = LineFmt::new("Ln {ROW}/{COL}", Style::default());
    let b = LineFmt::new("Ln {ROW}/{COL}", Style::default());
    assert_eq!(a.fmt(2, 3), b.fmt(2, 3));
    assert_eq!(a.fmt(0, 17), b.fmt(0, 17));
}

#[test]
fn style_passes_through_unchanged() {
    let st = Style::default()
        .fg(Color::Red)
        .bg(Color::Blue)
        .add_modifier(TextModifiers::REVERSED);
    let lf = LineFmt::new("{ROW} anything {COL}", st);
    assert_eq!(lf.style(), st);
}

#[test]
fn style_passes_through_for_empty_format() {
    let st = Style::default().fg(Color::Green);
    let lf = LineFmt::new("", st);
    assert_eq!(lf.style(), st);
}

#[test]
fn reevaluation_reflects_each_cursor_state() {
    let lf = LineFmt::new("{ROW}:{COL}", Style::default());
    assert_eq!(lf.fmt(0, 0), "1:1");
    assert_eq!(lf.fmt(41, 8), "42:9");
    assert_eq!(lf.fmt(0, 0), "1:1");
}

#[test]
fn empty_braces_are_dropped() {
    let lf = LineFmt::new("a{}b", Style::default());
    assert_eq!(lf.fmt(9, 9), "ab");
}

#[test]
fn unmatched_open_brace_is_literal() {
    let lf = LineFmt::new("row {ROW", Style::default());
    assert_eq!(lf.fmt(4, 4), "row {ROW");
}

#[test]
fn unmatched_close_brace_is_literal() {
    let lf = LineFmt::new("}x{", Style::default());
    assert_eq!(lf.fmt(1, 2), "}x{");
}

#[test]
fn placeholder_spans_to_first_close_brace() {
    let lf = LineFmt::new("a{b{c}d", Style::default());
    assert_eq!(lf.fmt(0, 0), "ad");
}

#[test]
fn keys_are_case_sensitive() {
    let lf = LineFmt::new("{row}{col}", Style::default());
    assert_eq!(lf.fmt(3, 3), "");
}

#[test]
fn trailing_text_after_last_placeholder_is_kept() {
    let lf = LineFmt::new("{ROW}x", Style::default());
    assert_eq!(lf.fmt(0, 0), "1x");
}

#[test]
fn multi_digit_positions_render_fully() {
    let lf = LineFmt::new("{ROW}-{COL}", Style::default());
    assert_eq!(lf.fmt(99, 123), "100-124");
    assert_eq!(lf.fmt(9, 10), "10-11");
}

#[test]
fn renders_a_real_widget_cursor_position() {
    let mut widget = tui_textarea::TextArea::default();
    widget.insert_char('a');
    widget.insert_newline();
    widget.insert_char('b');
    let (row, col) = widget.cursor();
    let lf = LineFmt::new("Ln {ROW}, Col {COL}", Style::default());
    assert_eq!(lf.fmt(row, col), "Ln 2, Col 2");
}

#[test]
fn non_ascii_literals_survive() {
    let lf = LineFmt::new("riga {ROW} — colonna {COL}", Style::default());
    assert_eq!(lf.fmt(0, 1), "riga 1 — colonna 2");
}
