use difftw::line::{classify_line, process_line, render_line, LineKind};

#[test]
fn removed_line_keeps_indent_and_gets_minus() {
    assert_eq!(
        process_line("  \x1b[91;1m3  old text", false),
        "  \x1b[91;1m-3  old text\n"
    );
}

#[test]
fn added_line_gets_code_first_then_plus() {
    assert_eq!(
        process_line("\x1b[92;1m4  new text", false),
        "\x1b[92;1m+4  new text\n"
    );
}

#[test]
fn context_line_gets_leading_space() {
    assert_eq!(process_line("\x1b[2m5  ctx", false), " \x1b[2m5  ctx\n");
}

#[test]
fn indented_context_line_keeps_whole_line() {
    assert_eq!(render_line("    \x1b[2m12 fn x()"), "     \x1b[2m12 fn x()");
}

#[test]
fn added_line_with_indent_moves_code_before_indent() {
    assert_eq!(
        render_line("   \x1b[92;1m7 y\x1b[0m"),
        "\x1b[92;1m   +7 y\x1b[0m"
    );
}

#[test]
fn tab_and_wide_space_count_as_indent() {
    assert_eq!(
        render_line("\t\u{3000}\x1b[91;1m9 z"),
        "\t\u{3000}\x1b[91;1m-9 z"
    );
}

#[test]
fn plain_line_is_unchanged() {
    assert_eq!(process_line("a.txt --- 1/2 --- Text", false), "a.txt --- 1/2 --- Text\n");
    assert_eq!(render_line("  \x1b[1mheader"), "  \x1b[1mheader");
}

#[test]
fn empty_line_is_plain() {
    assert_eq!(classify_line(""), LineKind::Plain);
    assert_eq!(process_line("", false), "\n");
    assert_eq!(process_line("   ", false), "   \n");
}

#[test]
fn code_after_text_is_not_a_number() {
    assert_eq!(classify_line("x\x1b[91;1m1"), LineKind::Plain);
    assert_eq!(render_line("x\x1b[92;1m1"), "x\x1b[92;1m1");
}

#[test]
fn partial_code_is_plain() {
    assert_eq!(classify_line("\x1b[91m1 red but not bold"), LineKind::Plain);
}

#[test]
fn classify_each_kind() {
    assert_eq!(classify_line("\x1b[2m1"), LineKind::Context);
    assert_eq!(classify_line(" \x1b[91;1m1"), LineKind::Removed);
    assert_eq!(classify_line("  \x1b[92;1m1"), LineKind::Added);
    assert_eq!(classify_line("1"), LineKind::Plain);
}

#[test]
fn stripping_keeps_markers_and_text() {
    assert_eq!(
        process_line("  \x1b[91;1m3  old text", true),
        "  -3  old text\n"
    );
    assert_eq!(
        process_line("\x1b[92;1m4  new text\x1b[0m", true),
        "+4  new text\n"
    );
    assert_eq!(process_line("\x1b[2m5  ctx", true), " 5  ctx\n");
    assert_eq!(process_line("\x1b[1mplain\x1b[0m", true), "plain\n");
}
