use nelisp_gtk::frame::{
    bootstrap_ok, build_event_literal, format_mode_line, put_echo_area, put_mode_line,
    refresh_buffer_area, refresh_mode_line, stamp_bootstrap_failure, COLS, ECHO_AREA_ROW,
    MODE_LINE_ROW, ROWS, BUFFER_AREA_START,
};
use nelisp_gtk::grid::CharGrid;
use nelisp_gtk::text::{point_to_row_col, truncate_to, unquote_printed};

fn row_text(g: &CharGrid, row: usize) -> String {
    (0..g.cols).map(|c| g.get(row, c)).collect()
}

#[test]
fn unquote_printed_strips_outer_quotes() {
    assert_eq!(unquote_printed("\"hello\""), "hello");
}

#[test]
fn unquote_printed_decodes_newline_escape() {
    assert_eq!(unquote_printed("\"a\\nb\""), "a\nb");
}

#[test]
fn unquote_printed_passes_through_unquoted() {
    assert_eq!(unquote_printed("ERR foo"), "ERR foo");
}

#[test]
fn truncate_to_keeps_short_strings_intact() {
    assert_eq!(truncate_to("abc".to_string(), 10), "abc");
}

#[test]
fn truncate_to_appends_ellipsis_on_overflow() {
    assert_eq!(truncate_to("abcdef".to_string(), 4), "abc…");
}

#[test]
fn put_echo_area_clears_previous_text() {
    let mut g = CharGrid::blank(ROWS, COLS);
    put_echo_area(&mut g, "very-long-keysym-name");
    put_echo_area(&mut g, "a");
    let row: String = (0..COLS).map(|c| g.get(ECHO_AREA_ROW, c)).collect();
    assert!(row.contains("Last key: a"));
    assert!(!row.contains("very-long"));
}

#[test]
fn put_echo_area_initial_empty_shows_prompt() {
    let mut g = CharGrid::blank(ROWS, COLS);
    put_echo_area(&mut g, "");
    let row: String = (0..COLS).map(|c| g.get(ECHO_AREA_ROW, c)).collect();
    assert!(row.contains("(press any key)"));
}

#[test]
fn format_mode_line_pads_with_dashes_and_truncates() {
    let line = format_mode_line("*welcome*", "1", "All", "Fundamental", 80);
    assert_eq!(line.chars().count(), 80);
    assert!(line.contains("*welcome*"));
    assert!(line.contains("L1"));
    assert!(line.contains("All"));
    assert!(line.contains("(Fundamental)"));
    assert!(line.ends_with('-'));

    let narrow = format_mode_line("xxxxxxxxxxxxxxxxxxxx", "1", "All", "Fund", 10);
    assert_eq!(narrow.chars().count(), 10);
}

#[test]
fn put_mode_line_overwrites_full_row() {
    let mut g = CharGrid::blank(ROWS, COLS);
    put_mode_line(&mut g, "AAAA");
    let r: String = (0..COLS).map(|c| g.get(MODE_LINE_ROW, c)).collect();
    assert!(r.starts_with("AAAA"));
    // Cells past the input remain blank (= we cleared the row).
    assert_eq!(g.get(MODE_LINE_ROW, 5), ' ');
    // Re-stamp shorter content does not leak old chars.
    put_mode_line(&mut g, "B");
    let r2: String = (0..COLS).map(|c| g.get(MODE_LINE_ROW, c)).collect();
    assert!(r2.starts_with("B"));
    assert!(!r2.contains("AAAA"));
}

/// The probe answers are what the substrate prints for `*welcome*` in
/// fundamental mode.
#[test]
fn refresh_mode_line_writes_buffer_name() {
    let mut g = CharGrid::blank(ROWS, COLS);
    refresh_mode_line(&mut g, "\"*welcome*\"", "11", "\"fundamental-mode\"");
    let row: String = (0..COLS).map(|c| g.get(MODE_LINE_ROW, c)).collect();
    assert!(row.contains("*welcome*"), "row = {row:?}");
    assert!(row.contains("L"), "row = {row:?}");
    assert!(row.contains("(fundamental-mode)"), "row = {row:?}");
}

#[test]
fn build_event_literal_maps_named_keys() {
    // Letter 'A' → integer literal "65".
    assert_eq!(build_event_literal("A", Some('A')), Some("65".into()));
    for (name, expected) in [
        ("BackSpace", "'backspace"),
        ("Return", "'return"),
        ("Left", "'left"),
        ("Right", "'right"),
        ("Up", "'up"),
        ("Down", "'down"),
    ] {
        assert_eq!(
            build_event_literal(name, None),
            Some(expected.into()),
            "keysym {name}"
        );
    }
}

#[test]
fn build_event_literal_skips_control_chars() {
    // Control_L is a modifier-only key (no unicode, name = "Control_L").
    assert_eq!(build_event_literal("Control_L", None), None);
}

#[test]
fn point_to_row_col_handles_simple_buffer() {
    assert_eq!(point_to_row_col("abc\nxy", 1), (0, 0));
    assert_eq!(point_to_row_col("abc\nxy", 4), (0, 3));
    assert_eq!(point_to_row_col("abc\nxy", 5), (1, 0));
    assert_eq!(point_to_row_col("abc\nxy", 7), (1, 2));
}

/// The answers are what the substrate prints for a buffer holding
/// `abc\nxyz\n` with point at its end.
#[test]
fn refresh_buffer_area_renders_buffer_string() {
    let mut g = CharGrid::blank(ROWS, COLS);
    let cursor = refresh_buffer_area(&mut g, "\"abc\\nxyz\\n\"", "9");
    let r12: String = (0..COLS).map(|c| g.get(BUFFER_AREA_START, c)).collect();
    let r13: String = (0..COLS).map(|c| g.get(BUFFER_AREA_START + 1, c)).collect();
    assert!(r12.contains("abc"), "row 12 = {r12:?}");
    assert!(r13.contains("xyz"), "row 13 = {r13:?}");
    assert_eq!(cursor, Some((2, 0)));
}

#[test]
fn format_mode_line_exact_text() {
    let line = format_mode_line("b", "3", "All", "m", 30);
    assert_eq!(line, "-U:---  b    L3   All   (m) --");
    assert_eq!(format_mode_line("b", "3", "All", "m", 5), "-U:--");
    assert_eq!(format_mode_line("", "", "", "", 0), "");
}

#[test]
fn echo_area_truncates_long_text_with_ellipsis() {
    let mut g = CharGrid::blank(ROWS, COLS);
    let long: String = "x".repeat(100);
    put_echo_area(&mut g, &long);
    let row = row_text(&g, ECHO_AREA_ROW);
    assert_eq!(row.chars().count(), COLS);
    assert!(row.starts_with("Last key: xxx"));
    assert_eq!(row.chars().last(), Some('…'));
}

#[test]
fn echo_area_second_message_replaces_first() {
    let mut once = CharGrid::blank(ROWS, COLS);
    put_echo_area(&mut once, "b");
    let mut twice = CharGrid::blank(ROWS, COLS);
    put_echo_area(&mut twice, "a-much-longer-message");
    put_echo_area(&mut twice, "b");
    for r in 0..ROWS {
        assert_eq!(row_text(&once, r), row_text(&twice, r));
    }
}

#[test]
fn mode_line_second_text_replaces_first() {
    let mut once = CharGrid::blank(ROWS, COLS);
    put_mode_line(&mut once, "short");
    let mut twice = CharGrid::blank(ROWS, COLS);
    put_mode_line(&mut twice, &"y".repeat(120));
    put_mode_line(&mut twice, "short");
    for r in 0..ROWS {
        assert_eq!(row_text(&once, r), row_text(&twice, r));
    }
}

#[test]
fn refresh_mode_line_falls_back_on_errors() {
    let mut g = CharGrid::blank(ROWS, COLS);
    refresh_mode_line(&mut g, "ERR void-function", "ERR x", "ERR y");
    let row = row_text(&g, MODE_LINE_ROW);
    assert!(row.starts_with("-U:---  ?    L?   All   (?) ---"), "row = {row:?}");
}

#[test]
fn refresh_mode_line_trims_line_number() {
    let mut g = CharGrid::blank(ROWS, COLS);
    refresh_mode_line(&mut g, "\"b\"", "  7\n", "\"m\"");
    let row = row_text(&g, MODE_LINE_ROW);
    assert!(row.starts_with("-U:---  b    L7   All   (m) -"), "row = {row:?}");
}

#[test]
fn refresh_buffer_area_rejects_unparsable_point() {
    let mut g = CharGrid::blank(ROWS, COLS);
    assert_eq!(refresh_buffer_area(&mut g, "\"ab\"", "ERR no point"), None);
    assert_eq!(row_text(&g, 0).trim_end(), "ab");
    assert_eq!(refresh_buffer_area(&mut g, "\"ab\"", " +2 "), Some((0, 1)));
    assert_eq!(refresh_buffer_area(&mut g, "\"ab\"", "-2"), None);
}

#[test]
fn refresh_buffer_area_clears_old_text_and_strips_carriage_returns() {
    let mut g = CharGrid::blank(ROWS, COLS);
    refresh_buffer_area(&mut g, "\"first line that is long\"", "1");
    refresh_buffer_area(&mut g, "\"x\r\\ny\"", "1");
    assert_eq!(row_text(&g, 0).trim_end(), "x");
    assert_eq!(row_text(&g, 1).trim_end(), "y");
}

#[test]
fn refresh_buffer_area_cursor_off_screen() {
    let mut g = CharGrid::blank(ROWS, COLS);
    let text = format!("\"{}\"", "l\\n".repeat(30));
    // Point at the start of line 25 lies below the buffer area.
    assert_eq!(refresh_buffer_area(&mut g, &text, "51"), None);
    assert_eq!(refresh_buffer_area(&mut g, &text, "43"), Some((21, 0)));
}

#[test]
fn build_event_literal_other_keys() {
    assert_eq!(build_event_literal("KP_Enter", Some('\r')), Some("'return".into()));
    assert_eq!(build_event_literal("Tab", Some('\t')), None);
    assert_eq!(build_event_literal("", Some('é')), Some("233".into()));
    assert_eq!(build_event_literal("", Some('\u{85}')), None);
    assert_eq!(build_event_literal("", Some('\u{a0}')), Some("160".into()));
}

#[test]
fn bootstrap_ok_detects_error_results() {
    assert!(bootstrap_ok(&vec!["t".to_string(), "load-path-ready".to_string()]));
    assert!(!bootstrap_ok(&vec!["t".to_string(), "ERR void-function foo".to_string()]));
    assert!(bootstrap_ok(&vec!["ERR".to_string()]));
    assert!(bootstrap_ok(&vec![]));
}

#[test]
fn bootstrap_failure_lists_each_step() {
    let mut g = CharGrid::blank(ROWS, COLS);
    let diag = vec![
        ("layer2 setup".to_string(), "ERR file-missing".to_string()),
        ("welcome buffer".to_string(), "t".to_string()),
    ];
    stamp_bootstrap_failure(&mut g, &diag);
    assert_eq!(row_text(&g, 0).trim_end(), "[bootstrap failed]");
    assert_eq!(row_text(&g, 1).trim_end(), "");
    assert_eq!(row_text(&g, 2).trim_end(), "layer2 setup: ERR file-missing");
    assert_eq!(row_text(&g, 3).trim_end(), "welcome buffer: t");
    assert!(row_text(&g, MODE_LINE_ROW).starts_with("-U:---  ?    L?   ?   (?) "));
}

#[test]
fn bootstrap_failure_stops_at_buffer_area_end() {
    let mut g = CharGrid::blank(ROWS, COLS);
    let diag: Vec<(String, String)> =
        (0..30).map(|i| (format!("step{i}"), "ERR x".to_string())).collect();
    stamp_bootstrap_failure(&mut g, &diag);
    assert_eq!(row_text(&g, 21).trim_end(), "step19: ERR x");
    assert!(row_text(&g, MODE_LINE_ROW).starts_with("-U:---"));
    assert_eq!(row_text(&g, ECHO_AREA_ROW).trim_end(), "");
}
