use nelisp_gtk::backend::{
    cell_colors, font_for_size, is_menu_action, menu_action_name, menu_action_target,
    mouse_kind_name, parse_color_spans, parse_highlights, row_paint_text, span_rects, GtkState,
    KeyEvent, MouseEvent, MouseKind,
};
use nelisp_gtk::grid::CharGrid;

fn row_text(g: &CharGrid, row: usize) -> String {
    (0..g.cols).map(|c| g.get(row, c)).collect()
}

fn state(rows: usize, cols: usize) -> GtkState {
    let mut s = GtkState::new();
    s.init_grid(rows, cols);
    s
}

#[test]
fn new_state_is_empty() {
    let s = GtkState::new();
    assert!(!s.initialized);
    assert_eq!((s.grid.rows, s.grid.cols), (0, 0));
    assert_eq!(s.font, "Monospace 12");
    assert!(s.cursor.is_none() && s.region.is_none() && s.mode_line_row.is_none());
    assert!(s.key_queue.is_empty() && s.mouse_event_queue.is_empty());
    assert!(s.menu_event_queue.is_empty() && s.resize_queue.is_empty());
    assert!(!s.quit);
}

#[test]
fn put_row_clears_previous_tail() {
    let mut s = state(3, 8);
    s.put_row(1, "abcdefgh");
    s.put_row(1, "xy");
    assert_eq!(row_text(&s.grid, 1), "xy      ");
    s.put_row(7, "ignored");
    assert_eq!(row_text(&s.grid, 2), "        ");
}

#[test]
fn put_substr_keeps_rest_of_row() {
    let mut s = state(2, 6);
    s.put_row(0, "abcdef");
    s.put_substr(0, 2, "XY");
    assert_eq!(row_text(&s.grid, 0), "abXYef");
    s.put_substr(0, 6, "zz");
    s.put_substr(2, 0, "zz");
    assert_eq!(row_text(&s.grid, 0), "abXYef");
}

#[test]
fn clear_grid_blanks_everything() {
    let mut s = state(2, 2);
    s.put_row(0, "ab");
    s.clear_grid();
    assert_eq!(row_text(&s.grid, 0), "  ");
}

#[test]
fn highlights_skip_malformed_entries_and_clamp_colours() {
    let entries = vec![
        vec![Some(1), Some(2), Some(3), Some(4), Some(10), Some(300), Some(0), Some(255)],
        vec![Some(1), Some(2), Some(3)],
        vec![Some(1), Some(-2), Some(3), Some(4), Some(1), Some(1), Some(1), Some(1)],
        vec![Some(1), None, Some(3), Some(4), Some(1), Some(1), Some(1), Some(1)],
    ];
    assert_eq!(parse_highlights(&entries), vec![(1, 2, 3, 4, 10, 255, 0, 255)]);
    let mut s = state(1, 1);
    s.set_highlights(&entries);
    assert_eq!(s.highlights.len(), 1);
}

#[test]
fn color_spans_skip_malformed_entries() {
    let entries = vec![
        vec![Some(0), Some(0), Some(0), Some(3), Some(255), Some(1000), Some(7)],
        vec![Some(0), Some(0), Some(0), Some(3), Some(1), Some(1), Some(1), Some(1)],
    ];
    assert_eq!(parse_color_spans(&entries), vec![(0, 0, 0, 3, 255, 255, 7)]);
    let mut s = state(1, 1);
    s.set_color_spans(&entries);
    assert_eq!(s.color_spans, vec![(0, 0, 0, 3, 255, 255, 7)]);
}

#[test]
fn region_sentinel_and_negatives_clear() {
    let mut s = GtkState::new();
    s.set_region(1, 2, 3, 4);
    assert_eq!(s.region, Some((1, 2, 3, 4)));
    s.set_region(0, 0, 0, 0);
    assert_eq!(s.region, None);
    s.set_region(0, 0, 0, 1);
    assert_eq!(s.region, Some((0, 0, 0, 1)));
    s.set_region(-1, 0, 0, 1);
    assert_eq!(s.region, None);
}

#[test]
fn font_sizes_in_range() {
    assert_eq!(font_for_size(14), Some("Monospace 14".to_string()));
    assert_eq!(font_for_size(4), Some("Monospace 4".to_string()));
    assert_eq!(font_for_size(200), Some("Monospace 200".to_string()));
    assert_eq!(font_for_size(3), None);
    assert_eq!(font_for_size(201), None);
    assert_eq!(font_for_size(-5), None);
}

#[test]
fn key_queue_is_fifo() {
    let mut s = GtkState::new();
    let a = KeyEvent { keysym: 97, mods: 0, unicode: 97 };
    let b = KeyEvent { keysym: 65293, mods: 4, unicode: 13 };
    assert_eq!(s.poll_key(), None);
    s.push_key(a);
    s.push_key(b);
    assert_eq!(s.poll_key(), Some(a));
    assert_eq!(s.poll_key(), Some(b));
    assert_eq!(s.poll_key(), None);
}

#[test]
fn menu_queue_is_fifo() {
    let mut s = GtkState::new();
    s.push_menu_event("save".to_string());
    s.push_menu_event("quit".to_string());
    assert_eq!(s.poll_menu_event(), Some("save".to_string()));
    assert_eq!(s.poll_menu_event(), Some("quit".to_string()));
    assert_eq!(s.poll_menu_event(), None);
}

#[test]
fn mouse_positions_clamp_to_last_cell() {
    let mut s = state(24, 80);
    s.push_mouse(MouseKind::Press, 1, 100, 500, 2);
    s.push_mouse(MouseKind::Release, 1, 3, 4, 1);
    s.push_scroll(MouseKind::ScrollDown);
    assert_eq!(
        s.poll_mouse(),
        Some(MouseEvent { kind: MouseKind::Press, button: 1, row: 23, col: 79, mods: 0, n_press: 2 })
    );
    assert_eq!(
        s.poll_mouse(),
        Some(MouseEvent { kind: MouseKind::Release, button: 1, row: 3, col: 4, mods: 0, n_press: 1 })
    );
    assert_eq!(
        s.poll_mouse(),
        Some(MouseEvent { kind: MouseKind::ScrollDown, button: 0, row: 0, col: 0, mods: 0, n_press: 1 })
    );
    assert_eq!(s.poll_mouse(), None);
    let mut empty = GtkState::new();
    empty.push_mouse(MouseKind::Motion, 3, 9, 9, 1);
    assert_eq!(empty.poll_mouse().map(|e| (e.row, e.col)), Some((0, 0)));
}

#[test]
fn release_clears_only_the_held_button() {
    let mut s = GtkState::new();
    s.press_button(1);
    s.release_button(3);
    assert_eq!(s.mouse_pressed_button, Some(1));
    s.release_button(1);
    assert_eq!(s.mouse_pressed_button, None);
}

#[test]
fn resize_replaces_grid_only_when_shape_changes() {
    let mut s = state(24, 80);
    s.put_row(0, "keep");
    s.on_resize(24, 80);
    assert_eq!(row_text(&s.grid, 0).trim_end(), "keep");
    assert_eq!(s.poll_resize(), None);
    s.on_resize(30, 100);
    assert_eq!((s.grid.rows, s.grid.cols), (30, 100));
    assert_eq!(row_text(&s.grid, 0).trim_end(), "");
    assert_eq!(s.poll_resize(), Some((30, 100)));
    s.on_resize(1, 2);
    assert_eq!((s.grid.rows, s.grid.cols), (5, 20));
    assert_eq!(s.poll_resize(), Some((5, 20)));
}

#[test]
fn quit_is_recorded() {
    let mut s = GtkState::new();
    s.request_quit();
    assert!(s.quit);
}

#[test]
fn paint_frame_simple_lays_out_all_regions() {
    let mut s = state(6, 10);
    s.put_row(0, "old junk!!");
    s.paint_frame_simple(10, 3, 1, "zero\none\ntwo-long-line!\nthree\nfour", 7, "MODE", "echo");
    assert_eq!(row_text(&s.grid, 0), "one       ");
    assert_eq!(row_text(&s.grid, 1), "two-long-l");
    assert_eq!(row_text(&s.grid, 2), "three     ");
    assert_eq!(row_text(&s.grid, 3), "MODE      ");
    assert_eq!(row_text(&s.grid, 4), "          ");
    assert_eq!(row_text(&s.grid, 5), "echo      ");
    // Byte 7 is the n of "one": buffer row 1, column 1, screen row 0.
    assert_eq!(s.cursor, Some((0, 1)));
}

#[test]
fn paint_frame_simple_cursor_rules() {
    let mut s = state(5, 10);
    s.cursor = Some((4, 4));
    s.paint_frame_simple(10, 3, 0, "ab", 0, "", "");
    assert_eq!(s.cursor, Some((4, 4)));
    s.paint_frame_simple(10, 3, 1, "ab\ncd", 2, "", "");
    assert_eq!(s.cursor, None);
    s.paint_frame_simple(3, 3, 0, "abcdef", 100, "", "");
    assert_eq!(s.cursor, Some((0, 2)));
    // Columns count bytes: 'é' takes two.
    s.paint_frame_simple(10, 3, 0, "éa", 4, "", "");
    assert_eq!(s.cursor, Some((0, 3)));
    assert_eq!(row_text(&s.grid, 0), "éa        ");
}

#[test]
fn paint_frame_simple_echo_only_below_mode_line() {
    let mut s = state(4, 5);
    s.paint_frame_simple(5, 3, 0, "", 1, "M", "E");
    assert_eq!(row_text(&s.grid, 3), "M    ");
    let mut t = state(4, 5);
    t.paint_frame_simple(5, 5, 0, "a\nb\nc\nd\ne", 1, "M", "E");
    assert_eq!(row_text(&t.grid, 3), "d    ");
}

#[test]
fn span_rects_shapes() {
    assert_eq!(span_rects(2, 5, 2, 1, 80), vec![(1, 2, 4, 1)]);
    assert_eq!(span_rects(2, 5, 2, 5, 80), vec![]);
    assert_eq!(span_rects(1, 10, 4, 3, 80), vec![(10, 1, 70, 1), (0, 2, 80, 2), (0, 4, 3, 1)]);
    assert_eq!(span_rects(4, 3, 1, 10, 80), vec![(10, 1, 70, 1), (0, 2, 80, 2), (0, 4, 3, 1)]);
    assert_eq!(span_rects(1, 90, 2, 0, 80), vec![(90, 1, 0, 1)]);
}

#[test]
fn cell_colors_later_spans_win() {
    let spans = vec![(0, 0, 1, 2, 1, 1, 1), (0, 1, 0, 3, 9, 9, 9)];
    let c = cell_colors(&spans, 3, 4);
    assert_eq!(c.len(), 3);
    assert_eq!(c[0], vec![Some((1, 1, 1)), Some((9, 9, 9)), Some((9, 9, 9)), Some((1, 1, 1))]);
    assert_eq!(c[1], vec![Some((1, 1, 1)), Some((1, 1, 1)), None, None]);
    assert_eq!(c[2], vec![None, None, None, None]);
}

#[test]
fn row_paint_text_drops_trailing_spaces() {
    let mut g = CharGrid::blank(2, 6);
    g.put_str(0, 0, "a b");
    assert_eq!(row_paint_text(&g, 0), vec!['a', ' ', 'b']);
    assert_eq!(row_paint_text(&g, 1), Vec::<char>::new());
}

#[test]
fn menu_action_names() {
    assert_eq!(menu_action_name("save"), "menu-save");
    assert_eq!(menu_action_target("save"), "app.menu-save");
    assert!(is_menu_action("menu-save"));
    assert!(!is_menu_action("quit"));
    assert!(!is_menu_action("menu"));
}

#[test]
fn mouse_kind_names() {
    assert_eq!(mouse_kind_name(MouseKind::Press), "press");
    assert_eq!(mouse_kind_name(MouseKind::Release), "release");
    assert_eq!(mouse_kind_name(MouseKind::Motion), "motion");
    assert_eq!(mouse_kind_name(MouseKind::ScrollUp), "scroll-up");
    assert_eq!(mouse_kind_name(MouseKind::ScrollDown), "scroll-down");
}
