//! The state behind the `nelisp-gtk-*` primitives: the cell grid the window
//! paints, the overlays drawn over it, and the queues of input events that
//! the Lisp main loop drains.

use std::collections::VecDeque;

use vstd::prelude::*;

use crate::frame::spaces;
use crate::grid::{uniform, write_str, CharGrid};
use crate::text::{chars_of, decimal, push_chars, push_str};

verus! {

/// A key press: X keysym, modifier bits and Unicode code point (0 when the
/// key has none).
#[derive(Clone, Copy, Debug, PartialEq, Eq, Structural)]
pub struct KeyEvent {
    pub keysym: u32,
    pub mods: u32,
    pub unicode: u32,
}

#[derive(Clone, Copy, Debug, PartialEq, Eq, Structural)]
pub enum MouseKind {
    Press,
    Release,
    /// Pointer motion while at least one button is held (a drag); motion
    /// without a held button is never queued.
    Motion,
    ScrollUp,
    ScrollDown,
}

/// A mouse event in cell coordinates.
#[derive(Clone, Copy, Debug, PartialEq, Eq, Structural)]
pub struct MouseEvent {
    pub kind: MouseKind,
    /// Button number (1/2/3 = left/middle/right) for press, release and
    /// motion; 0 for scrolling.
    pub button: u32,
    pub row: usize,
    pub col: usize,
    pub mods: u32,
    /// Click count of a press (1 single, 2 double, ...); 1 for other kinds.
    pub n_press: u32,
}

/// A highlight overlay: start row and column, end row and column (end
/// cell excluded), then red, green, blue and alpha as bytes.
pub type Highlight = (usize, usize, usize, usize, u8, u8, u8, u8);

/// A foreground colour span: start row and column, end row and column (end
/// cell excluded), then red, green and blue as bytes.
pub type ColorSpan = (usize, usize, usize, usize, u8, u8, u8);

pub const DEFAULT_FONT: &'static str = "Monospace 12";

/// The smallest grid a resize produces, in columns and in rows.
pub const MIN_COLS: usize = 20;

pub const MIN_ROWS: usize = 5;

/// Everything the primitives read and write, apart from the window-system
/// handles and the pixel size of a cell.
pub struct GtkState {
    pub initialized: bool,
    pub grid: CharGrid,
    /// Font description, such as `Monospace 12`.
    pub font: String,
    pub cursor: Option<(usize, usize)>,
    /// Highlighted region: start row, start column, end row, end column
    /// (end cell excluded).
    pub region: Option<(usize, usize, usize, usize)>,
    /// Overlays painted in order, later ones over earlier ones.
    pub highlights: Vec<Highlight>,
    /// Per-character foreground colours; later spans win.
    pub color_spans: Vec<ColorSpan>,
    pub mode_line_row: Option<usize>,
    pub key_queue: VecDeque<KeyEvent>,
    pub menu_event_queue: VecDeque<String>,
    pub mouse_event_queue: VecDeque<MouseEvent>,
    /// The button pressed and not yet released, if any.
    pub mouse_pressed_button: Option<u32>,
    /// Grid sizes (rows, columns) reported by resizes, oldest first.
    pub resize_queue: VecDeque<(usize, usize)>,
    pub quit: bool,
}

impl GtkState {
    /// The grid's backing buffer matches its shape.
    pub open spec fn wf(&self) -> bool {
        self.grid.wf()
    }

    /// A state with an empty grid, the default font and nothing queued.
    pub fn new() -> (s: Self)
        ensures
            s.wf(),
            !s.initialized,
            s.grid.rows == 0,
            s.grid.cols == 0,
            s.font@ == DEFAULT_FONT@,
            s.cursor is None,
            s.region is None,
            s.highlights@.len() == 0,
            s.color_spans@.len() == 0,
            s.mode_line_row is None,
            s.key_queue@.len() == 0,
            s.menu_event_queue@.len() == 0,
            s.mouse_event_queue@.len() == 0,
            s.mouse_pressed_button is None,
            s.resize_queue@.len() == 0,
            !s.quit,
    {
        GtkState {
            initialized: false,
            grid: CharGrid::blank(0, 0),
            font: DEFAULT_FONT.to_owned(),
            cursor: None,
            region: None,
            highlights: Vec::new(),
            color_spans: Vec::new(),
            mode_line_row: None,
            key_queue: VecDeque::new(),
            menu_event_queue: VecDeque::new(),
            mouse_event_queue: VecDeque::new(),
            mouse_pressed_button: None,
            resize_queue: VecDeque::new(),
            quit: false,
        }
    }

    /// Replaces the grid with a blank `rows` x `cols` one.
    pub fn init_grid(&mut self, rows: usize, cols: usize)
        requires
            rows * cols <= usize::MAX,
        ensures
            final(self).wf(),
            final(self).grid.rows == rows,
            final(self).grid.cols == cols,
            final(self).grid@ == uniform(rows as nat, cols as nat, ' '),
            *final(self) == (GtkState { grid: final(self).grid, ..*old(self) }),
    {
        self.grid = CharGrid::blank(rows, cols);
    }

    /// Clears row `row` of the grid and writes `s` from its first column;
    /// a shorter string leaves nothing of the row's earlier text behind.
    pub fn put_row(&mut self, row: usize, s: &str)
        requires
            old(self).wf(),
        ensures
            final(self).wf(),
            final(self).grid.rows == old(self).grid.rows,
            final(self).grid.cols == old(self).grid.cols,
            final(self).grid@ == write_str(
                write_str(old(self).grid@, row as int, 0, spaces(old(self).grid.cols as nat)),
                row as int,
                0,
                s@,
            ),
            *final(self) == (GtkState { grid: final(self).grid, ..*old(self) }),
    {
        let blank = crate::frame::space_vec(self.grid.cols);
        self.grid.put_chars(row, 0, &blank);
        self.grid.put_str(row, 0, s);
    }

    /// Writes `s` into row `row` from column `col` on without touching the
    /// rest of the row; a position outside the grid changes nothing.
    pub fn put_substr(&mut self, row: usize, col: usize, s: &str)
        requires
            old(self).wf(),
        ensures
            final(self).wf(),
            final(self).grid.rows == old(self).grid.rows,
            final(self).grid.cols == old(self).grid.cols,
            final(self).grid@ == write_str(old(self).grid@, row as int, col as int, s@),
            *final(self) == (GtkState { grid: final(self).grid, ..*old(self) }),
    {
        if row < self.grid.rows && col < self.grid.cols {
            self.grid.put_str(row, col, s);
        } else {
            assert(self.grid@ =~~= write_str(self.grid@, row as int, col as int, s@));
        }
    }

    /// Sets every cell of the grid to a space.
    pub fn clear_grid(&mut self)
        requires
            old(self).wf(),
        ensures
            final(self).wf(),
            final(self).grid.rows == old(self).grid.rows,
            final(self).grid.cols == old(self).grid.cols,
            final(self).grid@ == uniform(old(self).grid.rows as nat, old(self).grid.cols as nat, ' '),
            *final(self) == (GtkState { grid: final(self).grid, ..*old(self) }),
    {
        self.grid.clear_all();
    }
}

} // verus!

verus! {

/// An overlay entry is usable: exactly `n` fields, all non-negative
/// integers (`None` stands for a field that is not an integer).
pub open spec fn entry_ok(e: Seq<Option<i64>>, n: nat) -> bool {
    e.len() == n && forall|i: int| 0 <= i < n ==> (#[trigger] e[i] matches Some(v) && v >= 0)
}

/// The integer in field `i` of an entry.
pub open spec fn field(e: Seq<Option<i64>>, i: int) -> i64 {
    e[i]->0
}

/// A colour field as a byte: values above 255 count as 255.
pub open spec fn color_byte(v: i64) -> u8 {
    if v > 255 {
        255
    } else {
        v as u8
    }
}

/// The highlight an 8-field entry describes.
pub open spec fn highlight_of(e: Seq<Option<i64>>) -> Highlight {
    (
        field(e, 0) as usize,
        field(e, 1) as usize,
        field(e, 2) as usize,
        field(e, 3) as usize,
        color_byte(field(e, 4)),
        color_byte(field(e, 5)),
        color_byte(field(e, 6)),
        color_byte(field(e, 7)),
    )
}

/// The colour span a 7-field entry describes.
pub open spec fn color_span_of(e: Seq<Option<i64>>) -> ColorSpan {
    (
        field(e, 0) as usize,
        field(e, 1) as usize,
        field(e, 2) as usize,
        field(e, 3) as usize,
        color_byte(field(e, 4)),
        color_byte(field(e, 5)),
        color_byte(field(e, 6)),
    )
}

/// The highlights of the usable entries, in order; malformed entries are
/// skipped.
pub open spec fn highlights_spec(entries: Seq<Seq<Option<i64>>>) -> Seq<Highlight>
    decreases entries.len(),
{
    if entries.len() == 0 {
        seq![]
    } else {
        let p = highlights_spec(entries.drop_last());
        if entry_ok(entries.last(), 8) {
            p.push(highlight_of(entries.last()))
        } else {
            p
        }
    }
}

/// The colour spans of the usable entries, in order; malformed entries are
/// skipped.
pub open spec fn color_spans_spec(entries: Seq<Seq<Option<i64>>>) -> Seq<ColorSpan>
    decreases entries.len(),
{
    if entries.len() == 0 {
        seq![]
    } else {
        let p = color_spans_spec(entries.drop_last());
        if entry_ok(entries.last(), 7) {
            p.push(color_span_of(entries.last()))
        } else {
            p
        }
    }
}

/// The entries as sequences of fields.
pub open spec fn entry_views(entries: Seq<Vec<Option<i64>>>) -> Seq<Seq<Option<i64>>> {
    entries.map_values(|e: Vec<Option<i64>>| e@)
}

fn entry_usable(e: &Vec<Option<i64>>, n: usize) -> (b: bool)
    ensures
        b == entry_ok(e@, n as nat),
{
    if e.len() != n {
        return false;
    }
    let mut i: usize = 0;
    while i < n
        invariant
            e.len() == n,
            i <= n,
            forall|k: int| 0 <= k < i ==> (#[trigger] e@[k] matches Some(v) && v >= 0),
        decreases n - i,
    {
        match e[i] {
            Some(v) => {
                if v < 0 {
                    return false;
                }
            },
            None => {
                return false;
            },
        }
        i = i + 1;
    }
    true
}

fn to_byte(v: i64) -> (b: u8)
    requires
        v >= 0,
    ensures
        b == color_byte(v),
{
    if v > 255 {
        255
    } else {
        v as u8
    }
}

fn field_at(e: &Vec<Option<i64>>, i: usize) -> (v: i64)
    requires
        i < e@.len(),
        e@[i as int] is Some,
    ensures
        v == field(e@, i as int),
{
    match e[i] {
        Some(v) => v,
        None => 0,
    }
}

/// Reads highlight entries of eight integers `(SR SC ER EC R G B A)`,
/// colours as bytes (values above 255 count as 255); entries of another
/// length, or with a negative or non-integer field, are skipped.
pub fn parse_highlights(entries: &Vec<Vec<Option<i64>>>) -> (out: Vec<Highlight>)
    ensures
        out@ == highlights_spec(entry_views(entries@)),
{
    let ghost views = entry_views(entries@);
    let mut out: Vec<Highlight> = Vec::new();
    let mut i: usize = 0;
    while i < entries.len()
        invariant
            views == entry_views(entries@),
            i <= entries.len(),
            out@ == highlights_spec(views.take(i as int)),
        decreases entries.len() - i,
    {
        let e = &entries[i];
        assert(views.take(i + 1).drop_last() =~= views.take(i as int));
        assert(views.take(i + 1).last() == e@);
        if entry_usable(e, 8) {
            let h: Highlight = (
                field_at(e, 0) as usize,
                field_at(e, 1) as usize,
                field_at(e, 2) as usize,
                field_at(e, 3) as usize,
                to_byte(field_at(e, 4)),
                to_byte(field_at(e, 5)),
                to_byte(field_at(e, 6)),
                to_byte(field_at(e, 7)),
            );
            out.push(h);
        }
        i = i + 1;
    }
    assert(views.take(entries.len() as int) =~= views);
    out
}

/// Reads colour-span entries of seven integers `(SR SC ER EC R G B)`,
/// colours as bytes (values above 255 count as 255); entries of another
/// length, or with a negative or non-integer field, are skipped.
pub fn parse_color_spans(entries: &Vec<Vec<Option<i64>>>) -> (out: Vec<ColorSpan>)
    ensures
        out@ == color_spans_spec(entry_views(entries@)),
{
    let ghost views = entry_views(entries@);
    let mut out: Vec<ColorSpan> = Vec::new();
    let mut i: usize = 0;
    while i < entries.len()
        invariant
            views == entry_views(entries@),
            i <= entries.len(),
            out@ == color_spans_spec(views.take(i as int)),
        decreases entries.len() - i,
    {
        let e = &entries[i];
        assert(views.take(i + 1).drop_last() =~= views.take(i as int));
        assert(views.take(i + 1).last() == e@);
        if entry_usable(e, 7) {
            let s: ColorSpan = (
                field_at(e, 0) as usize,
                field_at(e, 1) as usize,
                field_at(e, 2) as usize,
                field_at(e, 3) as usize,
                to_byte(field_at(e, 4)),
                to_byte(field_at(e, 5)),
                to_byte(field_at(e, 6)),
            );
            out.push(s);
        }
        i = i + 1;
    }
    assert(views.take(entries.len() as int) =~= views);
    out
}

/// The region for the four integers sent by the Lisp side: none for the
/// all-zero "no region" sentinel or any negative field, else the span.
pub open spec fn region_spec(sr: i64, sc: i64, er: i64, ec: i64) -> Option<(usize, usize, usize, usize)> {
    if sr == 0 && sc == 0 && er == 0 && ec == 0 {
        None
    } else if sr < 0 || sc < 0 || er < 0 || ec < 0 {
        None
    } else {
        Some((sr as usize, sc as usize, er as usize, ec as usize))
    }
}

/// The font description for a point size: `Monospace SIZE` for sizes in
/// 4 ..= 200, none otherwise.
pub open spec fn font_for_size_spec(size: i64) -> Option<Seq<char>> {
    if size < 4 || size > 200 {
        None
    } else {
        Some("Monospace "@ + decimal(size as nat))
    }
}

/// The font description for point size `size`, or `None` when the size is
/// outside 4 ..= 200.
pub fn font_for_size(size: i64) -> (f: Option<String>)
    ensures
        match (f, font_for_size_spec(size)) {
            (Some(s), Some(t)) => s@ == t,
            (None, None) => true,
            _ => false,
        },
{
    if size < 4 || size > 200 {
        None
    } else {
        let mut s = "Monospace ".to_owned();
        let digits = crate::text::decimal_chars(size as u64);
        push_chars(&mut s, &digits);
        Some(s)
    }
}

/// The event a press, release or drag at cell (`row_raw`, `col_raw`)
/// queues: the position clamped to the last row and column of a `rows` x
/// `cols` grid.
pub open spec fn clamped_event(
    kind: MouseKind,
    button: u32,
    row_raw: usize,
    col_raw: usize,
    n_press: u32,
    rows: usize,
    cols: usize,
) -> MouseEvent {
    let last_col: usize = if cols >= 1 { (cols - 1) as usize } else { 0 };
    let last_row: usize = if rows >= 1 { (rows - 1) as usize } else { 0 };
    MouseEvent {
        kind,
        button,
        row: if row_raw < last_row { row_raw } else { last_row },
        col: if col_raw < last_col { col_raw } else { last_col },
        mods: 0,
        n_press,
    }
}

impl GtkState {
    /// Sets the highlighted region from the four integers sent by the Lisp
    /// side: all zeros (or any negative) clears it.
    pub fn set_region(&mut self, sr: i64, sc: i64, er: i64, ec: i64)
        ensures
            *final(self) == (GtkState { region: region_spec(sr, sc, er, ec), ..*old(self) }),
    {
        self.region = if sr == 0 && sc == 0 && er == 0 && ec == 0 {
            None
        } else if sr < 0 || sc < 0 || er < 0 || ec < 0 {
            None
        } else {
            Some((sr as usize, sc as usize, er as usize, ec as usize))
        };
    }

    /// Replaces the highlight overlays with the usable `entries`.
    pub fn set_highlights(&mut self, entries: &Vec<Vec<Option<i64>>>)
        ensures
            final(self).highlights@ == highlights_spec(entry_views(entries@)),
            *final(self) == (GtkState { highlights: final(self).highlights, ..*old(self) }),
    {
        self.highlights = parse_highlights(entries);
    }

    /// Replaces the colour spans with the usable `entries`.
    pub fn set_color_spans(&mut self, entries: &Vec<Vec<Option<i64>>>)
        ensures
            final(self).color_spans@ == color_spans_spec(entry_views(entries@)),
            *final(self) == (GtkState { color_spans: final(self).color_spans, ..*old(self) }),
    {
        self.color_spans = parse_color_spans(entries);
    }

    /// Queues a key press.
    pub fn push_key(&mut self, ev: KeyEvent)
        ensures
            final(self).key_queue@ == old(self).key_queue@.push(ev),
            *final(self) == (GtkState { key_queue: final(self).key_queue, ..*old(self) }),
    {
        self.key_queue.push_back(ev);
    }

    /// Takes the oldest queued key press, if any.
    pub fn poll_key(&mut self) -> (ev: Option<KeyEvent>)
        ensures
            old(self).key_queue@.len() == 0 ==> ev is None && final(self).key_queue@ == old(self).key_queue@,
            old(self).key_queue@.len() > 0 ==> ev == Some(old(self).key_queue@[0])
                && final(self).key_queue@ == old(self).key_queue@.drop_first(),
            *final(self) == (GtkState { key_queue: final(self).key_queue, ..*old(self) }),
    {
        self.key_queue.pop_front()
    }

    /// Queues the action name of an activated menu item.
    pub fn push_menu_event(&mut self, name: String)
        ensures
            final(self).menu_event_queue@ == old(self).menu_event_queue@.push(name),
            *final(self) == (GtkState { menu_event_queue: final(self).menu_event_queue, ..*old(self) }),
    {
        self.menu_event_queue.push_back(name);
    }

    /// Takes the oldest queued menu action name, if any.
    pub fn poll_menu_event(&mut self) -> (name: Option<String>)
        ensures
            old(self).menu_event_queue@.len() == 0 ==> name is None && final(self).menu_event_queue@
                == old(self).menu_event_queue@,
            old(self).menu_event_queue@.len() > 0 ==> name == Some(old(self).menu_event_queue@[0])
                && final(self).menu_event_queue@ == old(self).menu_event_queue@.drop_first(),
            *final(self) == (GtkState { menu_event_queue: final(self).menu_event_queue, ..*old(self) }),
    {
        self.menu_event_queue.pop_front()
    }

    /// Records that `button` went down (the start of a possible drag).
    pub fn press_button(&mut self, button: u32)
        ensures
            *final(self) == (GtkState { mouse_pressed_button: Some(button), ..*old(self) }),
    {
        self.mouse_pressed_button = Some(button);
    }

    /// Records that `button` went up; the drag state is cleared only when
    /// it is the button that was held.
    pub fn release_button(&mut self, button: u32)
        ensures
            *final(self) == (GtkState {
                mouse_pressed_button: if old(self).mouse_pressed_button == Some(button) {
                    None
                } else {
                    old(self).mouse_pressed_button
                },
                ..*old(self)
            }),
    {
        if self.mouse_pressed_button == Some(button) {
            self.mouse_pressed_button = None;
        }
    }

    /// Queues a press, release or drag at cell (`row_raw`, `col_raw`),
    /// clamped to the last row and column of the grid.
    pub fn push_mouse(&mut self, kind: MouseKind, button: u32, row_raw: usize, col_raw: usize, n_press: u32)
        ensures
            final(self).mouse_event_queue@ == old(self).mouse_event_queue@.push(
                clamped_event(kind, button, row_raw, col_raw, n_press, old(self).grid.rows, old(self).grid.cols),
            ),
            *final(self) == (GtkState { mouse_event_queue: final(self).mouse_event_queue, ..*old(self) }),
    {
        let last_col: usize = if self.grid.cols >= 1 { self.grid.cols - 1 } else { 0 };
        let last_row: usize = if self.grid.rows >= 1 { self.grid.rows - 1 } else { 0 };
        let ev = MouseEvent {
            kind,
            button,
            row: if row_raw < last_row { row_raw } else { last_row },
            col: if col_raw < last_col { col_raw } else { last_col },
            mods: 0,
            n_press,
        };
        self.mouse_event_queue.push_back(ev);
    }

    /// Queues a wheel step (`kind` is `ScrollUp` or `ScrollDown`), which
    /// carries no position or button.
    pub fn push_scroll(&mut self, kind: MouseKind)
        ensures
            final(self).mouse_event_queue@ == old(self).mouse_event_queue@.push(
                MouseEvent { kind, button: 0, row: 0, col: 0, mods: 0, n_press: 1 },
            ),
            *final(self) == (GtkState { mouse_event_queue: final(self).mouse_event_queue, ..*old(self) }),
    {
        self.mouse_event_queue.push_back(MouseEvent { kind, button: 0, row: 0, col: 0, mods: 0, n_press: 1 });
    }

    /// Takes the oldest queued mouse event, if any.
    pub fn poll_mouse(&mut self) -> (ev: Option<MouseEvent>)
        ensures
            old(self).mouse_event_queue@.len() == 0 ==> ev is None && final(self).mouse_event_queue@
                == old(self).mouse_event_queue@,
            old(self).mouse_event_queue@.len() > 0 ==> ev == Some(old(self).mouse_event_queue@[0])
                && final(self).mouse_event_queue@ == old(self).mouse_event_queue@.drop_first(),
            *final(self) == (GtkState { mouse_event_queue: final(self).mouse_event_queue, ..*old(self) }),
    {
        self.mouse_event_queue.pop_front()
    }

    /// Takes the oldest reported grid size (rows, columns), if any.
    pub fn poll_resize(&mut self) -> (sz: Option<(usize, usize)>)
        ensures
            old(self).resize_queue@.len() == 0 ==> sz is None && final(self).resize_queue@
                == old(self).resize_queue@,
            old(self).resize_queue@.len() > 0 ==> sz == Some(old(self).resize_queue@[0])
                && final(self).resize_queue@ == old(self).resize_queue@.drop_first(),
            *final(self) == (GtkState { resize_queue: final(self).resize_queue, ..*old(self) }),
    {
        self.resize_queue.pop_front()
    }

    /// Records that the window was asked to close.
    pub fn request_quit(&mut self)
        ensures
            *final(self) == (GtkState { quit: true, ..*old(self) }),
    {
        self.quit = true;
    }

    /// Adapts the grid to a drawing area that now fits `rows_fit` x
    /// `cols_fit` cells (at least `MIN_ROWS` x `MIN_COLS`): when that
    /// differs from the grid's shape, the grid is replaced by a blank one
    /// of the new shape and the new size is queued for the Lisp side.
    pub fn on_resize(&mut self, rows_fit: usize, cols_fit: usize)
        requires
            old(self).wf(),
            (if rows_fit > MIN_ROWS { rows_fit } else { MIN_ROWS }) * (if cols_fit > MIN_COLS {
                cols_fit
            } else {
                MIN_COLS
            }) <= usize::MAX,
        ensures
            final(self).wf(),
            ({
                let rows = if rows_fit > MIN_ROWS { rows_fit } else { MIN_ROWS };
                let cols = if cols_fit > MIN_COLS { cols_fit } else { MIN_COLS };
                if rows != old(self).grid.rows || cols != old(self).grid.cols {
                    &&& final(self).grid.rows == rows
                    &&& final(self).grid.cols == cols
                    &&& final(self).grid@ == uniform(rows as nat, cols as nat, ' ')
                    &&& final(self).resize_queue@ == old(self).resize_queue@.push((rows, cols))
                    &&& *final(self) == (GtkState {
                        grid: final(self).grid,
                        resize_queue: final(self).resize_queue,
                        ..*old(self)
                    })
                } else {
                    *final(self) == *old(self)
                }
            }),
    {
        let cols: usize = if cols_fit > MIN_COLS { cols_fit } else { MIN_COLS };
        let rows: usize = if rows_fit > MIN_ROWS { rows_fit } else { MIN_ROWS };
        if cols != self.grid.cols || rows != self.grid.rows {
            self.grid = CharGrid::blank(rows, cols);
            self.resize_queue.push_back((rows, cols));
        }
    }
}

} // verus!

verus! {

/// `s` cut at every newline (the newlines dropped); the text after the
/// last newline, possibly empty, is the last piece.
pub open spec fn newline_split(s: Seq<char>) -> Seq<Seq<char>>
    decreases s.len(),
{
    if s.len() == 0 {
        seq![seq![]]
    } else {
        let p = newline_split(s.drop_last());
        if s.last() == '\n' {
            p.push(seq![])
        } else {
            p.update(p.len() - 1, p.last().push(s.last()))
        }
    }
}

proof fn lemma_newline_split_nonempty(s: Seq<char>)
    ensures
        newline_split(s).len() >= 1,
    decreases s.len(),
{
    if s.len() > 0 {
        lemma_newline_split_nonempty(s.drop_last());
    }
}

/// `g` with text lines `lines[scroll ..]` shown in its first `height`
/// rows, each cut to `width` columns.
pub open spec fn text_area(
    g: Seq<Seq<char>>,
    lines: Seq<Seq<char>>,
    scroll: int,
    height: int,
    width: int,
) -> Seq<Seq<char>> {
    Seq::new(
        g.len(),
        |r: int|
            Seq::new(
                g[r].len(),
                |c: int|
                    if 0 <= r < height && scroll + r < lines.len() && 0 <= c < width && c
                        < lines[scroll + r].len() {
                        lines[scroll + r][c]
                    } else {
                        g[r][c]
                    },
            ),
    )
}

/// The grid a fast single-window repaint produces on a `rows` x `gcols`
/// grid: the lines of `content` from line `scroll` on in rows
/// `0 .. buf_end`, the mode line in row `buf_end`, and the echo text in the
/// last row when that row lies below the mode line; every text cut to
/// `cols` columns and everything else blank.
pub open spec fn painted_frame(
    rows: nat,
    gcols: nat,
    cols: nat,
    buf_end: nat,
    scroll: nat,
    content: Seq<char>,
    mode_line: Seq<char>,
    echo: Seq<char>,
) -> Seq<Seq<char>> {
    let body = text_area(
        uniform(rows, gcols, ' '),
        newline_split(content),
        scroll as int,
        buf_end as int,
        cols as int,
    );
    let with_mode = write_str(body, buf_end as int, 0, crate::frame::prefix(mode_line, cols));
    let echo_row: int = if rows >= 1 { rows - 1 } else { 0 };
    if echo_row > buf_end {
        write_str(with_mode, echo_row, 0, crate::frame::prefix(echo, cols))
    } else {
        with_mode
    }
}

/// The (row, column) reached after walking the bytes `b` from (0, 0): a
/// newline byte starts the next row, any other byte moves one column.
pub open spec fn byte_row_col(b: Seq<u8>) -> (nat, nat)
    decreases b.len(),
{
    if b.len() == 0 {
        (0, 0)
    } else {
        let (r, c) = byte_row_col(b.drop_last());
        if b.last() == 10u8 {
            (r + 1, 0)
        } else {
            (r, c + 1)
        }
    }
}

/// The cursor after a fast repaint: for a 1-based byte position `point`
/// (at least 1) in `content`, the screen cell of that position once the
/// first `scroll` lines are scrolled away (columns counted in bytes and
/// held to the last of `cols`), or none when that row is off screen; a
/// `point` below 1 keeps the previous cursor.
pub open spec fn painted_cursor(
    previous: Option<(usize, usize)>,
    content: Seq<char>,
    point: i64,
    scroll: nat,
    buf_end: nat,
    cols: nat,
) -> Option<(usize, usize)> {
    if point < 1 {
        previous
    } else {
        let bytes = vstd::utf8::encode_utf8(content);
        let pu: usize = point as usize;
        let t: nat = if pu >= 1 { (pu - 1) as nat } else { 0 };
        let target: nat = if t < bytes.len() { t } else { bytes.len() };
        let rc = byte_row_col(bytes.take(target as int));
        let last_col: nat = if cols >= 1 { (cols - 1) as nat } else { 0 };
        if rc.0 >= scroll && rc.0 - scroll < buf_end {
            Some(((rc.0 - scroll) as usize, (if rc.1 < last_col { rc.1 } else { last_col }) as usize))
        } else {
            None
        }
    }
}

impl GtkState {
    /// Repaints the whole grid in one step: the lines of `content` from
    /// line `scroll` on fill rows `0 .. buf_end`, `mode_line` goes to row
    /// `buf_end` and `echo` to the last row (when it lies below), all cut to
    /// `cols` columns; the cursor moves to the 1-based byte position
    /// `point` of `content` (kept as it was when `point` is below 1).
    pub fn paint_frame_simple(
        &mut self,
        cols: usize,
        buf_end: usize,
        scroll: usize,
        content: &str,
        point: i64,
        mode_line: &str,
        echo: &str,
    )
        requires
            old(self).wf(),
        ensures
            final(self).wf(),
            final(self).grid.rows == old(self).grid.rows,
            final(self).grid.cols == old(self).grid.cols,
            final(self).grid@ == painted_frame(
                old(self).grid.rows as nat,
                old(self).grid.cols as nat,
                cols as nat,
                buf_end as nat,
                scroll as nat,
                content@,
                mode_line@,
                echo@,
            ),
            final(self).cursor == painted_cursor(
                old(self).cursor,
                content@,
                point,
                scroll as nat,
                buf_end as nat,
                cols as nat,
            ),
            *final(self) == (GtkState { grid: final(self).grid, cursor: final(self).cursor, ..*old(self) }),
    {
        self.grid.clear_all();
        let ghost blank = self.grid@;
        let chars = chars_of(content);
        let mut line_idx: usize = 0;
        let mut col: usize = 0;
        let mut i: usize = 0;
        proof {
            assert(chars@.take(0) =~= Seq::<char>::empty());
            assert(newline_split(chars@.take(0)) =~~= seq![Seq::<char>::empty()]);
            assert(blank =~~= text_area(
                blank,
                newline_split(chars@.take(0)),
                scroll as int,
                buf_end as int,
                cols as int,
            ));
        }
        while i < chars.len()
            invariant
                self.wf(),
                self.grid.rows == old(self).grid.rows,
                self.grid.cols == old(self).grid.cols,
                *self == (GtkState { grid: self.grid, ..*old(self) }),
                blank == uniform(old(self).grid.rows as nat, old(self).grid.cols as nat, ' '),
                chars@ == content@,
                i <= chars.len(),
                newline_split(chars@.take(i as int)).len() == line_idx + 1,
                newline_split(chars@.take(i as int)).last().len() == col,
                line_idx <= i,
                col <= i,
                self.grid@ == text_area(
                    blank,
                    newline_split(chars@.take(i as int)),
                    scroll as int,
                    buf_end as int,
                    cols as int,
                ),
            decreases chars.len() - i,
        {
            let ch = chars[i];
            let ghost p = newline_split(chars@.take(i as int));
            assert(chars@.take(i + 1).drop_last() =~= chars@.take(i as int));
            assert(chars@.take(i + 1).last() == ch);
            proof {
                lemma_newline_split_nonempty(chars@.take(i as int));
            }
            if ch == '\n' {
                assert(newline_split(chars@.take(i + 1)) == p.push(seq![]));
                assert(self.grid@ =~~= text_area(
                    blank,
                    newline_split(chars@.take(i + 1)),
                    scroll as int,
                    buf_end as int,
                    cols as int,
                ));
                line_idx = line_idx + 1;
                col = 0;
            } else {
                let ghost q = p.update(p.len() - 1, p.last().push(ch));
                assert(newline_split(chars@.take(i + 1)) == q);
                if line_idx >= scroll && line_idx - scroll < buf_end && col < cols {
                    self.grid.put(line_idx - scroll, col, ch);
                } 
                assert(self.grid@ =~~= text_area(blank, q, scroll as int, buf_end as int, cols as int));
                col = col + 1;
            }
            i = i + 1;
        }
        assert(chars@.take(chars.len() as int) =~= chars@);
        let ghost body = self.grid@;

        // The mode line.
        if buf_end < self.grid.rows {
            let ml = chars_of(mode_line);
            let mut shown: Vec<char> = Vec::new();
            let mut k: usize = 0;
            while k < ml.len() && k < cols
                invariant
                    k <= ml.len(),
                    k <= cols,
                    shown@ =~= ml@.take(k as int),
                decreases ml.len() - k,
            {
                shown.push(ml[k]);
                k = k + 1;
            }
            assert(shown@ =~= crate::frame::prefix(mode_line@, cols as nat));
            self.grid.put_chars(buf_end, 0, &shown);
        } else {
            assert(self.grid@ =~~= write_str(
                body,
                buf_end as int,
                0,
                crate::frame::prefix(mode_line@, cols as nat),
            ));
        }

        // The echo area.
        let echo_row: usize = if self.grid.rows >= 1 { self.grid.rows - 1 } else { 0 };
        if echo_row > buf_end {
            let ec = chars_of(echo);
            let mut shown: Vec<char> = Vec::new();
            let mut k: usize = 0;
            while k < ec.len() && k < cols
                invariant
                    k <= ec.len(),
                    k <= cols,
                    shown@ =~= ec@.take(k as int),
                decreases ec.len() - k,
            {
                shown.push(ec[k]);
                k = k + 1;
            }
            assert(shown@ =~= crate::frame::prefix(echo@, cols as nat));
            self.grid.put_chars(echo_row, 0, &shown);
        }

        // The cursor.
        if point >= 1 {
            let bytes = content.as_bytes();
            let pu: usize = #[verifier::truncate] (point as usize);
            let t: usize = if pu >= 1 { pu - 1 } else { 0 };
            let target: usize = if t < bytes.len() { t } else { bytes.len() };
            let mut buf_row: usize = 0;
            let mut bcol: usize = 0;
            let mut j: usize = 0;
            while j < target
                invariant
                    target <= bytes@.len(),
                    j <= target,
                    buf_row <= j,
                    bcol <= j,
                    (buf_row as nat, bcol as nat) == byte_row_col(bytes@.take(j as int)),
                decreases target - j,
            {
                assert(bytes@.take(j + 1).drop_last() =~= bytes@.take(j as int));
                if bytes[j] == 10u8 {
                    buf_row = buf_row + 1;
                    bcol = 0;
                } else {
                    bcol = bcol + 1;
                }
                j = j + 1;
            }
            let last_col: usize = if cols >= 1 { cols - 1 } else { 0 };
            if buf_row >= scroll && buf_row - scroll < buf_end {
                self.cursor = Some((buf_row - scroll, if bcol < last_col { bcol } else { last_col }));
            } else {
                self.cursor = None;
            }
        }
    }
}

} // verus!

verus! {

/// A span with its ends in reading order (only used when they lie on
/// different rows).
pub open spec fn ordered_ends(sr: usize, sc: usize, er: usize, ec: usize) -> (usize, usize, usize, usize) {
    if sr < er {
        (sr, sc, er, ec)
    } else {
        (er, ec, sr, sc)
    }
}

/// The cell rectangles `(x, y, width, height)` that paint the span from
/// (`sr`, `sc`) to (`er`, `ec`) on a grid `cols` wide: on one row, the
/// cells between the two columns (nothing when they coincide); across
/// rows, the rest of the first row, the full rows between, and the start of
/// the last row (when it has any cells).
pub open spec fn span_rects_spec(sr: usize, sc: usize, er: usize, ec: usize, cols: usize) -> Seq<
    (usize, usize, usize, usize),
> {
    if sr == er {
        let lo = if sc < ec { sc } else { ec };
        let hi = if sc < ec { ec } else { sc };
        if hi > lo {
            seq![(lo, sr, (hi - lo) as usize, 1usize)]
        } else {
            seq![]
        }
    } else {
        let (sr2, sc2, er2, ec2) = ordered_ends(sr, sc, er, ec);
        let first = seq![(sc2, sr2, (if cols > sc2 { cols - sc2 } else { 0 }) as usize, 1usize)];
        let middle = if er2 > sr2 + 1 {
            seq![(0usize, (sr2 + 1) as usize, cols, (er2 - sr2 - 1) as usize)]
        } else {
            seq![]
        };
        let last = if ec2 > 0 {
            seq![(0usize, er2, ec2, 1usize)]
        } else {
            seq![]
        };
        first + middle + last
    }
}

/// The cell rectangles `(x, y, width, height)` that cover a region or
/// highlight span on a grid `cols` wide.
pub fn span_rects(sr: usize, sc: usize, er: usize, ec: usize, cols: usize) -> (v: Vec<
    (usize, usize, usize, usize),
>)
    ensures
        v@ == span_rects_spec(sr, sc, er, ec, cols),
{
    let mut v: Vec<(usize, usize, usize, usize)> = Vec::new();
    if sr == er {
        let lo = if sc < ec { sc } else { ec };
        let hi = if sc < ec { ec } else { sc };
        if hi > lo {
            v.push((lo, sr, hi - lo, 1));
        }
        assert(v@ =~= span_rects_spec(sr, sc, er, ec, cols));
    } else {
        let (sr2, sc2, er2, ec2) = if sr < er { (sr, sc, er, ec) } else { (er, ec, sr, sc) };
        v.push((sc2, sr2, if cols > sc2 { cols - sc2 } else { 0 }, 1));
        if er2 > sr2 + 1 {
            v.push((0, sr2 + 1, cols, er2 - sr2 - 1));
        }
        if ec2 > 0 {
            v.push((0, er2, ec2, 1));
        }
        assert(v@ =~= span_rects_spec(sr, sc, er, ec, cols));
    }
    v
}

/// The columns `[from, to)` of row `r` that colour span `s` covers on a
/// grid `cols` wide (empty when `to <= from`).
pub open spec fn span_cols(s: ColorSpan, r: usize, cols: usize) -> (usize, usize) {
    let (sr, sc, er, ec) = (s.0, s.1, s.2, s.3);
    if sr == er {
        let lo = if sc < ec { sc } else { ec };
        let hi = if sc < ec { ec } else { sc };
        if r == sr {
            (lo, if hi < cols { hi } else { cols })
        } else {
            (0, 0)
        }
    } else {
        let (sr2, sc2, er2, ec2) = ordered_ends(sr, sc, er, ec);
        if r == sr2 {
            (sc2, cols)
        } else if sr2 < r && r < er2 {
            (0, cols)
        } else if r == er2 {
            (0, if ec2 < cols { ec2 } else { cols })
        } else {
            (0, 0)
        }
    }
}

/// The foreground colour of cell (`r`, `c`): that of the last span in
/// `spans` covering it, or none.
pub open spec fn color_at(spans: Seq<ColorSpan>, r: usize, c: usize, cols: usize) -> Option<(u8, u8, u8)>
    decreases spans.len(),
{
    if spans.len() == 0 {
        None
    } else {
        let s = spans.last();
        let (from, to) = span_cols(s, r, cols);
        if from <= c && c < to {
            Some((s.4, s.5, s.6))
        } else {
            color_at(spans.drop_last(), r, c, cols)
        }
    }
}

/// The foreground colour of every cell of a `rows` x `cols` grid: `out[r][c]`
/// is the colour of the last span covering (`r`, `c`), or none.
pub fn cell_colors(spans: &Vec<ColorSpan>, rows: usize, cols: usize) -> (out: Vec<Vec<Option<(u8, u8, u8)>>>)
    ensures
        out@.len() == rows,
        forall|r: int| 0 <= r < rows ==> (#[trigger] out@[r])@.len() == cols,
        forall|r: int, c: int|
            0 <= r < rows && 0 <= c < cols ==> #[trigger] out@[r]@[c] == color_at(
                spans@,
                r as usize,
                c as usize,
                cols,
            ),
{
    let mut out: Vec<Vec<Option<(u8, u8, u8)>>> = Vec::new();
    let mut r: usize = 0;
    while r < rows
        invariant
            r <= rows,
            out@.len() == r,
            forall|i: int| 0 <= i < r ==> (#[trigger] out@[i])@.len() == cols,
            forall|i: int, c: int|
                0 <= i < r && 0 <= c < cols ==> #[trigger] out@[i]@[c] == color_at(
                    spans@,
                    i as usize,
                    c as usize,
                    cols,
                ),
        decreases rows - r,
    {
        let mut row: Vec<Option<(u8, u8, u8)>> = Vec::new();
        let mut c: usize = 0;
        while c < cols
            invariant
                c <= cols,
                row@.len() == c,
                forall|k: int| 0 <= k < c ==> row@[k] is None,
            decreases cols - c,
        {
            row.push(None);
            c = c + 1;
        }
        let mut k: usize = 0;
        while k < spans.len()
            invariant
                k <= spans.len(),
                row@.len() == cols,
                forall|c: int|
                    0 <= c < cols ==> #[trigger] row@[c] == color_at(
                        spans@.take(k as int),
                        r,
                        c as usize,
                        cols,
                    ),
            decreases spans.len() - k,
        {
            let s = spans[k];
            let (sr, sc, er, ec) = (s.0, s.1, s.2, s.3);
            let (from, to): (usize, usize) = if sr == er {
                let lo = if sc < ec { sc } else { ec };
                let hi = if sc < ec { ec } else { sc };
                if r == sr {
                    (lo, if hi < cols { hi } else { cols })
                } else {
                    (0, 0)
                }
            } else {
                let (sr2, sc2, er2, ec2) = if sr < er { (sr, sc, er, ec) } else { (er, ec, sr, sc) };
                if r == sr2 {
                    (sc2, cols)
                } else if sr2 < r && r < er2 {
                    (0, cols)
                } else if r == er2 {
                    (0, if ec2 < cols { ec2 } else { cols })
                } else {
                    (0, 0)
                }
            };
            assert((from, to) == span_cols(s, r, cols));
            let ghost before = row@;
            let mut c: usize = from;
            while c < to
                invariant
                    from <= c,
                    c <= to || c == from,
                    to <= cols,
                    row@.len() == cols,
                    before.len() == cols,
                    forall|x: int|
                        0 <= x < cols ==> #[trigger] row@[x] == (if from <= x < c {
                            Some((s.4, s.5, s.6))
                        } else {
                            before[x]
                        }),
                decreases to - c,
            {
                row.set(c, Some((s.4, s.5, s.6)));
                c = c + 1;
            }
            proof {
                assert forall|x: int| 0 <= x < cols implies #[trigger] row@[x] == color_at(
                    spans@.take(k + 1),
                    r,
                    x as usize,
                    cols,
                ) by {
                    assert(spans@.take(k + 1).drop_last() =~= spans@.take(k as int));
                    assert(spans@.take(k + 1).last() == s);
                    assert(before[x] == color_at(spans@.take(k as int), r, x as usize, cols));
                    assert((from <= x < c) == (from <= x < to));
                    let (f2, t2) = span_cols(s, r, cols);
                    assert(f2 == from && t2 == to);
                }
            }
            k = k + 1;
        }
        assert(spans@.take(spans.len() as int) =~= spans@);
        out.push(row);
        r = r + 1;
    }
    out
}

/// A row's text without its trailing spaces.
pub open spec fn trim_trailing_spaces(s: Seq<char>) -> Seq<char>
    decreases s.len(),
{
    if s.len() > 0 && s.last() == ' ' {
        trim_trailing_spaces(s.drop_last())
    } else {
        s
    }
}

/// The text to draw for grid row `row`: its cells up to the last one that
/// is not a space (empty for a blank row).
pub fn row_paint_text(g: &CharGrid, row: usize) -> (v: Vec<char>)
    requires
        g.wf(),
        row < g.rows,
    ensures
        v@ == trim_trailing_spaces(g@[row as int]),
{
    let ghost line = g@[row as int];
    let mut end: usize = g.cols;
    assert(line.take(end as int) =~= line);
    loop
        invariant
            g.wf(),
            row < g.rows,
            end <= g.cols,
            line == g@[row as int],
            trim_trailing_spaces(line) == trim_trailing_spaces(line.take(end as int)),
        ensures
            end <= g.cols,
            trim_trailing_spaces(line) == line.take(end as int),
        decreases end,
    {
        if end == 0 {
            assert(line.take(0) =~= Seq::<char>::empty());
            break;
        }
        proof {
            crate::grid::lemma_cell_index_in_bounds(row as int, end - 1, g.rows as int, g.cols as int);
        }
        if g.get(row, end - 1) != ' ' {
            break;
        }
        assert(line.take(end as int).drop_last() =~= line.take(end - 1));
        end = end - 1;
    }
    let mut v: Vec<char> = Vec::new();
    let mut c: usize = 0;
    while c < end
        invariant
            g.wf(),
            row < g.rows,
            end <= g.cols,
            line == g@[row as int],
            c <= end,
            v@ =~= line.take(c as int),
        decreases end - c,
    {
        proof {
            crate::grid::lemma_cell_index_in_bounds(row as int, c as int, g.rows as int, g.cols as int);
        }
        v.push(g.get(row, c));
        c = c + 1;
    }
    v
}

/// The application action that a Lisp menu action `name` is installed
/// under.
pub fn menu_action_name(name: &str) -> (s: String)
    ensures
        s@ == "menu-"@ + name@,
{
    let mut s = "menu-".to_owned();
    push_str(&mut s, name);
    s
}

/// The menu-model target that activates the action for Lisp menu action
/// `name`.
pub fn menu_action_target(name: &str) -> (s: String)
    ensures
        s@ == "app.menu-"@ + name@,
{
    let mut s = "app.menu-".to_owned();
    push_str(&mut s, name);
    s
}

/// Whether an application action was installed from a Lisp menu spec (and
/// so is dropped when the menu bar is replaced).
pub fn is_menu_action(action: &str) -> (b: bool)
    ensures
        b == crate::text::starts_with_spec(action@, "menu-"@),
{
    let chars = chars_of(action);
    crate::text::starts_with(&chars, "menu-")
}

/// The Lisp symbol name for a mouse event kind.
pub open spec fn mouse_kind_name_spec(kind: MouseKind) -> Seq<char> {
    match kind {
        MouseKind::Press => "press"@,
        MouseKind::Release => "release"@,
        MouseKind::Motion => "motion"@,
        MouseKind::ScrollUp => "scroll-up"@,
        MouseKind::ScrollDown => "scroll-down"@,
    }
}

/// The Lisp symbol name for a mouse event kind.
pub fn mouse_kind_name(kind: MouseKind) -> (s: &'static str)
    ensures
        s@ == mouse_kind_name_spec(kind),
{
    match kind {
        MouseKind::Press => "press",
        MouseKind::Release => "release",
        MouseKind::Motion => "motion",
        MouseKind::ScrollUp => "scroll-up",
        MouseKind::ScrollDown => "scroll-down",
    }
}

} // verus!
