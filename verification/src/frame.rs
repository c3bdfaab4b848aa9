//! The fixed three-region screen: a buffer area, a mode line and an echo
//! area, painted onto a `CharGrid` from what the Lisp side reports.

use vstd::prelude::*;

use crate::grid::{write_str, CharGrid};
use crate::text::{
    chars_of, push_chars, push_str, starts_with, starts_with_spec, string_push, truncate_spec,
    truncate_to, unquote_printed, unquote_spec, trim_chars, trim_spec,
};

verus! {

pub const ROWS: usize = 24;

pub const COLS: usize = 80;

pub const MODE_LINE_ROW: usize = ROWS - 2;

pub const ECHO_AREA_ROW: usize = ROWS - 1;

pub const BUFFER_AREA_START: usize = 0;

/// First row past the buffer area (exclusive).
pub const BUFFER_AREA_END: usize = MODE_LINE_ROW;

pub const BUFFER_AREA_COL_START: usize = 0;

pub const BUFFER_AREA_COL_END: usize = COLS;

/// `n` spaces.
pub open spec fn spaces(n: nat) -> Seq<char> {
    Seq::new(n, |i: int| ' ')
}

/// `n` dashes.
pub open spec fn dashes(n: nat) -> Seq<char> {
    Seq::new(n, |i: int| '-')
}

/// The first `n` elements of `s`, or all of it when it is shorter.
pub open spec fn prefix<A>(s: Seq<A>, n: nat) -> Seq<A> {
    if n < s.len() {
        s.take(n as int)
    } else {
        s
    }
}

/// A vector of `n` spaces.
pub fn space_vec(n: usize) -> (v: Vec<char>)
    ensures
        v@ == spaces(n as nat),
{
    let mut v: Vec<char> = Vec::new();
    let mut i: usize = 0;
    while i < n
        invariant
            i <= n,
            v@ =~= spaces(i as nat),
        decreases n - i,
    {
        v.push(' ');
        i = i + 1;
    }
    v
}

/// The mode-line text before it is fitted to the window width:
/// `-U:---  NAME    L<LINE>   POS   (MODE) `.
pub open spec fn mode_line_body(name: Seq<char>, line: Seq<char>, pos: Seq<char>, mode: Seq<char>) -> Seq<
    char,
> {
    "-U:---  "@ + name + "    L"@ + line + "   "@ + pos + "   ("@ + mode + ") "@
}

/// `s` fitted to exactly `cols` characters: cut when longer, padded with
/// dashes when shorter.
pub open spec fn fit_width(s: Seq<char>, cols: nat) -> Seq<char> {
    if s.len() >= cols {
        s.take(cols as int)
    } else {
        s + dashes((cols - s.len()) as nat)
    }
}

/// The mode line for the given buffer name, line number, position
/// indicator and major mode, exactly `cols` characters wide.
pub open spec fn mode_line_spec(
    name: Seq<char>,
    line: Seq<char>,
    pos: Seq<char>,
    mode: Seq<char>,
    cols: nat,
) -> Seq<char> {
    fit_width(mode_line_body(name, line, pos, mode), cols)
}

/// Composes the mode line `-U:---  NAME    L<LINE>   POS   (MODE) ` and
/// pads it with dashes (or cuts it) to exactly `cols` characters.
pub fn format_mode_line(name: &str, line: &str, pos: &str, mode: &str, cols: usize) -> (s: String)
    ensures
        s@ == mode_line_spec(name@, line@, pos@, mode@, cols as nat),
{
    let mut body = String::new();
    push_str(&mut body, "-U:---  ");
    push_str(&mut body, name);
    push_str(&mut body, "    L");
    push_str(&mut body, line);
    push_str(&mut body, "   ");
    push_str(&mut body, pos);
    push_str(&mut body, "   (");
    push_str(&mut body, mode);
    push_str(&mut body, ") ");
    let chars = chars_of(body.as_str());
    let mut out = String::new();
    if chars.len() >= cols {
        let mut i: usize = 0;
        while i < cols
            invariant
                cols <= chars.len(),
                i <= cols,
                out@ =~= chars@.take(i as int),
            decreases cols - i,
        {
            string_push(&mut out, chars[i]);
            i = i + 1;
        }
    } else {
        push_chars(&mut out, &chars);
        let mut n: usize = chars.len();
        while n < cols
            invariant
                chars.len() <= n <= cols,
                out@ =~= chars@ + dashes((n - chars.len()) as nat),
            decreases cols - n,
        {
            string_push(&mut out, '-');
            n = n + 1;
        }
    }
    out
}

/// What the echo area shows for the last key: a prompt while there is none.
pub open spec fn echo_text(text: Seq<char>) -> Seq<char> {
    if text.len() == 0 {
        "(press any key)"@
    } else {
        "Last key: "@ + text
    }
}

/// Row `row` cleared over the first `COLS` columns, then `text` written
/// from its first column.
pub open spec fn restamp_row(g: Seq<Seq<char>>, row: int, text: Seq<char>) -> Seq<Seq<char>> {
    write_str(write_str(g, row, 0, spaces(COLS as nat)), row, 0, text)
}

/// The grid after the echo area shows `text`.
pub open spec fn echo_area_spec(g: Seq<Seq<char>>, text: Seq<char>) -> Seq<Seq<char>> {
    restamp_row(g, ECHO_AREA_ROW as int, truncate_spec(echo_text(text), COLS as nat))
}

/// The grid after the mode line shows `text`.
pub open spec fn mode_line_area_spec(g: Seq<Seq<char>>, text: Seq<char>) -> Seq<Seq<char>> {
    restamp_row(g, MODE_LINE_ROW as int, prefix(text, COLS as nat))
}

/// Clears the echo area row and writes `Last key: TEXT` there (or a
/// prompt when `text` is empty), cut with an ellipsis to the screen width.
pub fn put_echo_area(g: &mut CharGrid, text: &str)
    requires
        old(g).wf(),
    ensures
        final(g).wf(),
        final(g).rows == old(g).rows,
        final(g).cols == old(g).cols,
        final(g)@ == echo_area_spec(old(g)@, text@),
{
    let blank = space_vec(COLS);
    g.put_chars(ECHO_AREA_ROW, 0, &blank);
    let display = if text.is_empty() {
        "(press any key)".to_owned()
    } else {
        let mut d = "Last key: ".to_owned();
        push_str(&mut d, text);
        d
    };
    let shown = truncate_to(display, COLS);
    g.put_str(ECHO_AREA_ROW, 0, shown.as_str());
}

/// Clears the mode-line row and writes the first `COLS` characters of
/// `text` there.
pub fn put_mode_line(g: &mut CharGrid, text: &str)
    requires
        old(g).wf(),
    ensures
        final(g).wf(),
        final(g).rows == old(g).rows,
        final(g).cols == old(g).cols,
        final(g)@ == mode_line_area_spec(old(g)@, text@),
{
    let blank = space_vec(COLS);
    g.put_chars(MODE_LINE_ROW, 0, &blank);
    let chars = chars_of(text);
    let mut shown: Vec<char> = Vec::new();
    let mut i: usize = 0;
    while i < chars.len() && i < COLS
        invariant
            i <= chars.len(),
            i <= COLS,
            shown@ =~= chars@.take(i as int),
        decreases COLS - i,
    {
        shown.push(chars[i]);
        i = i + 1;
    }
    assert(shown@ =~= prefix(text@, COLS as nat));
    g.put_chars(MODE_LINE_ROW, 0, &shown);
}

} // verus!

verus! {

/// Restamping a row forgets what an earlier stamp of at most `COLS`
/// characters left there.
pub proof fn lemma_restamp_row_overwrites(g: Seq<Seq<char>>, row: int, a: Seq<char>, b: Seq<char>)
    requires
        a.len() <= COLS,
    ensures
        restamp_row(restamp_row(g, row, a), row, b) == restamp_row(g, row, b),
{
    assert(restamp_row(restamp_row(g, row, a), row, b) =~~= restamp_row(g, row, b));
}

/// Law: a new echo-area message fully replaces the previous one, however
/// long the previous one was.
pub proof fn law_echo_area_replaces_previous(g: Seq<Seq<char>>, first: Seq<char>, second: Seq<char>)
    ensures
        echo_area_spec(echo_area_spec(g, first), second) == echo_area_spec(g, second),
{
    lemma_restamp_row_overwrites(
        g,
        ECHO_AREA_ROW as int,
        truncate_spec(echo_text(first), COLS as nat),
        truncate_spec(echo_text(second), COLS as nat),
    );
}

/// Law: a new mode line fully replaces the previous one; shorter text
/// leaves no trace of longer text written before it.
pub proof fn law_mode_line_replaces_previous(g: Seq<Seq<char>>, first: Seq<char>, second: Seq<char>)
    ensures
        mode_line_area_spec(mode_line_area_spec(g, first), second) == mode_line_area_spec(g, second),
{
    lemma_restamp_row_overwrites(
        g,
        MODE_LINE_ROW as int,
        prefix(first, COLS as nat),
        prefix(second, COLS as nat),
    );
}

/// Law: the mode line is always exactly as wide as the window.
pub proof fn law_mode_line_width(
    name: Seq<char>,
    line: Seq<char>,
    pos: Seq<char>,
    mode: Seq<char>,
    cols: nat,
)
    ensures
        mode_line_spec(name, line, pos, mode, cols).len() == cols,
{
}

} // verus!

verus! {

/// A probe answer, or `?` when the Lisp side reported an error.
pub open spec fn probe_or_unknown(raw: Seq<char>) -> Seq<char> {
    if starts_with_spec(raw, "ERR "@) {
        "?"@
    } else {
        raw
    }
}

/// The mode line built from the printed answers to the buffer-name,
/// line-number and major-mode probes.
pub open spec fn mode_line_from_probes(name_raw: Seq<char>, line_raw: Seq<char>, mode_raw: Seq<char>) -> Seq<
    char,
> {
    mode_line_spec(
        unquote_spec(probe_or_unknown(name_raw)),
        trim_spec(probe_or_unknown(line_raw)),
        "All"@,
        unquote_spec(probe_or_unknown(mode_raw)),
        COLS as nat,
    )
}

fn probe_or_unknown_string(raw: &str) -> (s: String)
    ensures
        s@ == probe_or_unknown(raw@),
{
    let chars = chars_of(raw);
    if starts_with(&chars, "ERR ") {
        "?".to_owned()
    } else {
        raw.to_owned()
    }
}

/// Re-stamps the mode line from the printed answers of the Lisp probes for
/// `(buffer-name)`, `(line-number-at-pos)` and `(symbol-name major-mode)`;
/// an answer that is an `ERR ...` diagnostic shows as `?`.
pub fn refresh_mode_line(g: &mut CharGrid, name_raw: &str, line_raw: &str, mode_raw: &str)
    requires
        old(g).wf(),
    ensures
        final(g).wf(),
        final(g).rows == old(g).rows,
        final(g).cols == old(g).cols,
        final(g)@ == mode_line_area_spec(old(g)@, mode_line_from_probes(name_raw@, line_raw@, mode_raw@)),
{
    let name_p = probe_or_unknown_string(name_raw);
    let name = unquote_printed(name_p.as_str());
    let line_p = probe_or_unknown_string(line_raw);
    let line_chars = chars_of(line_p.as_str());
    let line_trimmed = trim_chars(&line_chars);
    let mut line = String::new();
    push_chars(&mut line, &line_trimmed);
    let mode_p = probe_or_unknown_string(mode_raw);
    let mode = unquote_printed(mode_p.as_str());
    let pos = "All";
    let text = format_mode_line(name.as_str(), line.as_str(), pos, mode.as_str(), COLS);
    put_mode_line(g, text.as_str());
}

/// `g` with `lines[i]` written from the first column of row `top + i`.
pub open spec fn write_rows(g: Seq<Seq<char>>, top: int, lines: Seq<Seq<char>>) -> Seq<Seq<char>> {
    Seq::new(
        g.len(),
        |r: int|
            Seq::new(
                g[r].len(),
                |c: int|
                    if top <= r < top + lines.len() && 0 <= c < lines[r - top].len() {
                        lines[r - top][c]
                    } else {
                        g[r][c]
                    },
            ),
    )
}

/// `g` with the cells of its first `rows` rows and `cols` columns blanked.
pub open spec fn blank_rect(g: Seq<Seq<char>>, rows: int, cols: int) -> Seq<Seq<char>> {
    Seq::new(
        g.len(),
        |r: int| Seq::new(g[r].len(), |c: int| if r < rows && c < cols { ' ' } else { g[r][c] }),
    )
}

/// The lines of `content` as the buffer area shows them: at most as many
/// lines as the area has rows, each cut to the area's width.
pub open spec fn buffer_area_lines(content: Seq<char>) -> Seq<Seq<char>> {
    prefix(crate::text::lines_spec(content), (BUFFER_AREA_END - BUFFER_AREA_START) as nat).map_values(
        |l: Seq<char>| prefix(l, (BUFFER_AREA_COL_END - BUFFER_AREA_COL_START) as nat),
    )
}

/// The grid after the buffer area is repainted with `content`.
pub open spec fn buffer_area_spec(g: Seq<Seq<char>>, content: Seq<char>) -> Seq<Seq<char>> {
    write_rows(
        blank_rect(g, BUFFER_AREA_END as int, BUFFER_AREA_COL_END as int),
        BUFFER_AREA_START as int,
        buffer_area_lines(content),
    )
}

/// Where the cursor goes for the printed `(point)` answer `point_raw`: the
/// point's (row, column) in `content` when it parses as a number and lies
/// inside the buffer area (one column past the last is allowed), else none.
pub open spec fn buffer_cursor_spec(content: Seq<char>, point_raw: Seq<char>) -> Option<(nat, nat)> {
    match crate::text::parse_usize_spec(trim_spec(point_raw)) {
        None => None,
        Some(p) => {
            let rc = crate::text::point_row_col(content, p);
            if rc.0 < BUFFER_AREA_END - BUFFER_AREA_START && rc.1 <= BUFFER_AREA_COL_END
                - BUFFER_AREA_COL_START {
                Some(((rc.0 + BUFFER_AREA_START) as nat, (rc.1 + BUFFER_AREA_COL_START) as nat))
            } else {
                None
            }
        },
    }
}

/// `a` and `b` name the same cell, or both name none.
pub open spec fn same_cell(a: Option<(usize, usize)>, b: Option<(nat, nat)>) -> bool {
    match (a, b) {
        (None, None) => true,
        (Some(x), Some(y)) => x.0 as nat == y.0 && x.1 as nat == y.1,
        _ => false,
    }
}

/// Repaints the buffer area from the printed `(buffer-string)` answer and
/// returns the screen cell of the printed `(point)` answer, if it parses
/// and lies inside the area.
pub fn refresh_buffer_area(g: &mut CharGrid, text_raw: &str, point_raw: &str) -> (cursor: Option<(usize, usize)>)
    requires
        old(g).wf(),
    ensures
        final(g).wf(),
        final(g).rows == old(g).rows,
        final(g).cols == old(g).cols,
        final(g)@ == buffer_area_spec(old(g)@, unquote_spec(text_raw@)),
        same_cell(cursor, buffer_cursor_spec(unquote_spec(text_raw@), point_raw@)),
{
    let content = unquote_printed(text_raw);
    let ghost start = g@;
    let blank = space_vec(BUFFER_AREA_COL_END - BUFFER_AREA_COL_START);
    let mut row: usize = BUFFER_AREA_START;
    assert(start =~~= blank_rect(start, 0, BUFFER_AREA_COL_END as int));
    while row < BUFFER_AREA_END
        invariant
            g.wf(),
            g.rows == old(g).rows,
            g.cols == old(g).cols,
            start == old(g)@,
            row <= BUFFER_AREA_END,
            blank@ == spaces(COLS as nat),
            g@ == blank_rect(start, row as int, BUFFER_AREA_COL_END as int),
        decreases BUFFER_AREA_END - row,
    {
        g.put_chars(row, BUFFER_AREA_COL_START, &blank);
        assert(g@ =~~= blank_rect(start, row + 1, BUFFER_AREA_COL_END as int));
        row = row + 1;
    }
    let ghost blanked = g@;
    let content_chars = chars_of(content.as_str());
    let lines = crate::text::text_lines(&content_chars);
    let ghost want = buffer_area_lines(content@);
    let max_rows: usize = BUFFER_AREA_END - BUFFER_AREA_START;
    let max_cols: usize = BUFFER_AREA_COL_END - BUFFER_AREA_COL_START;
    let shown_rows: usize = if lines.len() < max_rows { lines.len() } else { max_rows };
    assert(want.len() == shown_rows);
    let mut i: usize = 0;
    assert(blanked =~~= write_rows(blanked, BUFFER_AREA_START as int, want.take(0)));
    while i < shown_rows
        invariant
            g.wf(),
            g.rows == old(g).rows,
            g.cols == old(g).cols,
            shown_rows <= lines.len(),
            shown_rows == want.len(),
            max_cols == COLS,
            lines@.len() == crate::text::lines_spec(content_chars@).len(),
            forall|k: int|
                0 <= k < lines@.len() ==> #[trigger] lines@[k]@ == crate::text::lines_spec(
                    content_chars@,
                )[k],
            content_chars@ == content@,
            want == buffer_area_lines(content@),
            i <= shown_rows,
            g@ == write_rows(blanked, BUFFER_AREA_START as int, want.take(i as int)),
        decreases shown_rows - i,
    {
        let line = &lines[i];
        let mut cut: Vec<char> = Vec::new();
        let mut c: usize = 0;
        while c < line.len() && c < max_cols
            invariant
                c <= line.len(),
                c <= max_cols,
                cut@ =~= line@.take(c as int),
            decreases max_cols - c,
        {
            cut.push(line[c]);
            c = c + 1;
        }
        assert(cut@ =~= want[i as int]);
        g.put_chars(BUFFER_AREA_START + i, BUFFER_AREA_COL_START, &cut);
        assert(g@ =~~= write_rows(blanked, BUFFER_AREA_START as int, want.take(i + 1)));
        i = i + 1;
    }
    assert(want.take(shown_rows as int) =~= want);
    let point_chars = chars_of(point_raw);
    let point_trimmed = trim_chars(&point_chars);
    let point = match crate::text::parse_usize(&point_trimmed) {
        Some(p) => p,
        None => {
            return None;
        },
    };
    let (br, bc) = crate::text::point_to_row_col(content.as_str(), point);
    if br < max_rows && bc <= max_cols {
        Some((BUFFER_AREA_START + br, BUFFER_AREA_COL_START + bc))
    } else {
        None
    }
}

} // verus!

verus! {

/// The Lisp event literal for a key with keysym name `name` and Unicode
/// value `unicode`: a quoted symbol for the named editing keys, the decimal
/// code of a printable character otherwise, and nothing for keys without a
/// mapping (modifiers, control characters).
pub open spec fn event_literal_spec(name: Seq<char>, unicode: Option<char>) -> Option<Seq<char>> {
    if name == "BackSpace"@ {
        Some("'backspace"@)
    } else if name == "Return"@ || name == "KP_Enter"@ {
        Some("'return"@)
    } else if name == "Left"@ {
        Some("'left"@)
    } else if name == "Right"@ {
        Some("'right"@)
    } else if name == "Up"@ {
        Some("'up"@)
    } else if name == "Down"@ {
        Some("'down"@)
    } else {
        match unicode {
            Some(c) => if crate::text::is_control_spec(c) {
                None
            } else {
                Some(crate::text::decimal((c as u32) as nat))
            },
            None => None,
        }
    }
}

/// Maps a key press (its keysym name and Unicode character, if any)
/// into the event literal the Lisp command loop reads.
pub fn build_event_literal(name: &str, unicode: Option<char>) -> (r: Option<String>)
    ensures
        match (r, event_literal_spec(name@, unicode)) {
            (Some(s), Some(t)) => s@ == t,
            (None, None) => true,
            _ => false,
        },
{
    let n = chars_of(name);
    if crate::text::chars_equal(&n, "BackSpace") {
        Some("'backspace".to_owned())
    } else if crate::text::chars_equal(&n, "Return") || crate::text::chars_equal(&n, "KP_Enter") {
        Some("'return".to_owned())
    } else if crate::text::chars_equal(&n, "Left") {
        Some("'left".to_owned())
    } else if crate::text::chars_equal(&n, "Right") {
        Some("'right".to_owned())
    } else if crate::text::chars_equal(&n, "Up") {
        Some("'up".to_owned())
    } else if crate::text::chars_equal(&n, "Down") {
        Some("'down".to_owned())
    } else {
        match unicode {
            Some(c) => {
                if crate::text::is_control(c) {
                    None
                } else {
                    let code: u32 = c as u32;
                    Some(crate::text::decimal_string(code as u64))
                }
            },
            None => None,
        }
    }
}

/// A boot step's printed result reports an error.
pub open spec fn step_failed(result: Seq<char>) -> bool {
    starts_with_spec(result, "ERR "@)
}

/// Whether every boot step succeeded (none printed an `ERR ...` result).
pub fn bootstrap_ok(results: &Vec<String>) -> (ok: bool)
    ensures
        ok == (forall|i: int| 0 <= i < results@.len() ==> !step_failed(#[trigger] results@[i]@)),
{
    let mut i: usize = 0;
    while i < results.len()
        invariant
            i <= results.len(),
            forall|k: int| 0 <= k < i ==> !step_failed(#[trigger] results@[k]@),
        decreases results.len() - i,
    {
        let chars = chars_of(results[i].as_str());
        if starts_with(&chars, "ERR ") {
            return false;
        }
        i = i + 1;
    }
    true
}

/// The diagnostic line for one boot step: `LABEL: RESULT`, cut to the
/// screen width.
pub open spec fn diagnostic_line(label: Seq<char>, result: Seq<char>) -> Seq<char> {
    truncate_spec(label + ": "@ + result, COLS as nat)
}

/// The diagnostic lines for the boot steps that fit below the header.
pub open spec fn diagnostic_lines(diag: Seq<(String, String)>) -> Seq<Seq<char>> {
    prefix(diag, (BUFFER_AREA_END - BUFFER_AREA_START - 2) as nat).map_values(
        |p: (String, String)| diagnostic_line(p.0@, p.1@),
    )
}

/// The grid after a failed boot is reported: a header, one line per boot
/// step from the third row of the buffer area on, and a mode line of `?`s.
pub open spec fn bootstrap_failure_spec(g: Seq<Seq<char>>, diag: Seq<(String, String)>) -> Seq<Seq<char>> {
    mode_line_area_spec(
        write_rows(
            write_str(g, BUFFER_AREA_START as int, 0, "[bootstrap failed]"@),
            BUFFER_AREA_START + 2,
            diagnostic_lines(diag),
        ),
        mode_line_spec("?"@, "?"@, "?"@, "?"@, COLS as nat),
    )
}

/// Reports a failed boot on the grid: `[bootstrap failed]`, then one
/// `LABEL: RESULT` line per step while the buffer area has room, and a mode
/// line whose fields are all `?`.
pub fn stamp_bootstrap_failure(g: &mut CharGrid, diag: &Vec<(String, String)>)
    requires
        old(g).wf(),
    ensures
        final(g).wf(),
        final(g).rows == old(g).rows,
        final(g).cols == old(g).cols,
        final(g)@ == bootstrap_failure_spec(old(g)@, diag@),
{
    g.put_str(BUFFER_AREA_START, 0, "[bootstrap failed]");
    let ghost headed = g@;
    let ghost want = diagnostic_lines(diag@);
    let mut row: usize = BUFFER_AREA_START + 2;
    let mut i: usize = 0;
    assert(headed =~~= write_rows(headed, BUFFER_AREA_START + 2, want.take(0)));
    while i < diag.len() && row < BUFFER_AREA_END
        invariant
            g.wf(),
            g.rows == old(g).rows,
            g.cols == old(g).cols,
            want == diagnostic_lines(diag@),
            row == BUFFER_AREA_START + 2 + i,
            i <= diag.len(),
            i <= want.len(),
            g@ == write_rows(headed, BUFFER_AREA_START + 2, want.take(i as int)),
        decreases diag.len() - i,
    {
        let mut text = String::new();
        push_str(&mut text, diag[i].0.as_str());
        push_str(&mut text, ": ");
        push_str(&mut text, diag[i].1.as_str());
        let line = truncate_to(text, COLS);
        assert(line@ == want[i as int]);
        g.put_str(row, 0, line.as_str());
        assert(g@ =~~= write_rows(headed, BUFFER_AREA_START + 2, want.take(i + 1)));
        row = row + 1;
        i = i + 1;
    }
    assert(want.take(i as int) =~= want);
    let ml = format_mode_line("?", "?", "?", "?", COLS);
    put_mode_line(g, ml.as_str());
}

} // verus!

verus! {

/// How the echo area describes a key press: the keysym name, then
/// ` mod=MODS` when modifiers were held, then ` 'C'` for a printable
/// character.
pub open spec fn key_repr_spec(name: Seq<char>, mods: Option<Seq<char>>, unicode: Option<char>) -> Seq<char> {
    let m = match mods {
        Some(d) => " mod="@ + d,
        None => seq![],
    };
    let u = match unicode {
        Some(c) => if crate::text::is_control_spec(c) {
            seq![]
        } else {
            " '"@ + seq![c] + "'"@
        },
        None => seq![],
    };
    name + m + u
}

/// Describes a key press for the echo area from its keysym name, the
/// printed modifier set (`None` when no modifier was held) and its
/// character.
pub fn key_repr(name: &str, mods: Option<&str>, unicode: Option<char>) -> (s: String)
    ensures
        s@ == key_repr_spec(
            name@,
            match mods {
                Some(d) => Some(d@),
                None => None,
            },
            unicode,
        ),
{
    let mut s = name.to_owned();
    match mods {
        Some(d) => {
            push_str(&mut s, " mod=");
            push_str(&mut s, d);
        },
        None => {},
    }
    match unicode {
        Some(c) => {
            if !crate::text::is_control(c) {
                push_str(&mut s, " '");
                string_push(&mut s, c);
                push_str(&mut s, "'");
            }
        },
        None => {},
    }
    s
}

} // verus!
