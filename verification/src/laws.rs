//! Properties that hold across the operations of the library.

use vstd::prelude::*;

use crate::bridge::{layer2_home_spec, layer2_src_spec, trim_trailing_slashes};
use crate::frame::spaces;
use crate::grid::{has_shape, write_cell, write_str};
use crate::text::{truncate_spec, unescape, unquote_spec};

verus! {

/// Law: reading a cell right after writing it gives the written character,
/// every other cell keeps its character, and the grid keeps its shape; a
/// write outside the grid changes nothing.
pub proof fn law_read_after_write(
    g: Seq<Seq<char>>,
    rows: nat,
    cols: nat,
    row: int,
    col: int,
    ch: char,
)
    requires
        has_shape(g, rows, cols),
    ensures
        has_shape(write_cell(g, row, col, ch), rows, cols),
        0 <= row < rows && 0 <= col < cols ==> write_cell(g, row, col, ch)[row][col] == ch,
        forall|r: int, c: int|
            0 <= r < rows && 0 <= c < cols && !(r == row && c == col) ==> #[trigger] write_cell(
                g,
                row,
                col,
                ch,
            )[r][c] == g[r][c],
        !(0 <= row < rows && 0 <= col < cols) ==> write_cell(g, row, col, ch) == g,
{
}

/// Law: re-stamping a whole row (blanking its first `width` cells, then
/// writing new text) erases every trace of text written there before,
/// provided the row is at most `width` cells wide.
pub proof fn law_row_restamp_replaces_previous(
    g: Seq<Seq<char>>,
    width: nat,
    row: int,
    first: Seq<char>,
    second: Seq<char>,
)
    requires
        forall|r: int| 0 <= r < g.len() ==> #[trigger] g[r].len() <= width,
    ensures
        write_str(
            write_str(
                write_str(write_str(g, row, 0, spaces(width)), row, 0, first),
                row,
                0,
                spaces(width),
            ),
            row,
            0,
            second,
        ) == write_str(write_str(g, row, 0, spaces(width)), row, 0, second),
{
    assert(write_str(
        write_str(write_str(write_str(g, row, 0, spaces(width)), row, 0, first), row, 0, spaces(width)),
        row,
        0,
        second,
    ) =~~= write_str(write_str(g, row, 0, spaces(width)), row, 0, second));
}

/// Law: a cut string is never longer than the limit (for a limit of at
/// least one), ends in an ellipsis when it was cut, and a string within the
/// limit is left as it is.
pub proof fn law_truncate_bounds(s: Seq<char>, max: nat)
    ensures
        max >= 1 ==> truncate_spec(s, max).len() <= max,
        s.len() <= max ==> truncate_spec(s, max) == s,
        s.len() > max ==> truncate_spec(s, max).last() == '…',
        s.len() > max && max >= 1 ==> truncate_spec(s, max).take(max - 1) == s.take(max - 1),
{
    if s.len() > max && max >= 1 {
        assert(truncate_spec(s, max).take(max - 1) =~= s.take(max - 1));
    }
}

proof fn lemma_unescape_plain(s: Seq<char>)
    requires
        forall|i: int| 0 <= i < s.len() ==> s[i] != '\\',
    ensures
        unescape(s) == s,
    decreases s.len(),
{
    if s.len() > 0 {
        lemma_unescape_plain(s.drop_first());
        assert(seq![s[0]] + s.drop_first() =~= s);
    }
}

/// Law: decoding the printed form of a string without backslashes gives
/// the string back.
pub proof fn law_unquote_of_quoted(s: Seq<char>)
    requires
        forall|i: int| 0 <= i < s.len() ==> s[i] != '\\',
    ensures
        unquote_spec(seq!['"'] + s + seq!['"']) == s,
{
    let q = seq!['"'] + s + seq!['"'];
    assert(q.subrange(1, q.len() - 1) =~= s);
    lemma_unescape_plain(s);
}

/// Law: text without a leading double quote passes through decoding
/// unchanged.
pub proof fn law_unquote_passes_unquoted(s: Seq<char>)
    requires
        s.len() == 0 || s[0] != '"',
    ensures
        unquote_spec(s) == s,
{
}

/// Law: queues hand events out in the order they came in: after pushing
/// `e` onto queue `q`, the next poll yields `q`'s oldest event (or `e`
/// when `q` was empty) and leaves the rest with `e` at the back.
pub proof fn law_queue_fifo<T>(q: Seq<T>, e: T)
    ensures
        q.push(e).len() > 0,
        q.push(e)[0] == (if q.len() == 0 {
            e
        } else {
            q[0]
        }),
        q.push(e).drop_first() == (if q.len() == 0 {
            Seq::<T>::empty()
        } else {
            q.drop_first().push(e)
        }),
{
    if q.len() == 0 {
        assert(q.push(e).drop_first() =~= Seq::<T>::empty());
    } else {
        assert(q.push(e).drop_first() =~= q.drop_first().push(e));
    }
}

/// Law: trailing slashes on `NEMACS_HOME` do not change the resolved
/// source directory.
pub proof fn law_nemacs_home_trailing_slash(
    h: Seq<char>,
    layer2_src: Option<Seq<char>>,
    home: Seq<char>,
    marked: Seq<bool>,
)
    ensures
        layer2_src_spec(Some(h.push('/')), layer2_src, home, marked) == layer2_src_spec(
            Some(h),
            layer2_src,
            home,
            marked,
        ),
{
    assert(h.push('/').drop_last() =~= h);
}

/// Law: with `NEMACS_HOME` set, the substrate home derived from the
/// resolved source directory is `NEMACS_HOME` itself (without trailing
/// slashes).
pub proof fn law_home_of_src_under_nemacs_home(
    h: Seq<char>,
    layer2_src: Option<Seq<char>>,
    home: Seq<char>,
    marked: Seq<bool>,
)
    ensures
        layer2_home_spec(layer2_src_spec(Some(h), layer2_src, home, marked), home)
            == trim_trailing_slashes(h),
{
    let t = trim_trailing_slashes(h);
    let s = t + "/src"@;
    assert(s.skip(s.len() - "/src"@.len()) =~= "/src"@);
    assert(s.take(s.len() - "/src"@.len()) =~= t);
}

} // verus!

verus! {

/// Law: an evaluation error, once printed, always counts as a failed boot
/// step and always shows as `?` in the mode line.
pub proof fn law_printed_error_is_failure(e: Seq<char>)
    ensures
        crate::frame::step_failed(crate::bridge::printed_result_spec(Err(e))),
        crate::frame::probe_or_unknown(crate::bridge::printed_result_spec(Err(e))) == "?"@,
{
    let p = "ERR "@ + e;
    assert(p.take("ERR "@.len() as int) =~= "ERR "@);
}

} // verus!

verus! {

/// How many times `ch` occurs in `s`.
pub open spec fn count_char(s: Seq<char>, ch: char) -> nat
    decreases s.len(),
{
    if s.len() == 0 {
        0
    } else {
        count_char(s.drop_last(), ch) + if s.last() == ch {
            1nat
        } else {
            0nat
        }
    }
}

/// The pieces of `lines` joined with a newline between each two.
pub open spec fn join_lines(lines: Seq<Seq<char>>) -> Seq<char>
    decreases lines.len(),
{
    if lines.len() == 0 {
        seq![]
    } else if lines.len() == 1 {
        lines[0]
    } else {
        join_lines(lines.drop_last()) + seq!['\n'] + lines.last()
    }
}

/// Law: the lines a repaint lays out are exactly the pieces of the content
/// between newlines, empty pieces included: there is one more piece than
/// there are newlines, no piece holds a newline, and joining the pieces
/// with newlines gives the content back.
pub proof fn law_repaint_lines_are_newline_pieces(s: Seq<char>)
    ensures
        crate::backend::newline_split(s).len() == count_char(s, '\n') + 1,
        join_lines(crate::backend::newline_split(s)) == s,
        forall|i: int, k: int|
            0 <= i < crate::backend::newline_split(s).len() && 0 <= k < crate::backend::newline_split(
                s,
            )[i].len() ==> #[trigger] crate::backend::newline_split(s)[i][k] != '\n',
    decreases s.len(),
{
    let q = crate::backend::newline_split(s);
    if s.len() == 0 {
        assert(q =~~= seq![Seq::<char>::empty()]);
        assert(join_lines(q) =~= s);
    } else {
        let t = s.drop_last();
        let c = s.last();
        law_repaint_lines_are_newline_pieces(t);
        let p = crate::backend::newline_split(t);
        assert(t.push(c) =~= s);
        if c == '\n' {
            assert(q == p.push(seq![]));
            assert(q.drop_last() =~= p);
            assert(join_lines(q) == join_lines(p) + seq!['\n'] + Seq::<char>::empty());
            assert(join_lines(q) =~= s);
            assert forall|i: int, k: int| 0 <= i < q.len() && 0 <= k < q[i].len() implies #[trigger] q[i][k]
                != '\n' by {
                if i < p.len() {
                    assert(q[i] == p[i]);
                }
            }
        } else {
            let x = p.last().push(c);
            assert(q == p.update(p.len() - 1, x));
            if p.len() == 1 {
                assert(join_lines(p) == p[0]);
                assert(join_lines(q) == q[0]);
                assert(join_lines(q) =~= s);
            } else {
                assert(q.drop_last() =~= p.drop_last());
                assert(join_lines(q) == join_lines(p.drop_last()) + seq!['\n'] + x);
                assert(join_lines(p) == join_lines(p.drop_last()) + seq!['\n'] + p.last());
                assert(join_lines(q) =~= s);
            }
            assert forall|i: int, k: int| 0 <= i < q.len() && 0 <= k < q[i].len() implies #[trigger] q[i][k]
                != '\n' by {
                if i < p.len() - 1 {
                    assert(q[i] == p[i]);
                } else {
                    if k < p.last().len() {
                        assert(q[i][k] == p[p.len() - 1][k]);
                    }
                }
            }
        }
    }
}

/// Law: after a fast repaint, row `r` of the buffer area (above the mode
/// line) shows the first `cols` characters of the `scroll + r`-th piece of
/// the content between newlines, and blanks elsewhere; rows past the last
/// piece are blank.
pub proof fn law_repaint_buffer_rows(
    rows: nat,
    gcols: nat,
    cols: nat,
    buf_end: nat,
    scroll: nat,
    content: Seq<char>,
    mode_line: Seq<char>,
    echo: Seq<char>,
)
    ensures
        forall|r: int, c: int|
            0 <= r < buf_end && r < rows && 0 <= c < gcols ==> #[trigger] crate::backend::painted_frame(
                rows,
                gcols,
                cols,
                buf_end,
                scroll,
                content,
                mode_line,
                echo,
            )[r][c] == ({
                let pieces = crate::backend::newline_split(content);
                if c < cols && scroll + r < pieces.len() && c < pieces[scroll + r].len() {
                    pieces[scroll + r][c]
                } else {
                    ' '
                }
            }),
{
}

/// Law: after a fast repaint the grid keeps its `rows` x `gcols` shape;
/// row `buf_end` shows the first `cols` characters of the mode line, the
/// last row (when it lies below the mode line) the first `cols` characters
/// of the echo text, both padded with blanks; every row between the mode
/// line and the last row is blank.
pub proof fn law_repaint_status_rows(
    rows: nat,
    gcols: nat,
    cols: nat,
    buf_end: nat,
    scroll: nat,
    content: Seq<char>,
    mode_line: Seq<char>,
    echo: Seq<char>,
)
    ensures
        has_shape(
            crate::backend::painted_frame(rows, gcols, cols, buf_end, scroll, content, mode_line, echo),
            rows,
            gcols,
        ),
        forall|c: int|
            0 <= c < gcols && buf_end < rows ==> #[trigger] crate::backend::painted_frame(
                rows,
                gcols,
                cols,
                buf_end,
                scroll,
                content,
                mode_line,
                echo,
            )[buf_end as int][c] == (if c < cols && c < mode_line.len() {
                mode_line[c]
            } else {
                ' '
            }),
        forall|c: int|
            0 <= c < gcols && buf_end + 1 < rows ==> #[trigger] crate::backend::painted_frame(
                rows,
                gcols,
                cols,
                buf_end,
                scroll,
                content,
                mode_line,
                echo,
            )[rows - 1][c] == (if c < cols && c < echo.len() {
                echo[c]
            } else {
                ' '
            }),
        forall|r: int, c: int|
            buf_end < r < rows - 1 && 0 <= c < gcols ==> #[trigger] crate::backend::painted_frame(
                rows,
                gcols,
                cols,
                buf_end,
                scroll,
                content,
                mode_line,
                echo,
            )[r][c] == ' ',
{
}

} // verus!

verus! {

/// Cell (`r`, `c`) lies in the span between (`sr`, `sc`) and (`er`, `ec`):
/// on one row, between the two columns (the larger one excluded); across
/// rows, from the earlier end (included) to the later end (excluded) in
/// reading order.
pub open spec fn in_span(sr: usize, sc: usize, er: usize, ec: usize, r: usize, c: usize) -> bool {
    if sr == er {
        r == sr && ((sc <= c && c < ec) || (ec <= c && c < sc))
    } else {
        let (r1, c1, r2, c2) = if sr < er {
            (sr, sc, er, ec)
        } else {
            (er, ec, sr, sc)
        };
        (r > r1 || (r == r1 && c >= c1)) && (r < r2 || (r == r2 && c < c2))
    }
}

/// Law: the foreground colour of a cell inside the grid width is that of
/// the last span covering it in reading order, later spans winning; with
/// no span covering it, it has none.  In particular every cell of each row
/// strictly between the two ends of a span is covered.
pub proof fn law_cell_color_is_last_covering_span(spans: Seq<crate::backend::ColorSpan>, r: usize, c: usize, cols: usize)
    requires
        c < cols,
    ensures
        spans.len() == 0 ==> crate::backend::color_at(spans, r, c, cols) is None,
        spans.len() > 0 ==> crate::backend::color_at(spans, r, c, cols) == (if in_span(
            spans.last().0,
            spans.last().1,
            spans.last().2,
            spans.last().3,
            r,
            c,
        ) {
            Some((spans.last().4, spans.last().5, spans.last().6))
        } else {
            crate::backend::color_at(spans.drop_last(), r, c, cols)
        }),
{
}

/// A rectangle `(x, y, width, height)` of cells holds cell (`x`, `y`).
pub open spec fn rect_holds(rect: (usize, usize, usize, usize), x: usize, y: usize) -> bool {
    rect.0 <= x < rect.0 + rect.2 && rect.1 <= y < rect.1 + rect.3
}

/// Some rectangle of `rects` holds cell (`x`, `y`).
pub open spec fn rects_hold(rects: Seq<(usize, usize, usize, usize)>, x: usize, y: usize) -> bool {
    exists|i: int| 0 <= i < rects.len() && #[trigger] rect_holds(rects[i], x, y)
}

/// Law: within the grid width, the rectangles drawn for a region or
/// highlight hold exactly the cells of the span (in reading order from one
/// end to the other); each row strictly between the ends of a multi-row
/// span is covered over its full width.
pub proof fn law_span_rects_cover_span(sr: usize, sc: usize, er: usize, ec: usize, cols: usize, x: usize, y: usize)
    requires
        x < cols,
    ensures
        rects_hold(crate::backend::span_rects_spec(sr, sc, er, ec, cols), x, y) <==> in_span(
            sr,
            sc,
            er,
            ec,
            y,
            x,
        ),
{
    let v = crate::backend::span_rects_spec(sr, sc, er, ec, cols);
    if sr == er {
        if in_span(sr, sc, er, ec, y, x) {
            assert(rect_holds(v[0], x, y));
        }
    } else {
        let (r1, c1, r2, c2) = if sr < er {
            (sr, sc, er, ec)
        } else {
            (er, ec, sr, sc)
        };
        let first = seq![(c1, r1, (if cols > c1 { cols - c1 } else { 0 }) as usize, 1usize)];
        let middle = if r2 > r1 + 1 {
            seq![(0usize, (r1 + 1) as usize, cols, (r2 - r1 - 1) as usize)]
        } else {
            seq![]
        };
        let last = if c2 > 0 {
            seq![(0usize, r2, c2, 1usize)]
        } else {
            seq![]
        };
        assert(v == first + middle + last);
        if in_span(sr, sc, er, ec, y, x) {
            if y == r1 {
                assert(rect_holds(v[0], x, y));
            } else if y < r2 {
                assert(v[1] == middle[0]);
                assert(rect_holds(v[1], x, y));
            } else {
                let k = 1 + middle.len();
                assert(v[k as int] == last[0]);
                assert(rect_holds(v[k as int], x, y));
            }
        }
        if rects_hold(v, x, y) {
            let i = choose|i: int| 0 <= i < v.len() && #[trigger] rect_holds(v[i], x, y);
            if i == 0 {
                assert(v[i] == first[0]);
            } else if i < 1 + middle.len() {
                assert(v[i] == middle[i - 1]);
            } else {
                assert(v[i] == last[i - 1 - middle.len()]);
            }
        }
    }
}

} // verus!

verus! {

/// Law: with neither `NEMACS_HOME` nor `NEMACS_LAYER2_SRC` set, the source
/// directory is candidate `i` under the home directory whenever candidate
/// `i` holds the marker file and no earlier one does (the first candidate
/// included); when none holds it, it is the last candidate.
pub proof fn law_layer2_src_first_marked_candidate(home: Seq<char>, marked: Seq<bool>, i: int)
    requires
        marked.len() == crate::bridge::NUM_CANDIDATES,
    ensures
        0 <= i < crate::bridge::NUM_CANDIDATES && marked[i] && (forall|j: int| 0 <= j < i ==> !marked[j])
            ==> layer2_src_spec(None, None, home, marked) == home + crate::bridge::candidate_suffix(i),
        (forall|j: int| 0 <= j < crate::bridge::NUM_CANDIDATES ==> !marked[j]) ==> layer2_src_spec(
            None,
            None,
            home,
            marked,
        ) == home + crate::bridge::candidate_suffix(crate::bridge::NUM_CANDIDATES - 1),
{
    let cs = crate::bridge::candidates_spec(home);
    if 0 <= i < crate::bridge::NUM_CANDIDATES && marked[i] && (forall|j: int| 0 <= j < i ==> !marked[j]) {
        assert(!marked[0] ==> i > 0);
        if i >= 1 {
            assert(!marked[0]);
        }
        if i >= 2 {
            assert(!marked[1]);
        }
        if i >= 3 {
            assert(!marked[2]);
        }
        assert(crate::bridge::first_marked(cs, marked, 4) == cs[3]);
        assert(crate::bridge::first_marked(cs, marked, 3) == if marked[3] { cs[3] } else { cs[3] });
        assert(crate::bridge::first_marked(cs, marked, 2) == if marked[2] {
            cs[2]
        } else {
            crate::bridge::first_marked(cs, marked, 3)
        });
        assert(crate::bridge::first_marked(cs, marked, 1) == if marked[1] {
            cs[1]
        } else {
            crate::bridge::first_marked(cs, marked, 2)
        });
        assert(crate::bridge::first_marked(cs, marked, 0) == if marked[0] {
            cs[0]
        } else {
            crate::bridge::first_marked(cs, marked, 1)
        });
        assert(crate::bridge::first_marked(cs, marked, 0) == cs[i]);
    }
    if forall|j: int| 0 <= j < crate::bridge::NUM_CANDIDATES ==> !marked[j] {
        assert(!marked[0] && !marked[1] && !marked[2] && !marked[3]);
        assert(crate::bridge::first_marked(cs, marked, 4) == cs[3]);
        assert(crate::bridge::first_marked(cs, marked, 3) == cs[3]);
        assert(crate::bridge::first_marked(cs, marked, 2) == cs[3]);
        assert(crate::bridge::first_marked(cs, marked, 1) == cs[3]);
        assert(crate::bridge::first_marked(cs, marked, 0) == cs[3]);
    }
}

/// Law: the candidate source directories are, in order, the Cowork
/// worktree, the plain worktree, the Cowork checkout and the plain checkout
/// of `nelisp-emacs` under the home directory.
pub proof fn law_layer2_candidates_in_order(home: Seq<char>)
    ensures
        crate::bridge::candidates_spec(home).len() == 4,
        crate::bridge::candidates_spec(home)[0] == home
            + "/Cowork/Notes/dev/nelisp-emacs/.worktrees/emacs-builtins-port/src"@,
        crate::bridge::candidates_spec(home)[1] == home
            + "/Notes/dev/nelisp-emacs/.worktrees/emacs-builtins-port/src"@,
        crate::bridge::candidates_spec(home)[2] == home + "/Cowork/Notes/dev/nelisp-emacs/src"@,
        crate::bridge::candidates_spec(home)[3] == home + "/Notes/dev/nelisp-emacs/src"@,
{
}

proof fn lemma_digit_roundtrip(d: nat)
    requires
        d < 10,
    ensures
        crate::text::is_digit(crate::text::digit_char_spec(d)),
        crate::text::digit_value(crate::text::digit_char_spec(d)) == d,
{
}

/// Law: the decimal representation of `n` consists of digits only and
/// reads back as `n`.
pub proof fn law_decimal_reads_back(n: nat)
    ensures
        crate::text::all_digits(crate::text::decimal(n)),
        crate::text::digits_value(crate::text::decimal(n)) == n,
    decreases n,
{
    let d = crate::text::decimal(n);
    if n < 10 {
        lemma_digit_roundtrip(n);
        assert(d.drop_last() =~= Seq::<char>::empty());
        assert(crate::text::digits_value(d) == crate::text::digits_value(d.drop_last()) * 10
            + crate::text::digit_value(d.last()));
    } else {
        law_decimal_reads_back(n / 10);
        lemma_digit_roundtrip(n % 10);
        let p = crate::text::decimal(n / 10);
        assert(d == p.push(crate::text::digit_char_spec(n % 10)));
        assert(d.drop_last() =~= p);
        assert(n == (n / 10) * 10 + n % 10) by (nonlinear_arith);
        assert(d.last() == crate::text::digit_char_spec(n % 10));
        assert(crate::text::digits_value(d) == crate::text::digits_value(p) * 10
            + crate::text::digit_value(d.last()));
        assert forall|i: int| 0 <= i < d.len() implies crate::text::is_digit(#[trigger] d[i]) by {
            if i < p.len() {
                assert(d[i] == p[i]);
            }
        }
    }
}

/// Law: a key that is none of the named editing keys (BackSpace, Return,
/// KP_Enter, Left, Right, Up, Down) and carries a character that is not a
/// control character (outside 0x00..0x1f and 0x7f..0x9f, so every
/// printable character including the space) yields the decimal code of
/// that character, which reads back as the code.
pub proof fn law_printable_key_yields_its_code(name: Seq<char>, c: char)
    requires
        name != "BackSpace"@,
        name != "Return"@,
        name != "KP_Enter"@,
        name != "Left"@,
        name != "Right"@,
        name != "Up"@,
        name != "Down"@,
        !((c as u32) < 0x20 || (0x7f <= (c as u32) && (c as u32) < 0xa0)),
    ensures
        crate::frame::event_literal_spec(name, Some(c)) == Some(crate::text::decimal((c as u32) as nat)),
        crate::text::digits_value(crate::text::decimal((c as u32) as nat)) == (c as u32) as nat,
{
    law_decimal_reads_back((c as u32) as nat);
}

/// Law: keys with a control character and no editing-key name yield no
/// literal, and a key without a character yields none either.
pub proof fn law_control_key_yields_nothing(name: Seq<char>, c: Option<char>)
    requires
        name != "BackSpace"@,
        name != "Return"@,
        name != "KP_Enter"@,
        name != "Left"@,
        name != "Right"@,
        name != "Up"@,
        name != "Down"@,
        match c {
            Some(ch) => (ch as u32) < 0x20 || (0x7f <= (ch as u32) && (ch as u32) < 0xa0),
            None => true,
        },
    ensures
        crate::frame::event_literal_spec(name, c) is None,
{
}

} // verus!

verus! {

/// Law: writing `s` into row `row` from column `col` puts its `k`-th
/// character in column `col + k` (where that cell exists), leaves every
/// other cell as it was, and keeps the grid's shape.
pub proof fn law_write_str_cells(g: Seq<Seq<char>>, row: int, col: int, s: Seq<char>)
    ensures
        write_str(g, row, col, s).len() == g.len(),
        forall|r: int| 0 <= r < g.len() ==> #[trigger] write_str(g, row, col, s)[r].len() == g[r].len(),
        forall|k: int|
            0 <= k < s.len() && 0 <= row < g.len() && 0 <= col + k < g[row].len() ==> #[trigger] write_str(
                g,
                row,
                col,
                s,
            )[row][col + k] == s[k],
        forall|r: int, c: int|
            0 <= r < g.len() && 0 <= c < g[r].len() && !(r == row && col <= c < col + s.len())
                ==> #[trigger] write_str(g, row, col, s)[r][c] == g[r][c],
{
    assert forall|k: int|
        0 <= k < s.len() && 0 <= row < g.len() && 0 <= col + k < g[row].len() implies #[trigger] write_str(
            g,
            row,
            col,
            s,
        )[row][col + k] == s[k] by {
        assert(col + k - col == k);
    }
}

/// Law: a uniform picture has the asked shape and the asked character in
/// every cell.
pub proof fn law_uniform_cells(rows: nat, cols: nat, ch: char)
    ensures
        has_shape(crate::grid::uniform(rows, cols, ch), rows, cols),
        forall|r: int, c: int|
            0 <= r < rows && 0 <= c < cols ==> #[trigger] crate::grid::uniform(rows, cols, ch)[r][c] == ch,
{
}

/// Law: a cut string is exactly `max` characters long (for a limit of at
/// least one).
pub proof fn law_truncate_exact_length(s: Seq<char>, max: nat)
    requires
        s.len() > max,
        max >= 1,
    ensures
        truncate_spec(s, max).len() == max,
{
}

/// The printed form of one character inside a Lisp string.
pub open spec fn escape_char(c: char) -> Seq<char> {
    if c == '\n' {
        seq!['\\', 'n']
    } else if c == '\t' {
        seq!['\\', 't']
    } else if c == '\\' {
        seq!['\\', '\\']
    } else if c == '"' {
        seq!['\\', '"']
    } else {
        seq![c]
    }
}

/// The printed form of a string's contents, escapes included.
pub open spec fn escape_text(s: Seq<char>) -> Seq<char>
    decreases s.len(),
{
    if s.len() == 0 {
        seq![]
    } else {
        escape_char(s[0]) + escape_text(s.drop_first())
    }
}

/// Law: decoding the escaped contents of any string gives the string back.
pub proof fn law_unescape_of_escaped(s: Seq<char>)
    ensures
        unescape(escape_text(s)) == s,
    decreases s.len(),
{
    if s.len() > 0 {
        law_unescape_of_escaped(s.drop_first());
        let rest = escape_text(s.drop_first());
        let e = escape_char(s[0]) + rest;
        assert(e == escape_text(s));
        let c = s[0];
        if c == '\n' || c == '\t' || c == '\\' || c == '"' {
            assert(e[0] == '\\');
            assert(e.skip(2) =~= rest);
        } else {
            assert(e.drop_first() =~= rest);
        }
        assert(seq![c] + s.drop_first() =~= s);
    } else {
        assert(escape_text(s) =~= Seq::<char>::empty());
    }
}

/// Law: decoding the quoted printed form of any string gives it back.
pub proof fn law_unquote_of_printed(s: Seq<char>)
    ensures
        unquote_spec(seq!['"'] + escape_text(s) + seq!['"']) == s,
{
    let q = seq!['"'] + escape_text(s) + seq!['"'];
    assert(q.subrange(1, q.len() - 1) =~= escape_text(s));
    law_unescape_of_escaped(s);
}

/// Law: walking text ends on the row numbered by the newlines passed and
/// in the column given by the length of the text after the last newline.
pub proof fn law_row_col_counts_newlines(s: Seq<char>)
    ensures
        crate::text::row_col_after(s).0 == count_char(s, '\n'),
        crate::text::row_col_after(s).1 == crate::backend::newline_split(s).last().len(),
    decreases s.len(),
{
    if s.len() > 0 {
        law_row_col_counts_newlines(s.drop_last());
        law_repaint_lines_are_newline_pieces(s.drop_last());
    }
}

/// How many times byte `b` occurs in `s`.
pub open spec fn count_byte(s: Seq<u8>, b: u8) -> nat
    decreases s.len(),
{
    if s.len() == 0 {
        0
    } else {
        count_byte(s.drop_last(), b) + if s.last() == b {
            1nat
        } else {
            0nat
        }
    }
}

/// Law: walking bytes ends on the row numbered by the newline bytes passed,
/// in the column given by the bytes after the last newline (or all of them
/// when there is none).
pub proof fn law_byte_row_col_counts_newlines(b: Seq<u8>)
    ensures
        crate::backend::byte_row_col(b).0 == count_byte(b, 10u8),
        forall|k: int| 0 <= k < b.len() && b[k] == 10u8 ==> crate::backend::byte_row_col(b).1 < b.len() - k,
        crate::backend::byte_row_col(b).1 <= b.len(),
        crate::backend::byte_row_col(b).1 < b.len() ==> b[b.len() - 1 - crate::backend::byte_row_col(b).1]
            == 10u8,
        forall|k: int|
            b.len() - crate::backend::byte_row_col(b).1 <= k < b.len() ==> #[trigger] b[k] != 10u8,
    decreases b.len(),
{
    if b.len() > 0 {
        let t = b.drop_last();
        law_byte_row_col_counts_newlines(t);
        assert forall|k: int| 0 <= k < b.len() && b[k] == 10u8 implies crate::backend::byte_row_col(b).1 < b.len()
            - k by {
            if k < t.len() {
                assert(t[k] == b[k]);
            }
        }
        assert forall|k: int| b.len() - crate::backend::byte_row_col(b).1 <= k < b.len() implies #[trigger] b[k]
            != 10u8 by {
            if k < t.len() {
                assert(t[k] == b[k]);
            }
        }
    }
}

} // verus!

verus! {

/// All the pieces of `parts` put one after another.
pub open spec fn concat_all(parts: Seq<Seq<char>>) -> Seq<char>
    decreases parts.len(),
{
    if parts.len() == 0 {
        seq![]
    } else {
        concat_all(parts.drop_last()) + parts.last()
    }
}

/// Law: the text is cut into non-empty pieces that put together give it
/// back, each ending at a newline (the last one possibly not) and holding
/// no other newline; there is one piece per newline, plus one for text
/// after the last newline.
pub proof fn law_text_segments(s: Seq<char>)
    ensures
        concat_all(crate::text::segments(s)) == s,
        crate::text::segments(s).len() == count_char(s, '\n') + if s.len() > 0 && s.last() != '\n' {
            1nat
        } else {
            0nat
        },
        forall|i: int| 0 <= i < crate::text::segments(s).len() ==> #[trigger] crate::text::segments(s)[i].len() > 0,
        forall|i: int|
            0 <= i < crate::text::segments(s).len() - 1 ==> #[trigger] crate::text::segments(s)[i].last() == '\n',
        forall|i: int, k: int|
            0 <= i < crate::text::segments(s).len() && 0 <= k < crate::text::segments(s)[i].len() - 1
                ==> #[trigger] crate::text::segments(s)[i][k] != '\n',
    decreases s.len(),
{
    let q = crate::text::segments(s);
    if s.len() == 0 {
        assert(concat_all(q) =~= s);
    } else {
        let t = s.drop_last();
        let c = s.last();
        law_text_segments(t);
        let p = crate::text::segments(t);
        assert(t.push(c) =~= s);
        if p.len() == 0 || p.last().last() == '\n' {
            assert(q == p.push(seq![c]));
            assert(q.drop_last() =~= p);
            assert(concat_all(q) =~= s);
            if p.len() > 0 {
                assert(t.len() > 0 && t.last() == '\n');
            } else {
                assert(count_char(t, '\n') == 0);
                assert(t.len() == 0) by {
                    if t.len() > 0 {
                        assert(concat_all(p) =~= Seq::<char>::empty());
                    }
                }
            }
            assert forall|i: int, k: int| 0 <= i < q.len() && 0 <= k < q[i].len() - 1 implies #[trigger] q[i][k]
                != '\n' by {
                if i < p.len() {
                    assert(q[i] == p[i]);
                }
            }
            assert forall|i: int| 0 <= i < q.len() - 1 implies #[trigger] q[i].last() == '\n' by {
                assert(q[i] == p[i]);
            }
        } else {
            let x = p.last().push(c);
            assert(q == p.update(p.len() - 1, x));
            assert(q.drop_last() =~= p.drop_last());
            assert(concat_all(p) == concat_all(p.drop_last()) + p.last());
            assert(concat_all(q) =~= s);
            assert(t.len() > 0 && t.last() != '\n') by {
                if t.len() == 0 {
                    assert(concat_all(p) =~= t);
                }
                assert(concat_all(p).last() == p.last().last());
            }
            assert forall|i: int, k: int| 0 <= i < q.len() && 0 <= k < q[i].len() - 1 implies #[trigger] q[i][k]
                != '\n' by {
                if i < p.len() - 1 {
                    assert(q[i] == p[i]);
                } else {
                    if k < p.last().len() - 1 {
                        assert(q[i][k] == p[i][k]);
                    } else {
                        assert(q[i][k] == p.last().last());
                    }
                }
            }
            assert forall|i: int| 0 <= i < q.len() - 1 implies #[trigger] q[i].last() == '\n' by {
                assert(q[i] == p[i]);
            }
        }
    }
}

/// Law: no line of a text holds a newline, and there is one line per
/// newline plus one for text after the last newline.
pub proof fn law_text_lines(s: Seq<char>)
    ensures
        crate::text::lines_spec(s).len() == count_char(s, '\n') + if s.len() > 0 && s.last() != '\n' {
            1nat
        } else {
            0nat
        },
        forall|i: int, k: int|
            0 <= i < crate::text::lines_spec(s).len() && 0 <= k < crate::text::lines_spec(s)[i].len()
                ==> #[trigger] crate::text::lines_spec(s)[i][k] != '\n',
{
    law_text_segments(s);
    let q = crate::text::segments(s);
    assert forall|i: int, k: int|
        0 <= i < crate::text::lines_spec(s).len() && 0 <= k < crate::text::lines_spec(s)[i].len()
            implies #[trigger] crate::text::lines_spec(s)[i][k] != '\n' by {
        let l = crate::text::lines_spec(s)[i];
        assert(l == crate::text::strip_line_end(q[i]));
        assert(q[i][k] != '\n');
        assert(l[k] == q[i][k]);
    }
}

} // verus!

verus! {

/// Law: when every colour-span entry is usable (seven non-negative
/// integers), the spans read are one per entry, in order: the four
/// positions as given (as `usize`) and each colour held to at most 255; a malformed
/// entry placed anywhere adds nothing.
pub proof fn law_color_spans_one_per_entry(entries: Seq<Seq<Option<i64>>>, bad: Seq<Option<i64>>)
    requires
        forall|i: int| 0 <= i < entries.len() ==> crate::backend::entry_ok(#[trigger] entries[i], 7),
        !crate::backend::entry_ok(bad, 7),
    ensures
        crate::backend::color_spans_spec(entries).len() == entries.len(),
        forall|i: int|
            0 <= i < entries.len() ==> {
                let s = #[trigger] crate::backend::color_spans_spec(entries)[i];
                let e = entries[i];
                &&& s.0 == e[0]->0 as usize && s.1 == e[1]->0 as usize && s.2 == e[2]->0 as usize && s.3 == e[3]->0 as usize
                &&& s.4 as i64 == (if e[4]->0 > 255 { 255 } else { e[4]->0 })
                &&& s.5 as i64 == (if e[5]->0 > 255 { 255 } else { e[5]->0 })
                &&& s.6 as i64 == (if e[6]->0 > 255 { 255 } else { e[6]->0 })
            },
        crate::backend::color_spans_spec(entries.push(bad)) == crate::backend::color_spans_spec(entries),
    decreases entries.len(),
{
    let q = crate::backend::color_spans_spec(entries);
    if entries.len() > 0 {
        let t = entries.drop_last();
        assert forall|i: int| 0 <= i < t.len() implies crate::backend::entry_ok(#[trigger] t[i], 7) by {
            assert(t[i] == entries[i]);
        }
        law_color_spans_one_per_entry(t, bad);
        let p = crate::backend::color_spans_spec(t);
        assert(crate::backend::entry_ok(entries[entries.len() - 1], 7));
        assert(q == p.push(crate::backend::color_span_of(entries.last())));
        assert forall|i: int| 0 <= i < entries.len() implies {
            let s = #[trigger] q[i];
            let e = entries[i];
            &&& s.0 == e[0]->0 as usize && s.1 == e[1]->0 as usize && s.2 == e[2]->0 as usize && s.3 == e[3]->0 as usize
            &&& s.4 as i64 == (if e[4]->0 > 255 { 255 } else { e[4]->0 })
            &&& s.5 as i64 == (if e[5]->0 > 255 { 255 } else { e[5]->0 })
            &&& s.6 as i64 == (if e[6]->0 > 255 { 255 } else { e[6]->0 })
        } by {
            let e = entries[i];
            assert(crate::backend::entry_ok(e, 7));
            assert(e[0] is Some && e[1] is Some && e[2] is Some && e[3] is Some);
            assert(e[4] is Some && e[5] is Some && e[6] is Some);
            if i < t.len() {
                assert(q[i] == p[i]);
                assert(t[i] == e);
            }
        }
    }
    assert(entries.push(bad).drop_last() =~= entries);
}

/// Law: when every highlight entry is usable (eight non-negative
/// integers), the highlights read are one per entry, in order: the four
/// positions as given (as `usize`) and each colour and alpha held to at most 255; a
/// malformed entry placed anywhere adds nothing.
pub proof fn law_highlights_one_per_entry(entries: Seq<Seq<Option<i64>>>, bad: Seq<Option<i64>>)
    requires
        forall|i: int| 0 <= i < entries.len() ==> crate::backend::entry_ok(#[trigger] entries[i], 8),
        !crate::backend::entry_ok(bad, 8),
    ensures
        crate::backend::highlights_spec(entries).len() == entries.len(),
        forall|i: int|
            0 <= i < entries.len() ==> {
                let h = #[trigger] crate::backend::highlights_spec(entries)[i];
                let e = entries[i];
                &&& h.0 == e[0]->0 as usize && h.1 == e[1]->0 as usize && h.2 == e[2]->0 as usize && h.3 == e[3]->0 as usize
                &&& h.4 as i64 == (if e[4]->0 > 255 { 255 } else { e[4]->0 })
                &&& h.5 as i64 == (if e[5]->0 > 255 { 255 } else { e[5]->0 })
                &&& h.6 as i64 == (if e[6]->0 > 255 { 255 } else { e[6]->0 })
                &&& h.7 as i64 == (if e[7]->0 > 255 { 255 } else { e[7]->0 })
            },
        crate::backend::highlights_spec(entries.push(bad)) == crate::backend::highlights_spec(entries),
    decreases entries.len(),
{
    let q = crate::backend::highlights_spec(entries);
    if entries.len() > 0 {
        let t = entries.drop_last();
        assert forall|i: int| 0 <= i < t.len() implies crate::backend::entry_ok(#[trigger] t[i], 8) by {
            assert(t[i] == entries[i]);
        }
        law_highlights_one_per_entry(t, bad);
        let p = crate::backend::highlights_spec(t);
        assert(crate::backend::entry_ok(entries[entries.len() - 1], 8));
        assert(q == p.push(crate::backend::highlight_of(entries.last())));
        assert forall|i: int| 0 <= i < entries.len() implies {
            let h = #[trigger] q[i];
            let e = entries[i];
            &&& h.0 == e[0]->0 as usize && h.1 == e[1]->0 as usize && h.2 == e[2]->0 as usize && h.3 == e[3]->0 as usize
            &&& h.4 as i64 == (if e[4]->0 > 255 { 255 } else { e[4]->0 })
            &&& h.5 as i64 == (if e[5]->0 > 255 { 255 } else { e[5]->0 })
            &&& h.6 as i64 == (if e[6]->0 > 255 { 255 } else { e[6]->0 })
            &&& h.7 as i64 == (if e[7]->0 > 255 { 255 } else { e[7]->0 })
        } by {
            let e = entries[i];
            assert(crate::backend::entry_ok(e, 8));
            assert(e[0] is Some && e[1] is Some && e[2] is Some && e[3] is Some);
            assert(e[4] is Some && e[5] is Some && e[6] is Some && e[7] is Some);
            if i < t.len() {
                assert(q[i] == p[i]);
                assert(t[i] == e);
            }
        }
    }
    assert(entries.push(bad).drop_last() =~= entries);
}

/// Law: a font is chosen exactly for the point sizes 4 ..= 200; it is
/// `Monospace ` followed by digits that read back as the size.
pub proof fn law_font_for_size(size: i64)
    ensures
        crate::backend::font_for_size_spec(size) is Some <==> 4 <= size <= 200,
        4 <= size <= 200 ==> {
            let f = crate::backend::font_for_size_spec(size)->0;
            &&& f.take(10) == "Monospace "@
            &&& crate::text::all_digits(f.skip(10))
            &&& crate::text::digits_value(f.skip(10)) == size
        },
{
    if 4 <= size <= 200 {
        law_decimal_reads_back(size as nat);
        reveal_strlit("Monospace ");
        let f = crate::backend::font_for_size_spec(size)->0;
        assert(f.take(10) =~= "Monospace "@);
        assert(f.skip(10) =~= crate::text::decimal(size as nat));
    }
}

} // verus!

verus! {

proof fn lemma_trim_start_drops_leading_space(s: Seq<char>)
    ensures
        exists|i: int|
            0 <= i <= s.len() && #[trigger] crate::text::trim_start_spec(s) == s.skip(i) && (forall|k: int|
                0 <= k < i ==> crate::text::is_whitespace_spec(#[trigger] s[k])) && (i < s.len()
                ==> !crate::text::is_whitespace_spec(s[i])),
    decreases s.len(),
{
    if s.len() > 0 && crate::text::is_whitespace_spec(s[0]) {
        let t = s.drop_first();
        lemma_trim_start_drops_leading_space(t);
        let i = choose|i: int|
            0 <= i <= t.len() && #[trigger] crate::text::trim_start_spec(t) == t.skip(i) && (forall|k: int|
                0 <= k < i ==> crate::text::is_whitespace_spec(#[trigger] t[k])) && (i < t.len()
                ==> !crate::text::is_whitespace_spec(t[i]));
        assert(t.skip(i) =~= s.skip(i + 1));
        assert forall|k: int| 0 <= k < i + 1 implies crate::text::is_whitespace_spec(#[trigger] s[k]) by {
            if k > 0 {
                assert(s[k] == t[k - 1]);
            }
        }
        assert(i + 1 < s.len() ==> s[i + 1] == t[i]);
    } else {
        assert(s.skip(0) =~= s);
    }
}

proof fn lemma_trim_end_drops_trailing_space(s: Seq<char>)
    ensures
        exists|j: int|
            0 <= j <= s.len() && #[trigger] crate::text::trim_end_spec(s) == s.take(j) && (forall|k: int|
                j <= k < s.len() ==> crate::text::is_whitespace_spec(#[trigger] s[k])) && (j > 0
                ==> !crate::text::is_whitespace_spec(s[j - 1])),
    decreases s.len(),
{
    if s.len() > 0 && crate::text::is_whitespace_spec(s.last()) {
        let t = s.drop_last();
        lemma_trim_end_drops_trailing_space(t);
        let j = choose|j: int|
            0 <= j <= t.len() && #[trigger] crate::text::trim_end_spec(t) == t.take(j) && (forall|k: int|
                j <= k < t.len() ==> crate::text::is_whitespace_spec(#[trigger] t[k])) && (j > 0
                ==> !crate::text::is_whitespace_spec(t[j - 1]));
        assert(t.take(j) =~= s.take(j));
        assert forall|k: int| j <= k < s.len() implies crate::text::is_whitespace_spec(#[trigger] s[k]) by {
            if k < t.len() {
                assert(s[k] == t[k]);
            }
        }
        assert(j > 0 ==> s[j - 1] == t[j - 1]);
    } else {
        assert(s.take(s.len() as int) =~= s);
    }
}

/// Law: trimming keeps one contiguous stretch `s[i .. j]` of the text:
/// everything before `i` and from `j` on is whitespace, and a non-empty
/// result begins and ends with a character that is not whitespace.
pub proof fn law_trim_keeps_inner_stretch(s: Seq<char>)
    ensures
        exists|i: int, j: int|
            0 <= i <= j <= s.len() && #[trigger] crate::text::trim_spec(s) == s.subrange(i, j) && (forall|
                k: int,
            |
                (0 <= k < i || j <= k < s.len()) ==> crate::text::is_whitespace_spec(#[trigger] s[k])) && (i
                < j ==> !crate::text::is_whitespace_spec(s[i]) && !crate::text::is_whitespace_spec(s[j - 1])),
{
    lemma_trim_start_drops_leading_space(s);
    let i = choose|i: int|
        0 <= i <= s.len() && #[trigger] crate::text::trim_start_spec(s) == s.skip(i) && (forall|k: int|
            0 <= k < i ==> crate::text::is_whitespace_spec(#[trigger] s[k])) && (i < s.len()
            ==> !crate::text::is_whitespace_spec(s[i]));
    let t = s.skip(i);
    lemma_trim_end_drops_trailing_space(t);
    let j = choose|j: int|
        0 <= j <= t.len() && #[trigger] crate::text::trim_end_spec(t) == t.take(j) && (forall|k: int|
            j <= k < t.len() ==> crate::text::is_whitespace_spec(#[trigger] t[k])) && (j > 0
            ==> !crate::text::is_whitespace_spec(t[j - 1]));
    assert(t.take(j) =~= s.subrange(i, i + j));
    assert forall|k: int| (0 <= k < i || i + j <= k < s.len()) implies crate::text::is_whitespace_spec(
        #[trigger] s[k],
    ) by {
        if k >= i + j {
            assert(s[k] == t[k - i]);
        }
    }
    if j > 0 {
        assert(s[i + j - 1] == t[j - 1]);
    }
    assert(crate::text::trim_spec(s) == s.subrange(i, i + j));
}

/// Law: dropping the trailing slashes of a directory (as done to
/// `NEMACS_HOME`) keeps a prefix of the text, drops only `/` characters,
/// and leaves a result that is empty or does not end with `/`.
pub proof fn law_trailing_slashes_dropped(s: Seq<char>)
    ensures
        exists|j: int|
            0 <= j <= s.len() && #[trigger] trim_trailing_slashes(s) == s.take(j) && (forall|k: int|
                j <= k < s.len() ==> #[trigger] s[k] == '/') && (j > 0 ==> s[j - 1] != '/'),
    decreases s.len(),
{
    if s.len() > 0 && s.last() == '/' {
        let t = s.drop_last();
        law_trailing_slashes_dropped(t);
        let j = choose|j: int|
            0 <= j <= t.len() && #[trigger] trim_trailing_slashes(t) == t.take(j) && (forall|k: int|
                j <= k < t.len() ==> #[trigger] t[k] == '/') && (j > 0 ==> t[j - 1] != '/');
        assert(t.take(j) =~= s.take(j));
        assert forall|k: int| j <= k < s.len() implies #[trigger] s[k] == '/' by {
            if k < t.len() {
                assert(s[k] == t[k]);
            }
        }
        assert(j > 0 ==> s[j - 1] == t[j - 1]);
    } else {
        assert(s.take(s.len() as int) =~= s);
    }
}

/// Law: the text drawn for a row is the row cut after its last character
/// that is not a space: a prefix of the row, followed only by spaces, and
/// empty or ending with something other than a space.
pub proof fn law_row_text_cut_after_last_mark(s: Seq<char>)
    ensures
        exists|j: int|
            0 <= j <= s.len() && #[trigger] crate::backend::trim_trailing_spaces(s) == s.take(j) && (forall|
                k: int,
            | j <= k < s.len() ==> #[trigger] s[k] == ' ') && (j > 0 ==> s[j - 1] != ' '),
    decreases s.len(),
{
    if s.len() > 0 && s.last() == ' ' {
        let t = s.drop_last();
        law_row_text_cut_after_last_mark(t);
        let j = choose|j: int|
            0 <= j <= t.len() && #[trigger] crate::backend::trim_trailing_spaces(t) == t.take(j) && (forall|
                k: int,
            | j <= k < t.len() ==> #[trigger] t[k] == ' ') && (j > 0 ==> t[j - 1] != ' ');
        assert(t.take(j) =~= s.take(j));
        assert forall|k: int| j <= k < s.len() implies #[trigger] s[k] == ' ' by {
            if k < t.len() {
                assert(s[k] == t[k]);
            }
        }
        assert(j > 0 ==> s[j - 1] == t[j - 1]);
    } else {
        assert(s.take(s.len() as int) =~= s);
    }
}

/// Law: reading the decimal representation of any `n` that fits in a
/// `usize` gives `n` back, with or without a leading `+`.
pub proof fn law_parse_of_decimal(n: nat)
    requires
        n <= usize::MAX,
    ensures
        crate::text::parse_usize_spec(crate::text::decimal(n)) == Some(n),
        crate::text::parse_usize_spec(seq!['+'] + crate::text::decimal(n)) == Some(n),
{
    law_decimal_reads_back(n);
    let d = crate::text::decimal(n);
    assert(d.len() > 0) by {
        if d.len() == 0 {
            assert(crate::text::digits_value(d) == 0);
            assert(n == 0);
        }
    }
    assert(crate::text::is_digit(d[0]));
    assert(d[0] != '+');
    assert((seq!['+'] + d).drop_first() =~= d);
}

} // verus!

verus! {

/// Law: a mode line is exactly `cols` characters wide: it begins with as
/// much of `-U:---  NAME    L<LINE>   POS   (MODE) ` as fits and is padded
/// with dashes after it.
pub proof fn law_mode_line_fits_width(
    name: Seq<char>,
    line: Seq<char>,
    pos: Seq<char>,
    mode: Seq<char>,
    cols: nat,
)
    ensures
        crate::frame::mode_line_spec(name, line, pos, mode, cols).len() == cols,
        forall|k: int|
            0 <= k < cols ==> #[trigger] crate::frame::mode_line_spec(name, line, pos, mode, cols)[k] == (if k
                < crate::frame::mode_line_body(name, line, pos, mode).len() {
                crate::frame::mode_line_body(name, line, pos, mode)[k]
            } else {
                '-'
            }),
{
}

/// Law: after the buffer area is repainted, each cell of its rows and
/// columns shows the matching character of the matching line of the
/// content, or a blank where that line (or the content) has ended; every
/// cell outside the area keeps what it had.
pub proof fn law_buffer_area_cells(g: Seq<Seq<char>>, content: Seq<char>)
    ensures
        crate::frame::buffer_area_spec(g, content).len() == g.len(),
        forall|r: int|
            0 <= r < g.len() ==> #[trigger] crate::frame::buffer_area_spec(g, content)[r].len() == g[r].len(),
        forall|r: int, c: int|
            0 <= r < g.len() && 0 <= c < g[r].len() ==> #[trigger] crate::frame::buffer_area_spec(
                g,
                content,
            )[r][c] == (if r < crate::frame::BUFFER_AREA_END && c < crate::frame::BUFFER_AREA_COL_END {
                let lines = crate::text::lines_spec(content);
                if r < lines.len() && c < lines[r].len() {
                    lines[r][c]
                } else {
                    ' '
                }
            } else {
                g[r][c]
            }),
{
    let lines = crate::text::lines_spec(content);
    let shown = crate::frame::buffer_area_lines(content);
    assert forall|r: int, c: int| 0 <= r < g.len() && 0 <= c < g[r].len() implies #[trigger] crate::frame::buffer_area_spec(
        g,
        content,
    )[r][c] == (if r < crate::frame::BUFFER_AREA_END && c < crate::frame::BUFFER_AREA_COL_END {
        if r < lines.len() && c < lines[r].len() {
            lines[r][c]
        } else {
            ' '
        }
    } else {
        g[r][c]
    }) by {
        if r < crate::frame::BUFFER_AREA_END && r < lines.len() {
            assert(r < shown.len());
            assert(shown[r] == crate::frame::prefix(lines[r], crate::frame::COLS as nat));
        }
    }
}

} // verus!
