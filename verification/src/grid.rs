//! The character-cell grid: a fixed-size two-dimensional buffer of `char`
//! cells, stored row-major, that the window paints cell by cell.

use vstd::prelude::*;

use crate::text::chars_of;

verus! {

/// Row-major position of cell (`r`, `c`) lies inside a `rows` x `cols` buffer.
pub proof fn lemma_cell_index_in_bounds(r: int, c: int, rows: int, cols: int)
    requires
        0 <= r < rows,
        0 <= c < cols,
    ensures
        0 <= r * cols + c < rows * cols,
        r * cols <= r * cols + c,
{
    assert(0 <= r * cols) by (nonlinear_arith)
        requires
            0 <= r,
            0 <= c < cols,
    ;
    assert(r * cols + c < rows * cols) by (nonlinear_arith)
        requires
            0 <= r < rows,
            0 <= c < cols,
    ;
}

/// Distinct cells have distinct row-major positions.
pub proof fn lemma_cell_index_unique(r1: int, c1: int, r2: int, c2: int, cols: int)
    requires
        0 <= r1,
        0 <= r2,
        0 <= c1 < cols,
        0 <= c2 < cols,
        r1 * cols + c1 == r2 * cols + c2,
    ensures
        r1 == r2,
        c1 == c2,
{
    if r1 < r2 {
        assert(r1 * cols + c1 < r2 * cols + c2) by (nonlinear_arith)
            requires
                r1 < r2,
                0 <= c1 < cols,
                0 <= c2,
        ;
    } else if r2 < r1 {
        assert(r2 * cols + c2 < r1 * cols + c1) by (nonlinear_arith)
            requires
                r2 < r1,
                0 <= c2 < cols,
                0 <= c1,
        ;
    }
}

/// A `rows` x `cols` picture whose every cell holds `ch`.
pub open spec fn uniform(rows: nat, cols: nat, ch: char) -> Seq<Seq<char>> {
    Seq::new(rows, |r: int| Seq::new(cols, |c: int| ch))
}

/// The picture `g` with the characters of `s` written into row `row` from
/// column `col` on; characters that fall outside the picture are dropped.
pub open spec fn write_str(g: Seq<Seq<char>>, row: int, col: int, s: Seq<char>) -> Seq<Seq<char>> {
    Seq::new(
        g.len(),
        |r: int|
            Seq::new(
                g[r].len(),
                |c: int|
                    if r == row && col <= c < col + s.len() {
                        s[c - col]
                    } else {
                        g[r][c]
                    },
            ),
    )
}

/// The picture `g` with cell (`row`, `col`) set to `ch`, or `g` itself when
/// that cell lies outside it.
pub open spec fn write_cell(g: Seq<Seq<char>>, row: int, col: int, ch: char) -> Seq<Seq<char>> {
    if 0 <= row < g.len() && 0 <= col < g[row].len() {
        g.update(row, g[row].update(col, ch))
    } else {
        g
    }
}

/// Every row of `g` has `cols` cells and there are `rows` of them.
pub open spec fn has_shape(g: Seq<Seq<char>>, rows: nat, cols: nat) -> bool {
    &&& g.len() == rows
    &&& forall|r: int| 0 <= r < rows ==> #[trigger] g[r].len() == cols
}

#[derive(Debug, Clone)]
pub struct CharGrid {
    pub rows: usize,
    pub cols: usize,
    /// The cells in row-major order; `wf` ties its length to the shape.
    pub cells: Vec<char>,
}

impl CharGrid {
    /// The cells in row-major order.
    pub open spec fn flat(&self) -> Seq<char> {
        self.cells@
    }

    /// The backing buffer holds exactly `rows * cols` cells.
    pub open spec fn wf(&self) -> bool {
        self.flat().len() == self.rows * self.cols
    }

    /// Row-major position of cell (`row`, `col`).
    pub open spec fn index_of(&self, row: int, col: int) -> int {
        row * self.cols + col
    }
}

impl View for CharGrid {
    type V = Seq<Seq<char>>;

    /// The grid as a sequence of rows, each a sequence of cells.
    open spec fn view(&self) -> Seq<Seq<char>> {
        Seq::new(
            self.rows as nat,
            |r: int| Seq::new(self.cols as nat, |c: int| self.flat()[r * self.cols + c]),
        )
    }
}

impl CharGrid {
    /// A `rows` x `cols` grid with every cell set to `ch`.
    pub fn filled(rows: usize, cols: usize, ch: char) -> (g: Self)
        requires
            rows * cols <= usize::MAX,
        ensures
            g.wf(),
            g.rows == rows,
            g.cols == cols,
            g@ == uniform(rows as nat, cols as nat, ch),
    {
        let n: usize = rows * cols;
        let mut cells: Vec<char> = Vec::new();
        let mut i: usize = 0;
        while i < n
            invariant
                i <= n,
                cells@ =~= Seq::new(i as nat, |k: int| ch),
            decreases n - i,
        {
            cells.push(ch);
            i = i + 1;
        }
        let g = CharGrid { rows, cols, cells };
        assert forall|r: int, c: int| 0 <= r < rows && 0 <= c < cols implies
            #[trigger] g.flat()[r * cols + c] == ch by {
            lemma_cell_index_in_bounds(r, c, rows as int, cols as int);
        }
        assert(g@ =~~= uniform(rows as nat, cols as nat, ch));
        g
    }

    /// A `rows` x `cols` grid of spaces.
    pub fn blank(rows: usize, cols: usize) -> (g: Self)
        requires
            rows * cols <= usize::MAX,
        ensures
            g.wf(),
            g.rows == rows,
            g.cols == cols,
            g@ == uniform(rows as nat, cols as nat, ' '),
    {
        Self::filled(rows, cols, ' ')
    }

    /// Sets cell (`row`, `col`) to `ch`; a position outside the grid is
    /// ignored.
    pub fn put(&mut self, row: usize, col: usize, ch: char)
        requires
            old(self).wf(),
        ensures
            final(self).wf(),
            final(self).rows == old(self).rows,
            final(self).cols == old(self).cols,
            final(self)@ == write_cell(old(self)@, row as int, col as int, ch),
    {
        let len = self.cells.len();
        if row < self.rows && col < self.cols {
            proof {
                lemma_cell_index_in_bounds(row as int, col as int, self.rows as int, self.cols as int);
            }
            let idx: usize = row * self.cols + col;
            let ghost before = *self;
            self.cells.set(idx, ch);
            proof {
                assert forall|r: int, c: int| 0 <= r < self.rows && 0 <= c < self.cols implies
                    #[trigger] self.flat()[r * self.cols + c] == (if r == row && c == col {
                        ch
                    } else {
                        before.flat()[r * self.cols + c]
                    }) by {
                    lemma_cell_index_in_bounds(r, c, self.rows as int, self.cols as int);
                    if r * self.cols + c == idx {
                        lemma_cell_index_unique(r, c, row as int, col as int, self.cols as int);
                    }
                }
                assert(self@ =~~= write_cell(before@, row as int, col as int, ch));
            }
        }
    }

    /// Writes the characters of `s` into row `row` from column `col` on;
    /// characters past the grid's edge are dropped.
    pub fn put_str(&mut self, row: usize, col: usize, s: &str)
        requires
            old(self).wf(),
        ensures
            final(self).wf(),
            final(self).rows == old(self).rows,
            final(self).cols == old(self).cols,
            final(self)@ == write_str(old(self)@, row as int, col as int, s@),
    {
        let chars = chars_of(s);
        self.put_chars(row, col, &chars);
    }

    /// Writes the characters of `chars` into row `row` from column `col` on;
    /// characters past the grid's edge are dropped.
    pub fn put_chars(&mut self, row: usize, col: usize, chars: &Vec<char>)
        requires
            old(self).wf(),
        ensures
            final(self).wf(),
            final(self).rows == old(self).rows,
            final(self).cols == old(self).cols,
            final(self)@ == write_str(old(self)@, row as int, col as int, chars@),
    {
        let ghost start = self@;
        if row >= self.rows || col >= self.cols {
            assert(self@ =~~= write_str(start, row as int, col as int, chars@));
            return;
        }
        let room: usize = self.cols - col;
        let n: usize = if chars.len() < room { chars.len() } else { room };
        let mut i: usize = 0;
        assert(start =~~= write_str(start, row as int, col as int, chars@.take(0)));
        while i < n
            invariant
                self.wf(),
                self.rows == old(self).rows,
                self.cols == old(self).cols,
                start == old(self)@,
                row < self.rows,
                col < self.cols,
                n <= chars.len(),
                n <= self.cols - col,
                i <= n,
                self@ == write_str(start, row as int, col as int, chars@.take(i as int)),
            decreases n - i,
        {
            self.put(row, col + i, chars[i]);
            assert(self@ =~~= write_str(start, row as int, col as int, chars@.take(i + 1)));
            i = i + 1;
        }
        assert(self@ =~~= write_str(start, row as int, col as int, chars@));
    }

    /// The character in cell (`row`, `col`), read at row-major position
    /// `row * cols + col`.
    pub fn get(&self, row: usize, col: usize) -> (c: char)
        requires
            self.wf(),
            row * self.cols + col < self.rows * self.cols,
        ensures
            c == self.flat()[row * self.cols + col],
            row < self.rows && col < self.cols ==> c == self@[row as int][col as int],
    {
        let len = self.cells.len();
        proof {
            assert(0 <= row * self.cols) by (nonlinear_arith);
        }
        self.cells[row * self.cols + col]
    }

    /// Sets every cell back to a space.
    pub fn clear_all(&mut self)
        requires
            old(self).wf(),
        ensures
            final(self).wf(),
            final(self).rows == old(self).rows,
            final(self).cols == old(self).cols,
            final(self)@ == uniform(old(self).rows as nat, old(self).cols as nat, ' '),
    {
        let n = self.cells.len();
        let mut i: usize = 0;
        while i < n
            invariant
                self.wf(),
                self.rows == old(self).rows,
                self.cols == old(self).cols,
                n == self.flat().len(),
                i <= n,
                forall|k: int| 0 <= k < i ==> self.flat()[k] == ' ',
            decreases n - i,
        {
            self.cells.set(i, ' ');
            i = i + 1;
        }
        proof {
            assert forall|r: int, c: int| 0 <= r < self.rows && 0 <= c < self.cols implies
                #[trigger] self.flat()[r * self.cols + c] == ' ' by {
                lemma_cell_index_in_bounds(r, c, self.rows as int, self.cols as int);
            }
            assert(self@ =~~= uniform(self.rows as nat, self.cols as nat, ' '));
        }
    }
}

} // verus!
