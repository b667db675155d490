use vstd::prelude::*;
use vstd::string::StringExecFns;

use crate::turn::Turn;

verus! {

/// One square of the grid: still open, showing its 1-based position as a label, or
/// claimed by one of the two parties.
#[derive(Clone, Copy, Debug, PartialEq, Eq, Structural)]
pub enum Cell {
    Open(u32),
    Claimed(Turn),
}

/// The 3x3 grid, stored row by row.
pub struct Board {
    cells: Vec<Cell>,
}

/// The row and column (both counted from 0) of the 1-based, row-major position `m`.
pub open spec fn coords_of(m: int) -> (int, int) {
    ((m - 1) / 3, (m - 1) % 3)
}

/// The row-major index of the square at `row`, `col`.
pub open spec fn index_of(row: int, col: int) -> int {
    3 * row + col
}

/// The cells of a fresh board: every square open under its own position.
pub open spec fn initial_cells() -> Seq<Cell> {
    Seq::new(9, |i: int| Cell::Open((i + 1) as u32))
}

/// Nine squares, and an open one always shows its own position.
pub open spec fn cells_wf(cells: Seq<Cell>) -> bool {
    &&& cells.len() == 9
    &&& forall|i: int| 0 <= i < 9 && (#[trigger] cells[i]) is Open ==> cells[i] == Cell::Open(
        (i + 1) as u32,
    )
}

/// The three squares (row-major indices) of each of the eight lines: rows, columns, diagonals.
pub open spec fn line(k: int) -> (int, int, int) {
    if k == 0 {
        (0, 1, 2)
    } else if k == 1 {
        (3, 4, 5)
    } else if k == 2 {
        (6, 7, 8)
    } else if k == 3 {
        (0, 3, 6)
    } else if k == 4 {
        (1, 4, 7)
    } else if k == 5 {
        (2, 5, 8)
    } else if k == 6 {
        (0, 4, 8)
    } else {
        (2, 4, 6)
    }
}

/// Squares `a`, `b` and `c` all carry the same party's mark.
pub open spec fn same_mark(cells: Seq<Cell>, a: int, b: int, c: int) -> bool {
    &&& cells[a] is Claimed
    &&& cells[b] == cells[a]
    &&& cells[c] == cells[a]
}

/// Some line is completed by one party's marks.
pub open spec fn won(cells: Seq<Cell>) -> bool {
    exists|k: int| 0 <= k < 8 && #[trigger] same_mark(cells, line(k).0, line(k).1, line(k).2)
}

/// No square is open.
pub open spec fn full(cells: Seq<Cell>) -> bool {
    forall|i: int| 0 <= i < cells.len() ==> (#[trigger] cells[i]) is Claimed
}

/// The text that stands for a square: an open square shows its label (1 to 9 on a
/// well-formed board), a claimed one `X` for the player and `O` for the bot.
pub open spec fn cell_text(c: Cell) -> Seq<char> {
    match c {
        Cell::Open(1) => "1"@,
        Cell::Open(2) => "2"@,
        Cell::Open(3) => "3"@,
        Cell::Open(4) => "4"@,
        Cell::Open(5) => "5"@,
        Cell::Open(6) => "6"@,
        Cell::Open(7) => "7"@,
        Cell::Open(8) => "8"@,
        Cell::Open(_) => "9"@,
        Cell::Claimed(Turn::Player) => "X"@,
        Cell::Claimed(Turn::Bot) => "O"@,
    }
}

/// One row of the drawing, rule below it included.
pub open spec fn row_text(cells: Seq<Cell>, r: int) -> Seq<char> {
    "| "@ + cell_text(cells[3 * r]) + " | "@ + cell_text(cells[3 * r + 1]) + " | "@ + cell_text(
        cells[3 * r + 2],
    ) + " |\n"@ + "+---+---+---+"@ + "\n"@
}

/// The drawing of the board: a blank line, the top rule, three rows each followed by a
/// rule, and a blank line.
pub open spec fn board_text(cells: Seq<Cell>) -> Seq<char> {
    "\n"@ + "+---+---+---+"@ + "\n"@ + row_text(cells, 0) + row_text(cells, 1) + row_text(cells, 2)
        + "\n"@
}

impl View for Board {
    type V = Seq<Cell>;

    closed spec fn view(&self) -> Seq<Cell> {
        self.cells@
    }
}

/// The text of one square.
fn cell_str(c: Cell) -> (r: &'static str)
    ensures
        r@ == cell_text(c),
{
    match c {
        Cell::Open(1) => "1",
        Cell::Open(2) => "2",
        Cell::Open(3) => "3",
        Cell::Open(4) => "4",
        Cell::Open(5) => "5",
        Cell::Open(6) => "6",
        Cell::Open(7) => "7",
        Cell::Open(8) => "8",
        Cell::Open(_) => "9",
        Cell::Claimed(Turn::Player) => "X",
        Cell::Claimed(Turn::Bot) => "O",
    }
}

impl Board {
    /// A fresh board: every square open.
    pub fn new() -> (b: Board)
        ensures
            b@ == initial_cells(),
    {
        let mut cells: Vec<Cell> = Vec::new();
        let mut i: u32 = 0;
        while i < 9
            invariant
                i <= 9,
                cells@.len() == i,
                forall|j: int| 0 <= j < i ==> cells@[j] == Cell::Open((j + 1) as u32),
            decreases 9 - i,
        {
            cells.push(Cell::Open(i + 1));
            i = i + 1;
        }
        assert(cells@ =~= initial_cells());
        Board { cells }
    }

    /// The square at `row`, `col`.
    pub fn cell(&self, row: usize, col: usize) -> (c: Cell)
        requires
            self@.len() == 9,
            row < 3,
            col < 3,
        ensures
            c == self@[index_of(row as int, col as int)],
    {
        self.cells[3 * row + col]
    }

    /// Marks the square at `row`, `col` for `t`, whatever it held; nothing else changes.
    pub fn claim(&mut self, row: usize, col: usize, t: Turn)
        requires
            old(self)@.len() == 9,
            row < 3,
            col < 3,
        ensures
            final(self)@ == old(self)@.update(index_of(row as int, col as int), Cell::Claimed(t)),
    {
        self.cells.set(3 * row + col, Cell::Claimed(t));
    }

    fn same_mark(&self, a: usize, b: usize, c: usize) -> (r: bool)
        requires
            self@.len() == 9,
            a < 9,
            b < 9,
            c < 9,
        ensures
            r == same_mark(self@, a as int, b as int, c as int),
    {
        match self.cells[a] {
            Cell::Claimed(_) => self.cells[b] == self.cells[a] && self.cells[c] == self.cells[a],
            Cell::Open(_) => false,
        }
    }

    /// Whether some row, column or diagonal holds three marks of one party.
    pub fn is_won(&self) -> (r: bool)
        requires
            self@.len() == 9,
        ensures
            r == won(self@),
    {
        let ghost cells = self@;
        let mut k: usize = 0;
        while k < 8
            invariant
                k <= 8,
                self@ == cells,
                cells.len() == 9,
                forall|j: int| 0 <= j < k ==> !#[trigger] same_mark(cells, line(j).0, line(j).1, line(j).2),
            decreases 8 - k,
        {
            let (a, b, c): (usize, usize, usize) = if k == 0 {
                (0, 1, 2)
            } else if k == 1 {
                (3, 4, 5)
            } else if k == 2 {
                (6, 7, 8)
            } else if k == 3 {
                (0, 3, 6)
            } else if k == 4 {
                (1, 4, 7)
            } else if k == 5 {
                (2, 5, 8)
            } else if k == 6 {
                (0, 4, 8)
            } else {
                (2, 4, 6)
            };
            assert(line(k as int) == (a as int, b as int, c as int));
            if self.same_mark(a, b, c) {
                return true;
            }
            k = k + 1;
        }
        false
    }

    /// Whether no square is left open.
    pub fn is_full(&self) -> (r: bool)
        requires
            self@.len() == 9,
        ensures
            r == full(self@),
    {
        let mut i: usize = 0;
        while i < 9
            invariant
                i <= 9,
                self@.len() == 9,
                forall|j: int| 0 <= j < i ==> (#[trigger] self@[j]) is Claimed,
            decreases 9 - i,
        {
            if let Cell::Open(_) = self.cells[i] {
                return false;
            }
            i = i + 1;
        }
        true
    }

    fn append_row(&self, s: &mut String, r: usize)
        requires
            self@.len() == 9,
            r < 3,
        ensures
            final(s)@ == old(s)@ + row_text(self@, r as int),
    {
        let ghost before = s@;
        s.append("| ");
        s.append(cell_str(self.cells[3 * r]));
        s.append(" | ");
        s.append(cell_str(self.cells[3 * r + 1]));
        s.append(" | ");
        s.append(cell_str(self.cells[3 * r + 2]));
        s.append(" |\n");
        s.append("+---+---+---+");
        s.append("\n");
        assert(s@ =~= before + row_text(self@, r as int));
    }

    /// The board drawn as text, one line per row with rules between them.
    pub fn render(&self) -> (s: String)
        requires
            self@.len() == 9,
        ensures
            s@ == board_text(self@),
    {
        let mut s = String::new();
        s.append("\n");
        s.append("+---+---+---+");
        s.append("\n");
        self.append_row(&mut s, 0);
        self.append_row(&mut s, 1);
        self.append_row(&mut s, 2);
        s.append("\n");
        assert(s@ =~= board_text(self@));
        s
    }
}

/// How many squares of `cells` carry `t`'s mark.
pub open spec fn marks(cells: Seq<Cell>, t: Turn) -> nat
    decreases cells.len(),
{
    if cells.len() == 0 {
        0
    } else {
        marks(cells.drop_last(), t) + if cells.last() == Cell::Claimed(t) {
            1nat
        } else {
            0nat
        }
    }
}

/// A board with no claimed square carries no marks.
pub proof fn lemma_marks_none(cells: Seq<Cell>, t: Turn)
    requires
        forall|i: int| 0 <= i < cells.len() ==> (#[trigger] cells[i]) is Open,
    ensures
        marks(cells, t) == 0,
    decreases cells.len(),
{
    if cells.len() > 0 {
        let rest = cells.drop_last();
        assert forall|i: int| 0 <= i < rest.len() implies (#[trigger] rest[i]) is Open by {
            assert(rest[i] == cells[i]);
        }
        lemma_marks_none(rest, t);
    }
}

/// Claiming an open square for `t` adds one mark of `t` and leaves the count of every
/// other party's marks as it was.
pub proof fn lemma_marks_claim(cells: Seq<Cell>, i: int, t: Turn, u: Turn)
    requires
        0 <= i < cells.len(),
        cells[i] is Open,
    ensures
        marks(cells.update(i, Cell::Claimed(t)), u) == marks(cells, u) + if u == t {
            1nat
        } else {
            0nat
        },
    decreases cells.len(),
{
    let after = cells.update(i, Cell::Claimed(t));
    if i < cells.len() - 1 {
        assert(after.drop_last() =~= cells.drop_last().update(i, Cell::Claimed(t)));
        lemma_marks_claim(cells.drop_last(), i, t, u);
    } else {
        assert(after.drop_last() =~= cells.drop_last());
    }
}

/// Each position 1 to 9 lands on a square of the grid, and distinct positions on distinct
/// squares.
pub proof fn lemma_coords_distinct(m1: int, m2: int)
    requires
        1 <= m1 <= 9,
        1 <= m2 <= 9,
    ensures
        0 <= coords_of(m1).0 < 3,
        0 <= coords_of(m1).1 < 3,
        index_of(coords_of(m1).0, coords_of(m1).1) == m1 - 1,
        coords_of(m1) == coords_of(m2) ==> m1 == m2,
{
}

/// Every square of the grid is reached by exactly the position `3 * row + col + 1`.
pub proof fn lemma_coords_onto(row: int, col: int)
    requires
        0 <= row < 3,
        0 <= col < 3,
    ensures
        1 <= index_of(row, col) + 1 <= 9,
        coords_of(index_of(row, col) + 1) == (row, col),
{
}

/// A line filled with one party's marks wins, whatever the other squares hold.
pub proof fn lemma_full_line_wins(cells: Seq<Cell>, k: int, t: Turn)
    requires
        cells.len() == 9,
        0 <= k < 8,
        cells[line(k).0] == Cell::Claimed(t),
        cells[line(k).1] == Cell::Claimed(t),
        cells[line(k).2] == Cell::Claimed(t),
    ensures
        won(cells),
{
    assert(same_mark(cells, line(k).0, line(k).1, line(k).2));
}

/// A board on which no line holds three marks of one party is not won; a fresh board,
/// with no mark at all, is neither won nor full.
pub proof fn lemma_no_line_not_won(cells: Seq<Cell>)
    requires
        cells.len() == 9,
        forall|k: int| 0 <= k < 8 ==> !#[trigger] same_mark(cells, line(k).0, line(k).1, line(k).2),
    ensures
        !won(cells),
        !won(initial_cells()),
        !full(initial_cells()),
{
    let init = initial_cells();
    assert(!same_mark(init, line(0).0, line(0).1, line(0).2));
    assert(init[0] is Open);
}

} // verus!
