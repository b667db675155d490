use vstd::prelude::*;

use crate::board::{
    board_text, cells_wf, coords_of, full, index_of, initial_cells, lemma_marks_claim,
    lemma_marks_none, marks, won, Board, Cell,
};
use crate::turn::{next, Turn};

verus! {

/// What a game is, abstractly: the nine squares and whose move is next.
pub struct GameView {
    pub cells: Seq<Cell>,
    pub turn: Turn,
}

/// A game of tic-tac-toe: one board and whose move is next.
pub struct Game {
    board: Board,
    current_turn: Turn,
}

/// What became of one candidate move.
#[derive(Clone, Copy, Debug, PartialEq, Eq, Structural)]
pub enum MoveResult {
    /// Out of range or on a claimed square: nothing changed.
    Rejected,
    /// Applied; the round goes on.
    Continue,
    /// Applied, and it completed a line for this party.
    Won(Turn),
    /// Applied, and it filled the board with no line completed.
    Draw,
}

/// What the session hands to its driver.
#[derive(Clone, Copy, Debug, PartialEq, Eq, Structural)]
pub enum Event {
    /// A candidate move from the party whose turn it is.
    Candidate(u32),
    /// The answer to "play again?".
    Replay(bool),
}

/// What the session asks of its driver next.
#[derive(Clone, Copy, Debug, PartialEq, Eq, Structural)]
pub enum Action {
    /// Show the board and ask this party for a move.
    RequestMove(Turn),
    /// The last event did not serve: ask this party for a move again.
    RetryMove(Turn),
    /// The round is over: ask whether to play again.
    AskReplay,
    /// The session is over.
    Stop,
}

/// A well-formed board whose marks alternate, the player having moved first.
pub open spec fn view_wf(v: GameView) -> bool {
    &&& cells_wf(v.cells)
    &&& marks(v.cells, Turn::Player) == marks(v.cells, Turn::Bot) + if v.turn == Turn::Bot {
        1nat
    } else {
        0nat
    }
}

/// The state of a new game: a fresh board, and the player to move.
pub open spec fn initial_view() -> GameView {
    GameView { cells: initial_cells(), turn: Turn::Player }
}

/// `m` names an open square: it is a position 1 to 9, and the square still shows its label.
pub open spec fn valid_move(cells: Seq<Cell>, m: int) -> bool {
    1 <= m <= 9 && cells[m - 1] == Cell::Open(m as u32)
}

/// The state after the party to move claims position `m`.
pub open spec fn after_move(v: GameView, m: int) -> GameView {
    GameView { cells: v.cells.update(m - 1, Cell::Claimed(v.turn)), turn: next(v.turn) }
}

/// The round has ended, by a win or by a full board.
pub open spec fn round_over(cells: Seq<Cell>) -> bool {
    won(cells) || full(cells)
}

/// What comes of offering `m` in state `v`.
pub open spec fn move_result(v: GameView, m: int) -> MoveResult {
    if !valid_move(v.cells, m) {
        MoveResult::Rejected
    } else if won(after_move(v, m).cells) {
        MoveResult::Won(v.turn)
    } else if full(after_move(v, m).cells) {
        MoveResult::Draw
    } else {
        MoveResult::Continue
    }
}

/// What the session asks for in state `v`, when the last event served.
pub open spec fn prompt(v: GameView) -> Action {
    if round_over(v.cells) {
        Action::AskReplay
    } else {
        Action::RequestMove(v.turn)
    }
}

/// One step of the session: the next state and what to ask for next.
pub open spec fn step(v: GameView, e: Event) -> (GameView, Action) {
    match e {
        Event::Candidate(m) => if round_over(v.cells) {
            (v, Action::AskReplay)
        } else if valid_move(v.cells, m as int) {
            (after_move(v, m as int), prompt(after_move(v, m as int)))
        } else {
            (v, Action::RetryMove(v.turn))
        },
        Event::Replay(again) => if !round_over(v.cells) {
            (v, Action::RetryMove(v.turn))
        } else if again {
            (initial_view(), Action::RequestMove(Turn::Player))
        } else {
            (v, Action::Stop)
        },
    }
}

impl View for Game {
    type V = GameView;

    closed spec fn view(&self) -> GameView {
        GameView { cells: self.board@, turn: self.current_turn }
    }
}

impl Game {
    /// The board is well formed, and the marks alternate: the player, who moves first, has
    /// as many marks as the bot when the player is to move, and one more when the bot is.
    pub open spec fn wf(&self) -> bool {
        view_wf(self@)
    }

    /// A new game: a fresh board, and the player to move.
    pub fn new() -> (g: Game)
        ensures
            g@ == initial_view(),
            g.wf(),
    {
        let g = Game { board: Board::new(), current_turn: Turn::Player };
        proof {
            lemma_marks_none(initial_cells(), Turn::Player);
            lemma_marks_none(initial_cells(), Turn::Bot);
        }
        g
    }

    /// Advances the session by one event and says what to ask for next.
    ///
    /// A candidate move is applied only while the round is on and only if it is valid; an
    /// invalid one leaves everything as it was and asks the same party again. Once the round
    /// is over, a yes to "play again?" starts a new game and a no ends the session.
    pub fn play_game(&mut self, event: Event) -> (a: Action)
        requires
            old(self).wf(),
        ensures
            final(self).wf(),
            (final(self)@, a) == step(old(self)@, event),
    {
        let over = self.round_is_over();
        match event {
            Event::Candidate(m) => {
                if over {
                    Action::AskReplay
                } else {
                    match self.play_turn(m) {
                        MoveResult::Rejected => Action::RetryMove(self.current_turn),
                        MoveResult::Continue => Action::RequestMove(self.current_turn),
                        MoveResult::Won(_) => Action::AskReplay,
                        MoveResult::Draw => Action::AskReplay,
                    }
                }
            },
            Event::Replay(again) => {
                if !over {
                    Action::RetryMove(self.current_turn)
                } else if again {
                    self.reset();
                    Action::RequestMove(Turn::Player)
                } else {
                    Action::Stop
                }
            },
        }
    }

    /// What the session asks for now: a move from the party to play, or, once the round is
    /// over, whether to play again.
    pub fn next_action(&self) -> (a: Action)
        requires
            self.wf(),
        ensures
            a == prompt(self@),
    {
        if self.round_is_over() {
            Action::AskReplay
        } else {
            Action::RequestMove(self.current_turn)
        }
    }

    /// Offers `candidate` for the party to move. A valid move claims that square and passes
    /// the turn; an invalid one changes nothing.
    pub fn play_turn(&mut self, candidate: u32) -> (r: MoveResult)
        requires
            old(self).wf(),
        ensures
            final(self).wf(),
            r == move_result(old(self)@, candidate as int),
            final(self)@ == if valid_move(old(self)@.cells, candidate as int) {
                after_move(old(self)@, candidate as int)
            } else {
                old(self)@
            },
    {
        if !self.is_valid_move(candidate) {
            return MoveResult::Rejected;
        }
        let mover = self.current_turn;
        let (row, col) = Self::move_to_board_location(candidate);
        self.board.claim(row, col, mover);
        self.current_turn = self.get_next_turn();
        proof {
            assert(self@.cells =~= after_move(old(self)@, candidate as int).cells);
            lemma_move_keeps_wf(old(self)@, candidate as int);
        }
        if self.game_is_won() {
            MoveResult::Won(mover)
        } else if self.board.is_full() {
            MoveResult::Draw
        } else {
            MoveResult::Continue
        }
    }

    /// The move the bot makes: the lowest-numbered open square.
    pub fn get_bot_move(&self) -> (m: u32)
        requires
            self.wf(),
            !full(self@.cells),
        ensures
            valid_move(self@.cells, m as int),
            forall|k: int| 1 <= k < m ==> !valid_move(self@.cells, k),
    {
        let mut i: usize = 0;
        while i < 9
            invariant
                i <= 9,
                self.wf(),
                !full(self@.cells),
                forall|j: int| 0 <= j < i ==> (#[trigger] self@.cells[j]) is Claimed,
            decreases 9 - i,
        {
            if let Cell::Open(_) = self.board.cell(i / 3, i % 3) {
                return (i + 1) as u32;
            }
            i = i + 1;
        }
        proof {
            assert(full(self@.cells));
        }
        0
    }

    /// Whether `unchecked_move` is a position 1 to 9 whose square is still open.
    pub fn is_valid_move(&self, unchecked_move: u32) -> (r: bool)
        requires
            self.wf(),
        ensures
            r == valid_move(self@.cells, unchecked_move as int),
    {
        if unchecked_move < 1 || unchecked_move > 9 {
            return false;
        }
        let (row, col) = Self::move_to_board_location(unchecked_move);
        match self.board.cell(row, col) {
            Cell::Open(_) => true,
            Cell::Claimed(_) => false,
        }
    }

    /// The row and column, both counted from 0, of the 1-based row-major position `game_move`.
    pub fn move_to_board_location(game_move: u32) -> (rc: (usize, usize))
        requires
            1 <= game_move <= 9,
        ensures
            (rc.0 as int, rc.1 as int) == coords_of(game_move as int),
            rc.0 < 3,
            rc.1 < 3,
            index_of(rc.0 as int, rc.1 as int) == game_move - 1,
    {
        let row = (game_move - 1) / 3;
        let col = (game_move - 1) % 3;
        (row as usize, col as usize)
    }

    /// The turn after the current one.
    pub fn get_next_turn(&self) -> (t: Turn)
        ensures
            t == next(self@.turn),
    {
        match self.current_turn {
            Turn::Player => Turn::Bot,
            Turn::Bot => Turn::Player,
        }
    }

    /// Whether some line is completed by one party's marks.
    pub fn game_is_won(&self) -> (r: bool)
        requires
            self.wf(),
        ensures
            r == won(self@.cells),
    {
        self.board.is_won()
    }

    /// Whether no square is left open.
    pub fn board_is_full(&self) -> (r: bool)
        requires
            self.wf(),
        ensures
            r == full(self@.cells),
    {
        self.board.is_full()
    }

    /// Whether the round has ended, by a win or by a full board.
    pub fn round_is_over(&self) -> (r: bool)
        requires
            self.wf(),
        ensures
            r == round_over(self@.cells),
    {
        self.game_is_won() || self.board_is_full()
    }

    /// Starts over: a fresh board, and the player to move.
    pub fn reset(&mut self)
        ensures
            final(self)@ == initial_view(),
            final(self).wf(),
    {
        *self = Game::new();
    }

    /// The board drawn as text.
    pub fn render(&self) -> (s: String)
        requires
            self.wf(),
        ensures
            s@ == board_text(self@.cells),
    {
        self.board.render()
    }

    /// The board.
    pub fn board(&self) -> (b: &Board)
        ensures
            b@ == self@.cells,
    {
        &self.board
    }

    /// Whose move is next.
    pub fn current_turn(&self) -> (t: Turn)
        ensures
            t == self@.turn,
    {
        self.current_turn
    }
}

/// A valid move claims exactly its own square for the party to move: every other square
/// keeps what it held.
pub proof fn lemma_move_changes_one_cell(v: GameView, m: int)
    requires
        cells_wf(v.cells),
        valid_move(v.cells, m),
    ensures
        after_move(v, m).cells.len() == 9,
        after_move(v, m).cells[m - 1] == Cell::Claimed(v.turn),
        v.cells[m - 1] != after_move(v, m).cells[m - 1],
        forall|i: int| 0 <= i < 9 && i != m - 1 ==> after_move(v, m).cells[i] == v.cells[i],
        cells_wf(after_move(v, m).cells),
{
}

/// A valid move keeps the board well formed and the marks alternating.
pub proof fn lemma_move_keeps_wf(v: GameView, m: int)
    requires
        view_wf(v),
        valid_move(v.cells, m),
    ensures
        view_wf(after_move(v, m)),
{
    lemma_marks_claim(v.cells, m - 1, v.turn, Turn::Player);
    lemma_marks_claim(v.cells, m - 1, v.turn, Turn::Bot);
}

} // verus!
