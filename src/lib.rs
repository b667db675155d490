//! A tic-tac-toe engine: the board, whose turn it is, move validation, win and draw
//! detection, and the session state machine that drives one round after another.

pub mod board;
pub mod game;
pub mod turn;

pub use board::{Board, Cell};
pub use game::{Action, Event, Game, GameView, MoveResult};
pub use turn::Turn;
