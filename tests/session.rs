use tictactoe::{Action, Board, Cell, Event, Game, MoveResult, Turn};

const INITIAL_DRAWING: &str = "\n+---+---+---+\n| 1 | 2 | 3 |\n+---+---+---+\n| 4 | 5 | 6 |\n+---+---+---+\n| 7 | 8 | 9 |\n+---+---+---+\n\n";

fn play_all(game: &mut Game, moves: &[u32]) -> Vec<MoveResult> {
    moves.iter().map(|m| game.play_turn(*m)).collect()
}

fn assert_fresh(game: &Game) {
    assert_eq!(game.current_turn(), Turn::Player);
    for m in 1..=9u32 {
        let (row, col) = Game::move_to_board_location(m);
        assert_eq!(game.board().cell(row, col), Cell::Open(m));
    }
    assert_eq!(game.render(), INITIAL_DRAWING);
}

#[test]
fn new_game_is_fresh() {
    let game = Game::new();
    assert_fresh(&game);
    assert!(!game.game_is_won());
    assert!(!game.board_is_full());
    assert_eq!(game.next_action(), Action::RequestMove(Turn::Player));
}

#[test]
fn initial_board_drawing() {
    assert_eq!(Board::new().render(), INITIAL_DRAWING);
}

#[test]
fn drawing_shows_marks() {
    let mut game = Game::new();
    assert_eq!(game.play_turn(5), MoveResult::Continue);
    assert_eq!(game.play_turn(1), MoveResult::Continue);
    assert_eq!(
        game.render(),
        "\n+---+---+---+\n| O | 2 | 3 |\n+---+---+---+\n| 4 | X | 6 |\n+---+---+---+\n| 7 | 8 | 9 |\n+---+---+---+\n\n"
    );
}

#[test]
fn coordinates_cover_the_grid_once() {
    let mut seen = [[false; 3]; 3];
    for m in 1..=9u32 {
        let (row, col) = Game::move_to_board_location(m);
        assert!(row < 3 && col < 3);
        assert_eq!(row, ((m - 1) / 3) as usize);
        assert_eq!(col, ((m - 1) % 3) as usize);
        assert!(!seen[row][col]);
        seen[row][col] = true;
    }
    assert!(seen.iter().all(|r| r.iter().all(|c| *c)));
    assert_eq!(Game::move_to_board_location(1), (0, 0));
    assert_eq!(Game::move_to_board_location(6), (1, 2));
    assert_eq!(Game::move_to_board_location(9), (2, 2));
}

#[test]
fn next_turn_is_an_involution() {
    for t in [Turn::Player, Turn::Bot] {
        assert_ne!(t.next(), t);
        assert_eq!(t.next().next(), t);
    }
    assert_eq!(Turn::Player.next(), Turn::Bot);
    let mut game = Game::new();
    assert_eq!(game.get_next_turn(), Turn::Bot);
    game.play_turn(4);
    assert_eq!(game.get_next_turn(), Turn::Player);
}

#[test]
fn valid_move_changes_one_cell() {
    let mut game = Game::new();
    game.play_turn(1);
    game.play_turn(9);
    let before: Vec<Cell> = (1..=9u32)
        .map(|m| {
            let (r, c) = Game::move_to_board_location(m);
            game.board().cell(r, c)
        })
        .collect();
    assert_eq!(game.play_turn(6), MoveResult::Continue);
    for m in 1..=9u32 {
        let (r, c) = Game::move_to_board_location(m);
        let now = game.board().cell(r, c);
        if m == 6 {
            assert_eq!(now, Cell::Claimed(Turn::Player));
        } else {
            assert_eq!(now, before[(m - 1) as usize]);
        }
    }
    assert_eq!(game.current_turn(), Turn::Bot);
}

#[test]
fn every_line_wins_for_either_mark() {
    let lines: [[u32; 3]; 8] = [
        [1, 2, 3],
        [4, 5, 6],
        [7, 8, 9],
        [1, 4, 7],
        [2, 5, 8],
        [3, 6, 9],
        [1, 5, 9],
        [3, 5, 7],
    ];
    for line in lines {
        for t in [Turn::Player, Turn::Bot] {
            let mut board = Board::new();
            for (i, m) in line.iter().enumerate() {
                assert!(!board.is_won());
                let (r, c) = Game::move_to_board_location(*m);
                board.claim(r, c, t);
                assert_eq!(board.is_won(), i == 2);
            }
        }
    }
}

#[test]
fn mixed_line_does_not_win() {
    let mut board = Board::new();
    board.claim(0, 0, Turn::Player);
    board.claim(0, 1, Turn::Bot);
    board.claim(0, 2, Turn::Player);
    assert!(!board.is_won());
    assert!(!board.is_full());
}

#[test]
fn empty_board_is_not_won() {
    assert!(!Board::new().is_won());
    assert!(!Game::new().game_is_won());
}

#[test]
fn full_board_without_line_is_a_draw() {
    // X O X / X O O / O X X
    let mut game = Game::new();
    let results = play_all(&mut game, &[1, 2, 3, 5, 4, 6, 9, 7]);
    assert!(results.iter().all(|r| *r == MoveResult::Continue));
    assert_eq!(game.play_turn(8), MoveResult::Draw);
    assert!(!game.game_is_won());
    assert!(game.board_is_full());
    assert!(game.round_is_over());
    assert_eq!(game.next_action(), Action::AskReplay);
    assert_eq!(
        game.render(),
        "\n+---+---+---+\n| X | O | X |\n+---+---+---+\n| X | O | O |\n+---+---+---+\n| O | X | X |\n+---+---+---+\n\n"
    );
}

#[test]
fn draw_ends_the_round_in_the_session() {
    let mut game = Game::new();
    let moves = [1, 2, 3, 5, 4, 6, 9, 7];
    for m in moves {
        let a = game.play_game(Event::Candidate(m));
        assert!(matches!(a, Action::RequestMove(_)));
    }
    assert_eq!(game.play_game(Event::Candidate(8)), Action::AskReplay);
    assert_eq!(game.play_game(Event::Candidate(8)), Action::AskReplay);
}

#[test]
fn win_is_detected_exactly_when_a_line_completes() {
    let mut game = Game::new();
    let expected = [
        (5, Turn::Bot),
        (1, Turn::Player),
        (9, Turn::Bot),
        (3, Turn::Player),
        (7, Turn::Bot),
    ];
    for (m, next) in expected {
        assert_eq!(game.play_game(Event::Candidate(m)), Action::RequestMove(next));
        assert!(!game.game_is_won());
    }
    // the bot takes the lowest open square, 2, and completes the top row
    let bot = game.get_bot_move();
    assert_eq!(bot, 2);
    assert_eq!(game.play_turn(bot), MoveResult::Won(Turn::Bot));
    assert!(game.game_is_won());
    assert_eq!(game.next_action(), Action::AskReplay);
}

#[test]
fn player_win_completes_a_column() {
    let mut game = Game::new();
    let results = play_all(&mut game, &[2, 1, 5, 3]);
    assert!(results.iter().all(|r| *r == MoveResult::Continue));
    assert_eq!(game.play_turn(8), MoveResult::Won(Turn::Player));
}

#[test]
fn invalid_moves_are_rejected_without_passing_the_turn() {
    let mut game = Game::new();
    assert_eq!(game.play_game(Event::Candidate(5)), Action::RequestMove(Turn::Bot));
    assert_eq!(game.current_turn(), Turn::Bot);
    assert_eq!(game.play_game(Event::Candidate(5)), Action::RetryMove(Turn::Bot));
    assert_eq!(game.current_turn(), Turn::Bot);
    assert_eq!(game.board().cell(1, 1), Cell::Claimed(Turn::Player));
    assert_eq!(game.play_game(Event::Candidate(3)), Action::RequestMove(Turn::Player));
    assert_eq!(game.board().cell(0, 2), Cell::Claimed(Turn::Bot));
    assert_eq!(game.current_turn(), Turn::Player);
}

#[test]
fn out_of_range_moves_are_rejected() {
    let mut game = Game::new();
    for m in [0, 10, 11, u32::MAX] {
        assert!(!game.is_valid_move(m));
        assert_eq!(game.play_turn(m), MoveResult::Rejected);
        assert_eq!(game.play_game(Event::Candidate(m)), Action::RetryMove(Turn::Player));
    }
    assert_fresh(&game);
}

#[test]
fn claimed_square_is_rejected() {
    let mut game = Game::new();
    assert!(game.is_valid_move(7));
    game.play_turn(7);
    assert!(!game.is_valid_move(7));
    assert_eq!(game.play_turn(7), MoveResult::Rejected);
    assert_eq!(game.current_turn(), Turn::Bot);
}

#[test]
fn bot_takes_lowest_open_square() {
    let mut game = Game::new();
    assert_eq!(game.get_bot_move(), 1);
    play_all(&mut game, &[1, 2, 4]);
    assert_eq!(game.get_bot_move(), 3);
}

#[test]
fn reset_restores_the_initial_game() {
    let mut game = Game::new();
    play_all(&mut game, &[5, 1, 9]);
    game.reset();
    assert_fresh(&game);

    let mut won = Game::new();
    play_all(&mut won, &[1, 4, 2, 5, 3]);
    assert!(won.game_is_won());
    won.reset();
    assert_fresh(&won);
}

#[test]
fn replay_yes_starts_a_new_round() {
    let mut game = Game::new();
    play_all(&mut game, &[1, 4, 2, 5]);
    assert_eq!(game.play_game(Event::Candidate(3)), Action::AskReplay);
    assert_eq!(game.play_game(Event::Replay(true)), Action::RequestMove(Turn::Player));
    assert_fresh(&game);
}

#[test]
fn replay_no_stops_the_session() {
    let mut game = Game::new();
    play_all(&mut game, &[1, 4, 2, 5, 3]);
    assert_eq!(game.play_game(Event::Replay(false)), Action::Stop);
    assert!(game.game_is_won());
}

#[test]
fn replay_answer_during_a_round_is_ignored() {
    let mut game = Game::new();
    game.play_turn(5);
    assert_eq!(game.play_game(Event::Replay(true)), Action::RetryMove(Turn::Bot));
    assert_eq!(game.play_game(Event::Replay(false)), Action::RetryMove(Turn::Bot));
    assert_eq!(game.board().cell(1, 1), Cell::Claimed(Turn::Player));
}
