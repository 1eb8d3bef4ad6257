use sk_xo::game::{Board, Game, Mark, MoveError};

#[test]
fn opponent_swaps_and_is_involutive() {
    assert_eq!(Mark::X.opponent(), Mark::O);
    assert_eq!(Mark::O.opponent(), Mark::X);
    assert_eq!(Mark::X.opponent().opponent(), Mark::X);
    assert_eq!(Mark::O.opponent().opponent(), Mark::O);
}

#[test]
fn fresh_game_starts_with_x_and_no_winner() {
    let g = Game::new();
    assert_eq!(g.current_player(), Mark::X);
    assert_eq!(g.winner(), None);
}

#[test]
fn moves_alternate_starting_with_x() {
    let mut g = Game::new();
    assert_eq!(g.current_player(), Mark::X);
    assert_eq!(g.make_move(1), Ok(false));
    assert_eq!(g.current_player(), Mark::O);
    assert_eq!(g.make_move(5), Ok(false));
    assert_eq!(g.current_player(), Mark::X);
    assert_eq!(g.make_move(2), Ok(false));
    assert_eq!(g.current_player(), Mark::O);
}

#[test]
fn occupied_cell_rejected_with_occupant_named() {
    let mut g = Game::new();
    assert_eq!(g.make_move(5), Ok(false));
    assert_eq!(g.make_move(5), Err(MoveError::AlreadyMoved(Mark::X)));
    assert_eq!(g.current_player(), Mark::O);
    assert_eq!(g.make_move(3), Ok(false));
    assert_eq!(g.make_move(3), Err(MoveError::AlreadyMoved(Mark::O)));
    assert_eq!(g.current_player(), Mark::X);
}

#[test]
fn out_of_range_rejected_and_state_unchanged() {
    let mut g = Game::new();
    assert_eq!(g.make_move(0), Err(MoveError::PosTooBig(0)));
    assert_eq!(g.make_move(10), Err(MoveError::PosTooBig(10)));
    assert_eq!(g.make_move(255), Err(MoveError::PosTooBig(255)));
    assert_eq!(g.current_player(), Mark::X);
    assert_eq!(g.render(), "1 2 3\n4 5 6\n7 8 9\n");
}

fn x_wins_through(line: [u8; 3], o_fill: [u8; 2]) {
    let mut g = Game::new();
    assert_eq!(g.make_move(line[0]), Ok(false));
    assert_eq!(g.make_move(o_fill[0]), Ok(false));
    assert_eq!(g.make_move(line[1]), Ok(false));
    assert_eq!(g.make_move(o_fill[1]), Ok(false));
    assert_eq!(g.make_move(line[2]), Ok(true));
    assert_eq!(g.winner(), Some(Mark::X));
}

#[test]
fn win_in_top_row() {
    x_wins_through([1, 2, 3], [4, 5]);
}

#[test]
fn win_in_middle_row() {
    x_wins_through([4, 5, 6], [1, 2]);
}

#[test]
fn win_in_bottom_row() {
    x_wins_through([7, 8, 9], [1, 2]);
}

#[test]
fn win_in_left_column() {
    x_wins_through([1, 4, 7], [2, 3]);
}

#[test]
fn win_in_middle_column() {
    x_wins_through([2, 5, 8], [1, 3]);
}

#[test]
fn win_in_right_column() {
    x_wins_through([3, 6, 9], [1, 2]);
}

#[test]
fn win_in_downwards_diagonal() {
    x_wins_through([1, 5, 9], [2, 3]);
}

#[test]
fn win_in_upwards_diagonal() {
    x_wins_through([3, 5, 7], [1, 2]);
}

#[test]
fn o_can_win_too() {
    let mut g = Game::new();
    assert_eq!(g.make_move(1), Ok(false));
    assert_eq!(g.make_move(4), Ok(false));
    assert_eq!(g.make_move(2), Ok(false));
    assert_eq!(g.make_move(5), Ok(false));
    assert_eq!(g.make_move(9), Ok(false));
    assert_eq!(g.make_move(6), Ok(true));
    assert_eq!(g.winner(), Some(Mark::O));
}

#[test]
fn two_in_a_line_is_no_win() {
    let mut b = Board::new();
    b.set(1, Mark::X);
    b.set(2, Mark::X);
    assert_eq!(b.winner(), None);
    let mut g = Game::new();
    assert_eq!(g.make_move(1), Ok(false));
    assert_eq!(g.make_move(4), Ok(false));
    assert_eq!(g.make_move(2), Ok(false));
    assert_eq!(g.winner(), None);
}

#[test]
fn winner_scan_prefers_earlier_rows() {
    let mut b = Board::new();
    b.set(1, Mark::X);
    b.set(2, Mark::X);
    b.set(3, Mark::X);
    b.set(4, Mark::O);
    b.set(5, Mark::O);
    b.set(6, Mark::O);
    assert_eq!(b.winner(), Some(Mark::X));
}

#[test]
fn set_fills_the_addressed_cell() {
    let mut b = Board::new();
    assert_eq!(b.get(5), None);
    b.set(5, Mark::O);
    assert_eq!(b.get(5), Some(Mark::O));
    assert_eq!(b.get(4), None);
    assert_eq!(b.get(6), None);
}

#[test]
fn empty_board_renders_position_numbers() {
    assert_eq!(Board::new().render(), "1 2 3\n4 5 6\n7 8 9\n");
}

#[test]
fn marked_centre_renders_mark_and_leaves_rest() {
    let mut b = Board::new();
    b.set(5, Mark::X);
    assert_eq!(b.render(), "1 2 3\n4 X 6\n7 8 9\n");
}

#[test]
fn rejection_messages_name_the_problem() {
    assert_eq!(
        MoveError::PosTooBig(12).message(),
        "Index was too big. Pick a number from 1 through 9."
    );
    assert_eq!(MoveError::AlreadyMoved(Mark::X).message(), "X had already moved there.");
    assert_eq!(MoveError::AlreadyMoved(Mark::O).message(), "O had already moved there.");
}
