//! The board, the win detector, and the game state machine.
//!
//! A board is nine cells in row-major order, addressed 1 through 9. A game
//! owns a board together with whose turn it is; its one mutating operation,
//! [`Game::make_move`], validates a requested position, places the mark of
//! the current player, flips the turn, and reports whether that move won.

use vstd::prelude::*;

verus! {

use vstd::string::StringExecFns;

/// One of the two player symbols.
#[derive(Clone, Copy, Debug, PartialEq, Eq, Structural)]
pub enum Mark {
    X,
    O,
}

/// The other side: `X` and `O` swap.
pub open spec fn spec_opponent(m: Mark) -> Mark {
    match m {
        Mark::X => Mark::O,
        Mark::O => Mark::X,
    }
}

impl Mark {
    /// The mark of the other player.
    pub fn opponent(self) -> (r: Self)
        ensures
            r == spec_opponent(self),
    {
        match self {
            Mark::X => Mark::O,
            Mark::O => Mark::X,
        }
    }
}

/// Swapping sides twice comes back to the same mark.
pub proof fn lemma_opponent_involutive(m: Mark)
    ensures
        spec_opponent(spec_opponent(m)) == m,
{
}

/// A board holds nine cells.
pub open spec fn board_wf(b: Seq<Option<Mark>>) -> bool {
    b.len() == 9
}

/// The board a game starts from: every cell empty.
pub open spec fn empty_board() -> Seq<Option<Mark>> {
    Seq::new(9, |i: int| None)
}

/// The mark that owns the whole line through cells `i`, `j`, `k`, if one does.
pub open spec fn line_mark(b: Seq<Option<Mark>>, i: int, j: int, k: int) -> Option<Mark> {
    if b[i] is Some && b[j] == b[i] && b[k] == b[i] {
        b[i]
    } else {
        None
    }
}

/// Whether `m` has completed one of the eight winning lines:
/// three rows, three columns, and the two diagonals.
pub open spec fn wins(b: Seq<Option<Mark>>, m: Mark) -> bool {
    ||| line_mark(b, 0, 1, 2) == Some(m)
    ||| line_mark(b, 3, 4, 5) == Some(m)
    ||| line_mark(b, 6, 7, 8) == Some(m)
    ||| line_mark(b, 0, 3, 6) == Some(m)
    ||| line_mark(b, 1, 4, 7) == Some(m)
    ||| line_mark(b, 2, 5, 8) == Some(m)
    ||| line_mark(b, 0, 4, 8) == Some(m)
    ||| line_mark(b, 2, 4, 6) == Some(m)
}

/// The winner the scan reports: the owner of the first complete line in the
/// fixed order rows, columns, top-left diagonal, bottom-left diagonal;
/// nothing when no line is complete.
pub open spec fn spec_winner(b: Seq<Option<Mark>>) -> Option<Mark> {
    if line_mark(b, 0, 1, 2) is Some {
        line_mark(b, 0, 1, 2)
    } else if line_mark(b, 3, 4, 5) is Some {
        line_mark(b, 3, 4, 5)
    } else if line_mark(b, 6, 7, 8) is Some {
        line_mark(b, 6, 7, 8)
    } else if line_mark(b, 0, 3, 6) is Some {
        line_mark(b, 0, 3, 6)
    } else if line_mark(b, 1, 4, 7) is Some {
        line_mark(b, 1, 4, 7)
    } else if line_mark(b, 2, 5, 8) is Some {
        line_mark(b, 2, 5, 8)
    } else if line_mark(b, 0, 4, 8) is Some {
        line_mark(b, 0, 4, 8)
    } else if line_mark(b, 2, 4, 6) is Some {
        line_mark(b, 2, 4, 6)
    } else {
        None
    }
}

/// A reported winner owns a complete line.
pub proof fn lemma_winner_wins(b: Seq<Option<Mark>>, m: Mark)
    requires
        spec_winner(b) == Some(m),
    ensures
        wins(b, m),
{
}

/// No complete line for either side means no reported winner: a line with
/// only two of its three cells marked never wins.
pub proof fn lemma_no_false_win(b: Seq<Option<Mark>>)
    requires
        !wins(b, Mark::X),
        !wins(b, Mark::O),
    ensures
        spec_winner(b) is None,
{
    assert forall|i: int, j: int, k: int| line_mark(b, i, j, k) is Some implies line_mark(
        b,
        i,
        j,
        k,
    ) == Some(Mark::X) || line_mark(b, i, j, k) == Some(Mark::O) by {
        let m = line_mark(b, i, j, k)->0;
        assert(m == Mark::X || m == Mark::O);
    }
}

/// A complete line for one side alone is reported as the winner.
pub proof fn lemma_win_detected(b: Seq<Option<Mark>>, m: Mark)
    requires
        wins(b, m),
        !wins(b, spec_opponent(m)),
    ensures
        spec_winner(b) == Some(m),
{
    assert forall|i: int, j: int, k: int| line_mark(b, i, j, k) is Some implies line_mark(
        b,
        i,
        j,
        k,
    ) == Some(Mark::X) || line_mark(b, i, j, k) == Some(Mark::O) by {
        let w = line_mark(b, i, j, k)->0;
        assert(w == Mark::X || w == Mark::O);
    }
}

/// The empty board has no winner.
pub proof fn lemma_empty_board_no_winner()
    ensures
        spec_winner(empty_board()) is None,
{
    assert(empty_board()[0] is None);
    assert(empty_board()[1] is None);
    assert(empty_board()[2] is None);
    assert(empty_board()[3] is None);
    assert(empty_board()[6] is None);
}

/// Placing `m` in an empty cell completes no line for the opponent: any line
/// through the touched cell now holds `m`, and every other line is unchanged.
pub proof fn lemma_no_opponent_win(b: Seq<Option<Mark>>, i: int, m: Mark)
    requires
        board_wf(b),
        0 <= i < 9,
        b[i] is None,
        !wins(b, spec_opponent(m)),
    ensures
        !wins(b.update(i, Some(m)), spec_opponent(m)),
{
}

/// The nine cells of one game, addressed 1 through 9 in row-major order.
pub struct Board {
    cells: Vec<Option<Mark>>,
}

impl View for Board {
    type V = Seq<Option<Mark>>;

    closed spec fn view(&self) -> Seq<Option<Mark>> {
        self.cells@
    }
}

impl Board {
    /// A fresh board with every cell empty.
    pub fn new() -> (r: Self)
        ensures
            r@ == empty_board(),
    {
        let cells: Vec<Option<Mark>> = vec![None, None, None, None, None, None, None, None, None];
        let r = Board { cells };
        proof {
            assert(r@ =~= empty_board());
        }
        r
    }

    /// The cell at 1-indexed position `pos`.
    pub fn get(&self, pos: u8) -> (r: Option<Mark>)
        requires
            board_wf(self@),
            1 <= pos <= 9,
        ensures
            r == self@[pos - 1],
    {
        self.cells[(pos - 1) as usize]
    }

    /// Marks the empty cell at 1-indexed position `pos` with `mark`.
    /// The caller vouches that the position is in range and free.
    pub fn set(&mut self, pos: u8, mark: Mark)
        requires
            board_wf(old(self)@),
            1 <= pos <= 9,
            old(self)@[pos - 1] is None,
        ensures
            final(self)@ == old(self)@.update(pos - 1, Some(mark)),
    {
        self.cells.set((pos - 1) as usize, Some(mark));
    }

    /// The owner of the line through cells `i`, `j`, `k`, if the three match.
    fn line(&self, i: usize, j: usize, k: usize) -> (r: Option<Mark>)
        requires
            board_wf(self@),
            i < 9,
            j < 9,
            k < 9,
        ensures
            r == line_mark(self@, i as int, j as int, k as int),
    {
        match self.cells[i] {
            None => None,
            Some(first) => {
                let second_matches = match self.cells[j] {
                    Some(p) => p == first,
                    None => false,
                };
                let third_matches = match self.cells[k] {
                    Some(p) => p == first,
                    None => false,
                };
                if second_matches && third_matches {
                    Some(first)
                } else {
                    None
                }
            },
        }
    }

    /// Scans the three rows, the three columns, the top-left-to-bottom-right
    /// diagonal and the bottom-left-to-top-right diagonal, in that order, and
    /// returns the owner of the first complete line; nothing when no line is
    /// complete.
    pub fn winner(&self) -> (r: Option<Mark>)
        requires
            board_wf(self@),
        ensures
            r == spec_winner(self@),
    {
        if let Some(m) = self.line(0, 1, 2) {
            return Some(m);
        }
        if let Some(m) = self.line(3, 4, 5) {
            return Some(m);
        }
        if let Some(m) = self.line(6, 7, 8) {
            return Some(m);
        }
        if let Some(m) = self.line(0, 3, 6) {
            return Some(m);
        }
        if let Some(m) = self.line(1, 4, 7) {
            return Some(m);
        }
        if let Some(m) = self.line(2, 5, 8) {
            return Some(m);
        }
        if let Some(m) = self.line(0, 4, 8) {
            return Some(m);
        }
        self.line(2, 4, 6)
    }
}

/// The one-character text of a mark.
pub open spec fn mark_str(m: Mark) -> Seq<char> {
    match m {
        Mark::X => "X"@,
        Mark::O => "O"@,
    }
}

/// The digit an empty cell shows: its own 1-based position.
pub open spec fn pos_label(i: int) -> Seq<char> {
    if i == 0 {
        "1"@
    } else if i == 1 {
        "2"@
    } else if i == 2 {
        "3"@
    } else if i == 3 {
        "4"@
    } else if i == 4 {
        "5"@
    } else if i == 5 {
        "6"@
    } else if i == 6 {
        "7"@
    } else if i == 7 {
        "8"@
    } else {
        "9"@
    }
}

/// How cell `i` shows: its occupant's mark, or its position number when empty.
pub open spec fn cell_str(b: Seq<Option<Mark>>, i: int) -> Seq<char> {
    match b[i] {
        Some(m) => mark_str(m),
        None => pos_label(i),
    }
}

/// One rendered row: its three cells separated by spaces, then a newline.
pub open spec fn row_str(b: Seq<Option<Mark>>, r: int) -> Seq<char> {
    cell_str(b, 3 * r) + " "@ + cell_str(b, 3 * r + 1) + " "@ + cell_str(b, 3 * r + 2) + "\n"@
}

/// The whole rendered board: its three rows, top to bottom.
pub open spec fn render_spec(b: Seq<Option<Mark>>) -> Seq<char> {
    row_str(b, 0) + row_str(b, 1) + row_str(b, 2)
}

impl Board {
    /// Appends how cell `i` shows to `out`.
    fn push_cell(&self, out: &mut String, i: usize)
        requires
            board_wf(self@),
            i < 9,
        ensures
            final(out)@ == old(out)@ + cell_str(self@, i as int),
    {
        match self.cells[i] {
            Some(Mark::X) => out.append("X"),
            Some(Mark::O) => out.append("O"),
            None => {
                if i == 0 {
                    out.append("1")
                } else if i == 1 {
                    out.append("2")
                } else if i == 2 {
                    out.append("3")
                } else if i == 3 {
                    out.append("4")
                } else if i == 4 {
                    out.append("5")
                } else if i == 5 {
                    out.append("6")
                } else if i == 6 {
                    out.append("7")
                } else if i == 7 {
                    out.append("8")
                } else {
                    out.append("9")
                }
            },
        }
    }

    /// Appends the rendered row starting at cell `start` to `out`.
    fn push_row(&self, out: &mut String, start: usize)
        requires
            board_wf(self@),
            start == 0 || start == 3 || start == 6,
        ensures
            final(out)@ == old(out)@ + row_str(self@, start as int / 3),
    {
        self.push_cell(out, start);
        out.append(" ");
        self.push_cell(out, start + 1);
        out.append(" ");
        self.push_cell(out, start + 2);
        out.append("\n");
    }

    /// Renders the grid for a peer: each empty cell shows its 1-based
    /// position number, each occupied cell shows `X` or `O`; cells are
    /// space-separated and each of the three rows ends in a newline.
    pub fn render(&self) -> (r: String)
        requires
            board_wf(self@),
        ensures
            r@ == render_spec(self@),
    {
        let mut out = String::new();
        self.push_row(&mut out, 0);
        self.push_row(&mut out, 3);
        self.push_row(&mut out, 6);
        out
    }
}

/// The empty board renders as the grid of its nine position numbers.
pub proof fn lemma_render_empty()
    ensures
        render_spec(empty_board()) == "1 2 3\n4 5 6\n7 8 9\n"@,
{
    reveal_strlit("1 2 3\n4 5 6\n7 8 9\n");
    reveal_strlit("1");
    reveal_strlit("2");
    reveal_strlit("3");
    reveal_strlit("4");
    reveal_strlit("5");
    reveal_strlit("6");
    reveal_strlit("7");
    reveal_strlit("8");
    reveal_strlit("9");
    reveal_strlit(" ");
    reveal_strlit("\n");
    assert(render_spec(empty_board()) =~= "1 2 3\n4 5 6\n7 8 9\n"@);
}

/// Marking one cell changes how that cell renders and no other: every other
/// cell shows afterwards exactly what it showed before.
pub proof fn lemma_set_leaves_other_cells(
    b: Seq<Option<Mark>>,
    i: int,
    v: Option<Mark>,
    j: int,
)
    requires
        board_wf(b),
        0 <= i < 9,
        0 <= j < 9,
        j != i,
    ensures
        cell_str(b.update(i, v), j) == cell_str(b, j),
{
}

/// Marking the centre of the empty board with `X` renders that cell as `X`
/// and leaves the rest of the grid as it was.
pub proof fn lemma_render_centre_marked()
    ensures
        render_spec(empty_board().update(4, Some(Mark::X))) == "1 2 3\n4 X 6\n7 8 9\n"@,
{
    reveal_strlit("1 2 3\n4 X 6\n7 8 9\n");
    reveal_strlit("1");
    reveal_strlit("2");
    reveal_strlit("3");
    reveal_strlit("4");
    reveal_strlit("6");
    reveal_strlit("7");
    reveal_strlit("8");
    reveal_strlit("9");
    reveal_strlit("X");
    reveal_strlit(" ");
    reveal_strlit("\n");
    assert(render_spec(empty_board().update(4, Some(Mark::X))) =~= "1 2 3\n4 X 6\n7 8 9\n"@);
}

/// Why a requested move was rejected. The board is left untouched.
#[derive(Clone, Copy, Debug, PartialEq, Eq, Structural)]
pub enum MoveError {
    /// The requested position, which lies outside 1 through 9.
    PosTooBig(u8),
    /// The mark already sitting on the requested cell.
    AlreadyMoved(Mark),
}

/// The rejection's description, as it is reported back to the sender.
pub open spec fn move_error_text(e: MoveError) -> Seq<char> {
    match e {
        MoveError::PosTooBig(_) => "Index was too big. Pick a number from 1 through 9."@,
        MoveError::AlreadyMoved(m) => mark_str(m) + " had already moved there."@,
    }
}

impl MoveError {
    /// The rejection's description text.
    pub fn message(&self) -> (r: String)
        ensures
            r@ == move_error_text(*self),
    {
        match self {
            MoveError::PosTooBig(_) => String::from_str(
                "Index was too big. Pick a number from 1 through 9.",
            ),
            MoveError::AlreadyMoved(m) => {
                let name = match m {
                    Mark::X => String::from_str("X"),
                    Mark::O => String::from_str("O"),
                };
                name.concat(" had already moved there.")
            },
        }
    }
}

/// A game: a board plus whose turn it is. `X` always opens.
pub struct Game {
    board: Board,
    current_player: Mark,
}

/// What a game is, mathematically: its cells and whose turn it is.
#[verifier::ext_equal]
pub ghost struct GameView {
    pub board: Seq<Option<Mark>>,
    pub turn: Mark,
}

impl View for Game {
    type V = GameView;

    closed spec fn view(&self) -> GameView {
        GameView { board: self.board@, turn: self.current_player }
    }
}

/// A well-formed game holds a nine-cell board.
pub open spec fn game_wf(g: GameView) -> bool {
    board_wf(g.board)
}

/// The game every match and rematch starts from: an empty board, `X` to move.
pub open spec fn fresh_game() -> GameView {
    GameView { board: empty_board(), turn: Mark::X }
}

/// What one attempted move does to a game `g`: the state afterwards and what
/// the attempt returns.
///
/// A position outside 1 through 9 or an occupied cell is rejected and
/// changes nothing. Otherwise the current player's mark is placed, the turn
/// passes to the opponent, and the result says whether the move just made
/// completed a line for its mover.
pub open spec fn spec_move(g: GameView, pos: u8) -> (GameView, Result<bool, MoveError>) {
    if pos < 1 || pos > 9 {
        (g, Err(MoveError::PosTooBig(pos)))
    } else {
        match g.board[pos - 1] {
            Some(p) => (g, Err(MoveError::AlreadyMoved(p))),
            None => {
                let placed = g.board.update(pos - 1, Some(g.turn));
                (
                    GameView { board: placed, turn: spec_opponent(g.turn) },
                    Ok(spec_winner(placed) == Some(g.turn)),
                )
            },
        }
    }
}

impl Game {
    /// A fresh game: empty board, `X` to move.
    pub fn new() -> (r: Self)
        ensures
            r@ == fresh_game(),
    {
        let r = Game { board: Board::new(), current_player: Mark::X };
        proof {
            assert(r@ =~= fresh_game());
        }
        r
    }

    /// Whose turn it is.
    pub fn current_player(&self) -> (r: Mark)
        ensures
            r == self@.turn,
    {
        self.current_player
    }

    /// The winner of the board as it stands, by the fixed line scan.
    pub fn winner(&self) -> (r: Option<Mark>)
        requires
            game_wf(self@),
        ensures
            r == spec_winner(self@.board),
    {
        self.board.winner()
    }

    /// The rendered board, one row per line.
    pub fn render(&self) -> (r: String)
        requires
            game_wf(self@),
        ensures
            r@ == render_spec(self@.board),
    {
        self.board.render()
    }

    /// Attempts a move at 1-indexed `pos` as the current player and reports
    /// `Ok(true)` exactly when that move completed a line for its mover.
    ///
    /// The game must still be in progress: a decided game is replaced by a
    /// fresh one, never moved on. On a rejected move nothing changes; on an
    /// accepted one the cell is filled and the turn passes to the opponent.
    /// A move can never complete a line for the opponent, so the winner
    /// afterwards is the mover or nobody.
    pub fn make_move(&mut self, pos: u8) -> (r: Result<bool, MoveError>)
        requires
            game_wf(old(self)@),
            spec_winner(old(self)@.board) is None,
        ensures
            final(self)@ == spec_move(old(self)@, pos).0,
            r == spec_move(old(self)@, pos).1,
            game_wf(final(self)@),
    {
        let player = self.current_player;
        if pos < 1 || pos > 9 {
            Err(MoveError::PosTooBig(pos))
        } else {
            match self.board.get(pos) {
                Some(p) => Err(MoveError::AlreadyMoved(p)),
                None => {
                    self.board.set(pos, player);
                    let winner = self.board.winner();
                    proof {
                        lemma_winner_none_no_wins(old(self)@.board);
                        lemma_no_opponent_win(old(self)@.board, pos - 1, player);
                        if winner is Some && winner != Some(player) {
                            lemma_winner_wins(self.board@, winner->0);
                            assert(winner->0 == spec_opponent(player));
                        }
                    }
                    // The move just made can only have won for its own mover:
                    // a line of the opponent's would have been complete already.
                    assert(winner is None || winner == Some(player));
                    self.current_player = player.opponent();
                    let won = match winner {
                        Some(w) => w == player,
                        None => false,
                    };
                    Ok(won)
                },
            }
        }
    }
}

/// A board without a reported winner has no complete line at all.
pub proof fn lemma_winner_none_no_wins(b: Seq<Option<Mark>>)
    requires
        spec_winner(b) is None,
    ensures
        !wins(b, Mark::X),
        !wins(b, Mark::O),
{
}

/// Moving onto an occupied cell fails, names the mark already there, and
/// leaves the game — board and turn alike — unchanged.
pub proof fn lemma_occupied_rejected(g: GameView, pos: u8, m: Mark)
    requires
        game_wf(g),
        1 <= pos <= 9,
        g.board[pos - 1] == Some(m),
    ensures
        spec_move(g, pos).0 == g,
        spec_move(g, pos).1 == Err::<bool, MoveError>(MoveError::AlreadyMoved(m)),
{
}

/// Moving outside positions 1 through 9 fails with `PosTooBig` and leaves
/// the game unchanged.
pub proof fn lemma_out_of_range_rejected(g: GameView, pos: u8)
    requires
        game_wf(g),
        pos == 0 || pos > 9,
    ensures
        spec_move(g, pos).0 == g,
        spec_move(g, pos).1 == Err::<bool, MoveError>(MoveError::PosTooBig(pos)),
{
}

/// Turns alternate: a fresh game opens with `X`, and every accepted move
/// hands the turn to the mover's opponent. A rejected move never changes it.
pub proof fn lemma_turn_alternation(g: GameView, pos: u8)
    ensures
        fresh_game().turn == Mark::X,
        spec_move(g, pos).1 is Ok ==> spec_move(g, pos).0.turn == spec_opponent(g.turn),
        spec_move(g, pos).1 is Err ==> spec_move(g, pos).0.turn == g.turn,
{
}

/// An accepted move on a game still in progress returns `Ok(true)` exactly
/// when it completes one of the eight lines for its mover — and so never
/// before the line is full.
pub proof fn lemma_win_on_completion(g: GameView, pos: u8)
    requires
        game_wf(g),
        spec_winner(g.board) is None,
        1 <= pos <= 9,
        g.board[pos - 1] is None,
    ensures
        spec_move(g, pos).1 == Ok::<bool, MoveError>(wins(spec_move(g, pos).0.board, g.turn)),
{
    let placed = spec_move(g, pos).0.board;
    lemma_winner_none_no_wins(g.board);
    lemma_no_opponent_win(g.board, pos - 1, g.turn);
    if wins(placed, g.turn) {
        lemma_win_detected(placed, g.turn);
    } else {
        lemma_no_false_win(placed);
    }
}

/// A cell, once marked, keeps its mark through every later move, accepted
/// or rejected: only a fresh game empties the board.
pub proof fn lemma_marks_persist(g: GameView, pos: u8, i: int)
    requires
        game_wf(g),
        0 <= i < 9,
        g.board[i] is Some,
    ensures
        spec_move(g, pos).0.board[i] == g.board[i],
{
}

/// After an accepted move that did not win, the game is still undecided;
/// after a rejected move the game is exactly what it was.
pub proof fn lemma_progress_after_move(g: GameView, pos: u8)
    requires
        game_wf(g),
        spec_winner(g.board) is None,
    ensures
        spec_move(g, pos).1 == Ok::<bool, MoveError>(false) ==> spec_winner(
            spec_move(g, pos).0.board,
        ) is None,
        spec_move(g, pos).1 is Err ==> spec_move(g, pos).0 == g,
{
    if 1 <= pos <= 9 && g.board[pos - 1] is None {
        let placed = spec_move(g, pos).0.board;
        lemma_winner_none_no_wins(g.board);
        lemma_no_opponent_win(g.board, pos - 1, g.turn);
        if spec_move(g, pos).1 == Ok::<bool, MoveError>(false) {
            if spec_winner(placed) is Some {
                lemma_winner_wins(placed, spec_winner(placed)->0);
                assert(spec_winner(placed)->0 == spec_opponent(g.turn));
            }
        }
    }
}

} // verus!
