//! The session: two fixed peer addresses bound to `X` and `O` around one
//! game, and the routing of every inbound datagram during the match.
//!
//! Each datagram is classified by its sender address, its payload parsed as
//! a move request, and the move validated and applied; the replies that the
//! transport must send back — each one datagram to one of the two bound
//! peers — come back as plain data. A datagram from an unbound address draws
//! no reply at all. [`spec_step`] states the whole of this, and
//! [`Session::handle_datagram`] is proved to follow it exactly.

use vstd::prelude::*;

use crate::game::{
    empty_board, fresh_game, game_wf, mark_str, move_error_text, render_spec, spec_move,
    spec_opponent, spec_winner, Game, GameView, Mark,
};
use crate::parse::{parse_error_text, parse_pos, spec_parse};

verus! {

use vstd::string::StringExecFns;
use crate::game::lemma_empty_board_no_winner;
use crate::game::lemma_progress_after_move;

/// The marker that invites the next move.
pub open spec fn prompt_text() -> Seq<char> {
    "> "@
}

/// The notice to a peer that asked to move out of turn.
pub open spec fn not_your_turn_text() -> Seq<char> {
    "It's not your turn.\n"@
}

/// The notice to the `O` peer that the match is on.
pub open spec fn joined_text() -> Seq<char> {
    "The other player has joined.\n"@
}

/// The notice to both peers that `m` has won.
pub open spec fn won_text(m: Mark) -> Seq<char> {
    mark_str(m) + " won!\n"@
}

/// An error's description followed by a fresh prompt, as one reply.
pub open spec fn rejection_text(body: Seq<char>) -> Seq<char> {
    body + "\n"@ + prompt_text()
}

/// One datagram to send back: its payload text and the bound peer it goes to.
pub struct Reply {
    pub to: Mark,
    pub text: String,
}

/// What a reply is, mathematically.
#[verifier::ext_equal]
pub ghost struct ReplyView {
    pub to: Mark,
    pub text: Seq<char>,
}

impl View for Reply {
    type V = ReplyView;

    open spec fn view(&self) -> ReplyView {
        ReplyView { to: self.to, text: self.text@ }
    }
}

/// The views of a batch of replies, in sending order.
pub open spec fn reply_views(rs: Seq<Reply>) -> Seq<ReplyView> {
    rs.map_values(|r: Reply| r@)
}

/// What a session is, mathematically: the game and the two bound addresses.
#[verifier::ext_equal]
pub ghost struct SessionView {
    pub game: GameView,
    pub x_addr: Seq<u8>,
    pub o_addr: Seq<u8>,
}

/// A well-formed session binds two distinct addresses to a nine-cell game
/// that is still in progress: a decided game is reset before the session
/// waits for the next datagram.
pub open spec fn session_wf(s: SessionView) -> bool {
    &&& game_wf(s.game)
    &&& s.x_addr != s.o_addr
    &&& spec_winner(s.game.board) is None
}

/// What one step of the session does, given the state, the sender address
/// and the payload of one inbound datagram: the state afterwards and the
/// replies to send, in order.
///
/// An unbound sender draws no reply and changes nothing. A bound sender's
/// payload is parsed first; a malformed one draws its parse error and a
/// prompt. An out-of-turn request draws only the turn notice. A rejected
/// move draws its error and a prompt, to the sender alone. An accepted,
/// non-winning move sends the new board and a prompt to the opponent — now
/// the player to move. A winning move tells both peers, resets the game, and
/// sends the fresh board and a prompt to `X`, as at match start.
pub open spec fn spec_step(s: SessionView, sender: Seq<u8>, payload: Seq<u8>) -> StepResult {
    if sender == s.x_addr || sender == s.o_addr {
        let m = if sender == s.x_addr {
            Mark::X
        } else {
            Mark::O
        };
        match spec_parse(payload) {
            Err(e) => StepResult {
                state: s,
                replies: seq![ReplyView { to: m, text: rejection_text(parse_error_text(e)) }],
            },
            Ok(pos) => {
                if m != s.game.turn {
                    StepResult {
                        state: s,
                        replies: seq![ReplyView { to: m, text: not_your_turn_text() }],
                    }
                } else {
                    let moved = spec_move(s.game, pos);
                    match moved.1 {
                        Err(e) => StepResult {
                            state: s,
                            replies: seq![
                                ReplyView { to: m, text: rejection_text(move_error_text(e)) },
                            ],
                        },
                        Ok(won) => {
                            if won {
                                StepResult {
                                    state: SessionView { game: fresh_game(), ..s },
                                    replies: seq![
                                        ReplyView { to: Mark::X, text: won_text(m) },
                                        ReplyView { to: Mark::O, text: won_text(m) },
                                        ReplyView {
                                            to: Mark::X,
                                            text: render_spec(empty_board()),
                                        },
                                        ReplyView { to: Mark::X, text: prompt_text() },
                                    ],
                                }
                            } else {
                                StepResult {
                                    state: SessionView { game: moved.0, ..s },
                                    replies: seq![
                                        ReplyView {
                                            to: spec_opponent(m),
                                            text: render_spec(moved.0.board),
                                        },
                                        ReplyView { to: spec_opponent(m), text: prompt_text() },
                                    ],
                                }
                            }
                        },
                    }
                }
            },
        }
    } else {
        StepResult { state: s, replies: Seq::empty() }
    }
}

/// One step's outcome: the session afterwards and the replies to send.
#[verifier::ext_equal]
pub ghost struct StepResult {
    pub state: SessionView,
    pub replies: Seq<ReplyView>,
}

/// The replies that open a match, in sending order: the empty board and a
/// prompt to the `X` peer — it moves first — and the join notice to `O`.
pub open spec fn spec_start_replies(s: SessionView) -> Seq<ReplyView> {
    seq![
        ReplyView { to: Mark::X, text: render_spec(s.game.board) },
        ReplyView { to: Mark::X, text: prompt_text() },
        ReplyView { to: Mark::O, text: joined_text() },
    ]
}

/// Whether two byte strings are equal.
pub fn bytes_eq(a: &Vec<u8>, b: &Vec<u8>) -> (r: bool)
    ensures
        r == (a@ == b@),
{
    if a.len() != b.len() {
        return false;
    }
    let mut i: usize = 0;
    while i < a.len()
        invariant
            i <= a.len(),
            a@.len() == b@.len(),
            forall|j: int| 0 <= j < i ==> a@[j] == b@[j],
        decreases a@.len() - i,
    {
        if a[i] != b[i] {
            return false;
        }
        i += 1;
    }
    proof {
        assert(a@ =~= b@);
    }
    true
}

/// A match between two peers: the address that paired first plays `X`, the
/// second plays `O`, and the bindings outlast any number of rematches.
pub struct Session {
    game: Game,
    x_addr: Vec<u8>,
    o_addr: Vec<u8>,
}

impl View for Session {
    type V = SessionView;

    closed spec fn view(&self) -> SessionView {
        SessionView { game: self.game@, x_addr: self.x_addr@, o_addr: self.o_addr@ }
    }
}

impl Session {
    /// Binds the two paired addresses to a fresh game: the first to `X`, the
    /// second to `O`.
    pub fn new(x_addr: Vec<u8>, o_addr: Vec<u8>) -> (r: Self)
        requires
            x_addr@ != o_addr@,
        ensures
            r@ == (SessionView { game: fresh_game(), x_addr: x_addr@, o_addr: o_addr@ }),
            session_wf(r@),
    {
        proof {
            lemma_empty_board_no_winner();
        }
        Session { game: Game::new(), x_addr, o_addr }
    }

    /// The address bound to `player`.
    pub fn player_addr(&self, player: Mark) -> (r: &Vec<u8>)
        ensures
            r@ == (if player == Mark::X {
                self@.x_addr
            } else {
                self@.o_addr
            }),
    {
        match player {
            Mark::X => &self.x_addr,
            Mark::O => &self.o_addr,
        }
    }

    /// The replies that open the match, in sending order.
    pub fn start_replies(&self) -> (r: Vec<Reply>)
        requires
            session_wf(self@),
        ensures
            reply_views(r@) == spec_start_replies(self@),
    {
        let mut v: Vec<Reply> = Vec::new();
        v.push(Reply { to: Mark::X, text: self.game.render() });
        v.push(Reply { to: Mark::X, text: String::from_str("> ") });
        v.push(Reply { to: Mark::O, text: String::from_str("The other player has joined.\n") });
        proof {
            assert(reply_views(v@) =~~= spec_start_replies(self@));
        }
        v
    }

    /// Routes one inbound datagram, applies what it asks if it may, and
    /// returns the replies to send, exactly as [`spec_step`] says.
    pub fn handle_datagram(&mut self, sender: &Vec<u8>, payload: &Vec<u8>) -> (replies: Vec<
        Reply,
    >)
        requires
            session_wf(old(self)@),
        ensures
            session_wf(final(self)@),
            final(self)@ == spec_step(old(self)@, sender@, payload@).state,
            reply_views(replies@) == spec_step(old(self)@, sender@, payload@).replies,
    {
        let ghost pre = old(self)@;
        let ghost target = spec_step(old(self)@, sender@, payload@);
        let is_x = bytes_eq(sender, &self.x_addr);
        let is_o = bytes_eq(sender, &self.o_addr);
        if !is_x && !is_o {
            // An unexpected sender is dropped without an answer.
            let v: Vec<Reply> = Vec::new();
            proof {
                assert(reply_views(v@) =~~= target.replies);
            }
            return v;
        }
        let mark = if is_x {
            Mark::X
        } else {
            Mark::O
        };
        match parse_pos(payload) {
            Err(e) => {
                let mut v: Vec<Reply> = Vec::new();
                v.push(Reply { to: mark, text: e.message().concat("\n").concat("> ") });
                proof {
                    assert(reply_views(v@) =~~= target.replies);
                }
                v
            },
            Ok(pos) => {
                if self.game.current_player() != mark {
                    let mut v: Vec<Reply> = Vec::new();
                    v.push(Reply { to: mark, text: String::from_str("It's not your turn.\n") });
                    proof {
                        assert(reply_views(v@) =~~= target.replies);
                    }
                    v
                } else {
                    match self.game.make_move(pos) {
                        Err(e) => {
                            let mut v: Vec<Reply> = Vec::new();
                            v.push(Reply { to: mark, text: e.message().concat("\n").concat("> ") });
                            proof {
                                lemma_progress_after_move(pre.game, pos);
                                assert(self@ =~= target.state);
                                assert(reply_views(v@) =~~= target.replies);
                            }
                            v
                        },
                        Ok(true) => {
                            // The mover completed a line: tell both peers, then
                            // rematch from a fresh board, X to open again.
                            let name = match mark {
                                Mark::X => String::from_str("X"),
                                Mark::O => String::from_str("O"),
                            };
                            let won_notice = name.concat(" won!\n");
                            let mut v: Vec<Reply> = Vec::new();
                            v.push(Reply { to: Mark::X, text: won_notice.clone() });
                            v.push(Reply { to: Mark::O, text: won_notice });
                            self.game = Game::new();
                            v.push(Reply { to: Mark::X, text: self.game.render() });
                            v.push(Reply { to: Mark::X, text: String::from_str("> ") });
                            proof {
                                lemma_empty_board_no_winner();
                                assert(self@ =~= target.state);
                                assert(reply_views(v@) =~~= target.replies);
                            }
                            v
                        },
                        Ok(false) => {
                            // The board moves on: prompt the opponent, whose
                            // turn it now is. The mover hears nothing.
                            let opponent = mark.opponent();
                            let mut v: Vec<Reply> = Vec::new();
                            v.push(Reply { to: opponent, text: self.game.render() });
                            v.push(Reply { to: opponent, text: String::from_str("> ") });
                            proof {
                                lemma_progress_after_move(pre.game, pos);
                                assert(self@ =~= target.state);
                                assert(reply_views(v@) =~~= target.replies);
                            }
                            v
                        },
                    }
                }
            },
        }
    }
}

/// A step that rejects its datagram — the payload malformed, or the move it
/// asks for refused — leaves the session exactly as it was, whoever sent it.
pub proof fn lemma_rejection_no_state_drift(s: SessionView, sender: Seq<u8>, payload: Seq<u8>)
    requires
        match spec_parse(payload) {
            Err(_) => true,
            Ok(pos) => spec_move(s.game, pos).1 is Err,
        },
    ensures
        spec_step(s, sender, payload).state == s,
{
}

/// Sending the same rejected payload twice draws the same reply twice: the
/// first rejection changes nothing, so the second step repeats the first.
pub proof fn lemma_rejection_idempotent(s: SessionView, sender: Seq<u8>, payload: Seq<u8>)
    requires
        match spec_parse(payload) {
            Err(_) => true,
            Ok(pos) => spec_move(s.game, pos).1 is Err,
        },
    ensures
        spec_step(spec_step(s, sender, payload).state, sender, payload) == spec_step(
            s,
            sender,
            payload,
        ),
{
    lemma_rejection_no_state_drift(s, sender, payload);
}

} // verus!
