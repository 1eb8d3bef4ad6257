//! A two-player tic-tac-toe match served over a connectionless,
//! address-identified datagram transport.
//!
//! The crate holds the rules of the game and of the protocol around it:
//! the board and its win detector ([`game`]), the move-request grammar
//! ([`parse`]), the one-time pairing of the first two distinct senders
//! ([`lobby`]), and the routing of each later datagram to a validated move
//! and its replies ([`session`]). The datagram transport itself stays
//! outside: callers hand in sender addresses and payloads as plain bytes
//! and send the returned replies themselves.

pub mod game;
pub mod lobby;
pub mod parse;
pub mod session;
