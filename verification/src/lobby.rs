//! The one-time pairing of two peers into a session.
//!
//! The first datagram's sender address becomes the candidate; every further
//! datagram from that same address is discarded, and the first one from a
//! different address completes the pair. The candidate plays `X`, the
//! newcomer plays `O`. Payloads are not read here: only addresses matter.

use vstd::prelude::*;

use crate::game::fresh_game;
use crate::session::{bytes_eq, session_wf, Session, SessionView};

verus! {

/// The lobby: empty, or holding the candidate address whose datagram
/// arrived first and who waits for a distinct opponent.
pub struct Lobby {
    candidate: Option<Vec<u8>>,
}

impl View for Lobby {
    type V = Option<Seq<u8>>;

    closed spec fn view(&self) -> Option<Seq<u8>> {
        match self.candidate {
            Some(ref a) => Some(a@),
            None => None,
        }
    }
}

impl Lobby {
    /// An empty lobby, waiting for the first datagram.
    pub fn new() -> (r: Self)
        ensures
            r@ is None,
    {
        Lobby { candidate: None }
    }

    /// Observes the sender address of one inbound datagram.
    ///
    /// The first address seen becomes the candidate and draws no session; a
    /// repeat of the candidate is discarded; the first distinct address
    /// completes the pair, empties the lobby, and returns the session, with
    /// the candidate bound to `X` and the newcomer to `O`.
    pub fn offer(&mut self, addr: Vec<u8>) -> (r: Option<Session>)
        ensures
            old(self)@ is None ==> final(self)@ == Some(addr@) && r is None,
            old(self)@ is Some && old(self)@->0 == addr@ ==> final(self)@ == old(self)@ && r
                is None,
            old(self)@ is Some && old(self)@->0 != addr@ ==> final(self)@ is None && r is Some
                && (r->0)@ == (SessionView {
                game: fresh_game(),
                x_addr: old(self)@->0,
                o_addr: addr@,
            }) && session_wf((r->0)@),
    {
        match &self.candidate {
            None => {
                self.candidate = Some(addr);
                None
            },
            Some(c) => {
                if bytes_eq(c, &addr) {
                    None
                } else {
                    let first = self.candidate.take().unwrap();
                    Some(Session::new(first, addr))
                }
            },
        }
    }
}

} // verus!
