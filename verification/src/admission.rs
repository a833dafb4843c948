//! Connection admission bookkeeping.
//!
//! The server's poll thread drives this once per tick: for each
//! incoming connection it asks for a decision, and the surrounding
//! application performs the transport work the decision calls for —
//! sending the reply, registering the accepted client, or dropping
//! the refused stream.

use vstd::prelude::*;

use crate::message::ServerToClientTcpMessage;

verus! {

/// What to do with one incoming connection.
#[derive(Clone, Copy, Debug, PartialEq, Eq, Structural)]
pub enum AdmissionDecision {
    /// Accept: register the client under the fresh id and welcome it
    /// into the game.
    Accept { id: u32, reply: ServerToClientTcpMessage },
    /// The server reached its player limit: answer that it is full and
    /// close the stream.
    Reject { reply: ServerToClientTcpMessage },
}

/// The admission state the server carries across ticks: the player
/// limit and the next fresh client id.
pub struct AdmissionControl {
    max_player_count: u32,
    next_player_id: u32,
}

impl AdmissionControl {
    /// The configured player limit.
    pub closed spec fn max_players(&self) -> u32 {
        self.max_player_count
    }

    /// The id the next accepted client will receive.
    pub closed spec fn next_id(&self) -> u32 {
        self.next_player_id
    }

    /// Admission state for a fresh server: ids start at 0.
    pub fn new(max_player_count: u32) -> (r: AdmissionControl)
        ensures
            r.max_players() == max_player_count,
            r.next_id() == 0,
    {
        AdmissionControl { max_player_count, next_player_id: 0 }
    }

    /// Admission state resumed at a given id counter, as after a
    /// restart that restores persisted bookkeeping.
    pub fn resume(max_player_count: u32, next_player_id: u32) -> (r: AdmissionControl)
        ensures
            r.max_players() == max_player_count,
            r.next_id() == next_player_id,
    {
        AdmissionControl { max_player_count, next_player_id }
    }

    /// Hands out the next client id and advances the counter, wrapping
    /// around at the end of the id space.  The flag reports that a
    /// wrap happened, so the caller can warn about reused ids.
    pub fn get_next_id(&mut self) -> (r: (u32, bool))
        ensures
            r.0 == old(self).next_id(),
            r.1 == (old(self).next_id() == u32::MAX),
            final(self).next_id() == (old(self).next_id() + 1) % 0x1_0000_0000,
            final(self).max_players() == old(self).max_players(),
    {
        let id = self.next_player_id;
        let (next, overflow) = (self.next_player_id.wrapping_add(1), self.next_player_id
            == u32::MAX);
        self.next_player_id = next;
        (id, overflow)
    }

    /// Decides one incoming connection, given how many clients are
    /// registered right now: accept under a fresh id while below the
    /// player limit, refuse once the limit is reached.
    pub fn decide(&mut self, current_player_count: usize) -> (r: AdmissionDecision)
        ensures
            current_player_count < old(self).max_players() ==> {
                &&& r == (AdmissionDecision::Accept {
                    id: old(self).next_id(),
                    reply: ServerToClientTcpMessage::WelcomeIn,
                })
                &&& final(self).next_id() == (old(self).next_id() + 1) % 0x1_0000_0000
            },
            current_player_count >= old(self).max_players() ==> {
                &&& r == (AdmissionDecision::Reject {
                    reply: ServerToClientTcpMessage::ServerFull,
                })
                &&& final(self).next_id() == old(self).next_id()
            },
            final(self).max_players() == old(self).max_players(),
    {
        if current_player_count < self.max_player_count as usize {
            let (id, _overflowed) = self.get_next_id();
            AdmissionDecision::Accept { id, reply: ServerToClientTcpMessage::WelcomeIn }
        } else {
            AdmissionDecision::Reject { reply: ServerToClientTcpMessage::ServerFull }
        }
    }
}

} // verus!
