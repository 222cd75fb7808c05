//! What the lobby asks of the server: a seat at a new table or at one
//! already open.

use vstd::prelude::*;
use crate::banklog::{trim, trimmed};
use crate::client::GameState;
use crate::protocol::ClientRequest;
use crate::rules::{PlayerColour, SeatRequest};

verus! {

impl GameState {
    /// How this player asks for a seat: the name they typed, trimmed, and
    /// the colour they chose.
    pub fn seat_request(&self, colour: PlayerColour) -> (r: SeatRequest)
        ensures
            r.name@ == trim(self.my_name@),
            r.colour == colour,
    {
        SeatRequest { name: trimmed(self.my_name.as_str()), colour }
    }

    /// What picking a colour in a lobby game asks of the server: a seat in
    /// that game, under the trimmed name and the colour picked.
    pub fn join_request(&self, game_id: &String, colour: PlayerColour) -> (req: ClientRequest)
        ensures
            match req {
                ClientRequest::JoinGame { game_id: g, seat } => g@ == game_id@ && seat.name@ == trim(self.my_name@)
                    && seat.colour == colour,
                _ => false,
            },
    {
        ClientRequest::JoinGame { game_id: game_id.clone(), seat: self.seat_request(colour) }
    }

    /// What the create button asks of the server: a new table of
    /// `player_count` with this player seated in the colour picked. The
    /// button is live only with a connection and a colour.
    pub fn create_request(&self, player_count: usize, colour: Option<PlayerColour>, connected: bool) -> (req:
        Option<ClientRequest>)
        ensures
            req is Some <==> (connected && colour is Some),
            req matches Some(r) ==> match r {
                ClientRequest::CreateGame { player_count: n, seat } => n == player_count && seat.name@ == trim(
                    self.my_name@,
                ) && Some(seat.colour) == colour,
                _ => false,
            },
    {
        if !connected {
            return None;
        }
        match colour {
            Some(c) => Some(ClientRequest::CreateGame { player_count, seat: self.seat_request(c) }),
            None => None,
        }
    }
}

} // verus!
