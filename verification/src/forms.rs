//! The decoded shapes of the web forms and API request bodies. The
//! embedding parses the wire formats and hands these plain values over.

use vstd::prelude::*;

verus! {

/// The home page's join form.
#[derive(Debug, PartialEq, Eq)]
pub struct JoinGameForm {
    /// The game to join, as the UUID text the user typed.
    pub game_id: String,
    pub player_name: String,
}

/// The home page's create form.
#[derive(Debug, PartialEq, Eq)]
pub struct CreateGameForm {
    pub name: String,
    pub voting_system: String,
}

/// Request body for creating a game over the API.
#[derive(Debug, PartialEq, Eq)]
pub struct CreateGameRequest {
    pub name: String,
    pub voting_system: String,
}

/// Request body for joining a game over the API.
#[derive(Debug, PartialEq, Eq)]
pub struct JoinGameRequest {
    pub player_name: String,
}

/// Request body for casting a vote over the API.
#[derive(Debug, PartialEq, Eq)]
pub struct VoteRequest {
    /// Identity of the voting player (the value of a UUID).
    pub player_id: u128,
    pub vote: String,
}

/// The game page's vote form.
#[derive(Debug, PartialEq, Eq)]
pub struct VoteForm {
    pub vote: String,
}

} // verus!
