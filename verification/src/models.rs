//! Core data model: games, players, votes, the client/server message
//! vocabulary and the error taxonomy of the session layer.
//!
//! Identities are carried as the 128-bit value of a UUID and timestamps as
//! milliseconds since the Unix epoch, so that every field is a plain value
//! the verifier can reason about.

use vstd::prelude::*;

use crate::keyed::Keyed;

verus! {

/// Lifecycle state of a game: voting rounds move `Waiting -> Voting ->
/// Revealed` and reset back to `Waiting`.
#[derive(Clone, Copy, Debug, PartialEq, Eq, Structural)]
pub enum GameState {
    Waiting,
    Voting,
    Revealed,
}

/// A participant of a game.
#[derive(Debug, PartialEq, Eq)]
pub struct Player {
    /// Identity of the player (the value of a UUID).
    pub id: u128,
    /// Display name.
    pub name: String,
    /// Observers join the roster but are not expected to vote.
    pub is_observer: bool,
    /// Join time, in milliseconds since the Unix epoch.
    pub joined_at: i64,
}

impl Player {
    /// Field-for-field copy.
    pub fn duplicate(&self) -> (r: Player)
        ensures
            r == *self,
    {
        Player {
            id: self.id,
            name: self.name.clone(),
            is_observer: self.is_observer,
            joined_at: self.joined_at,
        }
    }
}

impl Keyed for Player {
    open spec fn key(&self) -> u128 {
        self.id
    }
}

/// A vote cast by one player in one game. A game holds at most one vote per
/// player: casting again overwrites the earlier vote.
#[derive(Debug, PartialEq, Eq)]
pub struct Vote {
    /// Identity of the voting player.
    pub player_id: u128,
    /// Snapshot of the player's display name at cast time.
    pub player_name: String,
    /// The chosen vote value, as free text.
    pub value: String,
    /// Cast time, in milliseconds since the Unix epoch.
    pub cast_at: i64,
}

impl Vote {
    /// Field-for-field copy.
    pub fn duplicate(&self) -> (r: Vote)
        ensures
            r == *self,
    {
        Vote {
            player_id: self.player_id,
            player_name: self.player_name.clone(),
            value: self.value.clone(),
            cast_at: self.cast_at,
        }
    }
}

impl Keyed for Vote {
    open spec fn key(&self) -> u128 {
        self.player_id
    }
}

/// The persisted record of a game, as it is snapshotted into `GameJoined`
/// events and handed to the store.
#[derive(Debug, PartialEq, Eq)]
pub struct Game {
    pub id: u128,
    pub name: String,
    /// Identity of the creating player.
    pub owner_id: u128,
    /// Descriptor of the permissible vote values (for example "fibonacci").
    pub voting_system: String,
    pub state: GameState,
    /// The story under estimation while a round is running.
    pub current_story: Option<String>,
    pub created_at: i64,
    pub updated_at: i64,
}

impl Game {
    /// Field-for-field copy.
    pub fn duplicate(&self) -> (r: Game)
        ensures
            r == *self,
    {
        Game {
            id: self.id,
            name: self.name.clone(),
            owner_id: self.owner_id,
            voting_system: self.voting_system.clone(),
            state: self.state,
            current_story: duplicate_opt_string(&self.current_story),
            created_at: self.created_at,
            updated_at: self.updated_at,
        }
    }
}

/// Copy of an optional string, preserving the value exactly.
pub fn duplicate_opt_string(s: &Option<String>) -> (r: Option<String>)
    ensures
        r == *s,
{
    match s {
        Some(v) => Some(v.clone()),
        None => None,
    }
}

/// Value-preserving copy of a roster.
pub fn clone_player_vec(v: &Vec<Player>) -> (r: Vec<Player>)
    ensures
        r@ == v@,
{
    let mut r: Vec<Player> = Vec::new();
    let mut i: usize = 0;
    while i < v.len()
        invariant
            i <= v.len(),
            r@.len() == i,
            forall|j: int| 0 <= j < i ==> r@[j] == v@[j],
        decreases v.len() - i,
    {
        r.push(v[i].duplicate());
        i += 1;
    }
    proof {
        assert(r@ =~= v@);
    }
    r
}

/// Value-preserving copy of a vote list.
pub fn clone_vote_vec(v: &Vec<Vote>) -> (r: Vec<Vote>)
    ensures
        r@ == v@,
{
    let mut r: Vec<Vote> = Vec::new();
    let mut i: usize = 0;
    while i < v.len()
        invariant
            i <= v.len(),
            r@.len() == i,
            forall|j: int| 0 <= j < i ==> r@[j] == v@[j],
        decreases v.len() - i,
    {
        r.push(v[i].duplicate());
        i += 1;
    }
    proof {
        assert(r@ =~= v@);
    }
    r
}

/// A command decoded from a client's transport.
#[derive(Debug, PartialEq, Eq)]
pub enum ClientMessage {
    JoinGame { game_id: u128, player_name: String },
    LeaveGame,
    CastVote { value: String },
    StartVoting { story: String },
    RevealVotes,
    ResetVoting,
}

/// An event delivered to a client's transport.
#[derive(Debug, PartialEq, Eq)]
pub enum ServerMessage {
    /// Full snapshot sent to a player that just joined.
    GameJoined { game: Game, players: Vec<Player> },
    /// A new player appeared in the roster.
    PlayerJoined { player: Player },
    PlayerLeft { player_id: u128 },
    VotingStarted { story: String },
    /// A vote was recorded; the value itself is withheld until reveal.
    VoteCast { player_id: u128, has_voted: bool },
    /// The full vote list, values included.
    VotesRevealed { votes: Vec<Vote> },
    VotingReset,
    /// A per-request failure, delivered to the originating connection only.
    Error { message: String },
}

impl ServerMessage {
    /// True when the two events say the same thing: the same variant with
    /// equal payloads, vectors compared by their contents.
    pub open spec fn says_same(self, other: ServerMessage) -> bool {
        match (self, other) {
            (
                ServerMessage::GameJoined { game: g1, players: p1 },
                ServerMessage::GameJoined { game: g2, players: p2 },
            ) => g1 == g2 && p1@ == p2@,
            (
                ServerMessage::VotesRevealed { votes: v1 },
                ServerMessage::VotesRevealed { votes: v2 },
            ) => v1@ == v2@,
            (a, b) => a == b,
        }
    }

    /// Field-for-field copy, so one event can be fanned out to many
    /// connections.
    pub fn duplicate(&self) -> (r: ServerMessage)
        ensures
            r.says_same(*self),
    {
        match self {
            ServerMessage::GameJoined { game, players } => ServerMessage::GameJoined {
                game: game.duplicate(),
                players: clone_player_vec(players),
            },
            ServerMessage::PlayerJoined { player } => ServerMessage::PlayerJoined {
                player: player.duplicate(),
            },
            ServerMessage::PlayerLeft { player_id } => ServerMessage::PlayerLeft {
                player_id: *player_id,
            },
            ServerMessage::VotingStarted { story } => ServerMessage::VotingStarted {
                story: story.clone(),
            },
            ServerMessage::VoteCast { player_id, has_voted } => ServerMessage::VoteCast {
                player_id: *player_id,
                has_voted: *has_voted,
            },
            ServerMessage::VotesRevealed { votes } => ServerMessage::VotesRevealed {
                votes: clone_vote_vec(votes),
            },
            ServerMessage::VotingReset => ServerMessage::VotingReset,
            ServerMessage::Error { message } => ServerMessage::Error { message: message.clone() },
        }
    }
}

/// Errors of the session layer.
#[derive(Clone, Copy, Debug, PartialEq, Eq, Structural)]
pub enum SessionError {
    /// A state-machine rule was violated.
    InvalidTransition,
    /// A vote or leave referred to a player absent from the roster.
    PlayerNotFound,
    /// The named game does not exist.
    GameNotFound,
    /// A connection id was used before `register` or after `unregister`.
    UnknownConnection,
    /// `register` was called twice with one connection id.
    DuplicateConnection,
    /// The persistence step failed; no broadcast was sent.
    StoreFailure,
}

impl SessionError {
    /// The text of `message`.
    pub open spec fn spec_message(self) -> Seq<char> {
        match self {
            SessionError::InvalidTransition => "Invalid state transition"@,
            SessionError::PlayerNotFound => "Player not found"@,
            SessionError::GameNotFound => "Game not found"@,
            SessionError::UnknownConnection => "Unknown connection"@,
            SessionError::DuplicateConnection => "Duplicate connection"@,
            SessionError::StoreFailure => "Store failure"@,
        }
    }

    /// Human-readable description, used for `ServerMessage::Error`.
    pub fn message(&self) -> (r: String)
        ensures
            r@ == self.spec_message(),
    {
        match self {
            SessionError::InvalidTransition => "Invalid state transition".to_owned(),
            SessionError::PlayerNotFound => "Player not found".to_owned(),
            SessionError::GameNotFound => "Game not found".to_owned(),
            SessionError::UnknownConnection => "Unknown connection".to_owned(),
            SessionError::DuplicateConnection => "Duplicate connection".to_owned(),
            SessionError::StoreFailure => "Store failure".to_owned(),
        }
    }
}

/// Request body for creating a game.
#[derive(Debug, PartialEq, Eq)]
pub struct CreateGameRequest {
    pub name: String,
    pub voting_system: String,
}

} // verus!
