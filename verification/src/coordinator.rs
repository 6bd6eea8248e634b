//! The session coordinator: one operation per client command, each of the
//! shape validate -> persist -> update the state machine -> broadcast.
//!
//! Commands against one game must be serialized by the embedding (a
//! per-game critical section or a single owning task); under that
//! discipline each command runs in two phases.
//! `prepare` validates a command against the current state without
//! changing anything and describes the store operations to perform;
//! once the store has accepted them, `commit` applies the change to the
//! in-memory state and computes the reply and the broadcast. If the store
//! fails, `commit` is simply never called: the state is untouched and no
//! partial broadcast can be sent.

use vstd::prelude::*;

use crate::keyed::Keyed;
use crate::keyed::{
    assoc_map, distinct_keys, has_key, lemma_assoc_map_at, lemma_assoc_map_dom,
    lemma_assoc_map_push, lemma_assoc_map_update, lemma_distinct_keys_push,
    lemma_distinct_keys_update,
};
use crate::models::{
    clone_player_vec, clone_vote_vec, duplicate_opt_string, ClientMessage, Game, GameState,
    Player, ServerMessage, SessionError, Vote,
};
use crate::poker::{voting_system_from_name, PlanningPokerGame};
use crate::registry::ConnectionRegistry;

verus! {

/// One game as the coordinator tracks it: the state machine together with
/// the persisted record's metadata.
#[derive(Debug)]
pub struct GameEntry {
    pub game: PlanningPokerGame,
    /// The persisted descriptor of the voting system, kept verbatim.
    pub voting_system_name: String,
    pub created_at: i64,
    pub updated_at: i64,
}

impl Keyed for GameEntry {
    open spec fn key(&self) -> u128 {
        self.game.id
    }
}

impl GameEntry {
    /// The persisted record this entry stands for.
    pub open spec fn spec_snapshot(self) -> Game {
        Game {
            id: self.game.id,
            name: self.game.name,
            owner_id: self.game.owner_id,
            voting_system: self.voting_system_name,
            state: self.game.state,
            current_story: self.game.current_story,
            created_at: self.created_at,
            updated_at: self.updated_at,
        }
    }

    /// Copies the entry out as a `Game` record.
    pub fn snapshot(&self) -> (r: Game)
        ensures
            r == self.spec_snapshot(),
    {
        Game {
            id: self.game.id,
            name: self.game.name.clone(),
            owner_id: self.game.owner_id,
            voting_system: self.voting_system_name.clone(),
            state: self.game.state,
            current_story: duplicate_opt_string(&self.game.current_story),
            created_at: self.created_at,
            updated_at: self.updated_at,
        }
    }
}

/// The coordinator: every live game and every live connection.
#[derive(Debug)]
pub struct SessionCoordinator {
    /// The games, at most one entry per game identity.
    pub games: Vec<GameEntry>,
    pub registry: ConnectionRegistry,
}

impl SessionCoordinator {
    /// The games as a map from game identity to entry.
    pub open spec fn game_map(self) -> Map<u128, GameEntry> {
        assoc_map(self.games@)
    }

    /// Internal invariant: game identities are unique, every game is well
    /// formed, and the registry is well formed.
    pub open spec fn well_formed(self) -> bool {
        &&& distinct_keys(self.games@)
        &&& forall|i: int|
            0 <= i < self.games@.len() ==> (#[trigger] self.games@[i]).game.well_formed()
        &&& self.registry.well_formed()
    }

    /// A coordinator with no games and no connections.
    pub fn new() -> (r: Self)
        ensures
            r.well_formed(),
            r.games@ == Seq::<GameEntry>::empty(),
            r.registry.connections() == Seq::<crate::registry::Connection>::empty(),
    {
        SessionCoordinator { games: Vec::new(), registry: ConnectionRegistry::new() }
    }

    /// Index of the entry for `game_id`, if the game exists.
    fn game_index(&self, game_id: u128) -> (r: Option<usize>)
        ensures
            match r {
                Some(i) => i < self.games.len() && self.games@[i as int].game.id == game_id,
                None => !has_key(self.games@, game_id),
            },
    {
        let mut i: usize = 0;
        while i < self.games.len()
            invariant
                i <= self.games.len(),
                forall|j: int| 0 <= j < i ==> self.games@[j].game.id != game_id,
            decreases self.games.len() - i,
        {
            if self.games[i].game.id == game_id {
                return Some(i);
            }
            i += 1;
        }
        None
    }

    /// Creates a game under the identity `id`, stamped with the clock
    /// reading `now`: owned by `owner_id`, in `Waiting`, with an empty
    /// roster and no story, describing the record to persist. Fails with
    /// `StoreFailure`, changing nothing, exactly when `id` is already
    /// taken.
    pub fn create_game_with(
        &mut self,
        id: u128,
        now: i64,
        name: String,
        voting_system: String,
        owner_id: u128,
    ) -> (r: Result<(Game, Vec<StoreOp>), SessionError>)
        requires
            old(self).well_formed(),
        ensures
            final(self).well_formed(),
            old(self).game_map().dom().contains(id) ==> {
                &&& r == Err::<(Game, Vec<StoreOp>), SessionError>(SessionError::StoreFailure)
                &&& *final(self) == *old(self)
            },
            !old(self).game_map().dom().contains(id) ==> (r matches Ok((game, ops)) && {
                &&& game.id == id
                &&& game.created_at == now
                &&& game.updated_at == now
                &&& final(self).games@.len() == old(self).games@.len() + 1
                &&& final(self).games@ == old(self).games@.push(final(self).games@.last())
                &&& final(self).games@.last().spec_snapshot() == game
                &&& final(self).games@.last().game.players@ == Seq::<Player>::empty()
                &&& final(self).games@.last().game.votes@ == Seq::<Vote>::empty()
                &&& final(self).game_map() == old(self).game_map().insert(
                    id,
                    final(self).games@.last(),
                )
                &&& game.name == name
                &&& game.owner_id == owner_id
                &&& game.voting_system == voting_system
                &&& game.state == GameState::Waiting
                &&& game.current_story is None
                &&& final(self).registry == old(self).registry
                &&& ops@.len() == 1
                &&& ops@[0] == (StoreOp::InsertGame { game: game })
            }),
    {
        let ghost pre = *self;
        proof {
            lemma_assoc_map_dom(pre.games@);
        }
        if self.game_index(id).is_some() {
            return Err(SessionError::StoreFailure);
        }
        let machine = PlanningPokerGame {
            id,
            name,
            owner_id,
            state: GameState::Waiting,
            players: Vec::new(),
            votes: Vec::new(),
            current_story: None,
            voting_system: voting_system_from_name(&voting_system),
        };
        proof {
            assert(machine.votes_map() =~= Map::<u128, Vote>::empty());
        }
        let entry = GameEntry { game: machine, voting_system_name: voting_system, created_at: now, updated_at: now };
        let game = entry.snapshot();
        proof {
            lemma_assoc_map_push(pre.games@, entry);
            lemma_distinct_keys_push(pre.games@, entry);
        }
        self.games.push(entry);
        let mut ops: Vec<StoreOp> = Vec::new();
        ops.push(StoreOp::InsertGame { game: game.duplicate() });
        Ok((game, ops))
    }

    /// Creates a game owned by `owner_id` under a freshly drawn identity
    /// and the current clock, as `create_game_with` does with those two
    /// values. Fails only with `StoreFailure` in the vanishing case that
    /// the drawn identity is already taken, and then changes nothing.
    pub fn create_game(&mut self, name: String, voting_system: String, owner_id: u128) -> (r:
        Result<(Game, Vec<StoreOp>), SessionError>)
        requires
            old(self).well_formed(),
        ensures
            final(self).well_formed(),
            r is Err ==> *final(self) == *old(self) && r == Err::<
                (Game, Vec<StoreOp>),
                SessionError,
            >(SessionError::StoreFailure),
            r matches Ok((game, ops)) ==> {
                &&& !old(self).game_map().dom().contains(game.id)
                &&& final(self).games@.len() == old(self).games@.len() + 1
                &&& final(self).games@ == old(self).games@.push(final(self).games@.last())
                &&& final(self).games@.last().spec_snapshot() == game
                &&& final(self).games@.last().game.players@ == Seq::<Player>::empty()
                &&& final(self).games@.last().game.votes@ == Seq::<Vote>::empty()
                &&& final(self).game_map() == old(self).game_map().insert(
                    game.id,
                    final(self).games@.last(),
                )
                &&& game.name == name
                &&& game.owner_id == owner_id
                &&& game.voting_system == voting_system
                &&& game.state == GameState::Waiting
                &&& game.current_story is None
                &&& game.created_at == game.updated_at
                &&& final(self).registry == old(self).registry
                &&& ops@.len() == 1
                &&& ops@[0] == (StoreOp::InsertGame { game: game })
            },
    {
        let id = crate::idgen::fresh_uuid_value();
        let now = crate::idgen::now_millis();
        self.create_game_with(id, now, name, voting_system, owner_id)
    }

    /// The persisted record of `game_id`, if the game exists.
    pub fn get_game(&self, game_id: u128) -> (r: Option<Game>)
        requires
            self.well_formed(),
        ensures
            match r {
                None => !self.game_map().dom().contains(game_id),
                Some(g) => {
                    &&& self.game_map().dom().contains(game_id)
                    &&& g == self.game_map()[game_id].spec_snapshot()
                },
            },
    {
        proof {
            lemma_assoc_map_dom(self.games@);
            lemma_assoc_map_at(self.games@);
        }
        match self.game_index(game_id) {
            None => None,
            Some(i) => Some(self.games[i].snapshot()),
        }
    }

    /// The roster of `game_id`, if the game exists.
    pub fn get_game_players(&self, game_id: u128) -> (r: Option<Vec<Player>>)
        requires
            self.well_formed(),
        ensures
            match r {
                None => !self.game_map().dom().contains(game_id),
                Some(v) => {
                    &&& self.game_map().dom().contains(game_id)
                    &&& v@ == self.game_map()[game_id].game.players@
                },
            },
    {
        proof {
            lemma_assoc_map_dom(self.games@);
            lemma_assoc_map_at(self.games@);
        }
        match self.game_index(game_id) {
            None => None,
            Some(i) => Some(clone_player_vec(&self.games[i].game.players)),
        }
    }

    /// The recorded votes of `game_id`, if the game exists.
    pub fn get_game_votes(&self, game_id: u128) -> (r: Option<Vec<Vote>>)
        requires
            self.well_formed(),
        ensures
            match r {
                None => !self.game_map().dom().contains(game_id),
                Some(v) => {
                    &&& self.game_map().dom().contains(game_id)
                    &&& v@ == self.game_map()[game_id].game.votes@
                },
            },
    {
        proof {
            lemma_assoc_map_dom(self.games@);
            lemma_assoc_map_at(self.games@);
        }
        match self.game_index(game_id) {
            None => None,
            Some(i) => Some(clone_vote_vec(&self.games[i].game.votes)),
        }
    }
}

impl SessionCoordinator {
    /// True when `c` is a registered connection.
    pub open spec fn conn_registered(self, c: u128) -> bool {
        self.registry.as_map().dom().contains(c)
    }

    /// The (player, game) binding of connection `c`, if it has one.
    pub open spec fn conn_bound(self, c: u128) -> Option<(u128, u128)> {
        if self.conn_registered(c) {
            match (self.registry.as_map()[c].player_id, self.registry.as_map()[c].game_id) {
                (Some(p), Some(g)) => Some((p, g)),
                _ => None,
            }
        } else {
            None
        }
    }

    /// True when a game with identity `g` exists.
    pub open spec fn game_exists(self, g: u128) -> bool {
        self.game_map().dom().contains(g)
    }

    /// Validates a command from `connection_id` against the current state,
    /// changing nothing. `Ok(Some(_))` carries the resolved change and is
    /// returned exactly when the command may proceed; `Ok(None)` is the
    /// silent no-op for a connection that has not joined a game; each error
    /// is returned exactly on the inputs its variant names, and is for the
    /// issuing connection alone. Any connection bound to the game may start,
    /// reveal or reset a round: no owner-only gating is enforced, since
    /// joiners get fresh identities and an owner check would lock everyone
    /// out; tightening this is a deliberate, documented non-goal for now.
    pub fn prepare(&self, connection_id: u128, message: ClientMessage) -> (r: Result<
        Option<Pending>,
        SessionError,
    >)
        requires
            self.well_formed(),
        ensures
            !self.conn_registered(connection_id) ==> r == Err::<Option<Pending>, SessionError>(
                SessionError::UnknownConnection,
            ),
            message matches ClientMessage::JoinGame { game_id, player_name } ==> {
                &&& self.conn_registered(connection_id) && !self.game_exists(game_id) ==> r
                    == Err::<Option<Pending>, SessionError>(SessionError::GameNotFound)
                &&& self.conn_registered(connection_id) && self.game_exists(game_id) ==> {
                    &&& r matches Ok(Some(p))
                    &&& p.connection_id == connection_id
                    &&& p.effect matches Effect::Join { game_id: g, player } && g == game_id
                        && player.name == player_name && !player.is_observer
                }
            },
            message is LeaveGame && self.conn_registered(connection_id) ==> match self.conn_bound(
                connection_id,
            ) {
                None => r == Ok::<Option<Pending>, SessionError>(None),
                Some(b) => r == Ok::<Option<Pending>, SessionError>(
                    Some(
                        (Pending {
                            connection_id,
                            effect: Effect::Leave { game_id: b.1, player_id: b.0 },
                        }),
                    ),
                ),
            },
            message matches ClientMessage::CastVote { value } ==> self.conn_registered(
                connection_id,
            ) ==> match self.conn_bound(connection_id) {
                None => r == Ok::<Option<Pending>, SessionError>(None),
                Some(b) => {
                    &&& !self.game_exists(b.1) ==> r == Err::<Option<Pending>, SessionError>(
                        SessionError::GameNotFound,
                    )
                    &&& self.game_exists(b.1) && self.game_map()[b.1].game.state
                        != GameState::Voting ==> r == Err::<Option<Pending>, SessionError>(
                        SessionError::InvalidTransition,
                    )
                    &&& self.game_exists(b.1) && self.game_map()[b.1].game.state
                        == GameState::Voting && !self.game_map()[b.1].game.players_map().dom()
                        .contains(b.0) ==> r == Err::<Option<Pending>, SessionError>(
                        SessionError::PlayerNotFound,
                    )
                    &&& self.game_exists(b.1) && self.game_map()[b.1].game.state
                        == GameState::Voting && self.game_map()[b.1].game.players_map().dom()
                        .contains(b.0) ==> {
                        &&& r matches Ok(Some(p))
                        &&& p.connection_id == connection_id
                        &&& p.effect matches Effect::CastVote { game_id, vote } && game_id == b.1
                            && vote.player_id == b.0 && vote.value == value && vote.player_name
                            == self.game_map()[b.1].game.players_map()[b.0].name
                    }
                },
            },
            message matches ClientMessage::StartVoting { story } ==> self.conn_registered(
                connection_id,
            ) ==> match self.conn_bound(connection_id) {
                None => r == Ok::<Option<Pending>, SessionError>(None),
                Some(b) => {
                    &&& !self.game_exists(b.1) ==> r == Err::<Option<Pending>, SessionError>(
                        SessionError::GameNotFound,
                    )
                    &&& self.game_exists(b.1) && self.game_map()[b.1].game.state
                        != GameState::Waiting ==> r == Err::<Option<Pending>, SessionError>(
                        SessionError::InvalidTransition,
                    )
                    &&& self.game_exists(b.1) && self.game_map()[b.1].game.state
                        == GameState::Waiting ==> r == Ok::<Option<Pending>, SessionError>(
                        Some(
                            (Pending {
                                connection_id,
                                effect: Effect::StartVoting { game_id: b.1, story },
                            }),
                        ),
                    )
                },
            },
            message is RevealVotes && self.conn_registered(connection_id) ==> match self
                .conn_bound(connection_id) {
                None => r == Ok::<Option<Pending>, SessionError>(None),
                Some(b) => {
                    &&& !self.game_exists(b.1) ==> r == Err::<Option<Pending>, SessionError>(
                        SessionError::GameNotFound,
                    )
                    &&& self.game_exists(b.1) && self.game_map()[b.1].game.state
                        != GameState::Voting ==> r == Err::<Option<Pending>, SessionError>(
                        SessionError::InvalidTransition,
                    )
                    &&& self.game_exists(b.1) && self.game_map()[b.1].game.state
                        == GameState::Voting ==> r == Ok::<Option<Pending>, SessionError>(
                        Some(
                            (Pending { connection_id, effect: Effect::RevealVotes { game_id: b.1 } }),
                        ),
                    )
                },
            },
            message is ResetVoting && self.conn_registered(connection_id) ==> match self
                .conn_bound(connection_id) {
                None => r == Ok::<Option<Pending>, SessionError>(None),
                Some(b) => {
                    &&& !self.game_exists(b.1) ==> r == Err::<Option<Pending>, SessionError>(
                        SessionError::GameNotFound,
                    )
                    &&& self.game_exists(b.1) ==> r == Ok::<Option<Pending>, SessionError>(
                        Some(
                            (Pending { connection_id, effect: Effect::ResetVoting { game_id: b.1 } }),
                        ),
                    )
                },
            },
    {
        let bound: Option<(u128, u128)> = match self.registry.binding(connection_id) {
            None => {
                return Err(SessionError::UnknownConnection);
            },
            Some((Some(p), Some(g))) => Some((p, g)),
            Some(_) => None,
        };
        match message {
            ClientMessage::JoinGame { game_id, player_name } => {
                proof {
                    lemma_assoc_map_dom(self.games@);
                }
                if self.game_index(game_id).is_none() {
                    return Err(SessionError::GameNotFound);
                }
                let player = Player {
                    id: crate::idgen::fresh_uuid_value(),
                    name: player_name,
                    is_observer: false,
                    joined_at: crate::idgen::now_millis(),
                };
                Ok(Some(Pending { connection_id, effect: Effect::Join { game_id, player } }))
            },
            ClientMessage::LeaveGame => match bound {
                None => Ok(None),
                Some((p, g)) => Ok(
                    Some(Pending { connection_id, effect: Effect::Leave { game_id: g, player_id: p } }),
                ),
            },
            ClientMessage::CastVote { value } => match bound {
                None => Ok(None),
                Some((p, g)) => {
                    proof {
                        lemma_assoc_map_dom(self.games@);
                        lemma_assoc_map_at(self.games@);
                    }
                    match self.game_index(g) {
                        None => Err(SessionError::GameNotFound),
                        Some(i) => {
                            let entry = &self.games[i];
                            if entry.game.state != GameState::Voting {
                                return Err(SessionError::InvalidTransition);
                            }
                            match entry.game.find_player(p) {
                                None => Err(SessionError::PlayerNotFound),
                                Some(pl) => {
                                    let vote = Vote {
                                        player_id: p,
                                        player_name: pl.name.clone(),
                                        value,
                                        cast_at: crate::idgen::now_millis(),
                                    };
                                    Ok(
                                        Some(
                                            Pending {
                                                connection_id,
                                                effect: Effect::CastVote { game_id: g, vote },
                                            },
                                        ),
                                    )
                                },
                            }
                        },
                    }
                },
            },
            ClientMessage::StartVoting { story } => match bound {
                None => Ok(None),
                Some((_, g)) => {
                    proof {
                        lemma_assoc_map_dom(self.games@);
                        lemma_assoc_map_at(self.games@);
                    }
                    match self.game_index(g) {
                        None => Err(SessionError::GameNotFound),
                        Some(i) => {
                            if self.games[i].game.state != GameState::Waiting {
                                return Err(SessionError::InvalidTransition);
                            }
                            Ok(
                                Some(
                                    Pending {
                                        connection_id,
                                        effect: Effect::StartVoting { game_id: g, story },
                                    },
                                ),
                            )
                        },
                    }
                },
            },
            ClientMessage::RevealVotes => match bound {
                None => Ok(None),
                Some((_, g)) => {
                    proof {
                        lemma_assoc_map_dom(self.games@);
                        lemma_assoc_map_at(self.games@);
                    }
                    match self.game_index(g) {
                        None => Err(SessionError::GameNotFound),
                        Some(i) => {
                            if self.games[i].game.state != GameState::Voting {
                                return Err(SessionError::InvalidTransition);
                            }
                            Ok(
                                Some(
                                    Pending {
                                        connection_id,
                                        effect: Effect::RevealVotes { game_id: g },
                                    },
                                ),
                            )
                        },
                    }
                },
            },
            ClientMessage::ResetVoting => match bound {
                None => Ok(None),
                Some((_, g)) => {
                    proof {
                        lemma_assoc_map_dom(self.games@);
                        lemma_assoc_map_at(self.games@);
                    }
                    match self.game_index(g) {
                        None => Err(SessionError::GameNotFound),
                        Some(_) => Ok(
                            Some(
                                Pending { connection_id, effect: Effect::ResetVoting { game_id: g } },
                            ),
                        ),
                    }
                },
            },
        }
    }
}

/// One write the store must perform on behalf of a command.
#[derive(Debug, PartialEq, Eq)]
pub enum StoreOp {
    /// Insert the record of a newly created game.
    InsertGame { game: Game },
    /// Insert a player row.
    InsertPlayer { game_id: u128, player: Player },
    /// Delete a player row.
    DeletePlayer { game_id: u128, player_id: u128 },
    /// Delete one player's vote row, if present.
    DeleteVote { game_id: u128, player_id: u128 },
    /// Replace or insert one player's vote row.
    UpsertVote { game_id: u128, vote: Vote },
    /// Delete every vote row of the game.
    ClearVotes { game_id: u128 },
    /// Set the game's state to `Voting` and its story.
    SetVoting { game_id: u128, story: String },
    /// Set the game's state to `Revealed`.
    SetRevealed { game_id: u128 },
    /// Set the game's state to `Waiting` and clear its story.
    ResetGame { game_id: u128 },
}

/// The fully resolved change a validated command will make.
#[derive(Debug, PartialEq, Eq)]
pub enum Effect {
    /// Add `player` to the roster of `game_id` and bind the connection.
    Join { game_id: u128, player: Player },
    /// Remove the player from the roster, with their vote, and unbind.
    Leave { game_id: u128, player_id: u128 },
    /// Record `vote` in `game_id`.
    CastVote { game_id: u128, vote: Vote },
    /// Begin a round on `story` in `game_id`.
    StartVoting { game_id: u128, story: String },
    /// Expose the recorded votes of `game_id`.
    RevealVotes { game_id: u128 },
    /// Return `game_id` to `Waiting` with no votes and no story.
    ResetVoting { game_id: u128 },
}

/// A command that passed validation: the connection that issued it and the
/// change it will make. The store operations of `store_ops` must be accepted
/// by the persistence layer before the change is committed.
#[derive(Debug, PartialEq, Eq)]
pub struct Pending {
    pub connection_id: u128,
    pub effect: Effect,
}

impl Pending {
    /// The writes the store must perform for this command, in order.
    pub fn store_ops(&self) -> (r: Vec<StoreOp>)
        ensures
            self.effect matches Effect::Join { game_id, player } ==> r@ == seq![
                (StoreOp::InsertPlayer { game_id, player }),
            ],
            self.effect matches Effect::Leave { game_id, player_id } ==> r@ == seq![
                (StoreOp::DeletePlayer { game_id, player_id }),
                (StoreOp::DeleteVote { game_id, player_id }),
            ],
            self.effect matches Effect::CastVote { game_id, vote } ==> r@ == seq![
                (StoreOp::UpsertVote { game_id, vote }),
            ],
            self.effect matches Effect::StartVoting { game_id, story } ==> r@ == seq![
                (StoreOp::ClearVotes { game_id }),
                (StoreOp::SetVoting { game_id, story }),
            ],
            self.effect matches Effect::RevealVotes { game_id } ==> r@ == seq![
                (StoreOp::SetRevealed { game_id }),
            ],
            self.effect matches Effect::ResetVoting { game_id } ==> r@ == seq![
                (StoreOp::ClearVotes { game_id }),
                (StoreOp::ResetGame { game_id }),
            ],
    {
        let mut r: Vec<StoreOp> = Vec::new();
        match &self.effect {
            Effect::Join { game_id, player } => {
                r.push(StoreOp::InsertPlayer { game_id: *game_id, player: player.duplicate() });
            },
            Effect::Leave { game_id, player_id } => {
                r.push(StoreOp::DeletePlayer { game_id: *game_id, player_id: *player_id });
                r.push(StoreOp::DeleteVote { game_id: *game_id, player_id: *player_id });
            },
            Effect::CastVote { game_id, vote } => {
                r.push(StoreOp::UpsertVote { game_id: *game_id, vote: vote.duplicate() });
            },
            Effect::StartVoting { game_id, story } => {
                r.push(StoreOp::ClearVotes { game_id: *game_id });
                r.push(StoreOp::SetVoting { game_id: *game_id, story: story.clone() });
            },
            Effect::RevealVotes { game_id } => {
                r.push(StoreOp::SetRevealed { game_id: *game_id });
            },
            Effect::ResetVoting { game_id } => {
                r.push(StoreOp::ClearVotes { game_id: *game_id });
                r.push(StoreOp::ResetGame { game_id: *game_id });
            },
        }
        r
    }
}

/// One event to deliver, best effort and at most once, to a set of
/// connections.
#[derive(Debug, PartialEq, Eq)]
pub struct Broadcast {
    /// The connections to deliver to, each listed once.
    pub recipients: Vec<u128>,
    pub message: ServerMessage,
}

/// What a committed command sends out: at most one direct reply to the
/// issuing connection and at most one broadcast to the game's connections.
#[derive(Debug, PartialEq, Eq)]
pub struct CommitOutcome {
    pub reply: Option<ServerMessage>,
    pub broadcast: Option<Broadcast>,
}

/// True when the two entries agree on everything no transition ever
/// touches: identity, names, system descriptor and creation time. The
/// update time is not here: round transitions refresh it from the clock.
pub open spec fn entry_meta_unchanged(e0: GameEntry, e1: GameEntry) -> bool {
    &&& e1.game.same_identity(e0.game)
    &&& e1.voting_system_name == e0.voting_system_name
    &&& e1.created_at == e0.created_at
}

impl SessionCoordinator {
    /// True when `post` has the same games as `self`, except possibly `g`.
    pub open spec fn others_unchanged(self, post: Self, g: u128) -> bool {
        &&& post.game_map().dom() == self.game_map().dom()
        &&& forall|k: u128|
            self.game_map().dom().contains(k) && k != g ==> #[trigger] post.game_map()[k]
                == self.game_map()[k]
    }

    /// True when `bc` reaches exactly the connections bound to `g`, minus
    /// the excluded one, each once, as the registry stands in `self`.
    pub open spec fn broadcast_ok(self, bc: Broadcast, g: u128, exclude: Option<u128>) -> bool {
        &&& forall|k: u128|
            #[trigger] bc.recipients@.contains(k) <==> {
                &&& self.registry.as_map().dom().contains(k)
                &&& crate::registry::is_target(self.registry.as_map()[k], g, exclude)
            }
        &&& crate::registry::distinct_ids(bc.recipients@)
    }

    /// Registers a new, unbound connection, as `register` of the registry
    /// does; the games are untouched.
    pub fn register_connection(&mut self, connection_id: u128) -> (r: Result<(), SessionError>)
        requires
            old(self).well_formed(),
        ensures
            final(self).well_formed(),
            final(self).games@ == old(self).games@,
            old(self).conn_registered(connection_id) ==> {
                &&& r == Err::<(), SessionError>(SessionError::DuplicateConnection)
                &&& final(self).registry.conns@ == old(self).registry.conns@
            },
            !old(self).conn_registered(connection_id) ==> {
                &&& r is Ok
                &&& final(self).registry.as_map() == old(self).registry.as_map().insert(
                    connection_id,
                    (crate::registry::Connection {
                        id: connection_id,
                        player_id: None,
                        game_id: None,
                    }),
                )
            },
    {
        self.registry.register(connection_id)
    }

    /// Tears a connection down when its transport closes: removes it from
    /// the registry, exactly once per lifecycle, and — if the connection was
    /// bound — announces the departure to the other connections of its
    /// game. The roster is left as it is; a player who reconnects resumes
    /// from a fresh snapshot. Safe to call for an unknown identity, which
    /// changes nothing.
    pub fn disconnect(&mut self, connection_id: u128) -> (r: Option<Broadcast>)
        requires
            old(self).well_formed(),
        ensures
            final(self).well_formed(),
            final(self).games@ == old(self).games@,
            final(self).registry.as_map() == old(self).registry.as_map().remove(connection_id),
            r is Some <==> old(self).conn_bound(connection_id) is Some,
            old(self).conn_bound(connection_id) matches Some(b) ==> (r matches Some(bc) && {
                &&& bc.message == (ServerMessage::PlayerLeft { player_id: b.0 })
                &&& final(self).broadcast_ok(bc, b.1, Some(connection_id))
            }),
    {
        match self.registry.unregister(connection_id) {
            None => None,
            Some((p, g)) => {
                let recipients = self.registry.broadcast_targets(g, Some(connection_id));
                Some(Broadcast { recipients, message: ServerMessage::PlayerLeft { player_id: p } })
            },
        }
    }

    /// Applies a validated command, once its store operations have been
    /// accepted, and computes what to send: the state machine moves exactly
    /// as the effect says, the issuing connection gets its reply, and the
    /// broadcast reaches exactly the game's connections — for a join, every
    /// one of them except the joiner itself. A round transition (start,
    /// reveal, reset) also refreshes the game's update time from the clock;
    /// nothing is promised of the drawn value. On an error nothing changes
    /// and nothing may be sent but an `Error` reply to the issuer.
    #[verifier::rlimit(100)]
    pub fn commit(&mut self, pending: Pending) -> (r: Result<CommitOutcome, SessionError>)
        requires
            old(self).well_formed(),
        ensures
            final(self).well_formed(),
            r is Err ==> final(self).games@ == old(self).games@ && final(self).registry.conns@
                == old(self).registry.conns@,
            pending.effect matches Effect::Join { game_id, player } ==> {
                &&& !old(self).game_exists(game_id) ==> r == Err::<CommitOutcome, SessionError>(
                    SessionError::GameNotFound,
                )
                &&& old(self).game_exists(game_id) && !old(self).conn_registered(
                    pending.connection_id,
                ) ==> r == Err::<CommitOutcome, SessionError>(SessionError::UnknownConnection)
                &&& old(self).game_exists(game_id) && old(self).conn_registered(
                    pending.connection_id,
                ) ==> {
                    &&& r matches Ok(out)
                    &&& final(self).registry.as_map() == old(self).registry.as_map().insert(
                        pending.connection_id,
                        (crate::registry::Connection {
                            id: pending.connection_id,
                            player_id: Some(player.id),
                            game_id: Some(game_id),
                        }),
                    )
                    &&& old(self).others_unchanged(*final(self), game_id)
                    &&& final(self).game_map()[game_id].game.players_map() == old(
                        self,
                    ).game_map()[game_id].game.players_map().insert(player.id, player)
                    &&& final(self).game_map()[game_id].game.votes@ == old(
                        self,
                    ).game_map()[game_id].game.votes@
                    &&& final(self).game_map()[game_id].game.state == old(
                        self,
                    ).game_map()[game_id].game.state
                    &&& final(self).game_map()[game_id].game.current_story == old(
                        self,
                    ).game_map()[game_id].game.current_story
                    &&& final(self).game_map()[game_id].updated_at == old(
                        self,
                    ).game_map()[game_id].updated_at
                    &&& entry_meta_unchanged(
                        old(self).game_map()[game_id],
                        final(self).game_map()[game_id],
                    )
                    &&& out.reply matches Some(m) && m matches ServerMessage::GameJoined {
                        game,
                        players,
                    } && game == final(self).game_map()[game_id].spec_snapshot() && players@
                        == final(self).game_map()[game_id].game.players@
                    &&& out.broadcast matches Some(bc) && bc.message
                        == (ServerMessage::PlayerJoined { player }) && final(self).broadcast_ok(
                        bc,
                        game_id,
                        Some(pending.connection_id),
                    )
                }
            },
            pending.effect matches Effect::Leave { game_id, player_id } ==> {
                &&& !old(self).conn_registered(pending.connection_id) ==> r == Err::<
                    CommitOutcome,
                    SessionError,
                >(SessionError::UnknownConnection)
                &&& old(self).conn_registered(pending.connection_id) ==> {
                    &&& r matches Ok(out)
                    &&& final(self).registry.as_map() == old(self).registry.as_map().insert(
                        pending.connection_id,
                        (crate::registry::Connection {
                            id: pending.connection_id,
                            player_id: None,
                            game_id: None,
                        }),
                    )
                    &&& !old(self).game_exists(game_id) ==> final(self).games@ == old(
                        self,
                    ).games@
                    &&& old(self).game_exists(game_id) ==> {
                        &&& old(self).others_unchanged(*final(self), game_id)
                        &&& final(self).game_map()[game_id].game.players_map() == old(
                            self,
                        ).game_map()[game_id].game.players_map().remove(player_id)
                        &&& final(self).game_map()[game_id].game.votes_map() == old(
                            self,
                        ).game_map()[game_id].game.votes_map().remove(player_id)
                        &&& final(self).game_map()[game_id].game.state == old(
                            self,
                        ).game_map()[game_id].game.state
                        &&& final(self).game_map()[game_id].game.current_story == old(
                            self,
                        ).game_map()[game_id].game.current_story
                        &&& final(self).game_map()[game_id].updated_at == old(
                            self,
                        ).game_map()[game_id].updated_at
                        &&& entry_meta_unchanged(
                            old(self).game_map()[game_id],
                            final(self).game_map()[game_id],
                        )
                    }
                    &&& out.reply is None
                    &&& out.broadcast matches Some(bc) && bc.message
                        == (ServerMessage::PlayerLeft { player_id }) && final(self).broadcast_ok(
                        bc,
                        game_id,
                        Some(pending.connection_id),
                    )
                }
            },
            pending.effect matches Effect::CastVote { game_id, vote } ==> {
                &&& !old(self).game_exists(game_id) ==> r == Err::<CommitOutcome, SessionError>(
                    SessionError::GameNotFound,
                )
                &&& old(self).game_exists(game_id) && old(self).game_map()[game_id].game.state
                    != GameState::Voting ==> r == Err::<CommitOutcome, SessionError>(
                    SessionError::InvalidTransition,
                )
                &&& old(self).game_exists(game_id) && old(self).game_map()[game_id].game.state
                    == GameState::Voting && !old(
                    self,
                ).game_map()[game_id].game.players_map().dom().contains(vote.player_id) ==> r
                    == Err::<CommitOutcome, SessionError>(SessionError::PlayerNotFound)
                &&& old(self).game_exists(game_id) && old(self).game_map()[game_id].game.state
                    == GameState::Voting && old(
                    self,
                ).game_map()[game_id].game.players_map().dom().contains(vote.player_id) ==> {
                    &&& r matches Ok(out)
                    &&& final(self).registry.conns@ == old(self).registry.conns@
                    &&& old(self).others_unchanged(*final(self), game_id)
                    &&& final(self).game_map()[game_id].game.votes_map() == old(
                        self,
                    ).game_map()[game_id].game.votes_map().insert(vote.player_id, vote)
                    &&& final(self).game_map()[game_id].game.players@ == old(
                        self,
                    ).game_map()[game_id].game.players@
                    &&& final(self).game_map()[game_id].game.state == GameState::Voting
                    &&& final(self).game_map()[game_id].game.current_story == old(
                        self,
                    ).game_map()[game_id].game.current_story
                    &&& final(self).game_map()[game_id].updated_at == old(
                        self,
                    ).game_map()[game_id].updated_at
                    &&& entry_meta_unchanged(
                        old(self).game_map()[game_id],
                        final(self).game_map()[game_id],
                    )
                    &&& out.reply is None
                    &&& out.broadcast matches Some(bc) && bc.message == (ServerMessage::VoteCast {
                        player_id: vote.player_id,
                        has_voted: true,
                    }) && final(self).broadcast_ok(bc, game_id, None)
                }
            },
            pending.effect matches Effect::StartVoting { game_id, story } ==> {
                &&& !old(self).game_exists(game_id) ==> r == Err::<CommitOutcome, SessionError>(
                    SessionError::GameNotFound,
                )
                &&& old(self).game_exists(game_id) && old(self).game_map()[game_id].game.state
                    != GameState::Waiting ==> r == Err::<CommitOutcome, SessionError>(
                    SessionError::InvalidTransition,
                )
                &&& old(self).game_exists(game_id) && old(self).game_map()[game_id].game.state
                    == GameState::Waiting ==> {
                    &&& r matches Ok(out)
                    &&& final(self).registry.conns@ == old(self).registry.conns@
                    &&& old(self).others_unchanged(*final(self), game_id)
                    &&& final(self).game_map()[game_id].game.state == GameState::Voting
                    &&& final(self).game_map()[game_id].game.current_story == Some(story)
                    &&& final(self).game_map()[game_id].game.votes@ == Seq::<Vote>::empty()
                    &&& final(self).game_map()[game_id].game.players@ == old(
                        self,
                    ).game_map()[game_id].game.players@
                    &&& entry_meta_unchanged(
                        old(self).game_map()[game_id],
                        final(self).game_map()[game_id],
                    )
                    &&& out.reply is None
                    &&& out.broadcast matches Some(bc) && bc.message
                        == (ServerMessage::VotingStarted { story }) && final(self).broadcast_ok(
                        bc,
                        game_id,
                        None,
                    )
                }
            },
            pending.effect matches Effect::RevealVotes { game_id } ==> {
                &&& !old(self).game_exists(game_id) ==> r == Err::<CommitOutcome, SessionError>(
                    SessionError::GameNotFound,
                )
                &&& old(self).game_exists(game_id) && old(self).game_map()[game_id].game.state
                    != GameState::Voting ==> r == Err::<CommitOutcome, SessionError>(
                    SessionError::InvalidTransition,
                )
                &&& old(self).game_exists(game_id) && old(self).game_map()[game_id].game.state
                    == GameState::Voting ==> {
                    &&& r matches Ok(out)
                    &&& final(self).registry.conns@ == old(self).registry.conns@
                    &&& old(self).others_unchanged(*final(self), game_id)
                    &&& final(self).game_map()[game_id].game.state == GameState::Revealed
                    &&& final(self).game_map()[game_id].game.votes@ == old(
                        self,
                    ).game_map()[game_id].game.votes@
                    &&& final(self).game_map()[game_id].game.players@ == old(
                        self,
                    ).game_map()[game_id].game.players@
                    &&& final(self).game_map()[game_id].game.current_story == old(
                        self,
                    ).game_map()[game_id].game.current_story
                    &&& entry_meta_unchanged(
                        old(self).game_map()[game_id],
                        final(self).game_map()[game_id],
                    )
                    &&& out.reply is None
                    &&& out.broadcast matches Some(bc) && bc.message
                        matches ServerMessage::VotesRevealed { votes } && votes@ == old(
                        self,
                    ).game_map()[game_id].game.votes@ && final(self).broadcast_ok(
                        bc,
                        game_id,
                        None,
                    )
                }
            },
            pending.effect matches Effect::ResetVoting { game_id } ==> {
                &&& !old(self).game_exists(game_id) ==> r == Err::<CommitOutcome, SessionError>(
                    SessionError::GameNotFound,
                )
                &&& old(self).game_exists(game_id) ==> {
                    &&& r matches Ok(out)
                    &&& final(self).registry.conns@ == old(self).registry.conns@
                    &&& old(self).others_unchanged(*final(self), game_id)
                    &&& final(self).game_map()[game_id].game.state == GameState::Waiting
                    &&& final(self).game_map()[game_id].game.votes@ == Seq::<Vote>::empty()
                    &&& final(self).game_map()[game_id].game.current_story is None
                    &&& final(self).game_map()[game_id].game.players@ == old(
                        self,
                    ).game_map()[game_id].game.players@
                    &&& entry_meta_unchanged(
                        old(self).game_map()[game_id],
                        final(self).game_map()[game_id],
                    )
                    &&& out.reply is None
                    &&& out.broadcast matches Some(bc) && bc.message == ServerMessage::VotingReset
                        && final(self).broadcast_ok(bc, game_id, None)
                }
            },
    {
        let ghost pre = *self;
        let Pending { connection_id, effect } = pending;
        proof {
            lemma_assoc_map_dom(pre.games@);
            lemma_assoc_map_at(pre.games@);
        }
        match effect {
            Effect::Join { game_id, player } => {
                let i = match self.game_index(game_id) {
                    None => {
                        return Err(SessionError::GameNotFound);
                    },
                    Some(i) => i,
                };
                match self.registry.bind(connection_id, player.id, game_id) {
                    Err(e) => Err(e),
                    Ok(()) => {
                        let mut entry = self.games.remove(i);
                        let _ = entry.game.add_player(player.duplicate());
                        let game_rec = entry.snapshot();
                        let players_copy = clone_player_vec(&entry.game.players);
                        let ghost e1 = entry;
                        self.games.insert(i, entry);
                        proof {
                            assert(self.games@ =~= pre.games@.update(i as int, e1));
                            self.commit_entry_update(pre, i as int, e1, game_id);
                        }
                        let recipients = self.registry.broadcast_targets(
                            game_id,
                            Some(connection_id),
                        );
                        Ok(
                            CommitOutcome {
                                reply: Some(
                                    ServerMessage::GameJoined {
                                        game: game_rec,
                                        players: players_copy,
                                    },
                                ),
                                broadcast: Some(
                                    Broadcast {
                                        recipients,
                                        message: ServerMessage::PlayerJoined { player },
                                    },
                                ),
                            },
                        )
                    },
                }
            },
            Effect::Leave { game_id, player_id } => {
                match self.registry.unbind(connection_id) {
                    Err(e) => Err(e),
                    Ok(()) => {
                        match self.game_index(game_id) {
                            None => {},
                            Some(i) => {
                                let mut entry = self.games.remove(i);
                                let _ = entry.game.remove_player(player_id);
                                let ghost e1 = entry;
                                self.games.insert(i, entry);
                                proof {
                                    assert(self.games@ =~= pre.games@.update(i as int, e1));
                                    self.commit_entry_update(pre, i as int, e1, game_id);
                                }
                            },
                        }
                        let recipients = self.registry.broadcast_targets(
                            game_id,
                            Some(connection_id),
                        );
                        Ok(
                            CommitOutcome {
                                reply: None,
                                broadcast: Some(
                                    Broadcast {
                                        recipients,
                                        message: ServerMessage::PlayerLeft { player_id },
                                    },
                                ),
                            },
                        )
                    },
                }
            },
            Effect::CastVote { game_id, vote } => {
                let i = match self.game_index(game_id) {
                    None => {
                        return Err(SessionError::GameNotFound);
                    },
                    Some(i) => i,
                };
                let mut entry = self.games.remove(i);
                let res = entry.game.cast_vote(vote.player_id, vote.duplicate());
                let ghost e1 = entry;
                self.games.insert(i, entry);
                proof {
                    assert(self.games@ =~= pre.games@.update(i as int, e1));
                    self.commit_entry_update(pre, i as int, e1, game_id);
                }
                match res {
                    Err(e) => {
                        proof {
                            assert(self.games@ =~= pre.games@);
                        }
                        Err(e)
                    },
                    Ok(()) => {
                        let recipients = self.registry.broadcast_targets(game_id, None);
                        Ok(
                            CommitOutcome {
                                reply: None,
                                broadcast: Some(
                                    Broadcast {
                                        recipients,
                                        message: ServerMessage::VoteCast {
                                            player_id: vote.player_id,
                                            has_voted: true,
                                        },
                                    },
                                ),
                            },
                        )
                    },
                }
            },
            Effect::StartVoting { game_id, story } => {
                let i = match self.game_index(game_id) {
                    None => {
                        return Err(SessionError::GameNotFound);
                    },
                    Some(i) => i,
                };
                let mut entry = self.games.remove(i);
                let res = entry.game.start_voting(story.clone());
                if res.is_ok() {
                    entry.updated_at = crate::idgen::now_millis();
                }
                let ghost e1 = entry;
                self.games.insert(i, entry);
                proof {
                    assert(self.games@ =~= pre.games@.update(i as int, e1));
                    self.commit_entry_update(pre, i as int, e1, game_id);
                }
                match res {
                    Err(e) => {
                        proof {
                            assert(self.games@ =~= pre.games@);
                        }
                        Err(e)
                    },
                    Ok(()) => {
                        let recipients = self.registry.broadcast_targets(game_id, None);
                        Ok(
                            CommitOutcome {
                                reply: None,
                                broadcast: Some(
                                    Broadcast {
                                        recipients,
                                        message: ServerMessage::VotingStarted { story },
                                    },
                                ),
                            },
                        )
                    },
                }
            },
            Effect::RevealVotes { game_id } => {
                let i = match self.game_index(game_id) {
                    None => {
                        return Err(SessionError::GameNotFound);
                    },
                    Some(i) => i,
                };
                let mut entry = self.games.remove(i);
                let res = entry.game.reveal_votes();
                if res.is_ok() {
                    entry.updated_at = crate::idgen::now_millis();
                }
                let votes_copy = clone_vote_vec(&entry.game.votes);
                let ghost e1 = entry;
                self.games.insert(i, entry);
                proof {
                    assert(self.games@ =~= pre.games@.update(i as int, e1));
                    self.commit_entry_update(pre, i as int, e1, game_id);
                }
                match res {
                    Err(e) => {
                        proof {
                            assert(self.games@ =~= pre.games@);
                        }
                        Err(e)
                    },
                    Ok(()) => {
                        let recipients = self.registry.broadcast_targets(game_id, None);
                        Ok(
                            CommitOutcome {
                                reply: None,
                                broadcast: Some(
                                    Broadcast {
                                        recipients,
                                        message: ServerMessage::VotesRevealed {
                                            votes: votes_copy,
                                        },
                                    },
                                ),
                            },
                        )
                    },
                }
            },
            Effect::ResetVoting { game_id } => {
                let i = match self.game_index(game_id) {
                    None => {
                        return Err(SessionError::GameNotFound);
                    },
                    Some(i) => i,
                };
                let mut entry = self.games.remove(i);
                let _ = entry.game.reset_voting();
                entry.updated_at = crate::idgen::now_millis();
                let ghost e1 = entry;
                self.games.insert(i, entry);
                proof {
                    assert(self.games@ =~= pre.games@.update(i as int, e1));
                    self.commit_entry_update(pre, i as int, e1, game_id);
                }
                let recipients = self.registry.broadcast_targets(game_id, None);
                Ok(
                    CommitOutcome {
                        reply: None,
                        broadcast: Some(
                            Broadcast { recipients, message: ServerMessage::VotingReset },
                        ),
                    },
                )
            },
        }
    }

    /// After replacing the entry at `i` — whose game keeps its identity —
    /// the coordinator's game map is the point update of the old one.
    proof fn commit_entry_update(&self, pre: Self, i: int, e1: GameEntry, game_id: u128)
        requires
            distinct_keys(pre.games@),
            forall|j: int| 0 <= j < pre.games@.len() ==> (#[trigger] pre.games@[j]).game.well_formed(),
            0 <= i < pre.games@.len(),
            pre.games@[i].game.id == game_id,
            e1.game.id == game_id,
            e1.game.well_formed(),
            self.games@ == pre.games@.update(i, e1),
        ensures
            distinct_keys(self.games@),
            forall|j: int| 0 <= j < self.games@.len() ==> (#[trigger] self.games@[j]).game.well_formed(),
            self.game_map() == pre.game_map().insert(game_id, e1),
            self.game_map().dom() == pre.game_map().dom(),
            forall|k: u128|
                pre.game_map().dom().contains(k) && k != game_id ==> #[trigger] self.game_map()[k]
                    == pre.game_map()[k],
            self.game_map()[game_id] == e1,
            e1 == self.games@[i],
    {
        lemma_assoc_map_dom(pre.games@);
        lemma_assoc_map_at(pre.games@);
        lemma_assoc_map_update(pre.games@, i, e1);
        lemma_distinct_keys_update(pre.games@, i, e1);
        assert(self.game_map().dom() =~= pre.game_map().dom());
        assert forall|j: int|
            0 <= j < self.games@.len() implies (#[trigger] self.games@[j]).game.well_formed() by {
            if j != i {
                assert(self.games@[j] == pre.games@[j]);
            }
        }
    }
}

/// The `Error` event that reports a failed command to the issuing
/// connection — and to it alone; failures are never broadcast.
pub fn error_reply(err: &SessionError) -> (r: ServerMessage)
    ensures
        r matches ServerMessage::Error { message } && message@ == err.spec_message(),
{
    ServerMessage::Error { message: err.message() }
}

} // verus!
