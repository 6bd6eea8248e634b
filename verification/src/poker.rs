//! The game state machine: rosters, votes and the `Waiting -> Voting ->
//! Revealed` lifecycle, with each transition's legality and effect pinned
//! down in its contract.

use vstd::prelude::*;

use crate::keyed::{
    assoc_map, distinct_keys, has_key, lemma_assoc_map_at, lemma_assoc_map_dom,
    lemma_assoc_map_push, lemma_assoc_map_remove, lemma_assoc_map_update,
    lemma_distinct_keys_push, lemma_distinct_keys_remove, lemma_distinct_keys_update,
};
use crate::models::{GameState, Player, SessionError, Vote};

verus! {

/// The set of permissible vote values associated with a game.
#[derive(Clone, Debug, PartialEq, Eq)]
pub enum VotingSystem {
    Fibonacci,
    TShirtSizes,
    PowersOfTwo,
    Custom(Vec<String>),
}

/// One planning-poker estimation session: an owner, a roster, the recorded
/// votes and the lifecycle state.
#[derive(Debug)]
pub struct PlanningPokerGame {
    /// Identity of the game (the value of a UUID).
    pub id: u128,
    pub name: String,
    /// Identity of the creating player.
    pub owner_id: u128,
    pub state: GameState,
    /// The roster; at most one entry per player identity.
    pub players: Vec<Player>,
    /// The recorded votes; at most one entry per player identity.
    pub votes: Vec<Vote>,
    /// The story under estimation while a round is running.
    pub current_story: Option<String>,
    pub voting_system: VotingSystem,
}

impl PlanningPokerGame {
    /// The roster as a map from player identity to player.
    pub open spec fn players_map(self) -> Map<u128, Player> {
        assoc_map(self.players@)
    }

    /// The recorded votes as a map from player identity to vote.
    pub open spec fn votes_map(self) -> Map<u128, Vote> {
        assoc_map(self.votes@)
    }

    /// Internal invariant: identities are unique within the roster and the
    /// vote list, and every vote belongs to a player still in the roster.
    pub open spec fn well_formed(self) -> bool {
        &&& distinct_keys(self.players@)
        &&& distinct_keys(self.votes@)
        &&& forall|k: u128|
            #[trigger] self.votes_map().dom().contains(k) ==> self.players_map().dom().contains(k)
    }

    /// The parts of the session that no transition changes.
    pub open spec fn same_identity(self, other: Self) -> bool {
        &&& self.id == other.id
        &&& self.name == other.name
        &&& self.owner_id == other.owner_id
        &&& self.voting_system == other.voting_system
    }

    /// Creates a session in `Waiting`, with an empty roster, no votes and no
    /// story, under a freshly drawn identity.
    pub fn new(name: String, owner_id: u128, voting_system: VotingSystem) -> (r: Self)
        ensures
            r.well_formed(),
            r.name == name,
            r.owner_id == owner_id,
            r.voting_system == voting_system,
            r.state == GameState::Waiting,
            r.players@ == Seq::<Player>::empty(),
            r.votes@ == Seq::<Vote>::empty(),
            r.current_story is None,
    {
        let g = PlanningPokerGame {
            id: crate::idgen::fresh_uuid_value(),
            name,
            owner_id,
            state: GameState::Waiting,
            players: Vec::new(),
            votes: Vec::new(),
            current_story: None,
            voting_system,
        };
        proof {
            assert(g.votes_map() =~= Map::<u128, Vote>::empty());
        }
        g
    }

    /// Index of the roster entry for `player_id`, if there is one.
    fn player_index(&self, player_id: u128) -> (r: Option<usize>)
        ensures
            match r {
                Some(i) => i < self.players.len() && self.players@[i as int].id == player_id,
                None => !has_key(self.players@, player_id),
            },
    {
        let mut i: usize = 0;
        while i < self.players.len()
            invariant
                i <= self.players.len(),
                forall|j: int| 0 <= j < i ==> self.players@[j].id != player_id,
            decreases self.players.len() - i,
        {
            if self.players[i].id == player_id {
                return Some(i);
            }
            i += 1;
        }
        None
    }

    /// Index of the vote cast by `player_id`, if there is one.
    fn vote_index(&self, player_id: u128) -> (r: Option<usize>)
        ensures
            match r {
                Some(i) => i < self.votes.len() && self.votes@[i as int].player_id == player_id,
                None => !has_key(self.votes@, player_id),
            },
    {
        let mut i: usize = 0;
        while i < self.votes.len()
            invariant
                i <= self.votes.len(),
                forall|j: int| 0 <= j < i ==> self.votes@[j].player_id != player_id,
            decreases self.votes.len() - i,
        {
            if self.votes[i].player_id == player_id {
                return Some(i);
            }
            i += 1;
        }
        None
    }

    /// The roster entry of `player_id`, if present.
    pub fn find_player(&self, player_id: u128) -> (r: Option<&Player>)
        requires
            self.well_formed(),
        ensures
            match r {
                Some(p) => {
                    &&& self.players_map().dom().contains(player_id)
                    &&& *p == self.players_map()[player_id]
                },
                None => !self.players_map().dom().contains(player_id),
            },
    {
        proof {
            lemma_assoc_map_dom(self.players@);
            lemma_assoc_map_at(self.players@);
        }
        match self.player_index(player_id) {
            None => None,
            Some(i) => Some(&self.players[i]),
        }
    }

    /// Adds a player to the roster, in any state; a player that rejoins under
    /// the same identity replaces their earlier entry. Never fails.
    pub fn add_player(&mut self, player: Player) -> (r: Result<(), SessionError>)
        requires
            old(self).well_formed(),
        ensures
            r is Ok,
            final(self).well_formed(),
            final(self).players_map() == old(self).players_map().insert(player.id, player),
            final(self).votes@ == old(self).votes@,
            final(self).state == old(self).state,
            final(self).current_story == old(self).current_story,
            final(self).same_identity(*old(self)),
    {
        let ghost pre = *self;
        match self.player_index(player.id) {
            Some(i) => {
                proof {
                    lemma_assoc_map_update(pre.players@, i as int, player);
                    lemma_distinct_keys_update(pre.players@, i as int, player);
                }
                self.players.set(i, player);
            },
            None => {
                proof {
                    lemma_assoc_map_push(pre.players@, player);
                    lemma_distinct_keys_push(pre.players@, player);
                }
                self.players.push(player);
            },
        }
        proof {
            assert(self.players_map() == pre.players_map().insert(player.id, player));
            assert forall|k: u128| #[trigger] self.votes_map().dom().contains(k)
                implies self.players_map().dom().contains(k) by {
                assert(pre.votes_map().dom().contains(k));
                assert(pre.players_map().dom().contains(k));
            }
        }
        Ok(())
    }

    /// Removes a player from the roster, in any state, discarding exactly
    /// their own vote, if they had cast one, and no others. Removing an
    /// absent player leaves the session unchanged. Never fails.
    pub fn remove_player(&mut self, player_id: u128) -> (r: Result<(), SessionError>)
        requires
            old(self).well_formed(),
        ensures
            r is Ok,
            final(self).well_formed(),
            final(self).players_map() == old(self).players_map().remove(player_id),
            final(self).votes_map() == old(self).votes_map().remove(player_id),
            final(self).state == old(self).state,
            final(self).current_story == old(self).current_story,
            final(self).same_identity(*old(self)),
    {
        let ghost pre = *self;
        match self.player_index(player_id) {
            Some(i) => {
                proof {
                    lemma_assoc_map_remove(pre.players@, i as int);
                    lemma_distinct_keys_remove(pre.players@, i as int);
                }
                self.players.remove(i);
            },
            None => {
                proof {
                    lemma_assoc_map_dom(pre.players@);
                    assert(pre.players_map() =~= pre.players_map().remove(player_id));
                }
            },
        }
        let ghost mid = *self;
        match self.vote_index(player_id) {
            Some(i) => {
                proof {
                    lemma_assoc_map_remove(pre.votes@, i as int);
                    lemma_distinct_keys_remove(pre.votes@, i as int);
                }
                self.votes.remove(i);
            },
            None => {
                proof {
                    lemma_assoc_map_dom(pre.votes@);
                    assert(pre.votes_map() =~= pre.votes_map().remove(player_id));
                }
            },
        }
        proof {
            assert(self.players_map() == pre.players_map().remove(player_id));
            assert(self.votes_map() == pre.votes_map().remove(player_id));
            assert forall|k: u128| #[trigger] self.votes_map().dom().contains(k)
                implies self.players_map().dom().contains(k) by {
                assert(k != player_id);
                assert(pre.votes_map().dom().contains(k));
                assert(pre.players_map().dom().contains(k));
            }
        }
        Ok(())
    }

    /// Starts a voting round for `story`: legal only from `Waiting`. Sets the
    /// story, clears the votes and moves to `Voting`; an attempt from any
    /// other state fails with `InvalidTransition` and changes nothing.
    pub fn start_voting(&mut self, story: String) -> (r: Result<(), SessionError>)
        requires
            old(self).well_formed(),
        ensures
            final(self).well_formed(),
            old(self).state == GameState::Waiting ==> {
                &&& r is Ok
                &&& final(self).state == GameState::Voting
                &&& final(self).current_story == Some(story)
                &&& final(self).votes@ == Seq::<Vote>::empty()
                &&& final(self).players@ == old(self).players@
                &&& final(self).same_identity(*old(self))
            },
            old(self).state != GameState::Waiting ==> {
                &&& r == Err::<(), SessionError>(SessionError::InvalidTransition)
                &&& *final(self) == *old(self)
            },
    {
        if self.state != GameState::Waiting {
            return Err(SessionError::InvalidTransition);
        }
        self.current_story = Some(story);
        self.state = GameState::Voting;
        self.votes = Vec::new();
        proof {
            assert(self.votes_map() =~= Map::<u128, Vote>::empty());
        }
        Ok(())
    }

    /// Records `vote` for `player_id`: legal only in `Voting`, and only for a
    /// player present in the roster. A second cast by the same player
    /// overwrites the first. Outside `Voting` the attempt fails with
    /// `InvalidTransition`; for an absent player it fails with
    /// `PlayerNotFound`; either failure changes nothing.
    pub fn cast_vote(&mut self, player_id: u128, vote: Vote) -> (r: Result<(), SessionError>)
        requires
            old(self).well_formed(),
            vote.player_id == player_id,
        ensures
            final(self).well_formed(),
            old(self).state != GameState::Voting ==> {
                &&& r == Err::<(), SessionError>(SessionError::InvalidTransition)
                &&& *final(self) == *old(self)
            },
            old(self).state == GameState::Voting && !old(self).players_map().dom().contains(
                player_id,
            ) ==> {
                &&& r == Err::<(), SessionError>(SessionError::PlayerNotFound)
                &&& *final(self) == *old(self)
            },
            old(self).state == GameState::Voting && old(self).players_map().dom().contains(
                player_id,
            ) ==> {
                &&& r is Ok
                &&& final(self).votes_map() == old(self).votes_map().insert(player_id, vote)
                &&& final(self).players@ == old(self).players@
                &&& final(self).state == old(self).state
                &&& final(self).current_story == old(self).current_story
                &&& final(self).same_identity(*old(self))
            },
    {
        let ghost pre = *self;
        if self.state != GameState::Voting {
            return Err(SessionError::InvalidTransition);
        }
        if self.player_index(player_id).is_none() {
            proof {
                lemma_assoc_map_dom(pre.players@);
            }
            return Err(SessionError::PlayerNotFound);
        }
        proof {
            lemma_assoc_map_dom(pre.players@);
        }
        match self.vote_index(player_id) {
            Some(i) => {
                proof {
                    lemma_assoc_map_update(pre.votes@, i as int, vote);
                    lemma_distinct_keys_update(pre.votes@, i as int, vote);
                }
                self.votes.set(i, vote);
            },
            None => {
                proof {
                    lemma_assoc_map_push(pre.votes@, vote);
                    lemma_distinct_keys_push(pre.votes@, vote);
                }
                self.votes.push(vote);
            },
        }
        proof {
            assert(self.votes_map() == pre.votes_map().insert(player_id, vote));
            assert forall|k: u128| #[trigger] self.votes_map().dom().contains(k)
                implies self.players_map().dom().contains(k) by {
                if k != player_id {
                    assert(pre.votes_map().dom().contains(k));
                }
            }
        }
        Ok(())
    }

    /// Reveals the votes: legal only from `Voting`. Moves to `Revealed` and
    /// leaves the recorded votes untouched; from any other state the attempt
    /// fails with `InvalidTransition` and changes nothing.
    pub fn reveal_votes(&mut self) -> (r: Result<(), SessionError>)
        requires
            old(self).well_formed(),
        ensures
            final(self).well_formed(),
            old(self).state == GameState::Voting ==> {
                &&& r is Ok
                &&& final(self).state == GameState::Revealed
                &&& final(self).votes@ == old(self).votes@
                &&& final(self).players@ == old(self).players@
                &&& final(self).current_story == old(self).current_story
                &&& final(self).same_identity(*old(self))
            },
            old(self).state != GameState::Voting ==> {
                &&& r == Err::<(), SessionError>(SessionError::InvalidTransition)
                &&& *final(self) == *old(self)
            },
    {
        if self.state != GameState::Voting {
            return Err(SessionError::InvalidTransition);
        }
        self.state = GameState::Revealed;
        proof {
            assert(self.votes_map() == old(self).votes_map());
            assert(self.players_map() == old(self).players_map());
        }
        Ok(())
    }

    /// Resets the round: legal from any state. Clears the votes and the
    /// story and returns to `Waiting`, whatever the prior state was. Never
    /// fails.
    pub fn reset_voting(&mut self) -> (r: Result<(), SessionError>)
        requires
            old(self).well_formed(),
        ensures
            r is Ok,
            final(self).well_formed(),
            final(self).state == GameState::Waiting,
            final(self).votes@ == Seq::<Vote>::empty(),
            final(self).current_story is None,
            final(self).players@ == old(self).players@,
            final(self).same_identity(*old(self)),
    {
        self.state = GameState::Waiting;
        self.votes = Vec::new();
        self.current_story = None;
        proof {
            assert(self.votes_map() =~= Map::<u128, Vote>::empty());
        }
        Ok(())
    }

    /// The permissible vote values of the game's voting system, as the UI
    /// offers them.
    pub fn get_voting_options(&self) -> (r: Vec<String>)
        ensures
            match self.voting_system {
                VotingSystem::Fibonacci => {
                    &&& r@.len() == 12
                    &&& r@[0]@ == "0"@
                    &&& r@[1]@ == "1"@
                    &&& r@[2]@ == "2"@
                    &&& r@[3]@ == "3"@
                    &&& r@[4]@ == "5"@
                    &&& r@[5]@ == "8"@
                    &&& r@[6]@ == "13"@
                    &&& r@[7]@ == "21"@
                    &&& r@[8]@ == "34"@
                    &&& r@[9]@ == "55"@
                    &&& r@[10]@ == "89"@
                    &&& r@[11]@ == "?"@
                },
                VotingSystem::TShirtSizes => {
                    &&& r@.len() == 7
                    &&& r@[0]@ == "XS"@
                    &&& r@[1]@ == "S"@
                    &&& r@[2]@ == "M"@
                    &&& r@[3]@ == "L"@
                    &&& r@[4]@ == "XL"@
                    &&& r@[5]@ == "XXL"@
                    &&& r@[6]@ == "?"@
                },
                VotingSystem::PowersOfTwo => {
                    &&& r@.len() == 8
                    &&& r@[0]@ == "1"@
                    &&& r@[1]@ == "2"@
                    &&& r@[2]@ == "4"@
                    &&& r@[3]@ == "8"@
                    &&& r@[4]@ == "16"@
                    &&& r@[5]@ == "32"@
                    &&& r@[6]@ == "64"@
                    &&& r@[7]@ == "?"@
                },
                VotingSystem::Custom(options) => r@ == options@,
            },
    {
        match &self.voting_system {
            VotingSystem::Fibonacci => {
                let mut r: Vec<String> = Vec::new();
                r.push("0".to_owned());
                r.push("1".to_owned());
                r.push("2".to_owned());
                r.push("3".to_owned());
                r.push("5".to_owned());
                r.push("8".to_owned());
                r.push("13".to_owned());
                r.push("21".to_owned());
                r.push("34".to_owned());
                r.push("55".to_owned());
                r.push("89".to_owned());
                r.push("?".to_owned());
                r
            },
            VotingSystem::TShirtSizes => {
                let mut r: Vec<String> = Vec::new();
                r.push("XS".to_owned());
                r.push("S".to_owned());
                r.push("M".to_owned());
                r.push("L".to_owned());
                r.push("XL".to_owned());
                r.push("XXL".to_owned());
                r.push("?".to_owned());
                r
            },
            VotingSystem::PowersOfTwo => {
                let mut r: Vec<String> = Vec::new();
                r.push("1".to_owned());
                r.push("2".to_owned());
                r.push("4".to_owned());
                r.push("8".to_owned());
                r.push("16".to_owned());
                r.push("32".to_owned());
                r.push("64".to_owned());
                r.push("?".to_owned());
                r
            },
            VotingSystem::Custom(options) => clone_string_vec(options),
        }
    }

    /// True exactly when `player_id` is the game's owner.
    pub fn is_owner(&self, player_id: u128) -> (r: bool)
        ensures
            r == (self.owner_id == player_id),
    {
        self.owner_id == player_id
    }

    /// Advisory completion hint: true when as many votes are recorded as
    /// there are roster entries. It gates nothing; an owner may reveal with
    /// partial votes.
    pub fn all_players_voted(&self) -> (r: bool)
        ensures
            r == (self.players@.len() == self.votes@.len()),
    {
        self.players.len() == self.votes.len()
    }
}

/// The voting system a persisted descriptor names. Unrecognized descriptors
/// yield an empty custom set, leaving validation to the client.
pub fn voting_system_from_name(name: &String) -> (r: VotingSystem)
    ensures
        name@ == "fibonacci"@ ==> r == VotingSystem::Fibonacci,
        name@ == "tshirt"@ ==> r == VotingSystem::TShirtSizes,
        name@ == "powers_of_2"@ ==> r == VotingSystem::PowersOfTwo,
        name@ != "fibonacci"@ && name@ != "tshirt"@ && name@ != "powers_of_2"@ ==> (r matches VotingSystem::Custom(v) && v@ == Seq::<String>::empty()),
{
    proof {
        reveal_strlit("fibonacci");
        reveal_strlit("tshirt");
        reveal_strlit("powers_of_2");
        assert("fibonacci"@.len() == 9);
        assert("tshirt"@.len() == 6);
        assert("powers_of_2"@.len() == 11);
    }
    if *name == "fibonacci".to_owned() {
        VotingSystem::Fibonacci
    } else if *name == "tshirt".to_owned() {
        VotingSystem::TShirtSizes
    } else if *name == "powers_of_2".to_owned() {
        VotingSystem::PowersOfTwo
    } else {
        VotingSystem::Custom(Vec::new())
    }
}

/// Value-preserving copy of a vector of strings.
pub fn clone_string_vec(v: &Vec<String>) -> (r: Vec<String>)
    ensures
        r@ == v@,
{
    let mut r: Vec<String> = Vec::new();
    let mut i: usize = 0;
    while i < v.len()
        invariant
            i <= v.len(),
            r@.len() == i,
            forall|j: int| 0 <= j < i ==> r@[j] == v@[j],
        decreases v.len() - i,
    {
        r.push(v[i].clone());
        i += 1;
    }
    proof {
        assert(r@ =~= v@);
    }
    r
}

/// The votes recorded after a run of casts on top of `m`: each cast is
/// inserted under the caster's identity, as `cast_vote` does, so a later
/// cast by the same player overwrites an earlier one.
pub open spec fn apply_casts(m: Map<u128, Vote>, casts: Seq<Vote>) -> Map<u128, Vote>
    decreases casts.len(),
{
    if casts.len() == 0 {
        m
    } else {
        apply_casts(m, casts.drop_last()).insert(casts.last().player_id, casts.last())
    }
}

/// The last vote in `casts` by player `k`, if any.
pub open spec fn last_cast_of(casts: Seq<Vote>, k: u128) -> Option<Vote>
    decreases casts.len(),
{
    if casts.len() == 0 {
        None
    } else if casts.last().player_id == k {
        Some(casts.last())
    } else {
        last_cast_of(casts.drop_last(), k)
    }
}

/// Law: a round that starts from an empty vote set — as `start_voting` and
/// `reset_voting` leave it — and then records a run of casts observes, at
/// reveal, exactly the votes of that run deduplicated by player, the last
/// cast of each player winning.
pub proof fn lemma_round_observes_last_casts(casts: Seq<Vote>)
    ensures
        forall|k: u128|
            #[trigger] apply_casts(Map::<u128, Vote>::empty(), casts).dom().contains(k)
                <==> last_cast_of(casts, k) is Some,
        forall|k: u128|
            #[trigger] apply_casts(Map::<u128, Vote>::empty(), casts).dom().contains(k)
                ==> last_cast_of(casts, k) == Some(
                apply_casts(Map::<u128, Vote>::empty(), casts)[k],
            ),
    decreases casts.len(),
{
    let m = apply_casts(Map::<u128, Vote>::empty(), casts);
    if casts.len() == 0 {
        assert(m == Map::<u128, Vote>::empty());
        assert(forall|k: u128| !(#[trigger] m.dom().contains(k)));
    } else {
        lemma_round_observes_last_casts(casts.drop_last());
        let m0 = apply_casts(Map::<u128, Vote>::empty(), casts.drop_last());
        assert(m == m0.insert(casts.last().player_id, casts.last()));
        assert forall|k: u128| #[trigger] m.dom().contains(k) <==> last_cast_of(casts, k)
            is Some by {
            if k != casts.last().player_id {
                assert(m.dom().contains(k) <==> m0.dom().contains(k));
                assert(last_cast_of(casts, k) == last_cast_of(casts.drop_last(), k));
            }
        }
        assert forall|k: u128| #[trigger] m.dom().contains(k) implies last_cast_of(casts, k)
            == Some(m[k]) by {
            if k == casts.last().player_id {
                assert(m[k] == casts.last());
            } else {
                assert(m[k] == m0[k]);
                assert(last_cast_of(casts, k) == last_cast_of(casts.drop_last(), k));
            }
        }
    }
}

/// Law: casts by two different players cannot race each other away — in
/// whichever order the coordinator serializes them, both votes are recorded,
/// each under its own player, with no lost update.
pub proof fn lemma_no_lost_update(m: Map<u128, Vote>, a: Vote, b: Vote)
    requires
        a.player_id != b.player_id,
    ensures
        apply_casts(m, seq![a, b]) == apply_casts(m, seq![b, a]),
        apply_casts(m, seq![a, b]).contains_pair(a.player_id, a),
        apply_casts(m, seq![a, b]).contains_pair(b.player_id, b),
{
    let ab = seq![a, b];
    let ba = seq![b, a];
    assert(ab.drop_last() =~= seq![a]);
    assert(ba.drop_last() =~= seq![b]);
    assert(seq![a].drop_last() =~= Seq::<Vote>::empty());
    assert(seq![b].drop_last() =~= Seq::<Vote>::empty());
    assert(apply_casts(m, Seq::<Vote>::empty()) == m);
    assert(apply_casts(m, seq![a]) == m.insert(a.player_id, a));
    assert(apply_casts(m, seq![b]) == m.insert(b.player_id, b));
    assert(ab.last() == b && ba.last() == a);
    assert(apply_casts(m, ab) == m.insert(a.player_id, a).insert(b.player_id, b));
    assert(apply_casts(m, ba) == m.insert(b.player_id, b).insert(a.player_id, a));
    assert(apply_casts(m, ab) =~= apply_casts(m, ba));
}

/// Law: one full round in miniature, for any two players and any two
/// values — a round that starts with an empty vote set, as `start_voting`
/// and `reset_voting` leave it, and records one cast by each of two
/// different players, reveals exactly those two votes, values intact,
/// and nothing else.
pub proof fn lemma_round_of_two(a: Vote, b: Vote)
    requires
        a.player_id != b.player_id,
    ensures
        apply_casts(Map::<u128, Vote>::empty(), seq![a, b]) == map![
            a.player_id => a,
            b.player_id => b,
        ],
{
    let m = Map::<u128, Vote>::empty();
    let ab = seq![a, b];
    assert(ab.drop_last() =~= seq![a]);
    assert(seq![a].drop_last() =~= Seq::<Vote>::empty());
    assert(apply_casts(m, Seq::<Vote>::empty()) == m);
    assert(apply_casts(m, seq![a]) == m.insert(a.player_id, a));
    assert(ab.last() == b);
    assert(apply_casts(m, ab) == m.insert(a.player_id, a).insert(b.player_id, b));
    assert(apply_casts(m, ab) =~= map![a.player_id => a, b.player_id => b]);
}

} // verus!
