//! The registry of live client connections.
//!
//! Every concurrent connection-handling task shares this table; mutations
//! and broadcast snapshots must be serialized by the embedding (a
//! reader/writer lock or a single owning task). The registry itself is the
//! sequential heart of that discipline: its contracts pin down exactly which
//! connections exist, how they are bound, and which of them a broadcast to a
//! game must reach.

use vstd::prelude::*;

use crate::keyed::{
    assoc_map, distinct_keys, has_key, lemma_assoc_map_at, lemma_assoc_map_dom,
    lemma_assoc_map_push, lemma_assoc_map_remove, lemma_assoc_map_update,
    lemma_distinct_keys_push, lemma_distinct_keys_remove, lemma_distinct_keys_update,
};
use crate::keyed::Keyed;
use crate::models::SessionError;

verus! {

/// A live transport-level session: zero or one bound player in zero or one
/// game. Connections are ephemeral and never persisted.
#[derive(Clone, Copy, Debug, PartialEq, Eq)]
pub struct Connection {
    /// Identity of the connection (the value of a UUID).
    pub id: u128,
    /// The player this connection acts as, once it has joined a game.
    pub player_id: Option<u128>,
    /// The game the connection is bound to; joining another game rebinds.
    pub game_id: Option<u128>,
}

impl Keyed for Connection {
    open spec fn key(&self) -> u128 {
        self.id
    }
}

/// True when `c` belongs to the fan-out set of a broadcast to `game_id`
/// that excludes the connection named by `exclude`.
pub open spec fn is_target(c: Connection, game_id: u128, exclude: Option<u128>) -> bool {
    c.game_id == Some(game_id) && exclude != Some(c.id)
}

/// The table of live connections, keyed by connection identity.
#[derive(Debug)]
pub struct ConnectionRegistry {
    /// The live connections, in registration order, at most one per id.
    pub conns: Vec<Connection>,
}

impl ConnectionRegistry {
    /// The registry as a map from connection identity to connection.
    pub open spec fn as_map(self) -> Map<u128, Connection> {
        assoc_map(self.conns@)
    }

    /// The underlying table, in registration order.
    pub open spec fn connections(self) -> Seq<Connection> {
        self.conns@
    }

    /// Internal invariant: connection identities are unique.
    pub open spec fn well_formed(self) -> bool {
        distinct_keys(self.conns@)
    }

    /// An empty registry.
    pub fn new() -> (r: Self)
        ensures
            r.well_formed(),
            r.connections() == Seq::<Connection>::empty(),
            r.as_map() == Map::<u128, Connection>::empty(),
    {
        let r = ConnectionRegistry { conns: Vec::new() };
        proof {
            assert(r.as_map() =~= Map::<u128, Connection>::empty());
        }
        r
    }

    /// Index of the connection `connection_id`, if registered.
    fn index_of(&self, connection_id: u128) -> (r: Option<usize>)
        ensures
            match r {
                Some(i) => i < self.conns.len() && self.conns@[i as int].id == connection_id,
                None => !has_key(self.conns@, connection_id),
            },
    {
        let mut i: usize = 0;
        while i < self.conns.len()
            invariant
                i <= self.conns.len(),
                forall|j: int| 0 <= j < i ==> self.conns@[j].id != connection_id,
            decreases self.conns.len() - i,
        {
            if self.conns[i].id == connection_id {
                return Some(i);
            }
            i += 1;
        }
        None
    }

    /// Adds an unbound connection. Fails only with `DuplicateConnection`,
    /// when the identity is already registered, and then changes nothing.
    pub fn register(&mut self, connection_id: u128) -> (r: Result<(), SessionError>)
        requires
            old(self).well_formed(),
        ensures
            final(self).well_formed(),
            old(self).as_map().dom().contains(connection_id) ==> {
                &&& r == Err::<(), SessionError>(SessionError::DuplicateConnection)
                &&& *final(self) == *old(self)
            },
            !old(self).as_map().dom().contains(connection_id) ==> {
                &&& r is Ok
                &&& final(self).as_map() == old(self).as_map().insert(
                    connection_id,
                    Connection { id: connection_id, player_id: None, game_id: None },
                )
            },
    {
        let ghost pre = *self;
        proof {
            lemma_assoc_map_dom(pre.conns@);
        }
        match self.index_of(connection_id) {
            Some(_) => Err(SessionError::DuplicateConnection),
            None => {
                let c = Connection { id: connection_id, player_id: None, game_id: None };
                proof {
                    lemma_assoc_map_push(pre.conns@, c);
                    lemma_distinct_keys_push(pre.conns@, c);
                }
                self.conns.push(c);
                Ok(())
            },
        }
    }

    /// Associates a registered connection with a player and a game,
    /// overwriting any prior binding, so that a rejoin needs no explicit
    /// unbind. Fails only with `UnknownConnection`, when the identity is not
    /// registered, and then changes nothing.
    pub fn bind(&mut self, connection_id: u128, player_id: u128, game_id: u128) -> (r: Result<
        (),
        SessionError,
    >)
        requires
            old(self).well_formed(),
        ensures
            final(self).well_formed(),
            !old(self).as_map().dom().contains(connection_id) ==> {
                &&& r == Err::<(), SessionError>(SessionError::UnknownConnection)
                &&& *final(self) == *old(self)
            },
            old(self).as_map().dom().contains(connection_id) ==> {
                &&& r is Ok
                &&& final(self).as_map() == old(self).as_map().insert(
                    connection_id,
                    Connection {
                        id: connection_id,
                        player_id: Some(player_id),
                        game_id: Some(game_id),
                    },
                )
            },
    {
        let ghost pre = *self;
        proof {
            lemma_assoc_map_dom(pre.conns@);
        }
        match self.index_of(connection_id) {
            None => Err(SessionError::UnknownConnection),
            Some(i) => {
                let c = Connection {
                    id: connection_id,
                    player_id: Some(player_id),
                    game_id: Some(game_id),
                };
                proof {
                    lemma_assoc_map_update(pre.conns@, i as int, c);
                    lemma_distinct_keys_update(pre.conns@, i as int, c);
                }
                self.conns.set(i, c);
                Ok(())
            },
        }
    }

    /// Clears the binding of a registered connection, returning it to the
    /// anonymous state. Fails only with `UnknownConnection`, when the
    /// identity is not registered, and then changes nothing.
    pub fn unbind(&mut self, connection_id: u128) -> (r: Result<(), SessionError>)
        requires
            old(self).well_formed(),
        ensures
            final(self).well_formed(),
            !old(self).as_map().dom().contains(connection_id) ==> {
                &&& r == Err::<(), SessionError>(SessionError::UnknownConnection)
                &&& *final(self) == *old(self)
            },
            old(self).as_map().dom().contains(connection_id) ==> {
                &&& r is Ok
                &&& final(self).as_map() == old(self).as_map().insert(
                    connection_id,
                    Connection { id: connection_id, player_id: None, game_id: None },
                )
            },
    {
        let ghost pre = *self;
        proof {
            lemma_assoc_map_dom(pre.conns@);
        }
        match self.index_of(connection_id) {
            None => Err(SessionError::UnknownConnection),
            Some(i) => {
                let c = Connection { id: connection_id, player_id: None, game_id: None };
                proof {
                    lemma_assoc_map_update(pre.conns@, i as int, c);
                    lemma_distinct_keys_update(pre.conns@, i as int, c);
                }
                self.conns.set(i, c);
                Ok(())
            },
        }
    }

    /// Removes a connection and returns its last (player, game) binding, if
    /// it had one, so the caller can announce the departure. Calling it for
    /// an identity that is not registered is a no-op that returns `None`.
    pub fn unregister(&mut self, connection_id: u128) -> (r: Option<(u128, u128)>)
        requires
            old(self).well_formed(),
        ensures
            final(self).well_formed(),
            final(self).as_map() == old(self).as_map().remove(connection_id),
            !old(self).as_map().dom().contains(connection_id) ==> {
                &&& r is None
                &&& *final(self) == *old(self)
            },
            old(self).as_map().dom().contains(connection_id) ==> r == match (
                old(self).as_map()[connection_id].player_id,
                old(self).as_map()[connection_id].game_id,
            ) {
                (Some(p), Some(g)) => Some((p, g)),
                _ => None::<(u128, u128)>,
            },
    {
        let ghost pre = *self;
        proof {
            lemma_assoc_map_dom(pre.conns@);
            lemma_assoc_map_at(pre.conns@);
        }
        match self.index_of(connection_id) {
            None => {
                proof {
                    assert(pre.as_map() =~= pre.as_map().remove(connection_id));
                }
                None
            },
            Some(i) => {
                let c = self.conns[i];
                proof {
                    lemma_assoc_map_remove(pre.conns@, i as int);
                    lemma_distinct_keys_remove(pre.conns@, i as int);
                }
                self.conns.remove(i);
                match (c.player_id, c.game_id) {
                    (Some(p), Some(g)) => Some((p, g)),
                    _ => None,
                }
            },
        }
    }

    /// The current binding of a connection: `None` when the identity is not
    /// registered, otherwise its optional player and game.
    pub fn binding(&self, connection_id: u128) -> (r: Option<(Option<u128>, Option<u128>)>)
        requires
            self.well_formed(),
        ensures
            match r {
                None => !self.as_map().dom().contains(connection_id),
                Some(b) => {
                    &&& self.as_map().dom().contains(connection_id)
                    &&& b.0 == self.as_map()[connection_id].player_id
                    &&& b.1 == self.as_map()[connection_id].game_id
                },
            },
    {
        proof {
            lemma_assoc_map_dom(self.conns@);
            lemma_assoc_map_at(self.conns@);
        }
        match self.index_of(connection_id) {
            None => None,
            Some(i) => {
                let c = self.conns[i];
                Some((c.player_id, c.game_id))
            },
        }
    }

    /// The fan-out set of a broadcast to `game_id` that excludes the
    /// connection named by `exclude`: exactly the identities of the
    /// registered connections bound to that game, minus the excluded one,
    /// each listed once.
    pub fn broadcast_targets(&self, game_id: u128, exclude: Option<u128>) -> (r: Vec<u128>)
        requires
            self.well_formed(),
        ensures
            forall|k: u128|
                #[trigger] r@.contains(k) <==> {
                    &&& self.as_map().dom().contains(k)
                    &&& is_target(self.as_map()[k], game_id, exclude)
                },
            distinct_ids(r@),
    {
        let ghost cs = self.conns@;
        let mut out: Vec<u128> = Vec::new();
        let mut i: usize = 0;
        while i < self.conns.len()
            invariant
                i <= self.conns.len(),
                cs == self.conns@,
                distinct_keys(cs),
                forall|k: u128|
                    #[trigger] out@.contains(k) <==> exists|j: int|
                        0 <= j < i && cs[j].id == k && is_target(#[trigger] cs[j], game_id, exclude),
                distinct_ids(out@),
            decreases self.conns.len() - i,
        {
            let c = self.conns[i];
            let matches_game = match c.game_id {
                Some(g) => g == game_id,
                None => false,
            };
            let excluded = match exclude {
                Some(e) => e == c.id,
                None => false,
            };
            if matches_game && !excluded {
                let ghost old_out = out@;
                proof {
                    if out@.contains(c.id) {
                        let j = choose|j: int|
                            0 <= j < i && cs[j].id == c.id && is_target(cs[j], game_id, exclude);
                        assert(cs[j].id == cs[i as int].id);
                        assert(false);
                    }
                }
                out.push(c.id);
                proof {
                    assert forall|k: u128| #[trigger] out@.contains(k) <==> exists|j: int|
                        0 <= j < i + 1 && cs[j].id == k && is_target(
                        #[trigger] cs[j],
                        game_id,
                        exclude,
                    ) by {
                        if out@.contains(k) {
                            let idx = choose|idx: int| 0 <= idx < out@.len() && out@[idx] == k;
                            if idx < old_out.len() {
                                assert(old_out[idx] == k);
                                assert(old_out.contains(k));
                            } else {
                                assert(k == c.id);
                                assert(cs[i as int].id == k && is_target(
                                    cs[i as int],
                                    game_id,
                                    exclude,
                                ));
                            }
                        }
                        if exists|j: int|
                            0 <= j < i + 1 && cs[j].id == k && is_target(cs[j], game_id, exclude) {
                            let j = choose|j: int|
                                0 <= j < i + 1 && cs[j].id == k && is_target(
                                    cs[j],
                                    game_id,
                                    exclude,
                                );
                            if j < i {
                                assert(old_out.contains(k));
                                let idx = choose|idx: int|
                                    0 <= idx < old_out.len() && old_out[idx] == k;
                                assert(out@[idx] == k);
                            } else {
                                assert(out@[out@.len() - 1] == k);
                            }
                        }
                    }
                    assert forall|a: int, b: int|
                        0 <= a < b < out@.len() implies out@[a] != out@[b] by {
                        if b < old_out.len() {
                            assert(old_out[a] == out@[a] && old_out[b] == out@[b]);
                        } else {
                            assert(out@[b] == c.id);
                            assert(old_out[a] == out@[a]);
                            assert(old_out.contains(old_out[a]));
                        }
                    }
                }
            } else {
                proof {
                    assert forall|k: u128| #[trigger] out@.contains(k) <==> exists|j: int|
                        0 <= j < i + 1 && cs[j].id == k && is_target(
                        #[trigger] cs[j],
                        game_id,
                        exclude,
                    ) by {
                        if exists|j: int|
                            0 <= j < i + 1 && cs[j].id == k && is_target(cs[j], game_id, exclude) {
                            let j = choose|j: int|
                                0 <= j < i + 1 && cs[j].id == k && is_target(
                                    cs[j],
                                    game_id,
                                    exclude,
                                );
                            assert(j < i);
                        }
                    }
                }
            }
            i += 1;
        }
        proof {
            lemma_assoc_map_dom(cs);
            lemma_assoc_map_at(cs);
            assert forall|k: u128| #[trigger] out@.contains(k) <==> {
                &&& self.as_map().dom().contains(k)
                &&& is_target(self.as_map()[k], game_id, exclude)
            } by {
                if out@.contains(k) {
                    let j = choose|j: int|
                        0 <= j < cs.len() && cs[j].id == k && is_target(cs[j], game_id, exclude);
                    assert(self.as_map().contains_pair(cs[j].id, cs[j]));
                }
                if self.as_map().dom().contains(k) && is_target(self.as_map()[k], game_id, exclude) {
                    assert(has_key(cs, k));
                    let j = choose|j: int| 0 <= j < cs.len() && cs[j].id == k;
                    assert(self.as_map().contains_pair(cs[j].id, cs[j]));
                    assert(is_target(cs[j], game_id, exclude));
                }
            }
        }
        out
    }

    /// A consistent snapshot of the connections bound to `game_id`: the
    /// fan-out set of a broadcast with nobody excluded.
    pub fn connections_for_game(&self, game_id: u128) -> (r: Vec<u128>)
        requires
            self.well_formed(),
        ensures
            forall|k: u128|
                #[trigger] r@.contains(k) <==> {
                    &&& self.as_map().dom().contains(k)
                    &&& self.as_map()[k].game_id == Some(game_id)
                },
            distinct_ids(r@),
    {
        self.broadcast_targets(game_id, None)
    }
}

/// True when no identity repeats in `s`.
pub open spec fn distinct_ids(s: Seq<u128>) -> bool {
    forall|i: int, j: int| 0 <= i < j < s.len() ==> s[i] != s[j]
}

} // verus!
