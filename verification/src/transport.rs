//! The outbound side of every connection: a directory of per-connection
//! message channels, and the best-effort fan-out over them.
//!
//! Each connection's writing task drains one unbounded channel; a send here
//! is a non-blocking enqueue, so a slow or dead connection never holds up
//! delivery to the others. A failed enqueue means the receiving task is
//! gone; the closing transport then unregisters the connection, and the
//! event is simply missed — delivery is at most once, with recovery by
//! re-fetching a full snapshot on reconnect.

use vstd::prelude::*;

use crate::coordinator::Broadcast;
use crate::keyed::Keyed;
use crate::keyed::{
    assoc_map, distinct_keys, has_key, lemma_assoc_map_dom, lemma_assoc_map_push,
    lemma_assoc_map_remove, lemma_assoc_map_update, lemma_distinct_keys_push,
    lemma_distinct_keys_remove, lemma_distinct_keys_update,
};
use crate::models::ServerMessage;

verus! {

#[verifier::external_type_specification]
#[verifier::external_body]
#[verifier::reject_recursive_types(T)]
pub struct ExUnboundedSender<T>(tokio::sync::mpsc::UnboundedSender<T>);

/// Relies on tokio::sync::mpsc::UnboundedSender::send: a non-blocking,
/// never-panicking enqueue that fails when the receiving half is gone.
/// Whether it fails depends on the far task, so nothing is promised of the
/// result.
#[verifier::external_body]
fn enqueue(
    sender: &tokio::sync::mpsc::UnboundedSender<ServerMessage>,
    message: ServerMessage,
) -> bool {
    sender.send(message).is_ok()
}

/// One connection's outbound channel.
pub struct OutboundEntry {
    /// Identity of the connection (the value of a UUID).
    pub connection_id: u128,
    /// The sending half of the connection's outbound channel.
    pub sender: tokio::sync::mpsc::UnboundedSender<ServerMessage>,
}

impl Keyed for OutboundEntry {
    open spec fn key(&self) -> u128 {
        self.connection_id
    }
}

/// The outbound channels of every live connection, keyed by connection
/// identity.
pub struct Outbox {
    /// The channels, at most one per connection.
    pub entries: Vec<OutboundEntry>,
}

impl Outbox {
    /// The directory as a map from connection identity to entry.
    pub open spec fn as_map(self) -> Map<u128, OutboundEntry> {
        assoc_map(self.entries@)
    }

    /// Internal invariant: connection identities are unique.
    pub open spec fn well_formed(self) -> bool {
        distinct_keys(self.entries@)
    }

    /// An empty directory.
    pub fn new() -> (r: Self)
        ensures
            r.well_formed(),
            r.as_map() == Map::<u128, OutboundEntry>::empty(),
    {
        let r = Outbox { entries: Vec::new() };
        proof {
            assert(r.as_map() =~= Map::<u128, OutboundEntry>::empty());
        }
        r
    }

    /// Index of the entry for `connection_id`, if attached.
    fn index_of(&self, connection_id: u128) -> (r: Option<usize>)
        ensures
            match r {
                Some(i) => i < self.entries.len() && self.entries@[i as int].connection_id
                    == connection_id,
                None => !has_key(self.entries@, connection_id),
            },
    {
        let mut i: usize = 0;
        while i < self.entries.len()
            invariant
                i <= self.entries.len(),
                forall|j: int| 0 <= j < i ==> self.entries@[j].connection_id != connection_id,
            decreases self.entries.len() - i,
        {
            if self.entries[i].connection_id == connection_id {
                return Some(i);
            }
            i += 1;
        }
        None
    }

    /// Attaches a connection's outbound channel, replacing any channel the
    /// identity already had.
    pub fn attach(
        &mut self,
        connection_id: u128,
        sender: tokio::sync::mpsc::UnboundedSender<ServerMessage>,
    )
        requires
            old(self).well_formed(),
        ensures
            final(self).well_formed(),
            final(self).as_map() == old(self).as_map().insert(
                connection_id,
                (OutboundEntry { connection_id, sender }),
            ),
    {
        let ghost pre = *self;
        let entry = OutboundEntry { connection_id, sender };
        match self.index_of(connection_id) {
            Some(i) => {
                proof {
                    lemma_assoc_map_update(pre.entries@, i as int, entry);
                    lemma_distinct_keys_update(pre.entries@, i as int, entry);
                }
                self.entries.set(i, entry);
            },
            None => {
                proof {
                    lemma_assoc_map_push(pre.entries@, entry);
                    lemma_distinct_keys_push(pre.entries@, entry);
                }
                self.entries.push(entry);
            },
        }
    }

    /// Drops a connection's outbound channel; unknown identities are a
    /// no-op.
    pub fn detach(&mut self, connection_id: u128)
        requires
            old(self).well_formed(),
        ensures
            final(self).well_formed(),
            final(self).as_map() == old(self).as_map().remove(connection_id),
    {
        let ghost pre = *self;
        proof {
            lemma_assoc_map_dom(pre.entries@);
        }
        match self.index_of(connection_id) {
            None => {
                proof {
                    assert(pre.as_map() =~= pre.as_map().remove(connection_id));
                }
            },
            Some(i) => {
                proof {
                    lemma_assoc_map_remove(pre.entries@, i as int);
                    lemma_distinct_keys_remove(pre.entries@, i as int);
                }
                self.entries.remove(i);
            },
        }
    }

    /// Enqueues one event for one connection, best effort: the result says
    /// whether a channel was found and took the message. An identity with
    /// no attached channel is a silent no-op; whether an attached channel
    /// still takes messages depends on its reading task, so a `false` for
    /// one says no more.
    pub fn send_to(&self, connection_id: u128, message: ServerMessage) -> (r: bool)
        ensures
            !has_key(self.entries@, connection_id) ==> r == false,
            r ==> has_key(self.entries@, connection_id),
    {
        match self.index_of(connection_id) {
            None => false,
            Some(i) => enqueue(&self.entries[i].sender, message),
        }
    }

    /// Fans a broadcast out: one enqueue per recipient, each getting its
    /// own copy of the event. Recipients without a channel, and channels
    /// whose reader is gone, are skipped without blocking the rest.
    pub fn deliver(&self, broadcast: &Broadcast) {
        let mut i: usize = 0;
        while i < broadcast.recipients.len()
            decreases broadcast.recipients.len() - i,
        {
            let recipient = broadcast.recipients[i];
            self.send_to(recipient, broadcast.message.duplicate());
            i += 1;
        }
    }
}

} // verus!
