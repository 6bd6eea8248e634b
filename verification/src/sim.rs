//! The simulation's action queue: fault-injection actions are queued while
//! a step runs and drained into the hosts to bounce at the step boundary.

use vstd::prelude::*;

verus! {

/// A fault-injection action against the simulated deployment.
#[derive(Debug, PartialEq, Eq)]
pub enum Action {
    /// Bounce the named player's host.
    DisconnectPlayer(u128),
    /// Let the named player's client plan reconnect.
    ReconnectPlayer(u128),
    /// Bounce every named player's host at once.
    NetworkPartition(Vec<u128>),
    /// Restore connectivity for everyone.
    RestoreNetwork,
}

/// The hosts an action asks to bounce: partitions and disconnections name
/// their players; reconnection and restoration bounce nobody.
pub open spec fn action_bounces(a: Action) -> Seq<u128> {
    match a {
        Action::DisconnectPlayer(p) => seq![p],
        Action::ReconnectPlayer(_) => Seq::empty(),
        Action::NetworkPartition(ps) => ps@,
        Action::RestoreNetwork => Seq::empty(),
    }
}

/// The hosts a run of actions asks to bounce, in order.
pub open spec fn bounces_of(s: Seq<Action>) -> Seq<u128>
    decreases s.len(),
{
    if s.len() == 0 {
        Seq::empty()
    } else {
        bounces_of(s.drop_last()) + action_bounces(s.last())
    }
}

/// The actions queued for the next simulation step.
#[derive(Debug, PartialEq, Eq)]
pub struct ActionQueue {
    pub pending: Vec<Action>,
}

impl ActionQueue {
    /// An empty queue.
    pub fn new() -> (r: Self)
        ensures
            r.pending@ == Seq::<Action>::empty(),
    {
        ActionQueue { pending: Vec::new() }
    }
}

/// Queues a player disconnection for the next simulation step.
pub fn queue_disconnect_player(queue: &mut ActionQueue, player_id: u128)
    ensures
        final(queue).pending@ == old(queue).pending@.push(Action::DisconnectPlayer(player_id)),
{
    queue.pending.push(Action::DisconnectPlayer(player_id));
}

/// Queues a player reconnection for the next simulation step.
pub fn queue_reconnect_player(queue: &mut ActionQueue, player_id: u128)
    ensures
        final(queue).pending@ == old(queue).pending@.push(Action::ReconnectPlayer(player_id)),
{
    queue.pending.push(Action::ReconnectPlayer(player_id));
}

/// Queues a network partition that will disconnect the named players.
pub fn queue_network_partition(queue: &mut ActionQueue, player_ids: Vec<u128>)
    ensures
        final(queue).pending@ == old(queue).pending@.push(Action::NetworkPartition(player_ids)),
{
    queue.pending.push(Action::NetworkPartition(player_ids));
}

/// Queues a network restoration for the next simulation step.
pub fn queue_restore_network(queue: &mut ActionQueue)
    ensures
        final(queue).pending@ == old(queue).pending@.push(Action::RestoreNetwork),
{
    queue.pending.push(Action::RestoreNetwork);
}

/// Empties the queue and computes which hosts the drained actions bounce,
/// in queue order; the embedding performs the bounces.
pub fn drain_bounce_targets(queue: &mut ActionQueue) -> (r: Vec<u128>)
    ensures
        final(queue).pending@ == Seq::<Action>::empty(),
        r@ == bounces_of(old(queue).pending@),
{
    let ghost actions = queue.pending@;
    let mut out: Vec<u128> = Vec::new();
    let mut i: usize = 0;
    while i < queue.pending.len()
        invariant
            i <= queue.pending.len(),
            queue.pending@ == actions,
            out@ == bounces_of(actions.subrange(0, i as int)),
        decreases queue.pending.len() - i,
    {
        proof {
            assert(actions.subrange(0, i + 1).drop_last() =~= actions.subrange(0, i as int));
            assert(actions.subrange(0, i + 1).last() == actions[i as int]);
        }
        match &queue.pending[i] {
            Action::DisconnectPlayer(p) => {
                out.push(*p);
                proof {
                    assert(out@ =~= bounces_of(actions.subrange(0, i + 1)));
                }
            },
            Action::ReconnectPlayer(_) => {
                proof {
                    assert(out@ =~= bounces_of(actions.subrange(0, i + 1)));
                }
            },
            Action::NetworkPartition(ps) => {
                let ghost base = out@;
                let mut j: usize = 0;
                while j < ps.len()
                    invariant
                        j <= ps.len(),
                        out@ == base + ps@.subrange(0, j as int),
                    decreases ps.len() - j,
                {
                    out.push(ps[j]);
                    proof {
                        assert(out@ =~= base + ps@.subrange(0, j + 1));
                    }
                    j += 1;
                }
                proof {
                    assert(ps@.subrange(0, ps@.len() as int) =~= ps@);
                    assert(out@ =~= bounces_of(actions.subrange(0, i + 1)));
                }
            },
            Action::RestoreNetwork => {
                proof {
                    assert(out@ =~= bounces_of(actions.subrange(0, i + 1)));
                }
            },
        }
        i += 1;
    }
    proof {
        assert(actions.subrange(0, actions.len() as int) =~= actions);
    }
    queue.pending = Vec::new();
    out
}

} // verus!
