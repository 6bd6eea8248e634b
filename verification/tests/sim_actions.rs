use planning_poker::sim::{
    drain_bounce_targets, queue_disconnect_player, queue_network_partition,
    queue_reconnect_player, queue_restore_network, Action, ActionQueue,
};

#[test]
fn queued_actions_keep_their_order() {
    let mut q = ActionQueue::new();
    queue_disconnect_player(&mut q, 7);
    queue_reconnect_player(&mut q, 7);
    queue_network_partition(&mut q, vec![1, 2]);
    queue_restore_network(&mut q);
    assert_eq!(
        q.pending,
        vec![
            Action::DisconnectPlayer(7),
            Action::ReconnectPlayer(7),
            Action::NetworkPartition(vec![1, 2]),
            Action::RestoreNetwork,
        ]
    );
}

#[test]
fn draining_bounces_disconnected_and_partitioned_players_only() {
    let mut q = ActionQueue::new();
    queue_disconnect_player(&mut q, 7);
    queue_reconnect_player(&mut q, 8);
    queue_network_partition(&mut q, vec![1, 2, 3]);
    queue_restore_network(&mut q);
    queue_disconnect_player(&mut q, 9);

    let targets = drain_bounce_targets(&mut q);
    assert_eq!(targets, vec![7, 1, 2, 3, 9]);
    assert!(q.pending.is_empty());

    // A drained queue bounces nobody.
    assert_eq!(drain_bounce_targets(&mut q), Vec::<u128>::new());
}
