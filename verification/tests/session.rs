use planning_poker::coordinator::{
    error_reply, Broadcast, Effect, Pending, SessionCoordinator, StoreOp,
};
use planning_poker::models::{ClientMessage, GameState, ServerMessage, SessionError};

/// Runs one command through both phases, as the embedding does once the
/// store has accepted the writes.
fn run(c: &mut SessionCoordinator, conn: u128, msg: ClientMessage) -> Option<planning_poker::coordinator::CommitOutcome> {
    let pending = c.prepare(conn, msg).unwrap()?;
    Some(c.commit(pending).unwrap())
}

fn join(c: &mut SessionCoordinator, conn: u128, game_id: u128, name: &str) -> (u128, Option<Broadcast>) {
    let pending = c
        .prepare(conn, ClientMessage::JoinGame { game_id, player_name: name.to_string() })
        .unwrap()
        .unwrap();
    let player_id = match &pending.effect {
        Effect::Join { player, .. } => player.id,
        other => panic!("unexpected effect: {other:?}"),
    };
    let out = c.commit(pending).unwrap();
    (player_id, out.broadcast)
}

#[test]
fn create_game_starts_waiting_and_describes_the_insert() {
    let mut c = SessionCoordinator::new();
    let (game, ops) = c.create_game("My Game".to_string(), "fibonacci".to_string(), 42).unwrap();
    assert_eq!(game.name, "My Game");
    assert_eq!(game.owner_id, 42);
    assert_eq!(game.voting_system, "fibonacci");
    assert_eq!(game.state, GameState::Waiting);
    assert!(game.current_story.is_none());
    assert_eq!(ops.len(), 1);
    match &ops[0] {
        StoreOp::InsertGame { game: g } => assert_eq!(g, &game),
        other => panic!("unexpected store op: {other:?}"),
    }
    let fetched = c.get_game(game.id).unwrap();
    assert_eq!(fetched, game);
    assert!(c.get_game(game.id.wrapping_add(1)).is_none());
}

#[test]
fn create_game_with_uses_the_given_identity_and_clock() {
    let mut c = SessionCoordinator::new();
    let (game, ops) = c
        .create_game_with(42, 1000, "G".to_string(), "fibonacci".to_string(), 7)
        .unwrap();
    assert_eq!(game.id, 42);
    assert_eq!(game.created_at, 1000);
    assert_eq!(game.updated_at, 1000);
    assert_eq!(game.owner_id, 7);
    assert_eq!(game.state, GameState::Waiting);
    assert_eq!(ops.len(), 1);

    // A second game under the taken identity is refused and changes nothing.
    let err = c
        .create_game_with(42, 2000, "H".to_string(), "fibonacci".to_string(), 8)
        .unwrap_err();
    assert_eq!(err, SessionError::StoreFailure);
    let kept = c.get_game(42).unwrap();
    assert_eq!(kept.name, "G");
    assert_eq!(kept.owner_id, 7);
    assert_eq!(kept.created_at, 1000);
}

#[test]
fn round_transitions_refresh_the_update_time() {
    let mut c = SessionCoordinator::new();
    let (game, _) = c
        .create_game_with(1, 5, "G".to_string(), "fibonacci".to_string(), 9)
        .unwrap();
    c.register_connection(1).unwrap();
    join(&mut c, 1, game.id, "Alice");
    // Joining touches the roster, not the game record.
    assert_eq!(c.get_game(1).unwrap().updated_at, 5);

    run(&mut c, 1, ClientMessage::StartVoting { story: "s".to_string() }).unwrap();
    let after_start = c.get_game(1).unwrap().updated_at;
    assert!(after_start > 5);

    // Casting writes a vote row only; the record keeps its update time.
    run(&mut c, 1, ClientMessage::CastVote { value: "5".to_string() }).unwrap();
    assert_eq!(c.get_game(1).unwrap().updated_at, after_start);

    run(&mut c, 1, ClientMessage::RevealVotes).unwrap();
    let after_reveal = c.get_game(1).unwrap().updated_at;
    assert!(after_reveal >= after_start);

    run(&mut c, 1, ClientMessage::ResetVoting).unwrap();
    assert!(c.get_game(1).unwrap().updated_at >= after_reveal);
    // Creation time never moves.
    assert_eq!(c.get_game(1).unwrap().created_at, 5);
}

#[test]
fn join_sends_snapshot_to_joiner_and_announces_to_the_rest() {
    let mut c = SessionCoordinator::new();
    let (game, _) = c.create_game("G".to_string(), "fibonacci".to_string(), 1).unwrap();
    c.register_connection(1).unwrap();
    c.register_connection(2).unwrap();
    c.register_connection(3).unwrap();

    let (a, bc_a) = join(&mut c, 1, game.id, "Alice");
    // Nobody else is in the game yet: the announcement reaches no one.
    assert_eq!(bc_a.unwrap().recipients, Vec::<u128>::new());

    let (_b, bc_b) = join(&mut c, 2, game.id, "Bob");
    assert_eq!(bc_b.unwrap().recipients, vec![1]);

    // Broadcast exclusion: the third joiner's announcement reaches the two
    // earlier connections and never the triggering connection itself.
    let pending = c
        .prepare(3, ClientMessage::JoinGame { game_id: game.id, player_name: "Cara".to_string() })
        .unwrap()
        .unwrap();
    assert_eq!(pending.store_ops().len(), 1);
    let out = c.commit(pending).unwrap();
    match out.reply.unwrap() {
        ServerMessage::GameJoined { game: g, players } => {
            assert_eq!(g.id, game.id);
            assert_eq!(players.len(), 3);
        },
        other => panic!("unexpected reply: {other:?}"),
    }
    let bc = out.broadcast.unwrap();
    let mut recipients = bc.recipients.clone();
    recipients.sort_unstable();
    assert_eq!(recipients, vec![1, 2]);
    assert!(!bc.recipients.contains(&3));
    match bc.message {
        ServerMessage::PlayerJoined { player } => assert_eq!(player.name, "Cara"),
        other => panic!("unexpected broadcast: {other:?}"),
    }

    // The roster now lists all three, Alice first.
    let roster = c.get_game_players(game.id).unwrap();
    assert_eq!(roster.len(), 3);
    assert_eq!(roster[0].id, a);
}

#[test]
fn join_of_missing_game_is_an_error_to_the_caller_only() {
    let mut c = SessionCoordinator::new();
    c.register_connection(1).unwrap();
    let err = c
        .prepare(1, ClientMessage::JoinGame { game_id: 99, player_name: "Ann".to_string() })
        .unwrap_err();
    assert_eq!(err, SessionError::GameNotFound);
    match error_reply(&err) {
        ServerMessage::Error { message } => assert_eq!(message, "Game not found"),
        other => panic!("unexpected reply: {other:?}"),
    }
}

#[test]
fn commands_from_unregistered_connections_are_rejected() {
    let c = SessionCoordinator::new();
    let err = c.prepare(5, ClientMessage::RevealVotes).unwrap_err();
    assert_eq!(err, SessionError::UnknownConnection);
}

#[test]
fn commands_from_unbound_connections_are_silent_no_ops() {
    let mut c = SessionCoordinator::new();
    c.register_connection(1).unwrap();
    assert!(c.prepare(1, ClientMessage::LeaveGame).unwrap().is_none());
    assert!(c.prepare(1, ClientMessage::CastVote { value: "5".to_string() }).unwrap().is_none());
    assert!(c.prepare(1, ClientMessage::RevealVotes).unwrap().is_none());
}

#[test]
fn duplicate_registration_is_refused() {
    let mut c = SessionCoordinator::new();
    c.register_connection(1).unwrap();
    assert_eq!(c.register_connection(1).unwrap_err(), SessionError::DuplicateConnection);
}

#[test]
fn voting_round_over_the_coordinator() {
    let mut c = SessionCoordinator::new();
    let (game, _) = c.create_game("G".to_string(), "fibonacci".to_string(), 1).unwrap();
    c.register_connection(1).unwrap();
    c.register_connection(2).unwrap();
    let (a, _) = join(&mut c, 1, game.id, "Alice");
    let (b, _) = join(&mut c, 2, game.id, "Bob");

    // Casting before the round starts violates the state machine.
    let err = c.prepare(1, ClientMessage::CastVote { value: "5".to_string() }).unwrap_err();
    assert_eq!(err, SessionError::InvalidTransition);

    let out = run(&mut c, 1, ClientMessage::StartVoting { story: "story-1".to_string() }).unwrap();
    let bc = out.broadcast.unwrap();
    assert_eq!(bc.message, ServerMessage::VotingStarted { story: "story-1".to_string() });
    let mut recipients = bc.recipients.clone();
    recipients.sort_unstable();
    assert_eq!(recipients, vec![1, 2]);
    assert_eq!(c.get_game_votes(game.id).unwrap().len(), 0);

    // A vote announcement carries the voter and the fact, never the value.
    let out = run(&mut c, 1, ClientMessage::CastVote { value: "5".to_string() }).unwrap();
    assert_eq!(
        out.broadcast.as_ref().unwrap().message,
        ServerMessage::VoteCast { player_id: a, has_voted: true }
    );
    assert_eq!(out.broadcast.unwrap().recipients.len(), 2);
    let out = run(&mut c, 2, ClientMessage::CastVote { value: "8".to_string() }).unwrap();
    assert_eq!(
        out.broadcast.unwrap().message,
        ServerMessage::VoteCast { player_id: b, has_voted: true }
    );

    let out = run(&mut c, 1, ClientMessage::RevealVotes).unwrap();
    match out.broadcast.unwrap().message {
        ServerMessage::VotesRevealed { votes } => {
            assert_eq!(votes.len(), 2);
            let alice = votes.iter().find(|v| v.player_id == a).unwrap();
            let bob = votes.iter().find(|v| v.player_id == b).unwrap();
            assert_eq!(alice.value, "5");
            assert_eq!(bob.value, "8");
        },
        other => panic!("unexpected broadcast: {other:?}"),
    }

    let out = run(&mut c, 1, ClientMessage::ResetVoting).unwrap();
    assert_eq!(out.broadcast.unwrap().message, ServerMessage::VotingReset);
    assert_eq!(c.get_game(game.id).unwrap().state, GameState::Waiting);
    assert_eq!(c.get_game_votes(game.id).unwrap().len(), 0);
}

#[test]
fn concurrent_votes_by_different_players_are_both_kept() {
    let mut c = SessionCoordinator::new();
    let (game, _) = c.create_game("G".to_string(), "fibonacci".to_string(), 1).unwrap();
    c.register_connection(1).unwrap();
    c.register_connection(2).unwrap();
    let (a, _) = join(&mut c, 1, game.id, "Alice");
    let (b, _) = join(&mut c, 2, game.id, "Bob");
    run(&mut c, 1, ClientMessage::StartVoting { story: "s".to_string() }).unwrap();

    // Two connections submit at once; the coordinator serializes them.
    // Both commands validate against the same pre-state, and neither
    // update is lost, whichever lands first.
    let p1 = c.prepare(1, ClientMessage::CastVote { value: "3".to_string() }).unwrap().unwrap();
    let p2 = c.prepare(2, ClientMessage::CastVote { value: "13".to_string() }).unwrap().unwrap();
    c.commit(p2).unwrap();
    c.commit(p1).unwrap();

    let out = run(&mut c, 1, ClientMessage::RevealVotes).unwrap();
    match out.broadcast.unwrap().message {
        ServerMessage::VotesRevealed { votes } => {
            assert_eq!(votes.len(), 2);
            assert_eq!(votes.iter().find(|v| v.player_id == a).unwrap().value, "3");
            assert_eq!(votes.iter().find(|v| v.player_id == b).unwrap().value, "13");
        },
        other => panic!("unexpected broadcast: {other:?}"),
    }
}

#[test]
fn leaving_removes_the_player_their_vote_and_the_binding() {
    let mut c = SessionCoordinator::new();
    let (game, _) = c.create_game("G".to_string(), "fibonacci".to_string(), 1).unwrap();
    c.register_connection(1).unwrap();
    c.register_connection(2).unwrap();
    let (a, _) = join(&mut c, 1, game.id, "Alice");
    join(&mut c, 2, game.id, "Bob");
    run(&mut c, 1, ClientMessage::StartVoting { story: "s".to_string() }).unwrap();
    run(&mut c, 1, ClientMessage::CastVote { value: "5".to_string() }).unwrap();

    let pending = c.prepare(1, ClientMessage::LeaveGame).unwrap().unwrap();
    assert_eq!(
        pending,
        Pending { connection_id: 1, effect: Effect::Leave { game_id: game.id, player_id: a } }
    );
    assert_eq!(pending.store_ops().len(), 2);
    let out = c.commit(pending).unwrap();
    let bc = out.broadcast.unwrap();
    assert_eq!(bc.message, ServerMessage::PlayerLeft { player_id: a });
    assert_eq!(bc.recipients, vec![2]);

    assert_eq!(c.get_game_players(game.id).unwrap().len(), 1);
    assert_eq!(c.get_game_votes(game.id).unwrap().len(), 0);
    // The connection is anonymous again: further commands are no-ops.
    assert!(c.prepare(1, ClientMessage::LeaveGame).unwrap().is_none());
}

#[test]
fn disconnect_announces_the_departure_once() {
    let mut c = SessionCoordinator::new();
    let (game, _) = c.create_game("G".to_string(), "fibonacci".to_string(), 1).unwrap();
    c.register_connection(1).unwrap();
    c.register_connection(2).unwrap();
    let (a, _) = join(&mut c, 1, game.id, "Alice");
    join(&mut c, 2, game.id, "Bob");

    let bc = c.disconnect(1).unwrap();
    assert_eq!(bc.message, ServerMessage::PlayerLeft { player_id: a });
    assert_eq!(bc.recipients, vec![2]);

    // Unregistering again is an idempotent no-op.
    assert!(c.disconnect(1).is_none());
    // A never-bound connection leaves silently.
    c.register_connection(9).unwrap();
    assert!(c.disconnect(9).is_none());
}

#[test]
fn joining_a_second_game_rebinds_the_connection() {
    let mut c = SessionCoordinator::new();
    let (first, _) = c.create_game("First".to_string(), "fibonacci".to_string(), 1).unwrap();
    let (second, _) = c.create_game("Second".to_string(), "fibonacci".to_string(), 1).unwrap();
    c.register_connection(1).unwrap();
    c.register_connection(2).unwrap();
    join(&mut c, 1, first.id, "Alice");
    join(&mut c, 2, first.id, "Bob");

    // Connection 1 moves on without an explicit unbind.
    join(&mut c, 1, second.id, "Alice");

    // A broadcast in the first game no longer reaches connection 1.
    let out = run(&mut c, 2, ClientMessage::StartVoting { story: "s".to_string() }).unwrap();
    assert_eq!(out.broadcast.unwrap().recipients, vec![2]);

    // In the second game it is the only connection.
    let out = run(&mut c, 1, ClientMessage::StartVoting { story: "t".to_string() }).unwrap();
    assert_eq!(out.broadcast.unwrap().recipients, vec![1]);
}

#[test]
fn store_ops_follow_the_effect() {
    let pending = Pending {
        connection_id: 1,
        effect: Effect::StartVoting { game_id: 5, story: "s".to_string() },
    };
    assert_eq!(
        pending.store_ops(),
        vec![
            StoreOp::ClearVotes { game_id: 5 },
            StoreOp::SetVoting { game_id: 5, story: "s".to_string() },
        ]
    );
    let pending = Pending { connection_id: 1, effect: Effect::ResetVoting { game_id: 5 } };
    assert_eq!(
        pending.store_ops(),
        vec![StoreOp::ClearVotes { game_id: 5 }, StoreOp::ResetGame { game_id: 5 }]
    );
    let pending = Pending { connection_id: 1, effect: Effect::RevealVotes { game_id: 5 } };
    assert_eq!(pending.store_ops(), vec![StoreOp::SetRevealed { game_id: 5 }]);
}

#[test]
fn error_replies_carry_the_error_text() {
    match error_reply(&SessionError::InvalidTransition) {
        ServerMessage::Error { message } => assert_eq!(message, "Invalid state transition"),
        other => panic!("unexpected reply: {other:?}"),
    }
    match error_reply(&SessionError::StoreFailure) {
        ServerMessage::Error { message } => assert_eq!(message, "Store failure"),
        other => panic!("unexpected reply: {other:?}"),
    }
}
