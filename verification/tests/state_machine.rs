use planning_poker::models::{GameState, Player, SessionError, Vote};
use planning_poker::poker::{voting_system_from_name, PlanningPokerGame, VotingSystem};

fn player(id: u128, name: &str) -> Player {
    Player { id, name: name.to_string(), is_observer: false, joined_at: 0 }
}

fn vote(player_id: u128, name: &str, value: &str, at: i64) -> Vote {
    Vote { player_id, player_name: name.to_string(), value: value.to_string(), cast_at: at }
}

fn game_with_players() -> PlanningPokerGame {
    let mut g = PlanningPokerGame::new("g".to_string(), 1, VotingSystem::Fibonacci);
    g.add_player(player(10, "Alice")).unwrap();
    g.add_player(player(20, "Bob")).unwrap();
    g
}

#[test]
fn new_game_waits_with_nothing_recorded() {
    let g = PlanningPokerGame::new("g".to_string(), 1, VotingSystem::Fibonacci);
    assert_eq!(g.state, GameState::Waiting);
    assert!(g.players.is_empty());
    assert!(g.votes.is_empty());
    assert!(g.current_story.is_none());
    assert!(g.is_owner(1));
    assert!(!g.is_owner(2));
}

#[test]
fn start_voting_only_from_waiting() {
    let mut g = game_with_players();
    g.start_voting("story".to_string()).unwrap();
    assert_eq!(g.state, GameState::Voting);
    assert_eq!(g.current_story.as_deref(), Some("story"));

    // A second start while voting is an invalid transition and changes nothing.
    let err = g.start_voting("other".to_string()).unwrap_err();
    assert_eq!(err, SessionError::InvalidTransition);
    assert_eq!(g.state, GameState::Voting);
    assert_eq!(g.current_story.as_deref(), Some("story"));
}

#[test]
fn reveal_shows_last_cast_per_player() {
    let mut g = game_with_players();
    g.start_voting("s".to_string()).unwrap();
    g.cast_vote(10, vote(10, "Alice", "3", 1)).unwrap();
    g.cast_vote(20, vote(20, "Bob", "8", 2)).unwrap();
    // Alice changes her mind: the later cast wins, with no duplicate entry.
    g.cast_vote(10, vote(10, "Alice", "5", 3)).unwrap();
    g.reveal_votes().unwrap();
    assert_eq!(g.state, GameState::Revealed);
    assert_eq!(g.votes.len(), 2);
    let alice = g.votes.iter().find(|v| v.player_id == 10).unwrap();
    let bob = g.votes.iter().find(|v| v.player_id == 20).unwrap();
    assert_eq!(alice.value, "5");
    assert_eq!(bob.value, "8");
}

#[test]
fn cast_vote_outside_voting_fails_and_changes_nothing() {
    let mut g = game_with_players();
    // Waiting.
    let err = g.cast_vote(10, vote(10, "Alice", "5", 1)).unwrap_err();
    assert_eq!(err, SessionError::InvalidTransition);
    assert!(g.votes.is_empty());

    g.start_voting("s".to_string()).unwrap();
    g.cast_vote(10, vote(10, "Alice", "5", 1)).unwrap();
    g.reveal_votes().unwrap();

    // Revealed.
    let err = g.cast_vote(20, vote(20, "Bob", "8", 2)).unwrap_err();
    assert_eq!(err, SessionError::InvalidTransition);
    assert_eq!(g.votes.len(), 1);
    assert_eq!(g.votes[0].value, "5");
}

#[test]
fn cast_vote_by_absent_player_fails() {
    let mut g = game_with_players();
    g.start_voting("s".to_string()).unwrap();
    let err = g.cast_vote(99, vote(99, "Eve", "1", 1)).unwrap_err();
    assert_eq!(err, SessionError::PlayerNotFound);
    assert!(g.votes.is_empty());
}

#[test]
fn reset_from_any_state_yields_waiting_and_empties_the_round() {
    // From Waiting.
    let mut g = game_with_players();
    g.reset_voting().unwrap();
    assert_eq!(g.state, GameState::Waiting);
    assert!(g.votes.is_empty());
    assert!(g.current_story.is_none());

    // From Voting, with votes and a story on record.
    g.start_voting("s".to_string()).unwrap();
    g.cast_vote(10, vote(10, "Alice", "5", 1)).unwrap();
    g.reset_voting().unwrap();
    assert_eq!(g.state, GameState::Waiting);
    assert!(g.votes.is_empty());
    assert!(g.current_story.is_none());
    assert_eq!(g.players.len(), 2);

    // From Revealed.
    g.start_voting("t".to_string()).unwrap();
    g.cast_vote(20, vote(20, "Bob", "8", 2)).unwrap();
    g.reveal_votes().unwrap();
    g.reset_voting().unwrap();
    assert_eq!(g.state, GameState::Waiting);
    assert!(g.votes.is_empty());
    assert!(g.current_story.is_none());
}

#[test]
fn removing_a_player_discards_exactly_their_vote() {
    let mut g = game_with_players();
    g.start_voting("s".to_string()).unwrap();
    g.cast_vote(10, vote(10, "Alice", "5", 1)).unwrap();
    g.cast_vote(20, vote(20, "Bob", "8", 2)).unwrap();
    assert!(g.all_players_voted());

    g.remove_player(10).unwrap();
    assert_eq!(g.players.len(), 1);
    assert_eq!(g.votes.len(), 1);
    assert_eq!(g.votes[0].player_id, 20);
    assert_eq!(g.votes[0].value, "8");
    // players.count == votes.count still holds after the removal.
    assert!(g.all_players_voted());

    // Removing a player who is absent changes nothing.
    g.remove_player(99).unwrap();
    assert_eq!(g.players.len(), 1);
    assert_eq!(g.votes.len(), 1);
}

#[test]
fn all_players_voted_compares_counts() {
    let mut g = game_with_players();
    g.start_voting("s".to_string()).unwrap();
    assert!(!g.all_players_voted());
    g.cast_vote(10, vote(10, "Alice", "5", 1)).unwrap();
    assert!(!g.all_players_voted());
    g.cast_vote(20, vote(20, "Bob", "8", 2)).unwrap();
    assert!(g.all_players_voted());
}

#[test]
fn rejoining_replaces_the_roster_entry() {
    let mut g = game_with_players();
    g.add_player(player(10, "Alice II")).unwrap();
    assert_eq!(g.players.len(), 2);
    let alice = g.players.iter().find(|p| p.id == 10).unwrap();
    assert_eq!(alice.name, "Alice II");
}

#[test]
fn voting_options_per_system() {
    let fib = PlanningPokerGame::new("g".to_string(), 1, VotingSystem::Fibonacci);
    assert_eq!(
        fib.get_voting_options(),
        vec!["0", "1", "2", "3", "5", "8", "13", "21", "34", "55", "89", "?"]
    );

    let shirts = PlanningPokerGame::new("g".to_string(), 1, VotingSystem::TShirtSizes);
    assert_eq!(shirts.get_voting_options(), vec!["XS", "S", "M", "L", "XL", "XXL", "?"]);

    let powers = PlanningPokerGame::new("g".to_string(), 1, VotingSystem::PowersOfTwo);
    assert_eq!(powers.get_voting_options(), vec!["1", "2", "4", "8", "16", "32", "64", "?"]);

    let custom = PlanningPokerGame::new(
        "g".to_string(),
        1,
        VotingSystem::Custom(vec!["yes".to_string(), "no".to_string()]),
    );
    assert_eq!(custom.get_voting_options(), vec!["yes", "no"]);
}

#[test]
fn voting_system_names_map_to_systems() {
    assert_eq!(voting_system_from_name(&"fibonacci".to_string()), VotingSystem::Fibonacci);
    assert_eq!(voting_system_from_name(&"tshirt".to_string()), VotingSystem::TShirtSizes);
    assert_eq!(voting_system_from_name(&"powers_of_2".to_string()), VotingSystem::PowersOfTwo);
    assert_eq!(voting_system_from_name(&"anything".to_string()), VotingSystem::Custom(Vec::new()));
}
