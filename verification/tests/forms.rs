use planning_poker::forms::{CreateGameForm, JoinGameForm, JoinGameRequest, VoteForm, VoteRequest};

#[test]
fn test_join_game_form_deserialization() {
    let form_data = JoinGameForm {
        game_id: "550e8400-e29b-41d4-a716-446655440000".to_string(),
        player_name: "Test Player".to_string(),
    };

    assert_eq!(form_data.game_id, "550e8400-e29b-41d4-a716-446655440000");
    assert_eq!(form_data.player_name, "Test Player");
}

#[test]
fn test_create_game_form_deserialization() {
    let form_data = CreateGameForm {
        name: "Test Game".to_string(),
        voting_system: "fibonacci".to_string(),
    };

    assert_eq!(form_data.name, "Test Game");
    assert_eq!(form_data.voting_system, "fibonacci");
}

#[test]
fn join_request_holds_player_name() {
    let req = JoinGameRequest { player_name: "Ada".to_string() };
    assert_eq!(req.player_name, "Ada");
}

#[test]
fn vote_request_and_form_hold_values() {
    let req = VoteRequest { player_id: 7, vote: "13".to_string() };
    let form = VoteForm { vote: "13".to_string() };
    assert_eq!(req.player_id, 7);
    assert_eq!(req.vote, form.vote);
}
