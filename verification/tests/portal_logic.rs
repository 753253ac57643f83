use fan_league::portal::{
    edit_user, reorder, submit_pick_urls, ContestantPickState, ContestantState, GameShowState,
    LeagueState, RoundPickState, UserState,
};
use fan_league::records::User;

fn user(id: i32, name: &str) -> User {
    User {
        id: Some(id),
        name: name.to_string(),
        email: format!("{}@example.com", name),
        account_type: "Player".to_string(),
    }
}

#[test]
fn edit_user_fills_the_form_from_the_first_match() {
    let users = vec![user(1, "Ann"), user(2, "Bo"), user(3, "Cy")];
    let state = edit_user(&users, 2).unwrap();
    assert_eq!(state.id, Some(2));
    assert_eq!(state.name, "Bo");
    assert_eq!(state.email, "Bo@example.com");
    assert_eq!(state.account_type, "Player");
}

#[test]
fn edit_user_of_an_unknown_id_leaves_the_form_alone() {
    let users = vec![user(1, "Ann")];
    assert!(edit_user(&users, 9).is_none());
    assert!(edit_user(&Vec::new(), 1).is_none());
}

#[test]
fn reorder_moves_the_dragged_entry_to_the_drop_slot() {
    let mut ranked = vec![
        ContestantState::new(Some(1), "Ann".to_string(), None),
        ContestantState::new(Some(2), "Bo".to_string(), None),
        ContestantState::new(Some(3), "Cy".to_string(), None),
    ];
    reorder(&mut ranked, 0, 2);
    let names: Vec<&str> = ranked.iter().map(|c| c.name.as_str()).collect();
    assert_eq!(names, vec!["Bo", "Cy", "Ann"]);
    reorder(&mut ranked, 2, 0);
    let names: Vec<&str> = ranked.iter().map(|c| c.name.as_str()).collect();
    assert_eq!(names, vec!["Ann", "Bo", "Cy"]);
    reorder(&mut ranked, 1, 1);
    let names: Vec<&str> = ranked.iter().map(|c| c.name.as_str()).collect();
    assert_eq!(names, vec!["Ann", "Bo", "Cy"]);
}

#[test]
fn submitting_picks_requests_each_ranked_contestant_in_order() {
    let rounds = vec![
        RoundPickState {
            round_number: 1,
            picks: vec![ContestantPickState::new(7, 1), ContestantPickState::new(9, 2)],
        },
        RoundPickState { round_number: 2, picks: vec![ContestantPickState::new(9, 1)] },
    ];
    let urls = submit_pick_urls("http://127.0.0.1:8000/api", &rounds, 1, 1);
    let urls: Vec<String> = urls.into_iter().map(|u| String::from_utf8(u).unwrap()).collect();
    assert_eq!(
        urls,
        vec![
            "http://127.0.0.1:8000/api/leagues/set_pick?user_id=1&league_id=1&round_number=1&contestant_id=7&rank_pick=1".to_string(),
            "http://127.0.0.1:8000/api/leagues/set_pick?user_id=1&league_id=1&round_number=1&contestant_id=9&rank_pick=2".to_string(),
            "http://127.0.0.1:8000/api/leagues/set_pick?user_id=1&league_id=1&round_number=2&contestant_id=9&rank_pick=1".to_string(),
        ]
    );
}

#[test]
fn submitting_no_picks_requests_nothing() {
    let urls = submit_pick_urls("http://127.0.0.1:8000/api", &Vec::new(), 1, 1);
    assert!(urls.is_empty());
    let empty_round = vec![RoundPickState { round_number: 1, picks: Vec::new() }];
    assert!(submit_pick_urls("http://127.0.0.1:8000/api", &empty_round, 1, 1).is_empty());
}

#[test]
fn form_states_start_at_their_defaults() {
    let user_form = UserState::from_default();
    assert_eq!(user_form.id, None);
    assert_eq!(user_form.name, "");
    assert_eq!(user_form.email, "");
    assert_eq!(user_form.account_type, "");
    let show_form = GameShowState::from_default();
    assert_eq!(show_form.id, None);
    assert_eq!(show_form.name, "");
    let league_form = LeagueState::from_default();
    assert_eq!(league_form.id, None);
    assert_eq!(league_form.name, "");
    assert_eq!(league_form.id_showseason, None);
    let pick = ContestantPickState::from_default();
    assert_eq!(pick.contestant_id, -1);
    assert_eq!(pick.rank_pick, -1);
    let contestant_form = ContestantState::new(None, "".to_string(), None);
    assert_eq!(contestant_form.round_number, Some(-1));
    assert_eq!(contestant_form.was_medically_evacuated, Some(false));
}

#[test]
fn league_and_show_states_carry_their_fields() {
    let league_form = LeagueState::new(Some(3), "Pool".to_string(), Some(1));
    assert_eq!(league_form.id, Some(3));
    assert_eq!(league_form.name, "Pool");
    assert_eq!(league_form.id_showseason, Some(1));
    let show_form = GameShowState::new(Some(2), "Season".to_string());
    assert_eq!(show_form.id, Some(2));
    assert_eq!(show_form.name, "Season");
    let user_form = UserState::new(Some(4), "Ann".to_string(), "a@example.com".to_string(), "Admin".to_string());
    assert_eq!(user_form.id, Some(4));
    assert_eq!(user_form.account_type, "Admin");
}
