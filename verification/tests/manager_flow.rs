use fan_league::gameshow_manager::GameShowManager;
use fan_league::records::{Contestant, GameShow, League, StoreError, User};
use fan_league::store::Store;
use fan_league::user_manager::UserManager;

fn boot() -> (Store, UserManager, GameShowManager) {
    let mut store = Store::new();
    let users = UserManager::create(&mut store);
    let shows = GameShowManager::create(&mut store);
    (store, users, shows)
}

fn user(name: &str, email: &str, account_type: &str) -> User {
    User {
        id: None,
        name: name.to_string(),
        email: email.to_string(),
        account_type: account_type.to_string(),
    }
}

#[test]
fn startup_twice_errors_nowhere_and_keeps_rows() {
    let (mut store, _users, shows) = boot();
    shows
        .add_gameshow_and_refresh(&mut store, &GameShow { id: None, name: "Kept".to_string() })
        .unwrap();
    // a second startup against the same store: tables already exist
    let _users_again = UserManager::create(&mut store);
    let _shows_again = GameShowManager::create(&mut store);
    let listed = shows.collect_gameshows(&store).unwrap();
    assert_eq!(listed.len(), 1);
    assert_eq!(listed[0].name, "Kept");
}

#[test]
fn add_user_and_refresh_returns_the_new_list() {
    let (mut store, users, _shows) = boot();
    let listed = users.add_user_and_refresh(&mut store, &user("Ann", "a@example.com", "Player"))
        .unwrap();
    assert_eq!(listed.len(), 1);
    assert_eq!(listed[0].id, Some(1));
    assert_eq!(listed[0].name, "Ann");
    let listed = users.add_user_and_refresh(&mut store, &user("Bo", "b@example.com", "Admin"))
        .unwrap();
    assert_eq!(listed.len(), 2);
    assert_eq!(listed[1].id, Some(2));
}

#[test]
fn edit_user_and_refresh_keeps_account_type() {
    let (mut store, users, _shows) = boot();
    users.add_user_and_refresh(&mut store, &user("Ann", "a@example.com", "Player")).unwrap();
    let listed = users
        .edit_user_and_refresh(&mut store, 1, &user("Anna", "anna@example.com", "Admin"))
        .unwrap();
    assert_eq!(listed[0].name, "Anna");
    assert_eq!(listed[0].email, "anna@example.com");
    assert_eq!(listed[0].account_type, "Player");
}

#[test]
fn delete_user_and_refresh_excludes_the_id() {
    let (mut store, users, _shows) = boot();
    users.add_user_and_refresh(&mut store, &user("Ann", "a@example.com", "Player")).unwrap();
    users.add_user_and_refresh(&mut store, &user("Bo", "b@example.com", "Player")).unwrap();
    let listed = users.delete_user_and_refresh(&mut store, 1).unwrap();
    assert_eq!(listed.len(), 1);
    assert_eq!(listed[0].id, Some(2));
    // deleting an id that matches nothing is not an error
    let listed = users.delete_user_and_refresh(&mut store, 42).unwrap();
    assert_eq!(listed.len(), 1);
}

#[test]
fn medevac_needs_a_successful_elimination_first() {
    let (mut store, _users, shows) = boot();
    shows
        .add_gameshow_and_refresh(&mut store, &GameShow { id: None, name: "Season".to_string() })
        .unwrap();
    shows
        .create_contestant(
            &mut store,
            &Contestant {
                id: None,
                name: "Alex".to_string(),
                id_showseason: None,
                nickname: None,
                round_number: -1,
                was_medically_evacuated: false,
            },
        )
        .unwrap();
    // not enrolled: the elimination is refused and the medevac never runs
    assert_eq!(
        shows.medically_evacuate_contestant_from_show(&mut store, 1, 1, 2),
        Err(StoreError::NotEnrolled)
    );
    shows.enter_contestant_onto_show(&mut store, 1, 1, "Ace".to_string()).unwrap();
    let on_show = shows.fetch_contestants_on_show(&store, 1).unwrap();
    assert!(!on_show[0].was_medically_evacuated);
    assert_eq!(on_show[0].round_number, -1);
    // enrolled: the elimination lands first, then the flag
    assert_eq!(shows.medically_evacuate_contestant_from_show(&mut store, 1, 1, 2), Ok(()));
    let on_show = shows.fetch_contestants_on_show(&store, 1).unwrap();
    assert!(on_show[0].was_medically_evacuated);
    assert_eq!(on_show[0].round_number, 2);
}

#[test]
fn eliminiate_records_the_round_through_the_manager() {
    let (mut store, _users, shows) = boot();
    shows
        .add_gameshow_and_refresh(&mut store, &GameShow { id: None, name: "Season".to_string() })
        .unwrap();
    shows
        .create_contestant(
            &mut store,
            &Contestant {
                id: None,
                name: "Alex".to_string(),
                id_showseason: None,
                nickname: None,
                round_number: -1,
                was_medically_evacuated: false,
            },
        )
        .unwrap();
    shows.enter_contestant_onto_show(&mut store, 1, 1, "Ace".to_string()).unwrap();
    shows.eliminiate_contestant_from_show(&mut store, 1, 1, 5).unwrap();
    let on_show = shows.fetch_contestants_on_show(&store, 1).unwrap();
    assert_eq!(on_show[0].round_number, 5);
    assert!(!on_show[0].was_medically_evacuated);
}

#[test]
fn delete_gameshow_and_refresh_returns_remaining_shows() {
    let (mut store, _users, shows) = boot();
    shows
        .add_gameshow_and_refresh(&mut store, &GameShow { id: None, name: "One".to_string() })
        .unwrap();
    shows
        .add_gameshow_and_refresh(&mut store, &GameShow { id: None, name: "Two".to_string() })
        .unwrap();
    let listed = shows.delete_gameshow_and_refresh(&mut store, 1).unwrap();
    assert_eq!(listed.len(), 1);
    assert_eq!(listed[0].name, "Two");
}

#[test]
fn league_membership_through_the_manager() {
    let (mut store, users, shows) = boot();
    users.add_user_and_refresh(&mut store, &user("Ann", "a@example.com", "Player")).unwrap();
    shows
        .create_league(
            &mut store,
            &League { id: None, name: "Pool".to_string(), id_showseason: Some(1) },
        )
        .unwrap();
    assert_eq!(shows.add_user_to_league(&mut store, 1, 1), Ok(()));
    assert_eq!(
        shows.add_user_to_league(&mut store, 1, 1),
        Err(StoreError::DuplicateKey)
    );
    assert_eq!(shows.remove_user_from_league(&mut store, 1, 1), Ok(()));
    assert_eq!(
        shows.add_user_to_league(&mut store, 9, 1),
        Err(StoreError::MissingReference)
    );
}

#[test]
fn set_league_pick_through_the_manager_upserts() {
    let (mut store, users, shows) = boot();
    users.add_user_and_refresh(&mut store, &user("Ann", "a@example.com", "Player")).unwrap();
    shows
        .create_league(
            &mut store,
            &League { id: None, name: "Pool".to_string(), id_showseason: Some(1) },
        )
        .unwrap();
    shows
        .create_contestant(
            &mut store,
            &Contestant {
                id: None,
                name: "Alex".to_string(),
                id_showseason: None,
                nickname: None,
                round_number: -1,
                was_medically_evacuated: false,
            },
        )
        .unwrap();
    assert_eq!(shows.set_league_pick(&mut store, 1, 1, 1, 1, 2), Ok(()));
    assert_eq!(shows.set_league_pick(&mut store, 1, 1, 1, 1, 7), Ok(()));
}
