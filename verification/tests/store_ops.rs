use fan_league::records::{Contestant, GameShow, League, StoreError, User};
use fan_league::store::Store;

fn ready_store() -> Store {
    let mut s = Store::new();
    s.initialize_storage();
    s.initialize_gameshows();
    s.initialize_contestants();
    s.initialize_gameshow_contestants();
    s.initialize_storage_leagues();
    s.initialize_storage_league_memberships();
    s.initialize_storage_league_picks();
    s
}

fn user(name: &str, email: &str, account_type: &str) -> User {
    User {
        id: None,
        name: name.to_string(),
        email: email.to_string(),
        account_type: account_type.to_string(),
    }
}

fn contestant(name: &str) -> Contestant {
    Contestant {
        id: None,
        name: name.to_string(),
        id_showseason: None,
        nickname: None,
        round_number: -1,
        was_medically_evacuated: false,
    }
}

#[test]
fn users_insert_assigns_ascending_ids() {
    let mut s = ready_store();
    s.add_user(&user("Ann", "ann@example.com", "Player")).unwrap();
    s.add_user(&user("Bo", "bo@example.com", "GameMaster")).unwrap();
    let listed = s.collect_users().unwrap();
    assert_eq!(listed.len(), 2);
    assert_eq!(listed[0].id, Some(1));
    assert_eq!(listed[0].name, "Ann");
    assert_eq!(listed[0].email, "ann@example.com");
    assert_eq!(listed[0].account_type, "Player");
    assert_eq!(listed[1].id, Some(2));
    assert_eq!(listed[1].name, "Bo");
}

#[test]
fn users_ops_without_table_report_it() {
    let mut s = Store::new();
    assert_eq!(s.collect_users(), Err(StoreError::TableMissing));
    assert_eq!(
        s.add_user(&user("Ann", "a@example.com", "Player")),
        Err(StoreError::TableMissing)
    );
    assert_eq!(s.delet_user(1), Err(StoreError::TableMissing));
}

#[test]
fn user_edit_updates_name_and_email_only() {
    let mut s = ready_store();
    s.add_user(&user("Ann", "ann@example.com", "Player")).unwrap();
    s.edit_user(1, &user("Anna", "anna@example.com", "Admin")).unwrap();
    let listed = s.collect_users().unwrap();
    assert_eq!(listed[0].name, "Anna");
    assert_eq!(listed[0].email, "anna@example.com");
    // the update statement does not touch the account type
    assert_eq!(listed[0].account_type, "Player");
}

#[test]
fn user_edit_of_unknown_id_changes_nothing() {
    let mut s = ready_store();
    s.add_user(&user("Ann", "ann@example.com", "Player")).unwrap();
    s.edit_user(9, &user("X", "x@example.com", "X")).unwrap();
    let listed = s.collect_users().unwrap();
    assert_eq!(listed[0].name, "Ann");
}

#[test]
fn user_delete_is_idempotent_and_excludes_id() {
    let mut s = ready_store();
    s.add_user(&user("Ann", "ann@example.com", "Player")).unwrap();
    s.add_user(&user("Bo", "bo@example.com", "Player")).unwrap();
    assert_eq!(s.delet_user(1), Ok(()));
    assert_eq!(s.delet_user(1), Ok(()));
    assert_eq!(s.delet_user(42), Ok(()));
    let listed = s.collect_users().unwrap();
    assert_eq!(listed.len(), 1);
    assert_eq!(listed[0].id, Some(2));
}

#[test]
fn deleted_ids_are_never_reused() {
    let mut s = ready_store();
    s.add_gameshow(&GameShow { id: None, name: "First".to_string() }).unwrap();
    s.delete_game_show(1).unwrap();
    s.add_gameshow(&GameShow { id: None, name: "Second".to_string() }).unwrap();
    let listed = s.collect_game_shows().unwrap();
    assert_eq!(listed.len(), 1);
    assert_eq!(listed[0].id, Some(2));
}

#[test]
fn select_contestant_not_found() {
    let mut s = ready_store();
    s.create_contestant(&contestant("Alex")).unwrap();
    assert_eq!(
        s.select_contestant_by_name("Riley".to_string()),
        Err(StoreError::NotFound)
    );
}

#[test]
fn select_contestant_single_match() {
    let mut s = ready_store();
    s.create_contestant(&contestant("Alex")).unwrap();
    s.create_contestant(&contestant("Sam")).unwrap();
    let found = s.select_contestant_by_name("Sam".to_string()).unwrap();
    assert_eq!(found.id, Some(2));
    assert_eq!(found.name, "Sam");
    assert_eq!(found.id_showseason, None);
    assert_eq!(found.nickname, None);
    assert_eq!(found.round_number, -1);
    assert!(!found.was_medically_evacuated);
}

#[test]
fn select_contestant_with_two_rows_is_ambiguous() {
    let mut s = ready_store();
    s.create_contestant(&contestant("Sam")).unwrap();
    s.create_contestant(&contestant("Sam")).unwrap();
    assert_eq!(
        s.select_contestant_by_name("Sam".to_string()),
        Err(StoreError::Ambiguous)
    );
}

#[test]
fn delete_contestant_by_name_removes_all_rows_of_it() {
    let mut s = ready_store();
    s.create_contestant(&contestant("Sam")).unwrap();
    s.create_contestant(&contestant("Alex")).unwrap();
    s.create_contestant(&contestant("Sam")).unwrap();
    s.delete_contestant("Sam").unwrap();
    let listed = s.collect_all_contestants().unwrap();
    assert_eq!(listed.len(), 1);
    assert_eq!(listed[0].name, "Alex");
    // a second run matches nothing and still succeeds
    assert_eq!(s.delete_contestant("Sam"), Ok(()));
}

#[test]
fn enroll_requires_both_parents() {
    let mut s = ready_store();
    s.add_gameshow(&GameShow { id: None, name: "Season".to_string() }).unwrap();
    assert_eq!(
        s.enter_contestant_onto_show(7, 1, "Ace".to_string()),
        Err(StoreError::MissingReference)
    );
    s.create_contestant(&contestant("Alex")).unwrap();
    assert_eq!(
        s.enter_contestant_onto_show(1, 9, "Ace".to_string()),
        Err(StoreError::MissingReference)
    );
    assert_eq!(s.enter_contestant_onto_show(1, 1, "Ace".to_string()), Ok(()));
}

#[test]
fn enroll_same_pairing_twice_is_a_duplicate() {
    let mut s = ready_store();
    s.add_gameshow(&GameShow { id: None, name: "Season".to_string() }).unwrap();
    s.create_contestant(&contestant("Alex")).unwrap();
    s.enter_contestant_onto_show(1, 1, "Ace".to_string()).unwrap();
    assert_eq!(
        s.enter_contestant_onto_show(1, 1, "Again".to_string()),
        Err(StoreError::DuplicateKey)
    );
}

#[test]
fn eliminate_unenrolled_pairing_is_refused() {
    let mut s = ready_store();
    s.add_gameshow(&GameShow { id: None, name: "Season".to_string() }).unwrap();
    s.create_contestant(&contestant("Alex")).unwrap();
    assert_eq!(
        s.eliminate_contestant_from_show(1, 1, 3),
        Err(StoreError::NotEnrolled)
    );
    assert_eq!(
        s.medically_evacuate_contestant_from_show(1, 1),
        Err(StoreError::NotEnrolled)
    );
}

#[test]
fn eliminate_sets_the_round_on_the_pairing() {
    let mut s = ready_store();
    s.add_gameshow(&GameShow { id: None, name: "Season".to_string() }).unwrap();
    s.create_contestant(&contestant("Alex")).unwrap();
    s.create_contestant(&contestant("Riley")).unwrap();
    s.enter_contestant_onto_show(1, 1, "Ace".to_string()).unwrap();
    s.enter_contestant_onto_show(2, 1, "Ry".to_string()).unwrap();
    s.eliminate_contestant_from_show(1, 1, 4).unwrap();
    let on_show = s.fetch_contestants_on_show(1).unwrap();
    assert_eq!(on_show.len(), 2);
    assert_eq!(on_show[0].round_number, 4);
    assert_eq!(on_show[1].round_number, -1);
}

#[test]
fn deleting_a_show_cascades_to_its_enrollments() {
    let mut s = ready_store();
    s.add_gameshow(&GameShow { id: None, name: "One".to_string() }).unwrap();
    s.add_gameshow(&GameShow { id: None, name: "Two".to_string() }).unwrap();
    s.create_contestant(&contestant("Alex")).unwrap();
    s.enter_contestant_onto_show(1, 1, "Ace".to_string()).unwrap();
    s.enter_contestant_onto_show(1, 2, "Deuce".to_string()).unwrap();
    s.delete_game_show(1).unwrap();
    assert_eq!(s.fetch_contestants_on_show(1).unwrap().len(), 0);
    // the other show's enrollment survives
    let remaining = s.fetch_contestants_on_show(2).unwrap();
    assert_eq!(remaining.len(), 1);
    assert_eq!(remaining[0].nickname, Some("Deuce".to_string()));
}

#[test]
fn deleting_a_contestant_cascades_to_its_enrollments() {
    let mut s = ready_store();
    s.add_gameshow(&GameShow { id: None, name: "One".to_string() }).unwrap();
    s.create_contestant(&contestant("Alex")).unwrap();
    s.create_contestant(&contestant("Riley")).unwrap();
    s.enter_contestant_onto_show(1, 1, "Ace".to_string()).unwrap();
    s.enter_contestant_onto_show(2, 1, "Ry".to_string()).unwrap();
    s.delete_contestant("Alex").unwrap();
    let on_show = s.fetch_contestants_on_show(1).unwrap();
    assert_eq!(on_show.len(), 1);
    assert_eq!(on_show[0].name, "Riley");
}

#[test]
fn leagues_filter_by_season() {
    let mut s = ready_store();
    s.create_league(&League {
        id: None,
        name: "Pool A".to_string(),
        id_showseason: Some(1),
    })
    .unwrap();
    s.create_league(&League {
        id: None,
        name: "Pool B".to_string(),
        id_showseason: Some(2),
    })
    .unwrap();
    s.create_league(&League { id: None, name: "Free".to_string(), id_showseason: None }).unwrap();
    let season_one = s.collect_leagues(1).unwrap();
    assert_eq!(season_one.len(), 1);
    assert_eq!(season_one[0].id, Some(1));
    assert_eq!(season_one[0].name, "Pool A");
    // a null season never matches
    assert_eq!(s.collect_leagues(0).unwrap().len(), 0);
}

#[test]
fn membership_needs_parents_and_is_unique() {
    let mut s = ready_store();
    assert_eq!(s.add_user_to_league(1, 1), Err(StoreError::MissingReference));
    s.add_user(&user("Ann", "ann@example.com", "Player")).unwrap();
    s.create_league(&League {
        id: None,
        name: "Pool".to_string(),
        id_showseason: Some(1),
    })
    .unwrap();
    assert_eq!(s.add_user_to_league(1, 1), Ok(()));
    assert_eq!(s.add_user_to_league(1, 1), Err(StoreError::DuplicateKey));
    assert_eq!(s.remove_user_from_league(1, 1), Ok(()));
    // removal of an absent pairing still succeeds
    assert_eq!(s.remove_user_from_league(1, 1), Ok(()));
    // and the pairing can be entered again
    assert_eq!(s.add_user_to_league(1, 1), Ok(()));
}

#[test]
fn set_pick_requires_every_reference() {
    let mut s = ready_store();
    s.add_user(&user("Ann", "ann@example.com", "Player")).unwrap();
    s.create_league(&League {
        id: None,
        name: "Pool".to_string(),
        id_showseason: Some(1),
    })
    .unwrap();
    assert_eq!(s.set_league_pick(1, 1, 1, 7, 1), Err(StoreError::MissingReference));
    s.create_contestant(&contestant("Alex")).unwrap();
    assert_eq!(s.set_league_pick(1, 1, 1, 1, 1), Ok(()));
}

#[test]
fn set_pick_twice_keeps_the_latest_rank() {
    let mut s = ready_store();
    s.add_user(&user("Ann", "ann@example.com", "Player")).unwrap();
    s.create_league(&League {
        id: None,
        name: "Pool".to_string(),
        id_showseason: Some(1),
    })
    .unwrap();
    s.create_contestant(&contestant("Alex")).unwrap();
    assert_eq!(s.set_league_pick(1, 1, 1, 1, 3), Ok(()));
    assert_eq!(s.set_league_pick(1, 1, 1, 1, 9), Ok(()));
    // a different round is a different key, inserted rather than updated
    assert_eq!(s.set_league_pick(1, 1, 2, 1, 1), Ok(()));
}

#[test]
fn error_messages_match_the_service_texts() {
    assert_eq!(StoreError::NotFound.message(), "Contestant not found");
    assert_eq!(StoreError::TableMissing.message(), "relation does not exist");
    assert_eq!(
        StoreError::Ambiguous.message(),
        "query returned an unexpected number of rows"
    );
    assert_eq!(
        StoreError::DuplicateKey.message(),
        "duplicate key value violates unique constraint"
    );
    assert_eq!(
        StoreError::MissingReference.message(),
        "insert violates foreign key constraint"
    );
    assert_eq!(
        StoreError::NotEnrolled.message(),
        "contestant is not entered onto that show"
    );
    assert_eq!(StoreError::IdsExhausted.message(), "identifier sequence exhausted");
}
