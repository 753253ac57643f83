use fan_league::gameshow_manager::GameShowManager;
use fan_league::handlers;
use fan_league::records::{Contestant, GameShow, League, StoreError};
use fan_league::store::Store;
use fan_league::user_manager::UserManager;

fn boot() -> (Store, GameShowManager) {
    let mut store = Store::new();
    let _users = UserManager::create(&mut store);
    let shows = GameShowManager::create(&mut store);
    (store, shows)
}

#[test]
fn posting_a_season_lists_it_with_its_id() {
    let (mut store, shows) = boot();
    shows
        .add_gameshow_and_refresh(
            &mut store,
            &GameShow { id: None, name: "Season 47".to_string() },
        )
        .unwrap();
    let listed = shows.collect_gameshows(&store).unwrap();
    assert!(listed
        .iter()
        .any(|g| g.id == Some(1) && g.name == "Season 47"));
}

#[test]
fn enrolling_a_contestant_shows_them_on_the_season() {
    let (mut store, shows) = boot();
    shows
        .add_gameshow_and_refresh(
            &mut store,
            &GameShow { id: None, name: "Season 47".to_string() },
        )
        .unwrap();
    // POST /api/contestants {"name":"Alex"}: the handler creates the row and
    // answers with the selected record, which carries the assigned id
    let alex = handlers::create_contestant(
        &shows,
        &mut store,
        &Contestant {
            id: None,
            name: "Alex".to_string(),
            id_showseason: None,
            nickname: None,
            round_number: -1,
            was_medically_evacuated: false,
        },
    )
    .unwrap();
    let alex_id = alex.id.unwrap();
    // POST /api/contestants/enroll
    handlers::enroll_contestant(
        &shows,
        &mut store,
        &Contestant {
            id: Some(alex_id),
            name: "Alex".to_string(),
            id_showseason: Some(1),
            nickname: Some("Ace".to_string()),
            round_number: -1,
            was_medically_evacuated: false,
        },
    )
    .unwrap();
    let on_show = shows.fetch_contestants_on_show(&store, 1).unwrap();
    assert!(on_show.iter().any(|c| {
        c.id == Some(alex_id) && c.name == "Alex" && c.nickname == Some("Ace".to_string())
            && c.round_number == -1 && !c.was_medically_evacuated
    }));
}

#[test]
fn a_league_appears_for_its_season_and_vanishes_on_delete() {
    let (mut store, shows) = boot();
    shows
        .add_gameshow_and_refresh(
            &mut store,
            &GameShow { id: None, name: "Season 47".to_string() },
        )
        .unwrap();
    shows
        .create_league(
            &mut store,
            &League { id: None, name: "Office Pool".to_string(), id_showseason: Some(1) },
        )
        .unwrap();
    let listed = shows.collect_leagues(&store, 1).unwrap();
    assert!(listed
        .iter()
        .any(|l| l.id == Some(1) && l.name == "Office Pool" && l.id_showseason == Some(1)));
    let league_id = listed[0].id.unwrap();
    // DELETE /api/leagues/{league}/show/{season} answers with the refreshed list
    let refreshed = handlers::delete_league(&shows, &mut store, league_id, 1).unwrap();
    assert!(refreshed.iter().all(|l| l.id != Some(league_id)));
    assert_eq!(refreshed.len(), 0);
}

#[test]
fn the_creation_handler_answers_with_the_selected_row() {
    let (mut store, shows) = boot();
    let created = handlers::create_contestant(
        &shows,
        &mut store,
        &Contestant {
            id: None,
            name: "Riley".to_string(),
            id_showseason: None,
            nickname: None,
            round_number: -1,
            was_medically_evacuated: false,
        },
    )
    .unwrap();
    assert_eq!(created.id, Some(1));
    assert_eq!(created.name, "Riley");
    // a second creation of the same name makes the lookup ambiguous
    let again = handlers::create_contestant(
        &shows,
        &mut store,
        &Contestant {
            id: None,
            name: "Riley".to_string(),
            id_showseason: None,
            nickname: None,
            round_number: -1,
            was_medically_evacuated: false,
        },
    );
    assert_eq!(again, Err(StoreError::Ambiguous));
}

#[test]
fn preflight_probes_answer_their_fixed_statuses() {
    assert_eq!(handlers::gameshow_preflight(), 204);
    assert_eq!(handlers::gameshow_preflight_for_delete(7), 204);
    assert_eq!(handlers::create_contestant_preflight(), Ok(()));
    assert_eq!(handlers::delete_contestant_preflight("Alex"), Ok(()));
}
