use fan_league::codec;
use fan_league::portal::ContestantState;
use fan_league::routes;

fn text(bytes: Vec<u8>) -> String {
    String::from_utf8(bytes).unwrap()
}

const BASE: &str = "http://127.0.0.1:8000/api";

#[test]
fn urls_match_the_endpoints() {
    assert_eq!(text(routes::users_url(BASE)), "http://127.0.0.1:8000/api/users");
    assert_eq!(text(routes::user_url(BASE, 12)), "http://127.0.0.1:8000/api/users/12");
    assert_eq!(text(routes::gameshows_url(BASE)), "http://127.0.0.1:8000/api/gameshows");
    assert_eq!(text(routes::gameshow_url(BASE, 3)), "http://127.0.0.1:8000/api/gameshows/3");
    assert_eq!(text(routes::contestants_url(BASE)), "http://127.0.0.1:8000/api/contestants");
    assert_eq!(
        text(routes::contestant_select_url(BASE, "Alex")),
        "http://127.0.0.1:8000/api/contestants/select?name=Alex"
    );
    assert_eq!(
        text(routes::contestant_url(BASE, "Alex")),
        "http://127.0.0.1:8000/api/contestants/Alex"
    );
    assert_eq!(
        text(routes::contestants_on_show_url(BASE, 1)),
        "http://127.0.0.1:8000/api/contestants/on_show?game_show_id=1"
    );
    assert_eq!(
        text(routes::contestant_enroll_url(BASE)),
        "http://127.0.0.1:8000/api/contestants/enroll"
    );
    assert_eq!(
        text(routes::contestant_elim_url(BASE)),
        "http://127.0.0.1:8000/api/contestants/elim"
    );
    assert_eq!(
        text(routes::contestant_medevac_url(BASE)),
        "http://127.0.0.1:8000/api/contestants/medevac"
    );
    assert_eq!(text(routes::leagues_url(BASE)), "http://127.0.0.1:8000/api/leagues");
    assert_eq!(
        text(routes::leagues_from_season_url(BASE, 4)),
        "http://127.0.0.1:8000/api/leagues/from_season?id_showseason=4"
    );
    assert_eq!(text(routes::league_url(BASE, 9)), "http://127.0.0.1:8000/api/leagues/9");
    assert_eq!(
        text(routes::league_membership_url(BASE, 2, 5)),
        "http://127.0.0.1:8000/api/leagues?user_id=2&league_id=5"
    );
    assert_eq!(
        text(routes::set_pick_url(BASE, 1, 2, 3, 4, 5)),
        "http://127.0.0.1:8000/api/leagues/set_pick?user_id=1&league_id=2&round_number=3&contestant_id=4&rank_pick=5"
    );
}

#[test]
fn decimal_rendering_covers_the_edges() {
    assert_eq!(text(routes::user_url("", 0)), "/users/0");
    assert_eq!(text(routes::user_url("", -1)), "/users/-1");
    assert_eq!(text(routes::user_url("", 2147483647)), "/users/2147483647");
    assert_eq!(text(routes::user_url("", -2147483648)), "/users/-2147483648");
    assert_eq!(text(routes::user_url("", 1000)), "/users/1000");
}

#[test]
fn user_body_sorts_its_keys() {
    assert_eq!(
        text(codec::user_body("Jo", "jo@example.com", "Developer")),
        "{\"account_type\":\"Developer\",\"email\":\"jo@example.com\",\"name\":\"Jo\"}"
    );
}

#[test]
fn update_user_body_is_the_tuple_as_an_array() {
    assert_eq!(
        text(codec::update_user_body(4, "Jo", "jo@example.com", "Admin")),
        "[4,\"Jo\",\"jo@example.com\",\"Admin\"]"
    );
}

#[test]
fn gameshow_and_league_bodies() {
    assert_eq!(text(codec::gameshow_body("Season 47")), "{\"name\":\"Season 47\"}");
    assert_eq!(
        text(codec::league_body("Office Pool", 3)),
        "{\"id_showseason\":3,\"name\":\"Office Pool\"}"
    );
}

#[test]
fn contestant_create_body_renders_absent_fields_as_null() {
    assert_eq!(
        text(codec::contestant_create_body("Alex", Some(-1), Some(false))),
        "{\"name\":\"Alex\",\"round_number\":-1,\"was_medically_evacuated\":false}"
    );
    assert_eq!(
        text(codec::contestant_create_body("Alex", None, None)),
        "{\"name\":\"Alex\",\"round_number\":null,\"was_medically_evacuated\":null}"
    );
}

#[test]
fn strings_are_escaped_as_a_json_encoder_escapes_them() {
    assert_eq!(
        text(codec::gameshow_body("say \"hi\"")),
        "{\"name\":\"say \\\"hi\\\"\"}"
    );
    assert_eq!(text(codec::gameshow_body("a\\b")), "{\"name\":\"a\\\\b\"}");
    assert_eq!(
        text(codec::gameshow_body("line\nbreak\ttab")),
        "{\"name\":\"line\\nbreak\\ttab\"}"
    );
    assert_eq!(text(codec::gameshow_body("\u{1}")), "{\"name\":\"\\u0001\"}");
    assert_eq!(text(codec::gameshow_body("\u{1f}")), "{\"name\":\"\\u001f\"}");
    assert_eq!(text(codec::gameshow_body("café")), "{\"name\":\"café\"}");
}

#[test]
fn contestant_state_renders_its_log_line() {
    let state = ContestantState::new(Some(5), "Alex".to_string(), None);
    assert_eq!(
        text(state.to_string()),
        "ContestantState { id: Some(5), name: Alex, id_showseason: None }, round_#: [-1], Medical[: false]"
    );
    let blank = ContestantState {
        name: "Riley".to_string(),
        id: None,
        id_showseason: Some(2),
        round_number: None,
        was_medically_evacuated: None,
    };
    assert_eq!(
        text(blank.to_string()),
        "ContestantState { id: None, name: Riley, id_showseason: Some(2) }, round_#: [0], Medical[: false]"
    );
}

#[test]
fn contestant_state_converts_to_its_json_record() {
    let state = ContestantState::new(Some(5), "Alex".to_string(), Some(1));
    assert_eq!(
        text(state.convert_to_json()),
        "{\"id\":5,\"id_showseason\":1,\"name\":\"Alex\",\"round_number\":-1,\"was_medically_evacuated\":false}"
    );
    let blank = ContestantState {
        name: "Riley".to_string(),
        id: None,
        id_showseason: None,
        round_number: None,
        was_medically_evacuated: None,
    };
    assert_eq!(
        text(blank.convert_to_json()),
        "{\"id\":null,\"id_showseason\":null,\"name\":\"Riley\",\"round_number\":0,\"was_medically_evacuated\":false}"
    );
}
