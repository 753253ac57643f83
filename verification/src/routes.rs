//! The request paths the client builds, byte for byte: each function returns
//! the exact URL its endpoint expects, against a caller-supplied base such
//! as the service's address with its `/api` prefix.

use vstd::prelude::*;
use vstd::string::StringSliceAdditionalSpecFns;

use crate::text::{append_i32, append_str, spec_i32_text};

verus! {

/// `GET`/`POST /users`.
pub fn users_url(base: &str) -> (r: Vec<u8>)
    ensures
        r@ == base.spec_bytes() + "/users".spec_bytes(),
{
    let mut out: Vec<u8> = Vec::new();
    append_str(&mut out, base);
    append_str(&mut out, "/users");
    out
}

/// `PUT`/`DELETE /users/{id}`.
pub fn user_url(base: &str, id: i32) -> (r: Vec<u8>)
    ensures
        r@ == base.spec_bytes() + "/users/".spec_bytes() + spec_i32_text(id as int),
{
    let mut out: Vec<u8> = Vec::new();
    append_str(&mut out, base);
    append_str(&mut out, "/users/");
    append_i32(&mut out, id);
    out
}

/// `GET`/`POST /gameshows`.
pub fn gameshows_url(base: &str) -> (r: Vec<u8>)
    ensures
        r@ == base.spec_bytes() + "/gameshows".spec_bytes(),
{
    let mut out: Vec<u8> = Vec::new();
    append_str(&mut out, base);
    append_str(&mut out, "/gameshows");
    out
}

/// `DELETE /gameshows/{id}`.
pub fn gameshow_url(base: &str, id: i32) -> (r: Vec<u8>)
    ensures
        r@ == base.spec_bytes() + "/gameshows/".spec_bytes() + spec_i32_text(id as int),
{
    let mut out: Vec<u8> = Vec::new();
    append_str(&mut out, base);
    append_str(&mut out, "/gameshows/");
    append_i32(&mut out, id);
    out
}

/// `GET`/`POST /contestants`.
pub fn contestants_url(base: &str) -> (r: Vec<u8>)
    ensures
        r@ == base.spec_bytes() + "/contestants".spec_bytes(),
{
    let mut out: Vec<u8> = Vec::new();
    append_str(&mut out, base);
    append_str(&mut out, "/contestants");
    out
}

/// `GET /contestants/select?name={name}`; the name rides in the query
/// string exactly as typed.
pub fn contestant_select_url(base: &str, name: &str) -> (r: Vec<u8>)
    ensures
        r@ == base.spec_bytes() + "/contestants/select?name=".spec_bytes() + name.spec_bytes(),
{
    let mut out: Vec<u8> = Vec::new();
    append_str(&mut out, base);
    append_str(&mut out, "/contestants/select?name=");
    append_str(&mut out, name);
    out
}

/// `DELETE /contestants/{name}`.
pub fn contestant_url(base: &str, name: &str) -> (r: Vec<u8>)
    ensures
        r@ == base.spec_bytes() + "/contestants/".spec_bytes() + name.spec_bytes(),
{
    let mut out: Vec<u8> = Vec::new();
    append_str(&mut out, base);
    append_str(&mut out, "/contestants/");
    append_str(&mut out, name);
    out
}

/// `GET /contestants/on_show?game_show_id={id}`.
pub fn contestants_on_show_url(base: &str, game_show_id: i32) -> (r: Vec<u8>)
    ensures
        r@ == base.spec_bytes() + "/contestants/on_show?game_show_id=".spec_bytes()
            + spec_i32_text(game_show_id as int),
{
    let mut out: Vec<u8> = Vec::new();
    append_str(&mut out, base);
    append_str(&mut out, "/contestants/on_show?game_show_id=");
    append_i32(&mut out, game_show_id);
    out
}

/// `POST /contestants/enroll`.
pub fn contestant_enroll_url(base: &str) -> (r: Vec<u8>)
    ensures
        r@ == base.spec_bytes() + "/contestants/enroll".spec_bytes(),
{
    let mut out: Vec<u8> = Vec::new();
    append_str(&mut out, base);
    append_str(&mut out, "/contestants/enroll");
    out
}

/// `POST /contestants/elim`.
pub fn contestant_elim_url(base: &str) -> (r: Vec<u8>)
    ensures
        r@ == base.spec_bytes() + "/contestants/elim".spec_bytes(),
{
    let mut out: Vec<u8> = Vec::new();
    append_str(&mut out, base);
    append_str(&mut out, "/contestants/elim");
    out
}

/// `POST /contestants/medevac`.
pub fn contestant_medevac_url(base: &str) -> (r: Vec<u8>)
    ensures
        r@ == base.spec_bytes() + "/contestants/medevac".spec_bytes(),
{
    let mut out: Vec<u8> = Vec::new();
    append_str(&mut out, base);
    append_str(&mut out, "/contestants/medevac");
    out
}

/// `POST /leagues`.
pub fn leagues_url(base: &str) -> (r: Vec<u8>)
    ensures
        r@ == base.spec_bytes() + "/leagues".spec_bytes(),
{
    let mut out: Vec<u8> = Vec::new();
    append_str(&mut out, base);
    append_str(&mut out, "/leagues");
    out
}

/// `GET /leagues/from_season?id_showseason={id}`.
pub fn leagues_from_season_url(base: &str, id_showseason: i32) -> (r: Vec<u8>)
    ensures
        r@ == base.spec_bytes() + "/leagues/from_season?id_showseason=".spec_bytes()
            + spec_i32_text(id_showseason as int),
{
    let mut out: Vec<u8> = Vec::new();
    append_str(&mut out, base);
    append_str(&mut out, "/leagues/from_season?id_showseason=");
    append_i32(&mut out, id_showseason);
    out
}

/// `DELETE /leagues/{id}`.
pub fn league_url(base: &str, id: i32) -> (r: Vec<u8>)
    ensures
        r@ == base.spec_bytes() + "/leagues/".spec_bytes() + spec_i32_text(id as int),
{
    let mut out: Vec<u8> = Vec::new();
    append_str(&mut out, base);
    append_str(&mut out, "/leagues/");
    append_i32(&mut out, id);
    out
}

/// `POST`/`DELETE /leagues?user_id={user}&league_id={league}`: entering a
/// player into a league or removing one.
pub fn league_membership_url(base: &str, user_id: i32, league_id: i32) -> (r: Vec<u8>)
    ensures
        r@ == base.spec_bytes() + "/leagues?user_id=".spec_bytes() + spec_i32_text(user_id as int)
            + "&league_id=".spec_bytes() + spec_i32_text(league_id as int),
{
    let mut out: Vec<u8> = Vec::new();
    append_str(&mut out, base);
    append_str(&mut out, "/leagues?user_id=");
    append_i32(&mut out, user_id);
    append_str(&mut out, "&league_id=");
    append_i32(&mut out, league_id);
    out
}

/// The exact pick-submission URL, as a specification the client's loop is
/// held to.
pub open spec fn spec_set_pick_url(
    base: Seq<u8>,
    user_id: int,
    league_id: int,
    round_number: int,
    contestant_id: int,
    rank_pick: int,
) -> Seq<u8> {
    base + "/leagues/set_pick?user_id=".spec_bytes() + spec_i32_text(user_id)
        + "&league_id=".spec_bytes() + spec_i32_text(league_id) + "&round_number=".spec_bytes()
        + spec_i32_text(round_number) + "&contestant_id=".spec_bytes() + spec_i32_text(
        contestant_id,
    ) + "&rank_pick=".spec_bytes() + spec_i32_text(rank_pick)
}

/// `POST /leagues/set_pick?...`: one ranked pick for one contestant in one
/// round of one league.
pub fn set_pick_url(
    base: &str,
    user_id: i32,
    league_id: i32,
    round_number: i32,
    contestant_id: i32,
    rank_pick: i32,
) -> (r: Vec<u8>)
    ensures
        r@ == spec_set_pick_url(
            base.spec_bytes(),
            user_id as int,
            league_id as int,
            round_number as int,
            contestant_id as int,
            rank_pick as int,
        ),
{
    let mut out: Vec<u8> = Vec::new();
    append_str(&mut out, base);
    append_str(&mut out, "/leagues/set_pick?user_id=");
    append_i32(&mut out, user_id);
    append_str(&mut out, "&league_id=");
    append_i32(&mut out, league_id);
    append_str(&mut out, "&round_number=");
    append_i32(&mut out, round_number);
    append_str(&mut out, "&contestant_id=");
    append_i32(&mut out, contestant_id);
    append_str(&mut out, "&rank_pick=");
    append_i32(&mut out, rank_pick);
    out
}

} // verus!
