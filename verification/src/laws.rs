//! Laws the store obeys, stated over [`StoreModel`] and proved once and for
//! all: creation shows up in the following list, deletion leaves no trace and
//! no orphan, the startup schema is idempotent, the pick upsert keeps exactly
//! one row per key, and a medevac always carries its elimination round.

use vstd::prelude::*;

use crate::records::{ContestantV, GameShowV, LeagueV, UserV};
use crate::store::{has_game_show, has_league, has_user, lemma_without_contestants_named_wf,
    lemma_without_game_show_wf, lemma_without_league_wf, lemma_without_user_wf, spec_contestant_of,
    spec_game_show_of, spec_league_of, spec_user_of, ContestantR, EnrollmentR, GameShowR, LeagueR,
    PickR, StoreModel, UserR};

verus! {

broadcast use vstd::seq_lib::group_filter_ensures;

// ---------------------------------------------------------------------------
// Creation followed by listing includes the record
// ---------------------------------------------------------------------------

/// Inserting a user appends one row, and the list returns it with the
/// identifier the store assigned and the fields that were sent.
pub proof fn lemma_create_user_then_list_includes(
    m: StoreModel,
    name: Seq<char>,
    email: Seq<char>,
    account_type: Seq<char>,
)
    ensures
        m.with_user(name, email, account_type).users.len() == m.users.len() + 1,
        spec_user_of(m.with_user(name, email, account_type).users.last()) == (UserV {
            id: Some(m.next_user_id),
            name,
            email,
            account_type,
        }),
{
    assert(spec_user_of(m.with_user(name, email, account_type).users.last()) =~= (UserV {
        id: Some(m.next_user_id),
        name,
        email,
        account_type,
    }));
}

/// Inserting a season appends one row, and the list returns it with the
/// identifier the store assigned and the name that was sent.
pub proof fn lemma_create_gameshow_then_list_includes(m: StoreModel, name: Seq<char>)
    ensures
        m.with_game_show(name).game_shows.len() == m.game_shows.len() + 1,
        spec_game_show_of(m.with_game_show(name).game_shows.last()) == (GameShowV {
            id: Some(m.next_game_show_id),
            name,
        }),
{
    assert(spec_game_show_of(m.with_game_show(name).game_shows.last()) =~= (GameShowV {
        id: Some(m.next_game_show_id),
        name,
    }));
}

/// Inserting a contestant appends one row, and the list returns it with the
/// identifier the store assigned and the enrollment fields at their defaults.
pub proof fn lemma_create_contestant_then_list_includes(m: StoreModel, name: Seq<char>)
    ensures
        m.with_contestant(name).contestants.len() == m.contestants.len() + 1,
        spec_contestant_of(m.with_contestant(name).contestants.last()) == (ContestantV {
            id: Some(m.next_contestant_id),
            name,
            id_showseason: None,
            nickname: None,
            round_number: -1,
            was_medically_evacuated: false,
        }),
{
    assert(spec_contestant_of(m.with_contestant(name).contestants.last()) =~= (ContestantV {
        id: Some(m.next_contestant_id),
        name,
        id_showseason: None,
        nickname: None,
        round_number: -1,
        was_medically_evacuated: false,
    }));
}

/// Inserting a league appends one row, and the season's league list returns
/// it with the identifier the store assigned.
pub proof fn lemma_create_league_then_list_includes(
    m: StoreModel,
    name: Seq<char>,
    id_showseason: Option<int>,
)
    ensures
        m.with_league(name, id_showseason).leagues.len() == m.leagues.len() + 1,
        spec_league_of(m.with_league(name, id_showseason).leagues.last()) == (LeagueV {
            id: Some(m.next_league_id),
            name,
            id_showseason,
        }),
{
    assert(spec_league_of(m.with_league(name, id_showseason).leagues.last()) =~= (LeagueV {
        id: Some(m.next_league_id),
        name,
        id_showseason,
    }));
}

// ---------------------------------------------------------------------------
// Deletion followed by listing excludes the row
// ---------------------------------------------------------------------------
//
// Deleting an identifier that matches nothing is not an error: each delete
// operation's contract promises success whenever its table exists, whatever
// the identifier.

/// After deleting a season, no listed row carries its identifier.
pub proof fn lemma_delete_gameshow_then_list_excludes(m: StoreModel, id: int)
    ensures
        !has_game_show(m.without_game_show(id).game_shows, id),
{
    let gpred = |g: GameShowR| g.id != id;
    if has_game_show(m.without_game_show(id).game_shows, id) {
        let i = choose|i: int|
            0 <= i < m.without_game_show(id).game_shows.len() && (#[trigger] m.without_game_show(
                id,
            ).game_shows[i]).id == id;
        assert(gpred(m.game_shows.filter(gpred)[i]));
    }
}

/// After deleting a user, no listed row carries its identifier.
pub proof fn lemma_delete_user_then_list_excludes(m: StoreModel, id: int)
    ensures
        !has_user(m.without_user(id).users, id),
{
    let upred = |u: UserR| u.id != id;
    if has_user(m.without_user(id).users, id) {
        let i = choose|i: int|
            0 <= i < m.without_user(id).users.len() && (#[trigger] m.without_user(id).users[i]).id
                == id;
        assert(upred(m.users.filter(upred)[i]));
    }
}

/// After deleting a league, no listed row carries its identifier.
pub proof fn lemma_delete_league_then_list_excludes(m: StoreModel, id: int)
    ensures
        !has_league(m.without_league(id).leagues, id),
{
    let lpred = |l: LeagueR| l.id != id;
    if has_league(m.without_league(id).leagues, id) {
        let i = choose|i: int|
            0 <= i < m.without_league(id).leagues.len() && (#[trigger] m.without_league(
                id,
            ).leagues[i]).id == id;
        assert(lpred(m.leagues.filter(lpred)[i]));
    }
}

/// After deleting a contestant name, no listed row carries it.
pub proof fn lemma_delete_contestant_then_list_excludes(m: StoreModel, name: Seq<char>)
    ensures
        forall|i: int|
            0 <= i < m.without_contestants_named(name).contestants.len() ==> (
            #[trigger] m.without_contestants_named(name).contestants[i]).name != name,
{
    let cpred = |c: ContestantR| c.name != name;
    assert forall|i: int|
        0 <= i < m.without_contestants_named(name).contestants.len() implies (
    #[trigger] m.without_contestants_named(name).contestants[i]).name != name by {
        assert(cpred(m.contestants.filter(cpred)[i]));
    }
}

// ---------------------------------------------------------------------------
// Lists come back in insertion order
// ---------------------------------------------------------------------------

/// Every list query returns rows in insertion order: identifiers are
/// assigned by an ascending sequence, so in a well-formed store they ascend
/// with position in every table.
pub proof fn lemma_lists_insertion_ordered(m: StoreModel)
    requires
        m.wf(),
    ensures
        forall|i: int, j: int|
            0 <= i < j < m.users.len() ==> (#[trigger] m.users[i]).id < (#[trigger] m.users[j]).id,
        forall|i: int, j: int|
            0 <= i < j < m.game_shows.len() ==> (#[trigger] m.game_shows[i]).id < (
            #[trigger] m.game_shows[j]).id,
        forall|i: int, j: int|
            0 <= i < j < m.contestants.len() ==> (#[trigger] m.contestants[i]).id < (
            #[trigger] m.contestants[j]).id,
        forall|i: int, j: int|
            0 <= i < j < m.leagues.len() ==> (#[trigger] m.leagues[i]).id < (
            #[trigger] m.leagues[j]).id,
{
    let usorted = |a: UserR, b: UserR| a.id < b.id;
    assert forall|i: int, j: int|
        0 <= i < j < m.users.len() implies (#[trigger] m.users[i]).id < (
    #[trigger] m.users[j]).id by {
        assert(usorted(m.users[i], m.users[j]));
    }
    let gsorted = |a: GameShowR, b: GameShowR| a.id < b.id;
    assert forall|i: int, j: int|
        0 <= i < j < m.game_shows.len() implies (#[trigger] m.game_shows[i]).id < (
    #[trigger] m.game_shows[j]).id by {
        assert(gsorted(m.game_shows[i], m.game_shows[j]));
    }
    let csorted = |a: ContestantR, b: ContestantR| a.id < b.id;
    assert forall|i: int, j: int|
        0 <= i < j < m.contestants.len() implies (#[trigger] m.contestants[i]).id < (
    #[trigger] m.contestants[j]).id by {
        assert(csorted(m.contestants[i], m.contestants[j]));
    }
    let lsorted = |a: LeagueR, b: LeagueR| a.id < b.id;
    assert forall|i: int, j: int|
        0 <= i < j < m.leagues.len() implies (#[trigger] m.leagues[i]).id < (
    #[trigger] m.leagues[j]).id by {
        assert(lsorted(m.leagues[i], m.leagues[j]));
    }
}

// ---------------------------------------------------------------------------
// Startup is idempotent
// ---------------------------------------------------------------------------

/// The full startup sequence: the tables both repositories lay out. Creating
/// them cannot fail in the model, and running the sequence a second time —
/// a second process start against the same store — changes nothing and keeps
/// every row and identifier counter.
pub open spec fn spec_startup(m: StoreModel) -> StoreModel {
    m.with_user_schema().with_show_and_league_schema()
}

/// `CREATE TABLE IF NOT EXISTS` twice equals once, and touches no data.
pub proof fn lemma_startup_idempotent(m: StoreModel)
    ensures
        spec_startup(spec_startup(m)) == spec_startup(m),
        spec_startup(m).users == m.users,
        spec_startup(m).game_shows == m.game_shows,
        spec_startup(m).contestants == m.contestants,
        spec_startup(m).enrollments == m.enrollments,
        spec_startup(m).leagues == m.leagues,
        spec_startup(m).members == m.members,
        spec_startup(m).picks == m.picks,
        spec_startup(m).next_user_id == m.next_user_id,
        spec_startup(m).next_game_show_id == m.next_game_show_id,
        spec_startup(m).next_contestant_id == m.next_contestant_id,
        spec_startup(m).next_league_id == m.next_league_id,
        spec_startup(m).next_member_id == m.next_member_id,
        spec_startup(m).next_pick_id == m.next_pick_id,
{
    assert(spec_startup(spec_startup(m)) =~= spec_startup(m));
}

// ---------------------------------------------------------------------------
// The pick upsert keeps one row per key, holding the latest rank
// ---------------------------------------------------------------------------

/// A pick row matches the upsert key.
pub open spec fn pick_key_match(
    p: PickR,
    league_id: int,
    user_id: int,
    round_number: int,
    contestant_id: int,
) -> bool {
    p.league_id == league_id && p.user_id == user_id && p.round_number == round_number
        && p.contestant_id == contestant_id
}

/// Setting the same key twice with different ranks equals setting it once
/// with the latest rank, and afterwards exactly one row carries the key —
/// with that rank.
pub proof fn lemma_pick_upsert_latest_wins(
    m: StoreModel,
    league_id: int,
    user_id: int,
    round_number: int,
    contestant_id: int,
    first_rank: int,
    latest_rank: int,
)
    requires
        m.wf(),
    ensures
        m.with_pick(league_id, user_id, round_number, contestant_id, first_rank).with_pick(
            league_id,
            user_id,
            round_number,
            contestant_id,
            latest_rank,
        ) == m.with_pick(league_id, user_id, round_number, contestant_id, latest_rank),
        ({
            let m2 = m.with_pick(league_id, user_id, round_number, contestant_id, latest_rank);
            exists|i: int|
                {
                    &&& 0 <= i < m2.picks.len()
                    &&& pick_key_match(
                        #[trigger] m2.picks[i],
                        league_id,
                        user_id,
                        round_number,
                        contestant_id,
                    )
                    &&& m2.picks[i].rank_pick == latest_rank
                    &&& forall|j: int|
                        0 <= j < m2.picks.len() && j != i ==> !pick_key_match(
                            #[trigger] m2.picks[j],
                            league_id,
                            user_id,
                            round_number,
                            contestant_id,
                        )
                }
        }),
{
    let upd1 = |p: PickR|
        if p.league_id == league_id && p.user_id == user_id && p.round_number == round_number
            && p.contestant_id == contestant_id {
            PickR { rank_pick: first_rank, ..p }
        } else {
            p
        };
    let upd2 = |p: PickR|
        if p.league_id == league_id && p.user_id == user_id && p.round_number == round_number
            && p.contestant_id == contestant_id {
            PickR { rank_pick: latest_rank, ..p }
        } else {
            p
        };
    let keys = |a: PickR, b: PickR| crate::store::distinct_pick_keys(a, b);
    let m2 = m.with_pick(league_id, user_id, round_number, contestant_id, latest_rank);
    if crate::store::has_pick(m.picks, league_id, user_id, round_number, contestant_id) {
        let m1 = m.with_pick(league_id, user_id, round_number, contestant_id, first_rank);
        let w = choose|w: int|
            0 <= w < m.picks.len() && pick_key_match(
                #[trigger] m.picks[w],
                league_id,
                user_id,
                round_number,
                contestant_id,
            );
        assert(m1.picks[w].league_id == league_id);
        assert(crate::store::has_pick(m1.picks, league_id, user_id, round_number, contestant_id));
        assert(m1.with_pick(league_id, user_id, round_number, contestant_id, latest_rank).picks
            =~= m2.picks);
        assert(m1.with_pick(league_id, user_id, round_number, contestant_id, latest_rank) =~= m2);
        assert(pick_key_match(m2.picks[w], league_id, user_id, round_number, contestant_id));
        assert(m2.picks[w].rank_pick == latest_rank);
        assert forall|j: int| 0 <= j < m2.picks.len() && j != w implies !pick_key_match(
            #[trigger] m2.picks[j],
            league_id,
            user_id,
            round_number,
            contestant_id,
        ) by {
            if pick_key_match(m2.picks[j], league_id, user_id, round_number, contestant_id) {
                assert(pick_key_match(m.picks[j], league_id, user_id, round_number, contestant_id));
                if j < w {
                    assert(keys(m.picks[j], m.picks[w]));
                } else {
                    assert(keys(m.picks[w], m.picks[j]));
                }
            }
        }
    } else {
        let m1 = m.with_pick(league_id, user_id, round_number, contestant_id, first_rank);
        let n = m.picks.len() as int;
        assert(m1.picks[n].league_id == league_id);
        assert(crate::store::has_pick(m1.picks, league_id, user_id, round_number, contestant_id));
        assert forall|j: int| 0 <= j < m.picks.len() implies !pick_key_match(
            #[trigger] m.picks[j],
            league_id,
            user_id,
            round_number,
            contestant_id,
        ) by {}
        assert(m1.with_pick(league_id, user_id, round_number, contestant_id, latest_rank).picks
            =~= m2.picks);
        assert(m1.with_pick(league_id, user_id, round_number, contestant_id, latest_rank) =~= m2);
        assert(pick_key_match(m2.picks[n], league_id, user_id, round_number, contestant_id));
        assert(m2.picks[n].rank_pick == latest_rank);
        assert forall|j: int| 0 <= j < m2.picks.len() && j != n implies !pick_key_match(
            #[trigger] m2.picks[j],
            league_id,
            user_id,
            round_number,
            contestant_id,
        ) by {
            assert(m2.picks[j] == m.picks[j]);
        }
    }
}

// ---------------------------------------------------------------------------
// Cascades leave no junction row and no orphan
// ---------------------------------------------------------------------------

/// Deleting a season removes every junction row of that season, and the
/// store stays well-formed: every remaining junction row, membership and
/// pick still references rows that exist.
pub proof fn lemma_delete_show_cascades(m: StoreModel, id: int)
    requires
        m.wf(),
    ensures
        m.without_game_show(id).wf(),
        !has_game_show(m.without_game_show(id).game_shows, id),
        forall|i: int|
            0 <= i < m.without_game_show(id).enrollments.len() ==> (#[trigger] m.without_game_show(
                id,
            ).enrollments[i]).game_show_id != id,
{
    lemma_without_game_show_wf(m, id);
    lemma_delete_gameshow_then_list_excludes(m, id);
    let epred = |e: EnrollmentR| e.game_show_id != id;
    assert forall|i: int|
        0 <= i < m.without_game_show(id).enrollments.len() implies (#[trigger] m.without_game_show(
        id,
    ).enrollments[i]).game_show_id != id by {
        assert(epred(m.enrollments.filter(epred)[i]));
    }
}

/// Deleting a contestant name removes every junction row and pick of every
/// contestant that carried it, and the store stays well-formed.
pub proof fn lemma_delete_contestant_cascades(m: StoreModel, name: Seq<char>)
    requires
        m.wf(),
    ensures
        m.without_contestants_named(name).wf(),
        forall|i: int|
            0 <= i < m.without_contestants_named(name).enrollments.len() ==> !m.contestant_named(
                (#[trigger] m.without_contestants_named(name).enrollments[i]).contestant_id,
                name,
            ),
        forall|i: int|
            0 <= i < m.without_contestants_named(name).picks.len() ==> !m.contestant_named(
                (#[trigger] m.without_contestants_named(name).picks[i]).contestant_id,
                name,
            ),
{
    lemma_without_contestants_named_wf(m, name);
    let epred = |e: EnrollmentR| !m.contestant_named(e.contestant_id, name);
    let ppred = |p: PickR| !m.contestant_named(p.contestant_id, name);
    assert forall|i: int|
        0 <= i < m.without_contestants_named(name).enrollments.len() implies !m.contestant_named(
        (#[trigger] m.without_contestants_named(name).enrollments[i]).contestant_id,
        name,
    ) by {
        assert(epred(m.enrollments.filter(epred)[i]));
    }
    assert forall|i: int|
        0 <= i < m.without_contestants_named(name).picks.len() implies !m.contestant_named(
        (#[trigger] m.without_contestants_named(name).picks[i]).contestant_id,
        name,
    ) by {
        assert(ppred(m.picks.filter(ppred)[i]));
    }
}

/// Deleting a user cascades to memberships and picks, well-formedness kept.
pub proof fn lemma_delete_user_cascades(m: StoreModel, id: int)
    requires
        m.wf(),
    ensures
        m.without_user(id).wf(),
        !has_user(m.without_user(id).users, id),
{
    lemma_without_user_wf(m, id);
    lemma_delete_user_then_list_excludes(m, id);
}

/// Deleting a league cascades to memberships and picks, well-formedness kept.
pub proof fn lemma_delete_league_cascades(m: StoreModel, id: int)
    requires
        m.wf(),
    ensures
        m.without_league(id).wf(),
        !has_league(m.without_league(id).leagues, id),
{
    lemma_without_league_wf(m, id);
    lemma_delete_league_then_list_excludes(m, id);
}

// ---------------------------------------------------------------------------
// A medevac never precedes its elimination
// ---------------------------------------------------------------------------

/// What the manager's medevac sequence does on success: every junction row
/// of the pairing carries the elimination round of the same call and the
/// medevac flag; every other row is untouched. The other half of the
/// ordering law — that a refused elimination stops the sequence with the
/// store unchanged — is the manager's contract itself, which returns the
/// elimination's error without touching the flag.
pub proof fn lemma_medevac_records_elimination(
    m: StoreModel,
    contestant_id: int,
    game_show_id: int,
    round: int,
)
    ensures
        ({
            let m2 = m.with_elimination(contestant_id, game_show_id, round).with_medevac(
                contestant_id,
                game_show_id,
            );
            &&& m2.enrollments.len() == m.enrollments.len()
            &&& forall|i: int|
                0 <= i < m2.enrollments.len() && (#[trigger] m2.enrollments[i]).contestant_id
                    == contestant_id && m2.enrollments[i].game_show_id == game_show_id
                    ==> m2.enrollments[i].was_medically_evacuated && m2.enrollments[
                    i
                ].eliminated_on_round == round
            &&& forall|i: int|
                0 <= i < m2.enrollments.len() && !((#[trigger] m2.enrollments[i]).contestant_id
                    == contestant_id && m2.enrollments[i].game_show_id == game_show_id)
                    ==> m2.enrollments[i] == m.enrollments[i]
        }),
{
}

} // verus!
