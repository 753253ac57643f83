//! The relational store behind the service, modelled exactly: tables are
//! created idempotently, identifiers are assigned by an ascending sequence,
//! inserts enforce uniqueness and foreign-key constraints, deletes cascade to
//! junction rows, and pick submission upserts.
//!
//! [`Store`] holds the rows; [`StoreModel`] is its mathematical view, over
//! which every operation's contract is stated.

use vstd::prelude::*;
use vstd::seq_lib::*;

use crate::records::{Contestant, ContestantV, GameShow, GameShowV, League, LeagueV, StoreError,
    User, UserV};

verus! {

broadcast use vstd::seq_lib::group_filter_ensures;

// ---------------------------------------------------------------------------
// Rows and their views
// ---------------------------------------------------------------------------

/// A row of the `users` table.
pub struct UserRow {
    pub id: i32,
    pub name: String,
    pub email: String,
    pub account_type: String,
}

/// Mathematical view of a [`UserRow`].
#[verifier::ext_equal]
pub ghost struct UserR {
    pub id: int,
    pub name: Seq<char>,
    pub email: Seq<char>,
    pub account_type: Seq<char>,
}

impl View for UserRow {
    type V = UserR;

    open spec fn view(&self) -> UserR {
        UserR {
            id: self.id as int,
            name: self.name@,
            email: self.email@,
            account_type: self.account_type@,
        }
    }
}

/// A row of the `game_shows` table.
pub struct GameShowRow {
    pub id: i32,
    pub name: String,
}

/// Mathematical view of a [`GameShowRow`].
#[verifier::ext_equal]
pub ghost struct GameShowR {
    pub id: int,
    pub name: Seq<char>,
}

impl View for GameShowRow {
    type V = GameShowR;

    open spec fn view(&self) -> GameShowR {
        GameShowR { id: self.id as int, name: self.name@ }
    }
}

/// A row of the `contestants` table.
pub struct ContestantRow {
    pub id: i32,
    pub name: String,
}

/// Mathematical view of a [`ContestantRow`].
#[verifier::ext_equal]
pub ghost struct ContestantR {
    pub id: int,
    pub name: Seq<char>,
}

impl View for ContestantRow {
    type V = ContestantR;

    open spec fn view(&self) -> ContestantR {
        ContestantR { id: self.id as int, name: self.name@ }
    }
}

/// A row of the `game_show_contestants` junction table.
pub struct EnrollmentRow {
    pub contestant_id: i32,
    pub game_show_id: i32,
    pub nickname: String,
    /// `-1` until an elimination is recorded.
    pub eliminated_on_round: i32,
    pub was_medically_evacuated: bool,
}

/// Mathematical view of an [`EnrollmentRow`].
#[verifier::ext_equal]
pub ghost struct EnrollmentR {
    pub contestant_id: int,
    pub game_show_id: int,
    pub nickname: Seq<char>,
    pub eliminated_on_round: int,
    pub was_medically_evacuated: bool,
}

impl View for EnrollmentRow {
    type V = EnrollmentR;

    open spec fn view(&self) -> EnrollmentR {
        EnrollmentR {
            contestant_id: self.contestant_id as int,
            game_show_id: self.game_show_id as int,
            nickname: self.nickname@,
            eliminated_on_round: self.eliminated_on_round as int,
            was_medically_evacuated: self.was_medically_evacuated,
        }
    }
}

/// A row of the `leagues` table.
pub struct LeagueRow {
    pub id: i32,
    pub name: String,
    /// The schema leaves the season column nullable.
    pub id_showseason: Option<i32>,
}

/// Mathematical view of a [`LeagueRow`].
#[verifier::ext_equal]
pub ghost struct LeagueR {
    pub id: int,
    pub name: Seq<char>,
    pub id_showseason: Option<int>,
}

impl View for LeagueRow {
    type V = LeagueR;

    open spec fn view(&self) -> LeagueR {
        LeagueR {
            id: self.id as int,
            name: self.name@,
            id_showseason: crate::records::opt_int(self.id_showseason),
        }
    }
}

/// A row of the `league_members` junction table.
pub struct MemberRow {
    pub id: i32,
    pub league_id: i32,
    pub user_id: i32,
}

/// Mathematical view of a [`MemberRow`].
#[verifier::ext_equal]
pub ghost struct MemberR {
    pub id: int,
    pub league_id: int,
    pub user_id: int,
}

impl View for MemberRow {
    type V = MemberR;

    open spec fn view(&self) -> MemberR {
        MemberR {
            id: self.id as int,
            league_id: self.league_id as int,
            user_id: self.user_id as int,
        }
    }
}

/// A row of the `league_picks` table.
pub struct PickRow {
    pub id: i32,
    pub league_id: i32,
    pub user_id: i32,
    pub round_number: i32,
    pub contestant_id: i32,
    pub rank_pick: i32,
}

/// Mathematical view of a [`PickRow`].
#[verifier::ext_equal]
pub ghost struct PickR {
    pub id: int,
    pub league_id: int,
    pub user_id: int,
    pub round_number: int,
    pub contestant_id: int,
    pub rank_pick: int,
}

impl View for PickRow {
    type V = PickR;

    open spec fn view(&self) -> PickR {
        PickR {
            id: self.id as int,
            league_id: self.league_id as int,
            user_id: self.user_id as int,
            round_number: self.round_number as int,
            contestant_id: self.contestant_id as int,
            rank_pick: self.rank_pick as int,
        }
    }
}

impl Clone for UserRow {
    fn clone(&self) -> (r: Self)
        ensures
            r == *self,
    {
        UserRow {
            id: self.id,
            name: self.name.clone(),
            email: self.email.clone(),
            account_type: self.account_type.clone(),
        }
    }
}

impl Clone for GameShowRow {
    fn clone(&self) -> (r: Self)
        ensures
            r == *self,
    {
        GameShowRow { id: self.id, name: self.name.clone() }
    }
}

impl Clone for ContestantRow {
    fn clone(&self) -> (r: Self)
        ensures
            r == *self,
    {
        ContestantRow { id: self.id, name: self.name.clone() }
    }
}

impl Clone for EnrollmentRow {
    fn clone(&self) -> (r: Self)
        ensures
            r == *self,
    {
        EnrollmentRow {
            contestant_id: self.contestant_id,
            game_show_id: self.game_show_id,
            nickname: self.nickname.clone(),
            eliminated_on_round: self.eliminated_on_round,
            was_medically_evacuated: self.was_medically_evacuated,
        }
    }
}

impl Clone for LeagueRow {
    fn clone(&self) -> (r: Self)
        ensures
            r == *self,
    {
        LeagueRow { id: self.id, name: self.name.clone(), id_showseason: self.id_showseason }
    }
}

impl Clone for MemberRow {
    fn clone(&self) -> (r: Self)
        ensures
            r == *self,
    {
        MemberRow { id: self.id, league_id: self.league_id, user_id: self.user_id }
    }
}

impl Clone for PickRow {
    fn clone(&self) -> (r: Self)
        ensures
            r == *self,
    {
        PickRow {
            id: self.id,
            league_id: self.league_id,
            user_id: self.user_id,
            round_number: self.round_number,
            contestant_id: self.contestant_id,
            rank_pick: self.rank_pick,
        }
    }
}

// ---------------------------------------------------------------------------
// Generic facts about row sequences
// ---------------------------------------------------------------------------

/// Every ordered pair of positions satisfies `r`.
pub open spec fn pairwise<A>(s: Seq<A>, r: spec_fn(A, A) -> bool) -> bool {
    forall|i: int, j: int| 0 <= i < j < s.len() ==> #[trigger] r(s[i], s[j])
}

/// Every row satisfies `p`.
pub open spec fn all_rows<A>(s: Seq<A>, p: spec_fn(A) -> bool) -> bool {
    forall|i: int| 0 <= i < s.len() ==> #[trigger] p(s[i])
}

/// Every row a filter keeps already stood in the sequence.
pub proof fn lemma_filter_elements<A>(s: Seq<A>, pred: spec_fn(A) -> bool)
    ensures
        forall|i: int| 0 <= i < s.filter(pred).len() ==> s.contains(#[trigger] s.filter(pred)[i]),
    decreases s.len(),
{
    reveal(Seq::filter);
    if s.len() > 0 {
        lemma_filter_elements(s.drop_last(), pred);
        let out = s.filter(pred);
        let sub = s.drop_last().filter(pred);
        assert forall|i: int| 0 <= i < out.len() implies s.contains(#[trigger] out[i]) by {
            if i < sub.len() {
                assert(sub[i] == out[i]);
                let j = choose|j: int| 0 <= j < s.drop_last().len() && s.drop_last()[j] == sub[i];
                assert(s[j] == out[i]);
            } else {
                assert(out[i] == s.last());
                assert(s[s.len() - 1] == s.last());
            }
        }
    }
}

/// Filtering keeps a pairwise property: the kept rows stand in their old
/// relative order, each one drawn from the original sequence.
pub proof fn lemma_filter_pairwise<A>(s: Seq<A>, pred: spec_fn(A) -> bool, r: spec_fn(A, A) -> bool)
    requires
        pairwise(s, r),
    ensures
        pairwise(s.filter(pred), r),
    decreases s.len(),
{
    reveal(Seq::filter);
    if s.len() > 0 {
        assert(pairwise(s.drop_last(), r)) by {
            assert forall|i: int, j: int|
                0 <= i < j < s.drop_last().len() implies #[trigger] r(
                s.drop_last()[i],
                s.drop_last()[j],
            ) by {
                assert(r(s[i], s[j]));
            }
        }
        lemma_filter_pairwise(s.drop_last(), pred, r);
        let out = s.filter(pred);
        let sub = s.drop_last().filter(pred);
        if pred(s.last()) {
            lemma_filter_elements(s.drop_last(), pred);
            assert forall|i: int, j: int| 0 <= i < j < out.len() implies #[trigger] r(
                out[i],
                out[j],
            ) by {
                if j < sub.len() {
                    assert(out[i] == sub[i] && out[j] == sub[j]);
                } else {
                    assert(out[j] == s.last());
                    assert(out[i] == sub[i]);
                    assert(s.drop_last().contains(sub[i]));
                    let k = choose|k: int|
                        0 <= k < s.drop_last().len() && s.drop_last()[k] == sub[i];
                    assert(r(s[k], s[s.len() - 1]));
                }
            }
        }
    }
}

/// Filtering keeps a per-row property.
pub proof fn lemma_filter_all<A>(s: Seq<A>, pred: spec_fn(A) -> bool, p: spec_fn(A) -> bool)
    requires
        all_rows(s, p),
    ensures
        all_rows(s.filter(pred), p),
{
    lemma_filter_elements(s, pred);
    assert forall|i: int| 0 <= i < s.filter(pred).len() implies #[trigger] p(
        s.filter(pred)[i],
    ) by {
        let row = s.filter(pred)[i];
        assert(s.contains(row));
        let k = choose|k: int| 0 <= k < s.len() && s[k] == row;
        assert(p(s[k]));
    }
}

/// Pushing a row that stands in relation `r` to every existing row keeps the
/// pairwise property.
pub proof fn lemma_pairwise_push<A>(s: Seq<A>, r: spec_fn(A, A) -> bool, x: A)
    requires
        pairwise(s, r),
        forall|i: int| 0 <= i < s.len() ==> #[trigger] r(s[i], x),
    ensures
        pairwise(s.push(x), r),
{
    assert forall|i: int, j: int| 0 <= i < j < s.push(x).len() implies #[trigger] r(
        s.push(x)[i],
        s.push(x)[j],
    ) by {
        if j < s.len() {
            assert(r(s[i], s[j]));
        } else {
            assert(s.push(x)[j] == x);
            assert(r(s[i], x));
        }
    }
}

/// Identifiers ascend with position, so two positions sharing one identifier
/// are the same position.
pub proof fn lemma_contestant_id_unique(s: Seq<ContestantR>, i: int, j: int)
    requires
        pairwise(s, |a: ContestantR, b: ContestantR| a.id < b.id),
        0 <= i < s.len(),
        0 <= j < s.len(),
        s[i].id == s[j].id,
    ensures
        i == j,
{
    let sorted = |a: ContestantR, b: ContestantR| a.id < b.id;
    if i < j {
        assert(sorted(s[i], s[j]));
    }
    if j < i {
        assert(sorted(s[j], s[i]));
    }
}

/// Since identifiers are unique, whether an identifier belongs to a row
/// carrying a given name is decided by the one row holding that identifier.
pub proof fn lemma_named_by_row(m: StoreModel, k: int, name: Seq<char>)
    requires
        pairwise(m.contestants, |a: ContestantR, b: ContestantR| a.id < b.id),
        0 <= k < m.contestants.len(),
    ensures
        m.contestant_named(m.contestants[k].id, name) <==> m.contestants[k].name == name,
{
    if m.contestant_named(m.contestants[k].id, name) {
        let i = choose|i: int|
            0 <= i < m.contestants.len() && (#[trigger] m.contestants[i]).id
                == m.contestants[k].id && m.contestants[i].name == name;
        lemma_contestant_id_unique(m.contestants, i, k);
    }
}

/// An identifier no contestant row holds names nothing.
pub proof fn lemma_named_needs_row(m: StoreModel, id: int, name: Seq<char>)
    requires
        !has_contestant(m.contestants, id),
    ensures
        !m.contestant_named(id, name),
{
    if m.contestant_named(id, name) {
        let i = choose|i: int|
            0 <= i < m.contestants.len() && (#[trigger] m.contestants[i]).id == id
                && m.contestants[i].name == name;
        assert(has_contestant(m.contestants, id));
    }
}

/// A user row that a filter keeps still answers `has_user`.
pub proof fn lemma_has_user_in_filter(s: Seq<UserR>, pred: spec_fn(UserR) -> bool, id: int)
    requires
        exists|k: int| 0 <= k < s.len() && (#[trigger] s[k]).id == id && pred(s[k]),
    ensures
        has_user(s.filter(pred), id),
{
    let k = choose|k: int| 0 <= k < s.len() && (#[trigger] s[k]).id == id && pred(s[k]);
    assert(s.filter(pred).contains(s[k]));
    let j = choose|j: int| 0 <= j < s.filter(pred).len() && s.filter(pred)[j] == s[k];
    assert((s.filter(pred)[j]).id == id);
}

/// A game-show row that a filter keeps still answers `has_game_show`.
pub proof fn lemma_has_game_show_in_filter(s: Seq<GameShowR>, pred: spec_fn(GameShowR) -> bool, id: int)
    requires
        exists|k: int| 0 <= k < s.len() && (#[trigger] s[k]).id == id && pred(s[k]),
    ensures
        has_game_show(s.filter(pred), id),
{
    let k = choose|k: int| 0 <= k < s.len() && (#[trigger] s[k]).id == id && pred(s[k]);
    assert(s.filter(pred).contains(s[k]));
    let j = choose|j: int| 0 <= j < s.filter(pred).len() && s.filter(pred)[j] == s[k];
    assert((s.filter(pred)[j]).id == id);
}

/// A contestant row that a filter keeps still answers `has_contestant`.
pub proof fn lemma_has_contestant_in_filter(s: Seq<ContestantR>, pred: spec_fn(ContestantR) -> bool, id: int)
    requires
        exists|k: int| 0 <= k < s.len() && (#[trigger] s[k]).id == id && pred(s[k]),
    ensures
        has_contestant(s.filter(pred), id),
{
    let k = choose|k: int| 0 <= k < s.len() && (#[trigger] s[k]).id == id && pred(s[k]);
    assert(s.filter(pred).contains(s[k]));
    let j = choose|j: int| 0 <= j < s.filter(pred).len() && s.filter(pred)[j] == s[k];
    assert((s.filter(pred)[j]).id == id);
}

/// A league row that a filter keeps still answers `has_league`.
pub proof fn lemma_has_league_in_filter(s: Seq<LeagueR>, pred: spec_fn(LeagueR) -> bool, id: int)
    requires
        exists|k: int| 0 <= k < s.len() && (#[trigger] s[k]).id == id && pred(s[k]),
    ensures
        has_league(s.filter(pred), id),
{
    let k = choose|k: int| 0 <= k < s.len() && (#[trigger] s[k]).id == id && pred(s[k]);
    assert(s.filter(pred).contains(s[k]));
    let j = choose|j: int| 0 <= j < s.filter(pred).len() && s.filter(pred)[j] == s[k];
    assert((s.filter(pred)[j]).id == id);
}

// ---------------------------------------------------------------------------
// The store model
// ---------------------------------------------------------------------------

/// Mathematical state of the whole store: which tables have been created,
/// their rows in insertion order, and the next identifier each sequence will
/// assign.
#[verifier::ext_equal]
pub ghost struct StoreModel {
    pub users_table: bool,
    pub game_shows_table: bool,
    pub contestants_table: bool,
    pub enrollments_table: bool,
    pub leagues_table: bool,
    pub members_table: bool,
    pub picks_table: bool,
    pub users: Seq<UserR>,
    pub game_shows: Seq<GameShowR>,
    pub contestants: Seq<ContestantR>,
    pub enrollments: Seq<EnrollmentR>,
    pub leagues: Seq<LeagueR>,
    pub members: Seq<MemberR>,
    pub picks: Seq<PickR>,
    pub next_user_id: int,
    pub next_game_show_id: int,
    pub next_contestant_id: int,
    pub next_league_id: int,
    pub next_member_id: int,
    pub next_pick_id: int,
}

/// There is a user row with this identifier.
pub open spec fn has_user(s: Seq<UserR>, id: int) -> bool {
    exists|i: int| 0 <= i < s.len() && (#[trigger] s[i]).id == id
}

/// There is a game-show row with this identifier.
pub open spec fn has_game_show(s: Seq<GameShowR>, id: int) -> bool {
    exists|i: int| 0 <= i < s.len() && (#[trigger] s[i]).id == id
}

/// There is a contestant row with this identifier.
pub open spec fn has_contestant(s: Seq<ContestantR>, id: int) -> bool {
    exists|i: int| 0 <= i < s.len() && (#[trigger] s[i]).id == id
}

/// There is a league row with this identifier.
pub open spec fn has_league(s: Seq<LeagueR>, id: int) -> bool {
    exists|i: int| 0 <= i < s.len() && (#[trigger] s[i]).id == id
}

/// The (contestant, show) pairing is enrolled.
pub open spec fn enrolled(s: Seq<EnrollmentR>, contestant_id: int, game_show_id: int) -> bool {
    exists|i: int|
        0 <= i < s.len() && (#[trigger] s[i]).contestant_id == contestant_id && s[i].game_show_id
            == game_show_id
}

/// The (league, user) pairing is a member row.
pub open spec fn is_member(s: Seq<MemberR>, league_id: int, user_id: int) -> bool {
    exists|i: int|
        0 <= i < s.len() && (#[trigger] s[i]).league_id == league_id && s[i].user_id == user_id
}

/// A pick row with this unique key exists.
pub open spec fn has_pick(
    s: Seq<PickR>,
    league_id: int,
    user_id: int,
    round_number: int,
    contestant_id: int,
) -> bool {
    exists|i: int|
        0 <= i < s.len() && (#[trigger] s[i]).league_id == league_id && s[i].user_id == user_id
            && s[i].round_number == round_number && s[i].contestant_id == contestant_id
}

/// Two enrollment rows never share their composite key.
pub open spec fn distinct_enrollment_keys(a: EnrollmentR, b: EnrollmentR) -> bool {
    !(a.contestant_id == b.contestant_id && a.game_show_id == b.game_show_id)
}

/// Two member rows never share their unique pairing.
pub open spec fn distinct_member_keys(a: MemberR, b: MemberR) -> bool {
    !(a.league_id == b.league_id && a.user_id == b.user_id)
}

/// Two pick rows never share their unique key.
pub open spec fn distinct_pick_keys(a: PickR, b: PickR) -> bool {
    !(a.league_id == b.league_id && a.user_id == b.user_id && a.round_number == b.round_number
        && a.contestant_id == b.contestant_id)
}

impl StoreModel {
    /// The state of a freshly connected store: no tables, no rows, every
    /// identifier sequence at its start.
    pub open spec fn init() -> StoreModel {
        StoreModel {
            users_table: false,
            game_shows_table: false,
            contestants_table: false,
            enrollments_table: false,
            leagues_table: false,
            members_table: false,
            picks_table: false,
            users: Seq::empty(),
            game_shows: Seq::empty(),
            contestants: Seq::empty(),
            enrollments: Seq::empty(),
            leagues: Seq::empty(),
            members: Seq::empty(),
            picks: Seq::empty(),
            next_user_id: 1,
            next_game_show_id: 1,
            next_contestant_id: 1,
            next_league_id: 1,
            next_member_id: 1,
            next_pick_id: 1,
        }
    }

    /// Everything the schema enforces: rows only in created tables,
    /// identifiers ascending in insertion order and below the sequence
    /// counter, composite keys unique, and every junction row referencing
    /// parents that exist.
    pub open spec fn wf(self) -> bool {
        &&& 1 <= self.next_user_id <= i32::MAX as int
        &&& 1 <= self.next_game_show_id <= i32::MAX as int
        &&& 1 <= self.next_contestant_id <= i32::MAX as int
        &&& 1 <= self.next_league_id <= i32::MAX as int
        &&& 1 <= self.next_member_id <= i32::MAX as int
        &&& 1 <= self.next_pick_id <= i32::MAX as int
        &&& (!self.users_table ==> self.users.len() == 0)
        &&& (!self.game_shows_table ==> self.game_shows.len() == 0)
        &&& (!self.contestants_table ==> self.contestants.len() == 0)
        &&& (!self.enrollments_table ==> self.enrollments.len() == 0)
        &&& (!self.leagues_table ==> self.leagues.len() == 0)
        &&& (!self.members_table ==> self.members.len() == 0)
        &&& (!self.picks_table ==> self.picks.len() == 0)
        &&& pairwise(self.users, |a: UserR, b: UserR| a.id < b.id)
        &&& pairwise(self.game_shows, |a: GameShowR, b: GameShowR| a.id < b.id)
        &&& pairwise(self.contestants, |a: ContestantR, b: ContestantR| a.id < b.id)
        &&& pairwise(self.leagues, |a: LeagueR, b: LeagueR| a.id < b.id)
        &&& pairwise(self.members, |a: MemberR, b: MemberR| a.id < b.id)
        &&& pairwise(self.picks, |a: PickR, b: PickR| a.id < b.id)
        &&& all_rows(self.users, |u: UserR| 1 <= u.id < self.next_user_id)
        &&& all_rows(self.game_shows, |g: GameShowR| 1 <= g.id < self.next_game_show_id)
        &&& all_rows(self.contestants, |c: ContestantR| 1 <= c.id < self.next_contestant_id)
        &&& all_rows(self.leagues, |l: LeagueR| 1 <= l.id < self.next_league_id)
        &&& all_rows(self.members, |m: MemberR| 1 <= m.id < self.next_member_id)
        &&& all_rows(self.picks, |p: PickR| 1 <= p.id < self.next_pick_id)
        &&& pairwise(self.enrollments, |a: EnrollmentR, b: EnrollmentR| distinct_enrollment_keys(a, b))
        &&& pairwise(self.members, |a: MemberR, b: MemberR| distinct_member_keys(a, b))
        &&& pairwise(self.picks, |a: PickR, b: PickR| distinct_pick_keys(a, b))
        &&& all_rows(self.enrollments, |e: EnrollmentR| has_contestant(self.contestants, e.contestant_id) && has_game_show(self.game_shows, e.game_show_id))
        &&& all_rows(self.members, |m: MemberR| has_league(self.leagues, m.league_id) && has_user(self.users, m.user_id))
        &&& all_rows(self.picks, |p: PickR| has_league(self.leagues, p.league_id) && has_user(self.users, p.user_id) && has_contestant(self.contestants, p.contestant_id))
    }

    // -- schema transitions -------------------------------------------------

    /// `CREATE TABLE IF NOT EXISTS users` and the three tables the user
    /// repository also lays out at startup.
    pub open spec fn with_user_schema(self) -> StoreModel {
        StoreModel {
            users_table: true,
            game_shows_table: true,
            contestants_table: true,
            enrollments_table: true,
            ..self
        }
    }

    /// `CREATE TABLE IF NOT EXISTS game_shows`.
    pub open spec fn with_game_shows_table(self) -> StoreModel {
        StoreModel { game_shows_table: true, ..self }
    }

    /// `CREATE TABLE IF NOT EXISTS contestants`.
    pub open spec fn with_contestants_table(self) -> StoreModel {
        StoreModel { contestants_table: true, ..self }
    }

    /// `CREATE TABLE IF NOT EXISTS game_show_contestants`.
    pub open spec fn with_enrollments_table(self) -> StoreModel {
        StoreModel { enrollments_table: true, ..self }
    }

    /// `CREATE TABLE IF NOT EXISTS leagues`.
    pub open spec fn with_leagues_table(self) -> StoreModel {
        StoreModel { leagues_table: true, ..self }
    }

    /// `CREATE TABLE IF NOT EXISTS league_members`.
    pub open spec fn with_members_table(self) -> StoreModel {
        StoreModel { members_table: true, ..self }
    }

    /// `CREATE TABLE IF NOT EXISTS league_picks`.
    pub open spec fn with_picks_table(self) -> StoreModel {
        StoreModel { picks_table: true, ..self }
    }

    /// The tables the game-show and league repositories lay out at startup.
    pub open spec fn with_show_and_league_schema(self) -> StoreModel {
        StoreModel {
            game_shows_table: true,
            contestants_table: true,
            enrollments_table: true,
            leagues_table: true,
            members_table: true,
            picks_table: true,
            ..self
        }
    }

    // -- row transitions ----------------------------------------------------

    /// `INSERT INTO users (name, email, atype)`.
    pub open spec fn with_user(self, name: Seq<char>, email: Seq<char>, account_type: Seq<char>) -> StoreModel {
        StoreModel {
            users: self.users.push(
                UserR { id: self.next_user_id, name, email, account_type },
            ),
            next_user_id: self.next_user_id + 1,
            ..self
        }
    }

    /// `UPDATE users SET name, email WHERE id`: the account type is left as
    /// it stands, matching the statement the service issues.
    pub open spec fn with_user_edit(self, id: int, name: Seq<char>, email: Seq<char>) -> StoreModel {
        StoreModel {
            users: self.users.map_values(
                |u: UserR|
                    if u.id == id {
                        UserR { name, email, ..u }
                    } else {
                        u
                    },
            ),
            ..self
        }
    }

    /// `DELETE FROM users WHERE id`, cascading to memberships and picks.
    pub open spec fn without_user(self, id: int) -> StoreModel {
        StoreModel {
            users: self.users.filter(|u: UserR| u.id != id),
            members: self.members.filter(|m: MemberR| m.user_id != id),
            picks: self.picks.filter(|p: PickR| p.user_id != id),
            ..self
        }
    }

    /// `INSERT INTO game_shows (name)`.
    pub open spec fn with_game_show(self, name: Seq<char>) -> StoreModel {
        StoreModel {
            game_shows: self.game_shows.push(GameShowR { id: self.next_game_show_id, name }),
            next_game_show_id: self.next_game_show_id + 1,
            ..self
        }
    }

    /// `DELETE FROM game_shows WHERE game_show_id`, cascading to the
    /// contestant-on-show junction rows.
    pub open spec fn without_game_show(self, id: int) -> StoreModel {
        StoreModel {
            game_shows: self.game_shows.filter(|g: GameShowR| g.id != id),
            enrollments: self.enrollments.filter(|e: EnrollmentR| e.game_show_id != id),
            ..self
        }
    }

    /// `INSERT INTO contestants (name)`.
    pub open spec fn with_contestant(self, name: Seq<char>) -> StoreModel {
        StoreModel {
            contestants: self.contestants.push(
                ContestantR { id: self.next_contestant_id, name },
            ),
            next_contestant_id: self.next_contestant_id + 1,
            ..self
        }
    }

    /// The contestant rows carrying this name.
    pub open spec fn contestants_named(self, name: Seq<char>) -> Seq<ContestantR> {
        self.contestants.filter(|c: ContestantR| c.name == name)
    }

    /// The identifier belongs to a contestant row carrying this name.
    pub open spec fn contestant_named(self, id: int, name: Seq<char>) -> bool {
        exists|i: int|
            0 <= i < self.contestants.len() && (#[trigger] self.contestants[i]).id == id
                && self.contestants[i].name == name
    }

    /// `DELETE FROM contestants WHERE name`, cascading to junction rows and
    /// picks of every contestant row that carried the name.
    pub open spec fn without_contestants_named(self, name: Seq<char>) -> StoreModel {
        StoreModel {
            contestants: self.contestants.filter(|c: ContestantR| c.name != name),
            enrollments: self.enrollments.filter(
                |e: EnrollmentR| !self.contestant_named(e.contestant_id, name),
            ),
            picks: self.picks.filter(|p: PickR| !self.contestant_named(p.contestant_id, name)),
            ..self
        }
    }

    /// `INSERT INTO game_show_contestants (contestant_id, game_show_id,
    /// nickname)`: the round defaults to `-1`, the medevac flag to false.
    pub open spec fn with_enrollment(self, contestant_id: int, game_show_id: int, nickname: Seq<char>) -> StoreModel {
        StoreModel {
            enrollments: self.enrollments.push(
                EnrollmentR {
                    contestant_id,
                    game_show_id,
                    nickname,
                    eliminated_on_round: -1,
                    was_medically_evacuated: false,
                },
            ),
            ..self
        }
    }

    /// `UPDATE game_show_contestants SET eliminated_on_round WHERE
    /// contestant_id AND game_show_id`.
    pub open spec fn with_elimination(self, contestant_id: int, game_show_id: int, round: int) -> StoreModel {
        StoreModel {
            enrollments: self.enrollments.map_values(
                |e: EnrollmentR|
                    if e.contestant_id == contestant_id && e.game_show_id == game_show_id {
                        EnrollmentR { eliminated_on_round: round, ..e }
                    } else {
                        e
                    },
            ),
            ..self
        }
    }

    /// `UPDATE game_show_contestants SET was_medically_evacuated = TRUE WHERE
    /// contestant_id AND game_show_id`.
    pub open spec fn with_medevac(self, contestant_id: int, game_show_id: int) -> StoreModel {
        StoreModel {
            enrollments: self.enrollments.map_values(
                |e: EnrollmentR|
                    if e.contestant_id == contestant_id && e.game_show_id == game_show_id {
                        EnrollmentR { was_medically_evacuated: true, ..e }
                    } else {
                        e
                    },
            ),
            ..self
        }
    }

    /// `INSERT INTO leagues (name, id_showseason)`.
    pub open spec fn with_league(self, name: Seq<char>, id_showseason: Option<int>) -> StoreModel {
        StoreModel {
            leagues: self.leagues.push(
                LeagueR { id: self.next_league_id, name, id_showseason },
            ),
            next_league_id: self.next_league_id + 1,
            ..self
        }
    }

    /// `DELETE FROM leagues WHERE id`, cascading to memberships and picks.
    pub open spec fn without_league(self, id: int) -> StoreModel {
        StoreModel {
            leagues: self.leagues.filter(|l: LeagueR| l.id != id),
            members: self.members.filter(|m: MemberR| m.league_id != id),
            picks: self.picks.filter(|p: PickR| p.league_id != id),
            ..self
        }
    }

    /// `INSERT INTO league_members (league_id, user_id)`.
    pub open spec fn with_member(self, league_id: int, user_id: int) -> StoreModel {
        StoreModel {
            members: self.members.push(
                MemberR { id: self.next_member_id, league_id, user_id },
            ),
            next_member_id: self.next_member_id + 1,
            ..self
        }
    }

    /// `DELETE FROM league_members WHERE user_id AND league_id`.
    pub open spec fn without_member(self, league_id: int, user_id: int) -> StoreModel {
        StoreModel {
            members: self.members.filter(
                |m: MemberR| !(m.league_id == league_id && m.user_id == user_id),
            ),
            ..self
        }
    }

    /// The pick upsert: insert the row, or on conflict of the unique key
    /// update only its rank.
    pub open spec fn with_pick(self, league_id: int, user_id: int, round_number: int, contestant_id: int, rank_pick: int) -> StoreModel {
        if has_pick(self.picks, league_id, user_id, round_number, contestant_id) {
            StoreModel {
                picks: self.picks.map_values(
                    |p: PickR|
                        if p.league_id == league_id && p.user_id == user_id && p.round_number
                            == round_number && p.contestant_id == contestant_id {
                            PickR { rank_pick, ..p }
                        } else {
                            p
                        },
                ),
                ..self
            }
        } else {
            StoreModel {
                picks: self.picks.push(
                    PickR {
                        id: self.next_pick_id,
                        league_id,
                        user_id,
                        round_number,
                        contestant_id,
                        rank_pick,
                    },
                ),
                next_pick_id: self.next_pick_id + 1,
                ..self
            }
        }
    }

    /// The junction rows of one show, in insertion order: what the
    /// contestants-on-show join returns.
    pub open spec fn enrollments_on(self, game_show_id: int) -> Seq<EnrollmentR> {
        self.enrollments.filter(|e: EnrollmentR| e.game_show_id == game_show_id)
    }

    /// The league rows of one season, in insertion order; a null season
    /// column never matches.
    pub open spec fn leagues_for(self, id_showseason: int) -> Seq<LeagueR> {
        self.leagues.filter(|l: LeagueR| l.id_showseason == Some(id_showseason))
    }

    // -- what each statement needs to succeed ---------------------------------

    /// A user insert succeeds exactly when the table exists and the
    /// identifier sequence is not exhausted.
    pub open spec fn can_insert_user(self) -> bool {
        self.users_table && self.next_user_id < i32::MAX as int
    }

    /// A game-show insert succeeds exactly when the table exists and the
    /// identifier sequence is not exhausted.
    pub open spec fn can_insert_game_show(self) -> bool {
        self.game_shows_table && self.next_game_show_id < i32::MAX as int
    }

    /// A contestant insert succeeds exactly when the table exists and the
    /// identifier sequence is not exhausted.
    pub open spec fn can_insert_contestant(self) -> bool {
        self.contestants_table && self.next_contestant_id < i32::MAX as int
    }

    /// A league insert succeeds exactly when the table exists and the
    /// identifier sequence is not exhausted.
    pub open spec fn can_insert_league(self) -> bool {
        self.leagues_table && self.next_league_id < i32::MAX as int
    }

    /// An enrollment insert succeeds exactly when the junction table exists,
    /// both parents exist, and the pairing is not already enrolled.
    pub open spec fn can_enroll(self, contestant_id: int, game_show_id: int) -> bool {
        &&& self.enrollments_table
        &&& has_contestant(self.contestants, contestant_id)
        &&& has_game_show(self.game_shows, game_show_id)
        &&& !enrolled(self.enrollments, contestant_id, game_show_id)
    }

    /// An elimination or medevac update succeeds exactly when the junction
    /// table exists and the pairing is enrolled.
    pub open spec fn can_update_enrollment(self, contestant_id: int, game_show_id: int) -> bool {
        self.enrollments_table && enrolled(self.enrollments, contestant_id, game_show_id)
    }

    /// A membership insert succeeds exactly when the table exists, both
    /// parents exist, the pairing is new, and identifiers remain.
    pub open spec fn can_add_member(self, league_id: int, user_id: int) -> bool {
        &&& self.members_table
        &&& has_league(self.leagues, league_id)
        &&& has_user(self.users, user_id)
        &&& !is_member(self.members, league_id, user_id)
        &&& self.next_member_id < i32::MAX as int
    }

    /// A pick upsert succeeds exactly when the table exists, the referenced
    /// rows exist, and either the key is already present (an update) or an
    /// identifier remains for the new row.
    pub open spec fn can_set_pick(self, league_id: int, user_id: int, round_number: int, contestant_id: int) -> bool {
        &&& self.picks_table
        &&& has_league(self.leagues, league_id)
        &&& has_user(self.users, user_id)
        &&& has_contestant(self.contestants, contestant_id)
        &&& (has_pick(self.picks, league_id, user_id, round_number, contestant_id)
            || self.next_pick_id < i32::MAX as int)
    }
}

// ---------------------------------------------------------------------------
// The executable store
// ---------------------------------------------------------------------------

/// The relational store: one value of this type stands for the database the
/// service connects to at startup.
pub struct Store {
    users_table: bool,
    game_shows_table: bool,
    contestants_table: bool,
    enrollments_table: bool,
    leagues_table: bool,
    members_table: bool,
    picks_table: bool,
    users: Vec<UserRow>,
    game_shows: Vec<GameShowRow>,
    contestants: Vec<ContestantRow>,
    enrollments: Vec<EnrollmentRow>,
    leagues: Vec<LeagueRow>,
    members: Vec<MemberRow>,
    picks: Vec<PickRow>,
    next_user_id: i32,
    next_game_show_id: i32,
    next_contestant_id: i32,
    next_league_id: i32,
    next_member_id: i32,
    next_pick_id: i32,
}

impl View for Store {
    type V = StoreModel;

    closed spec fn view(&self) -> StoreModel {
        StoreModel {
            users_table: self.users_table,
            game_shows_table: self.game_shows_table,
            contestants_table: self.contestants_table,
            enrollments_table: self.enrollments_table,
            leagues_table: self.leagues_table,
            members_table: self.members_table,
            picks_table: self.picks_table,
            users: self.users@.map_values(|r: UserRow| r@),
            game_shows: self.game_shows@.map_values(|r: GameShowRow| r@),
            contestants: self.contestants@.map_values(|r: ContestantRow| r@),
            enrollments: self.enrollments@.map_values(|r: EnrollmentRow| r@),
            leagues: self.leagues@.map_values(|r: LeagueRow| r@),
            members: self.members@.map_values(|r: MemberRow| r@),
            picks: self.picks@.map_values(|r: PickRow| r@),
            next_user_id: self.next_user_id as int,
            next_game_show_id: self.next_game_show_id as int,
            next_contestant_id: self.next_contestant_id as int,
            next_league_id: self.next_league_id as int,
            next_member_id: self.next_member_id as int,
            next_pick_id: self.next_pick_id as int,
        }
    }
}

impl Store {
    /// Connect to a fresh store. A service process aborts at startup when
    /// its database is unreachable, so the constructor itself cannot fail.
    pub fn new() -> (s: Store)
        ensures
            s@ == StoreModel::init(),
            s@.wf(),
    {
        let s = Store {
            users_table: false,
            game_shows_table: false,
            contestants_table: false,
            enrollments_table: false,
            leagues_table: false,
            members_table: false,
            picks_table: false,
            users: Vec::new(),
            game_shows: Vec::new(),
            contestants: Vec::new(),
            enrollments: Vec::new(),
            leagues: Vec::new(),
            members: Vec::new(),
            picks: Vec::new(),
            next_user_id: 1,
            next_game_show_id: 1,
            next_contestant_id: 1,
            next_league_id: 1,
            next_member_id: 1,
            next_pick_id: 1,
        };
        proof {
            assert(s@ =~= StoreModel::init());
        }
        s
    }

    // -- schema -------------------------------------------------------------

    /// Lay out the tables the user repository creates at startup; a second
    /// run against the same store changes nothing.
    pub fn initialize_storage(&mut self)
        ensures
            final(self)@ == old(self)@.with_user_schema(),
            old(self)@.wf() ==> final(self)@.wf(),
    {
        self.users_table = true;
        self.game_shows_table = true;
        self.contestants_table = true;
        self.enrollments_table = true;
        proof {
            assert(final(self)@ =~= old(self)@.with_user_schema());
        }
    }

    /// `CREATE TABLE IF NOT EXISTS game_shows`.
    pub fn initialize_gameshows(&mut self)
        ensures
            final(self)@ == old(self)@.with_game_shows_table(),
            old(self)@.wf() ==> final(self)@.wf(),
    {
        self.game_shows_table = true;
        proof {
            assert(final(self)@ =~= old(self)@.with_game_shows_table());
        }
    }

    /// `CREATE TABLE IF NOT EXISTS contestants`.
    pub fn initialize_contestants(&mut self)
        ensures
            final(self)@ == old(self)@.with_contestants_table(),
            old(self)@.wf() ==> final(self)@.wf(),
    {
        self.contestants_table = true;
        proof {
            assert(final(self)@ =~= old(self)@.with_contestants_table());
        }
    }

    /// `CREATE TABLE IF NOT EXISTS game_show_contestants`.
    pub fn initialize_gameshow_contestants(&mut self)
        ensures
            final(self)@ == old(self)@.with_enrollments_table(),
            old(self)@.wf() ==> final(self)@.wf(),
    {
        self.enrollments_table = true;
        proof {
            assert(final(self)@ =~= old(self)@.with_enrollments_table());
        }
    }

    /// `CREATE TABLE IF NOT EXISTS leagues`.
    pub fn initialize_storage_leagues(&mut self)
        ensures
            final(self)@ == old(self)@.with_leagues_table(),
            old(self)@.wf() ==> final(self)@.wf(),
    {
        self.leagues_table = true;
        proof {
            assert(final(self)@ =~= old(self)@.with_leagues_table());
        }
    }

    /// `CREATE TABLE IF NOT EXISTS league_members`.
    pub fn initialize_storage_league_memberships(&mut self)
        ensures
            final(self)@ == old(self)@.with_members_table(),
            old(self)@.wf() ==> final(self)@.wf(),
    {
        self.members_table = true;
        proof {
            assert(final(self)@ =~= old(self)@.with_members_table());
        }
    }

    /// `CREATE TABLE IF NOT EXISTS league_picks`.
    pub fn initialize_storage_league_picks(&mut self)
        ensures
            final(self)@ == old(self)@.with_picks_table(),
            old(self)@.wf() ==> final(self)@.wf(),
    {
        self.picks_table = true;
        proof {
            assert(final(self)@ =~= old(self)@.with_picks_table());
        }
    }

    // -- users --------------------------------------------------------------

    /// `SELECT id, name, email, atype FROM users`, in insertion order.
    pub fn collect_users(&self) -> (r: Result<Vec<User>, StoreError>)
        ensures
            self@.users_table ==> r is Ok,
            !self@.users_table ==> r == Result::<Vec<User>, StoreError>::Err(
                StoreError::TableMissing,
            ),
            r matches Ok(list) ==> {
                &&& list@.len() == self@.users.len()
                &&& forall|i: int|
                    0 <= i < list@.len() ==> (#[trigger] list@[i])@ == spec_user_of(self@.users[i])
            },
    {
        if !self.users_table {
            return Err(StoreError::TableMissing);
        }
        let mut out: Vec<User> = Vec::new();
        let mut i: usize = 0;
        while i < self.users.len()
            invariant
                i <= self.users.len(),
                out@.len() == i,
                forall|k: int|
                    0 <= k < i as int ==> (#[trigger] out@[k])@ == spec_user_of(self@.users[k]),
            decreases self.users.len() - i,
        {
            let row = &self.users[i];
            out.push(
                User {
                    id: Some(row.id),
                    name: row.name.clone(),
                    email: row.email.clone(),
                    account_type: row.account_type.clone(),
                },
            );
            i = i + 1;
        }
        Ok(out)
    }

    /// `INSERT INTO users (name, email, atype) VALUES ($1, $2, $3)`; the
    /// record's own identifier is ignored and the store assigns the next one.
    pub fn add_user(&mut self, user: &User) -> (r: Result<(), StoreError>)
        requires
            old(self)@.wf(),
        ensures
            final(self)@.wf(),
            r is Ok <==> old(self)@.can_insert_user(),
            r is Ok ==> final(self)@ == old(self)@.with_user(
                user.name@,
                user.email@,
                user.account_type@,
            ),
            r is Err ==> final(self)@ == old(self)@,
            !old(self)@.users_table ==> r == Result::<(), StoreError>::Err(
                StoreError::TableMissing,
            ),
            old(self)@.users_table && old(self)@.next_user_id == i32::MAX as int ==> r
                == Result::<(), StoreError>::Err(StoreError::IdsExhausted),
    {
        if !self.users_table {
            return Err(StoreError::TableMissing);
        }
        if self.next_user_id == i32::MAX {
            return Err(StoreError::IdsExhausted);
        }
        let ghost m = self@;
        let id = self.next_user_id;
        self.users.push(
            UserRow {
                id,
                name: user.name.clone(),
                email: user.email.clone(),
                account_type: user.account_type.clone(),
            },
        );
        self.next_user_id = id + 1;
        proof {
            let row = UserR {
                id: id as int,
                name: user.name@,
                email: user.email@,
                account_type: user.account_type@,
            };
            assert(self@.users =~= m.users.push(row));
            assert(self@ =~= m.with_user(user.name@, user.email@, user.account_type@));
            let sorted = |a: UserR, b: UserR| a.id < b.id;
            let bound_old = |u: UserR| 1 <= u.id < m.next_user_id;
            let bound_new = |u: UserR| 1 <= u.id < self@.next_user_id;
            assert forall|i: int| 0 <= i < m.users.len() implies #[trigger] sorted(
                m.users[i],
                row,
            ) by {
                assert(bound_old(m.users[i]));
            }
            lemma_pairwise_push(m.users, sorted, row);
            assert forall|i: int| 0 <= i < self@.users.len() implies #[trigger] bound_new(
                self@.users[i],
            ) by {
                if i < m.users.len() {
                    assert(self@.users[i] == m.users[i]);
                    assert(bound_old(m.users[i]));
                }
            }
            assert(all_rows(self@.users, bound_new));
            lemma_members_fk_stable(m, self@);
            lemma_picks_fk_stable(m, self@);
            lemma_enrollments_fk_stable(m, self@);
        }
        Ok(())
    }

    /// `UPDATE users SET name = $1, email = $2 WHERE id = $3`: the account
    /// type column is not part of the statement and keeps its value; an id
    /// that matches no row still succeeds and changes nothing.
    #[verifier::loop_isolation(false)]
    pub fn edit_user(&mut self, id: i32, user: &User) -> (r: Result<(), StoreError>)
        requires
            old(self)@.wf(),
        ensures
            final(self)@.wf(),
            r is Ok <==> old(self)@.users_table,
            r is Ok ==> final(self)@ == old(self)@.with_user_edit(
                id as int,
                user.name@,
                user.email@,
            ),
            r is Err ==> final(self)@ == old(self)@ && r == Result::<(), StoreError>::Err(
                StoreError::TableMissing,
            ),
    {
        if !self.users_table {
            return Err(StoreError::TableMissing);
        }
        let ghost m = self@;
        let ghost updf = |u: UserR|
            if u.id == id as int {
                UserR { name: user.name@, email: user.email@, ..u }
            } else {
                u
            };
        let mut updated: Vec<UserRow> = Vec::new();
        let mut i: usize = 0;
        while i < self.users.len()
            invariant
                i <= self.users.len(),
                updated@.len() == i as int,
                forall|k: int|
                    0 <= k < i as int ==> (#[trigger] updated@[k])@ == updf(m.users[k]),
            decreases self.users.len() - i,
        {
            let row = &self.users[i];
            if row.id == id {
                updated.push(
                    UserRow {
                        id: row.id,
                        name: user.name.clone(),
                        email: user.email.clone(),
                        account_type: row.account_type.clone(),
                    },
                );
            } else {
                updated.push(row.clone());
            }
            proof {
                assert(updf(m.users[i as int]) == updated@[i as int]@);
            }
            i = i + 1;
        }
        self.users = updated;
        proof {
            assert(self@.users =~= m.users.map_values(updf));
            assert(self@ =~= m.with_user_edit(id as int, user.name@, user.email@));
            let sorted = |a: UserR, b: UserR| a.id < b.id;
            let bound = |u: UserR| 1 <= u.id < m.next_user_id;
            assert forall|a: int, b: int| 0 <= a < b < self@.users.len() implies #[trigger] sorted(
                self@.users[a],
                self@.users[b],
            ) by {
                assert(sorted(m.users[a], m.users[b]));
            }
            assert(pairwise(self@.users, sorted));
            assert forall|a: int| 0 <= a < self@.users.len() implies #[trigger] bound(
                self@.users[a],
            ) by {
                assert(bound(m.users[a]));
            }
            assert(all_rows(self@.users, bound));
            lemma_members_fk_stable(m, self@);
            lemma_picks_fk_stable(m, self@);
            lemma_enrollments_fk_stable(m, self@);
        }
        Ok(())
    }

    /// `DELETE FROM users WHERE id = $1`; an id that matches no row still
    /// succeeds, and memberships and picks of a deleted user cascade away.
    #[verifier::loop_isolation(false)]
    pub fn delet_user(&mut self, id: i32) -> (r: Result<(), StoreError>)
        requires
            old(self)@.wf(),
        ensures
            final(self)@.wf(),
            r is Ok <==> old(self)@.users_table,
            r is Ok ==> final(self)@ == old(self)@.without_user(id as int),
            r is Err ==> final(self)@ == old(self)@ && r == Result::<(), StoreError>::Err(
                StoreError::TableMissing,
            ),
    {
        if !self.users_table {
            return Err(StoreError::TableMissing);
        }
        let ghost m = self@;
        let ghost upred = |u: UserR| u.id != id as int;
        let ghost mpred = |mb: MemberR| mb.user_id != id as int;
        let ghost ppred = |p: PickR| p.user_id != id as int;
        let mut kept_users: Vec<UserRow> = Vec::new();
        let mut i: usize = 0;
        while i < self.users.len()
            invariant
                i <= self.users.len(),
                kept_users@.map_values(|r: UserRow| r@) == m.users.take(i as int).filter(upred),
            decreases self.users.len() - i,
        {
            proof {
                assert(m.users.take(i as int + 1) =~= m.users.take(i as int).push(
                    m.users[i as int],
                ));
                m.users.take(i as int).lemma_filter_push(m.users[i as int], upred);
            }
            let row = &self.users[i];
            if row.id != id {
                kept_users.push(row.clone());
            }
            proof {
                assert(kept_users@.map_values(|r: UserRow| r@) =~= m.users.take(i as int + 1)
                    .filter(upred));
            }
            i = i + 1;
        }
        let mut kept_members: Vec<MemberRow> = Vec::new();
        let mut j: usize = 0;
        while j < self.members.len()
            invariant
                j <= self.members.len(),
                kept_members@.map_values(|r: MemberRow| r@) == m.members.take(j as int).filter(
                    mpred,
                ),
            decreases self.members.len() - j,
        {
            proof {
                assert(m.members.take(j as int + 1) =~= m.members.take(j as int).push(
                    m.members[j as int],
                ));
                m.members.take(j as int).lemma_filter_push(m.members[j as int], mpred);
            }
            let row = &self.members[j];
            if row.user_id != id {
                kept_members.push(row.clone());
            }
            proof {
                assert(kept_members@.map_values(|r: MemberRow| r@) =~= m.members.take(j as int + 1)
                    .filter(mpred));
            }
            j = j + 1;
        }
        let mut kept_picks: Vec<PickRow> = Vec::new();
        let mut n: usize = 0;
        while n < self.picks.len()
            invariant
                n <= self.picks.len(),
                kept_picks@.map_values(|r: PickRow| r@) == m.picks.take(n as int).filter(ppred),
            decreases self.picks.len() - n,
        {
            proof {
                assert(m.picks.take(n as int + 1) =~= m.picks.take(n as int).push(
                    m.picks[n as int],
                ));
                m.picks.take(n as int).lemma_filter_push(m.picks[n as int], ppred);
            }
            let row = &self.picks[n];
            if row.user_id != id {
                kept_picks.push(row.clone());
            }
            proof {
                assert(kept_picks@.map_values(|r: PickRow| r@) =~= m.picks.take(n as int + 1)
                    .filter(ppred));
            }
            n = n + 1;
        }
        self.users = kept_users;
        self.members = kept_members;
        self.picks = kept_picks;
        proof {
            assert(m.users.take(m.users.len() as int) =~= m.users);
            assert(m.members.take(m.members.len() as int) =~= m.members);
            assert(m.picks.take(m.picks.len() as int) =~= m.picks);
            assert(self@ =~= m.without_user(id as int));
            lemma_without_user_wf(m, id as int);
        }
        Ok(())
    }

    // -- row finders ----------------------------------------------------------

    /// Position of the contestant row with this identifier, if any.
    fn find_contestant_idx(&self, id: i32) -> (r: Option<usize>)
        ensures
            r matches Some(k) ==> k < self@.contestants.len() && self@.contestants[
                k as int
            ].id == id as int,
            r is None ==> !has_contestant(self@.contestants, id as int),
    {
        let mut i: usize = 0;
        while i < self.contestants.len()
            invariant
                i <= self.contestants.len(),
                forall|k: int|
                    0 <= k < i as int ==> (#[trigger] self@.contestants[k]).id != id as int,
            decreases self.contestants.len() - i,
        {
            if self.contestants[i].id == id {
                return Some(i);
            }
            i = i + 1;
        }
        None
    }

    /// Position of the game-show row with this identifier, if any.
    fn find_game_show_idx(&self, id: i32) -> (r: Option<usize>)
        ensures
            r matches Some(k) ==> k < self@.game_shows.len() && self@.game_shows[
                k as int
            ].id == id as int,
            r is None ==> !has_game_show(self@.game_shows, id as int),
    {
        let mut i: usize = 0;
        while i < self.game_shows.len()
            invariant
                i <= self.game_shows.len(),
                forall|k: int|
                    0 <= k < i as int ==> (#[trigger] self@.game_shows[k]).id != id as int,
            decreases self.game_shows.len() - i,
        {
            if self.game_shows[i].id == id {
                return Some(i);
            }
            i = i + 1;
        }
        None
    }

    /// Position of the user row with this identifier, if any.
    fn find_user_idx(&self, id: i32) -> (r: Option<usize>)
        ensures
            r matches Some(k) ==> k < self@.users.len() && self@.users[k as int].id == id as int,
            r is None ==> !has_user(self@.users, id as int),
    {
        let mut i: usize = 0;
        while i < self.users.len()
            invariant
                i <= self.users.len(),
                forall|k: int| 0 <= k < i as int ==> (#[trigger] self@.users[k]).id != id as int,
            decreases self.users.len() - i,
        {
            if self.users[i].id == id {
                return Some(i);
            }
            i = i + 1;
        }
        None
    }

    /// Position of the league row with this identifier, if any.
    fn find_league_idx(&self, id: i32) -> (r: Option<usize>)
        ensures
            r matches Some(k) ==> k < self@.leagues.len() && self@.leagues[
                k as int
            ].id == id as int,
            r is None ==> !has_league(self@.leagues, id as int),
    {
        let mut i: usize = 0;
        while i < self.leagues.len()
            invariant
                i <= self.leagues.len(),
                forall|k: int| 0 <= k < i as int ==> (#[trigger] self@.leagues[k]).id != id as int,
            decreases self.leagues.len() - i,
        {
            if self.leagues[i].id == id {
                return Some(i);
            }
            i = i + 1;
        }
        None
    }

    /// Position of the enrollment row with this composite key, if any.
    fn find_enrollment_idx(&self, contestant_id: i32, game_show_id: i32) -> (r: Option<usize>)
        ensures
            r matches Some(k) ==> k < self@.enrollments.len() && self@.enrollments[
                k as int
            ].contestant_id == contestant_id as int && self@.enrollments[
                k as int
            ].game_show_id == game_show_id as int,
            r is None ==> !enrolled(self@.enrollments, contestant_id as int, game_show_id as int),
    {
        let mut i: usize = 0;
        while i < self.enrollments.len()
            invariant
                i <= self.enrollments.len(),
                forall|k: int|
                    0 <= k < i as int ==> !((#[trigger] self@.enrollments[k]).contestant_id
                        == contestant_id as int && self@.enrollments[k].game_show_id
                        == game_show_id as int),
            decreases self.enrollments.len() - i,
        {
            let row = &self.enrollments[i];
            if row.contestant_id == contestant_id && row.game_show_id == game_show_id {
                return Some(i);
            }
            i = i + 1;
        }
        None
    }

    /// Position of the member row with this unique pairing, if any.
    fn find_member_idx(&self, league_id: i32, user_id: i32) -> (r: Option<usize>)
        ensures
            r matches Some(k) ==> k < self@.members.len() && self@.members[
                k as int
            ].league_id == league_id as int && self@.members[k as int].user_id == user_id as int,
            r is None ==> !is_member(self@.members, league_id as int, user_id as int),
    {
        let mut i: usize = 0;
        while i < self.members.len()
            invariant
                i <= self.members.len(),
                forall|k: int|
                    0 <= k < i as int ==> !((#[trigger] self@.members[k]).league_id
                        == league_id as int && self@.members[k].user_id == user_id as int),
            decreases self.members.len() - i,
        {
            let row = &self.members[i];
            if row.league_id == league_id && row.user_id == user_id {
                return Some(i);
            }
            i = i + 1;
        }
        None
    }

    /// Position of the pick row with this unique key, if any.
    fn find_pick_idx(
        &self,
        league_id: i32,
        user_id: i32,
        round_number: i32,
        contestant_id: i32,
    ) -> (r: Option<usize>)
        ensures
            r matches Some(k) ==> k < self@.picks.len() && self@.picks[
                k as int
            ].league_id == league_id as int && self@.picks[k as int].user_id == user_id as int
                && self@.picks[k as int].round_number == round_number as int && self@.picks[
                k as int
            ].contestant_id == contestant_id as int,
            r is None ==> !has_pick(
                self@.picks,
                league_id as int,
                user_id as int,
                round_number as int,
                contestant_id as int,
            ),
    {
        let mut i: usize = 0;
        while i < self.picks.len()
            invariant
                i <= self.picks.len(),
                forall|k: int|
                    0 <= k < i as int ==> !((#[trigger] self@.picks[k]).league_id
                        == league_id as int && self@.picks[k].user_id == user_id as int
                        && self@.picks[k].round_number == round_number as int
                        && self@.picks[k].contestant_id == contestant_id as int),
            decreases self.picks.len() - i,
        {
            let row = &self.picks[i];
            if row.league_id == league_id && row.user_id == user_id && row.round_number
                == round_number && row.contestant_id == contestant_id {
                return Some(i);
            }
            i = i + 1;
        }
        None
    }

    // -- game shows -----------------------------------------------------------

    /// `SELECT game_show_id, name FROM game_shows`, in insertion order.
    pub fn collect_game_shows(&self) -> (r: Result<Vec<GameShow>, StoreError>)
        ensures
            self@.game_shows_table ==> r is Ok,
            !self@.game_shows_table ==> r == Result::<Vec<GameShow>, StoreError>::Err(
                StoreError::TableMissing,
            ),
            r matches Ok(list) ==> {
                &&& list@.len() == self@.game_shows.len()
                &&& forall|i: int|
                    0 <= i < list@.len() ==> (#[trigger] list@[i])@ == spec_game_show_of(
                        self@.game_shows[i],
                    )
            },
    {
        if !self.game_shows_table {
            return Err(StoreError::TableMissing);
        }
        let mut out: Vec<GameShow> = Vec::new();
        let mut i: usize = 0;
        while i < self.game_shows.len()
            invariant
                i <= self.game_shows.len(),
                out@.len() == i,
                forall|k: int|
                    0 <= k < i as int ==> (#[trigger] out@[k])@ == spec_game_show_of(
                        self@.game_shows[k],
                    ),
            decreases self.game_shows.len() - i,
        {
            let row = &self.game_shows[i];
            out.push(GameShow { id: Some(row.id), name: row.name.clone() });
            i = i + 1;
        }
        Ok(out)
    }

    /// `INSERT INTO game_shows (name) VALUES ($1)`.
    pub fn add_gameshow(&mut self, game_show: &GameShow) -> (r: Result<(), StoreError>)
        requires
            old(self)@.wf(),
        ensures
            final(self)@.wf(),
            r is Ok <==> old(self)@.can_insert_game_show(),
            r is Ok ==> final(self)@ == old(self)@.with_game_show(game_show.name@),
            r is Err ==> final(self)@ == old(self)@,
            !old(self)@.game_shows_table ==> r == Result::<(), StoreError>::Err(
                StoreError::TableMissing,
            ),
            old(self)@.game_shows_table && old(self)@.next_game_show_id == i32::MAX as int ==> r
                == Result::<(), StoreError>::Err(StoreError::IdsExhausted),
    {
        if !self.game_shows_table {
            return Err(StoreError::TableMissing);
        }
        if self.next_game_show_id == i32::MAX {
            return Err(StoreError::IdsExhausted);
        }
        let ghost m = self@;
        let id = self.next_game_show_id;
        self.game_shows.push(GameShowRow { id, name: game_show.name.clone() });
        self.next_game_show_id = id + 1;
        proof {
            let row = GameShowR { id: id as int, name: game_show.name@ };
            assert(self@.game_shows =~= m.game_shows.push(row));
            assert(self@ =~= m.with_game_show(game_show.name@));
            let sorted = |a: GameShowR, b: GameShowR| a.id < b.id;
            let bound_old = |g: GameShowR| 1 <= g.id < m.next_game_show_id;
            let bound_new = |g: GameShowR| 1 <= g.id < self@.next_game_show_id;
            assert forall|i: int| 0 <= i < m.game_shows.len() implies #[trigger] sorted(
                m.game_shows[i],
                row,
            ) by {
                assert(bound_old(m.game_shows[i]));
            }
            lemma_pairwise_push(m.game_shows, sorted, row);
            assert forall|i: int| 0 <= i < self@.game_shows.len() implies #[trigger] bound_new(
                self@.game_shows[i],
            ) by {
                if i < m.game_shows.len() {
                    assert(self@.game_shows[i] == m.game_shows[i]);
                    assert(bound_old(m.game_shows[i]));
                }
            }
            assert(all_rows(self@.game_shows, bound_new));
            lemma_members_fk_stable(m, self@);
            lemma_picks_fk_stable(m, self@);
            lemma_enrollments_fk_stable(m, self@);
        }
        Ok(())
    }

    /// `DELETE FROM game_shows WHERE game_show_id = $1`; an id that matches
    /// no row still succeeds, and matching junction rows are cascaded away.
    #[verifier::loop_isolation(false)]
    pub fn delete_game_show(&mut self, id: i32) -> (r: Result<(), StoreError>)
        requires
            old(self)@.wf(),
        ensures
            final(self)@.wf(),
            r is Ok <==> old(self)@.game_shows_table,
            r is Ok ==> final(self)@ == old(self)@.without_game_show(id as int),
            r is Err ==> final(self)@ == old(self)@ && r == Result::<(), StoreError>::Err(
                StoreError::TableMissing,
            ),
    {
        if !self.game_shows_table {
            return Err(StoreError::TableMissing);
        }
        let ghost m = self@;
        let ghost gpred = |g: GameShowR| g.id != id as int;
        let ghost epred = |e: EnrollmentR| e.game_show_id != id as int;
        let mut kept_shows: Vec<GameShowRow> = Vec::new();
        let mut i: usize = 0;
        while i < self.game_shows.len()
            invariant
                i <= self.game_shows.len(),
                kept_shows@.map_values(|r: GameShowRow| r@) == m.game_shows.take(i as int).filter(
                    gpred,
                ),
            decreases self.game_shows.len() - i,
        {
            proof {
                assert(m.game_shows.take(i as int + 1) =~= m.game_shows.take(i as int).push(
                    m.game_shows[i as int],
                ));
                m.game_shows.take(i as int).lemma_filter_push(m.game_shows[i as int], gpred);
            }
            let row = &self.game_shows[i];
            if row.id != id {
                kept_shows.push(row.clone());
            }
            proof {
                assert(kept_shows@.map_values(|r: GameShowRow| r@) =~= m.game_shows.take(
                    i as int + 1,
                ).filter(gpred));
            }
            i = i + 1;
        }
        let mut kept_enrollments: Vec<EnrollmentRow> = Vec::new();
        let mut j: usize = 0;
        while j < self.enrollments.len()
            invariant
                j <= self.enrollments.len(),
                kept_enrollments@.map_values(|r: EnrollmentRow| r@) == m.enrollments.take(
                    j as int,
                ).filter(epred),
            decreases self.enrollments.len() - j,
        {
            proof {
                assert(m.enrollments.take(j as int + 1) =~= m.enrollments.take(j as int).push(
                    m.enrollments[j as int],
                ));
                m.enrollments.take(j as int).lemma_filter_push(m.enrollments[j as int], epred);
            }
            let row = &self.enrollments[j];
            if row.game_show_id != id {
                kept_enrollments.push(row.clone());
            }
            proof {
                assert(kept_enrollments@.map_values(|r: EnrollmentRow| r@) =~= m.enrollments.take(
                    j as int + 1,
                ).filter(epred));
            }
            j = j + 1;
        }
        self.game_shows = kept_shows;
        self.enrollments = kept_enrollments;
        proof {
            assert(m.game_shows.take(m.game_shows.len() as int) =~= m.game_shows);
            assert(m.enrollments.take(m.enrollments.len() as int) =~= m.enrollments);
            assert(self@ =~= m.without_game_show(id as int));
            lemma_without_game_show_wf(m, id as int);
        }
        Ok(())
    }

    // -- contestants ----------------------------------------------------------

    /// `INSERT INTO contestants (name) VALUES ($1)`: only the name column is
    /// part of the statement; the record's other fields are ignored.
    pub fn create_contestant(&mut self, contestant: &Contestant) -> (r: Result<(), StoreError>)
        requires
            old(self)@.wf(),
        ensures
            final(self)@.wf(),
            r is Ok <==> old(self)@.can_insert_contestant(),
            r is Ok ==> final(self)@ == old(self)@.with_contestant(contestant.name@),
            r is Err ==> final(self)@ == old(self)@,
            !old(self)@.contestants_table ==> r == Result::<(), StoreError>::Err(
                StoreError::TableMissing,
            ),
            old(self)@.contestants_table && old(self)@.next_contestant_id == i32::MAX as int ==> r
                == Result::<(), StoreError>::Err(StoreError::IdsExhausted),
    {
        if !self.contestants_table {
            return Err(StoreError::TableMissing);
        }
        if self.next_contestant_id == i32::MAX {
            return Err(StoreError::IdsExhausted);
        }
        let ghost m = self@;
        let id = self.next_contestant_id;
        self.contestants.push(ContestantRow { id, name: contestant.name.clone() });
        self.next_contestant_id = id + 1;
        proof {
            let row = ContestantR { id: id as int, name: contestant.name@ };
            assert(self@.contestants =~= m.contestants.push(row));
            assert(self@ =~= m.with_contestant(contestant.name@));
            let sorted = |a: ContestantR, b: ContestantR| a.id < b.id;
            let bound_old = |c: ContestantR| 1 <= c.id < m.next_contestant_id;
            let bound_new = |c: ContestantR| 1 <= c.id < self@.next_contestant_id;
            assert forall|i: int| 0 <= i < m.contestants.len() implies #[trigger] sorted(
                m.contestants[i],
                row,
            ) by {
                assert(bound_old(m.contestants[i]));
            }
            lemma_pairwise_push(m.contestants, sorted, row);
            assert forall|i: int| 0 <= i < self@.contestants.len() implies #[trigger] bound_new(
                self@.contestants[i],
            ) by {
                if i < m.contestants.len() {
                    assert(self@.contestants[i] == m.contestants[i]);
                    assert(bound_old(m.contestants[i]));
                }
            }
            assert(all_rows(self@.contestants, bound_new));
            lemma_members_fk_stable(m, self@);
            lemma_picks_fk_stable(m, self@);
            lemma_enrollments_fk_stable(m, self@);
        }
        Ok(())
    }

    /// `SELECT contestant_id, name FROM contestants`, in insertion order,
    /// with the enrollment fields at their defaults.
    pub fn collect_all_contestants(&self) -> (r: Result<Vec<Contestant>, StoreError>)
        ensures
            self@.contestants_table ==> r is Ok,
            !self@.contestants_table ==> r == Result::<Vec<Contestant>, StoreError>::Err(
                StoreError::TableMissing,
            ),
            r matches Ok(list) ==> {
                &&& list@.len() == self@.contestants.len()
                &&& forall|i: int|
                    0 <= i < list@.len() ==> (#[trigger] list@[i])@ == spec_contestant_of(
                        self@.contestants[i],
                    )
            },
    {
        if !self.contestants_table {
            return Err(StoreError::TableMissing);
        }
        let mut out: Vec<Contestant> = Vec::new();
        let mut i: usize = 0;
        while i < self.contestants.len()
            invariant
                i <= self.contestants.len(),
                out@.len() == i,
                forall|k: int|
                    0 <= k < i as int ==> (#[trigger] out@[k])@ == spec_contestant_of(
                        self@.contestants[k],
                    ),
            decreases self.contestants.len() - i,
        {
            let row = &self.contestants[i];
            out.push(
                Contestant {
                    id: Some(row.id),
                    name: row.name.clone(),
                    id_showseason: None,
                    nickname: None,
                    round_number: -1,
                    was_medically_evacuated: false,
                },
            );
            i = i + 1;
        }
        Ok(out)
    }

    /// `SELECT ... FROM contestants WHERE name = $1` through a query that
    /// admits at most one row: no match is reported as not found, several
    /// matches as an unexpected number of rows.
    #[verifier::loop_isolation(false)]
    pub fn select_contestant_by_name(&self, name: String) -> (r: Result<Contestant, StoreError>)
        ensures
            !self@.contestants_table ==> r == Result::<Contestant, StoreError>::Err(
                StoreError::TableMissing,
            ),
            self@.contestants_table && self@.contestants_named(name@).len() == 0 ==> r
                == Result::<Contestant, StoreError>::Err(StoreError::NotFound),
            self@.contestants_table && self@.contestants_named(name@).len() == 1 ==> (r matches Ok(
                c,
            ) && c@ == spec_contestant_of(self@.contestants_named(name@)[0])),
            self@.contestants_table && self@.contestants_named(name@).len() > 1 ==> r
                == Result::<Contestant, StoreError>::Err(StoreError::Ambiguous),
    {
        if !self.contestants_table {
            return Err(StoreError::TableMissing);
        }
        let ghost m = self@;
        let ghost cpred = |c: ContestantR| c.name == name@;
        let mut count: usize = 0;
        let mut first: usize = 0;
        let mut found = false;
        let mut i: usize = 0;
        while i < self.contestants.len()
            invariant
                i <= self.contestants.len(),
                count as int == m.contestants.take(i as int).filter(cpred).len(),
                count <= i,
                found <==> count > 0,
                found ==> first < i && m.contestants.take(i as int).filter(cpred)[0]
                    == m.contestants[first as int],
            decreases self.contestants.len() - i,
        {
            proof {
                assert(m.contestants.take(i as int + 1) =~= m.contestants.take(i as int).push(
                    m.contestants[i as int],
                ));
                m.contestants.take(i as int).lemma_filter_push(m.contestants[i as int], cpred);
                if count == 0 {
                    assert(m.contestants.take(i as int).filter(cpred) =~= Seq::<
                        ContestantR,
                    >::empty());
                }
            }
            let row = &self.contestants[i];
            if row.name == name {
                if !found {
                    first = i;
                    found = true;
                }
                count = count + 1;
            }
            i = i + 1;
        }
        proof {
            assert(m.contestants.take(m.contestants.len() as int) =~= m.contestants);
        }
        if count == 0 {
            return Err(StoreError::NotFound);
        }
        if count > 1 {
            return Err(StoreError::Ambiguous);
        }
        let row = &self.contestants[first];
        Ok(
            Contestant {
                id: Some(row.id),
                name: row.name.clone(),
                id_showseason: None,
                nickname: None,
                round_number: -1,
                was_medically_evacuated: false,
            },
        )
    }

    /// `DELETE FROM contestants WHERE name = $1`: every row carrying the
    /// name goes, junction rows and picks of those contestants cascade away,
    /// and a name that matches nothing still succeeds.
    #[verifier::loop_isolation(false)]
    pub fn delete_contestant(&mut self, name: &str) -> (r: Result<(), StoreError>)
        requires
            old(self)@.wf(),
        ensures
            final(self)@.wf(),
            r is Ok <==> old(self)@.contestants_table,
            r is Ok ==> final(self)@ == old(self)@.without_contestants_named(name@),
            r is Err ==> final(self)@ == old(self)@ && r == Result::<(), StoreError>::Err(
                StoreError::TableMissing,
            ),
    {
        if !self.contestants_table {
            return Err(StoreError::TableMissing);
        }
        let name_owned: String = name.to_owned();
        let ghost m = self@;
        let ghost cpred = |c: ContestantR| c.name != name@;
        let ghost epred = |e: EnrollmentR| !m.contestant_named(e.contestant_id, name@);
        let ghost ppred = |p: PickR| !m.contestant_named(p.contestant_id, name@);
        let mut kept_contestants: Vec<ContestantRow> = Vec::new();
        let mut i: usize = 0;
        while i < self.contestants.len()
            invariant
                i <= self.contestants.len(),
                kept_contestants@.map_values(|r: ContestantRow| r@) == m.contestants.take(
                    i as int,
                ).filter(cpred),
            decreases self.contestants.len() - i,
        {
            proof {
                assert(m.contestants.take(i as int + 1) =~= m.contestants.take(i as int).push(
                    m.contestants[i as int],
                ));
                m.contestants.take(i as int).lemma_filter_push(m.contestants[i as int], cpred);
            }
            let row = &self.contestants[i];
            if !(row.name == name_owned) {
                kept_contestants.push(row.clone());
            }
            proof {
                assert(kept_contestants@.map_values(|r: ContestantRow| r@) =~= m.contestants.take(
                    i as int + 1,
                ).filter(cpred));
            }
            i = i + 1;
        }
        let mut kept_enrollments: Vec<EnrollmentRow> = Vec::new();
        let mut j: usize = 0;
        while j < self.enrollments.len()
            invariant
                j <= self.enrollments.len(),
                kept_enrollments@.map_values(|r: EnrollmentRow| r@) == m.enrollments.take(
                    j as int,
                ).filter(epred),
            decreases self.enrollments.len() - j,
        {
            proof {
                assert(m.enrollments.take(j as int + 1) =~= m.enrollments.take(j as int).push(
                    m.enrollments[j as int],
                ));
                m.enrollments.take(j as int).lemma_filter_push(m.enrollments[j as int], epred);
            }
            let cid = self.enrollments[j].contestant_id;
            let keep: bool = match self.find_contestant_idx(cid) {
                None => {
                    proof {
                        lemma_named_needs_row(m, cid as int, name@);
                    }
                    true
                },
                Some(k) => {
                    proof {
                        lemma_named_by_row(m, k as int, name@);
                    }
                    !(self.contestants[k].name == name_owned)
                },
            };
            proof {
                assert(keep == epred(m.enrollments[j as int]));
            }
            if keep {
                let row = &self.enrollments[j];
                kept_enrollments.push(row.clone());
            }
            proof {
                assert(kept_enrollments@.map_values(|r: EnrollmentRow| r@) =~= m.enrollments.take(
                    j as int + 1,
                ).filter(epred));
            }
            j = j + 1;
        }
        let mut kept_picks: Vec<PickRow> = Vec::new();
        let mut n: usize = 0;
        while n < self.picks.len()
            invariant
                n <= self.picks.len(),
                kept_picks@.map_values(|r: PickRow| r@) == m.picks.take(n as int).filter(ppred),
            decreases self.picks.len() - n,
        {
            proof {
                assert(m.picks.take(n as int + 1) =~= m.picks.take(n as int).push(
                    m.picks[n as int],
                ));
                m.picks.take(n as int).lemma_filter_push(m.picks[n as int], ppred);
            }
            let cid = self.picks[n].contestant_id;
            let keep: bool = match self.find_contestant_idx(cid) {
                None => {
                    proof {
                        lemma_named_needs_row(m, cid as int, name@);
                    }
                    true
                },
                Some(k) => {
                    proof {
                        lemma_named_by_row(m, k as int, name@);
                    }
                    !(self.contestants[k].name == name_owned)
                },
            };
            proof {
                assert(keep == ppred(m.picks[n as int]));
            }
            if keep {
                let row = &self.picks[n];
                kept_picks.push(row.clone());
            }
            proof {
                assert(kept_picks@.map_values(|r: PickRow| r@) =~= m.picks.take(n as int + 1)
                    .filter(ppred));
            }
            n = n + 1;
        }
        self.contestants = kept_contestants;
        self.enrollments = kept_enrollments;
        self.picks = kept_picks;
        proof {
            assert(m.contestants.take(m.contestants.len() as int) =~= m.contestants);
            assert(m.enrollments.take(m.enrollments.len() as int) =~= m.enrollments);
            assert(m.picks.take(m.picks.len() as int) =~= m.picks);
            assert(self@ =~= m.without_contestants_named(name@));
            lemma_without_contestants_named_wf(m, name@);
        }
        Ok(())
    }

    // -- enrollments ----------------------------------------------------------

    /// `INSERT INTO game_show_contestants (contestant_id, game_show_id,
    /// nickname) VALUES ($1, $2, $3)`: both parents must exist and the
    /// pairing must be new; round and medevac flag start at their defaults.
    pub fn enter_contestant_onto_show(
        &mut self,
        contestant_id: i32,
        game_show_id: i32,
        nickname: String,
    ) -> (r: Result<(), StoreError>)
        requires
            old(self)@.wf(),
        ensures
            final(self)@.wf(),
            r is Ok <==> old(self)@.can_enroll(contestant_id as int, game_show_id as int),
            r is Ok ==> final(self)@ == old(self)@.with_enrollment(
                contestant_id as int,
                game_show_id as int,
                nickname@,
            ),
            r is Err ==> final(self)@ == old(self)@,
            !old(self)@.enrollments_table ==> r == Result::<(), StoreError>::Err(
                StoreError::TableMissing,
            ),
            old(self)@.enrollments_table && !(has_contestant(
                old(self)@.contestants,
                contestant_id as int,
            ) && has_game_show(old(self)@.game_shows, game_show_id as int)) ==> r
                == Result::<(), StoreError>::Err(StoreError::MissingReference),
            old(self)@.enrollments_table && has_contestant(
                old(self)@.contestants,
                contestant_id as int,
            ) && has_game_show(old(self)@.game_shows, game_show_id as int) && enrolled(
                old(self)@.enrollments,
                contestant_id as int,
                game_show_id as int,
            ) ==> r == Result::<(), StoreError>::Err(StoreError::DuplicateKey),
    {
        if !self.enrollments_table {
            return Err(StoreError::TableMissing);
        }
        let has_c: bool = match self.find_contestant_idx(contestant_id) {
            Some(k) => {
                proof {
                    assert(has_contestant(self@.contestants, contestant_id as int));
                }
                true
            },
            None => false,
        };
        let has_g: bool = match self.find_game_show_idx(game_show_id) {
            Some(k) => {
                proof {
                    assert(has_game_show(self@.game_shows, game_show_id as int));
                }
                true
            },
            None => false,
        };
        if !has_c || !has_g {
            return Err(StoreError::MissingReference);
        }
        match self.find_enrollment_idx(contestant_id, game_show_id) {
            Some(_) => Err(StoreError::DuplicateKey),
            None => {
                let ghost m = self@;
                self.enrollments.push(
                    EnrollmentRow {
                        contestant_id,
                        game_show_id,
                        nickname,
                        eliminated_on_round: -1,
                        was_medically_evacuated: false,
                    },
                );
                proof {
                    let row = self.enrollments@.last()@;
                    assert(self@.enrollments =~= m.enrollments.push(row));
                    assert(self@ =~= m.with_enrollment(
                        contestant_id as int,
                        game_show_id as int,
                        row.nickname,
                    ));
                    assert(self@ == m.with_enrollment(
                        contestant_id as int,
                        game_show_id as int,
                        nickname@,
                    ));
                    let keys = |a: EnrollmentR, b: EnrollmentR| distinct_enrollment_keys(a, b);
                    assert forall|i: int| 0 <= i < m.enrollments.len() implies #[trigger] keys(
                        m.enrollments[i],
                        row,
                    ) by {
                        assert(!(m.enrollments[i].contestant_id == contestant_id as int
                            && m.enrollments[i].game_show_id == game_show_id as int));
                    }
                    lemma_pairwise_push(m.enrollments, keys, row);
                    let efk = |e: EnrollmentR| has_contestant(self@.contestants, e.contestant_id)
                        && has_game_show(self@.game_shows, e.game_show_id);
                    let efk_old = |e: EnrollmentR| has_contestant(m.contestants, e.contestant_id)
                        && has_game_show(m.game_shows, e.game_show_id);
                    assert forall|i: int| 0 <= i < self@.enrollments.len() implies #[trigger] efk(
                        self@.enrollments[i],
                    ) by {
                        if i < m.enrollments.len() {
                            assert(self@.enrollments[i] == m.enrollments[i]);
                            assert(efk_old(m.enrollments[i]));
                        } else {
                            assert(self@.enrollments[i] == row);
                        }
                    }
                    assert(all_rows(self@.enrollments, efk));
                    lemma_members_fk_stable(m, self@);
                    lemma_picks_fk_stable(m, self@);
                }
                Ok(())
            },
        }
    }

    /// `UPDATE game_show_contestants SET eliminated_on_round = $1 WHERE
    /// contestant_id = $2 AND game_show_id = $3`; a pairing that is not
    /// enrolled is rejected, so a medevac can never precede an elimination.
    #[verifier::loop_isolation(false)]
    pub fn eliminate_contestant_from_show(
        &mut self,
        contestant_id: i32,
        game_show_id: i32,
        round_number: i32,
    ) -> (r: Result<(), StoreError>)
        requires
            old(self)@.wf(),
        ensures
            final(self)@.wf(),
            r is Ok <==> old(self)@.can_update_enrollment(contestant_id as int, game_show_id as int),
            r is Ok ==> final(self)@ == old(self)@.with_elimination(
                contestant_id as int,
                game_show_id as int,
                round_number as int,
            ),
            r is Err ==> final(self)@ == old(self)@,
            !old(self)@.enrollments_table ==> r == Result::<(), StoreError>::Err(
                StoreError::TableMissing,
            ),
            old(self)@.enrollments_table && !enrolled(
                old(self)@.enrollments,
                contestant_id as int,
                game_show_id as int,
            ) ==> r == Result::<(), StoreError>::Err(StoreError::NotEnrolled),
    {
        if !self.enrollments_table {
            return Err(StoreError::TableMissing);
        }
        match self.find_enrollment_idx(contestant_id, game_show_id) {
            None => Err(StoreError::NotEnrolled),
            Some(found) => {
                proof {
                    assert(self@.enrollments[found as int].contestant_id == contestant_id as int);
                    assert(enrolled(
                        self@.enrollments,
                        contestant_id as int,
                        game_show_id as int,
                    ));
                }
                let ghost m = self@;
                let ghost updf = |e: EnrollmentR|
                    if e.contestant_id == contestant_id as int && e.game_show_id
                        == game_show_id as int {
                        EnrollmentR { eliminated_on_round: round_number as int, ..e }
                    } else {
                        e
                    };
                let mut updated: Vec<EnrollmentRow> = Vec::new();
                let mut i: usize = 0;
                while i < self.enrollments.len()
                    invariant
                        i <= self.enrollments.len(),
                        updated@.len() == i as int,
                        forall|k: int|
                            0 <= k < i as int ==> (#[trigger] updated@[k])@ == updf(
                                m.enrollments[k],
                            ),
                    decreases self.enrollments.len() - i,
                {
                    let row = &self.enrollments[i];
                    if row.contestant_id == contestant_id && row.game_show_id == game_show_id {
                        updated.push(
                            EnrollmentRow {
                                contestant_id: row.contestant_id,
                                game_show_id: row.game_show_id,
                                nickname: row.nickname.clone(),
                                eliminated_on_round: round_number,
                                was_medically_evacuated: row.was_medically_evacuated,
                            },
                        );
                    } else {
                        updated.push(row.clone());
                    }
                    proof {
                        assert(updf(m.enrollments[i as int]) == updated@[i as int]@);
                    }
                    i = i + 1;
                }
                self.enrollments = updated;
                proof {
                    assert(self@.enrollments =~= m.enrollments.map_values(updf));
                    assert(self@ =~= m.with_elimination(
                        contestant_id as int,
                        game_show_id as int,
                        round_number as int,
                    ));
                    lemma_enrollment_update_wf(m, self@, updf);
                }
                Ok(())
            },
        }
    }

    /// `UPDATE game_show_contestants SET was_medically_evacuated = TRUE WHERE
    /// contestant_id = $1 AND game_show_id = $2`; a pairing that is not
    /// enrolled is rejected.
    #[verifier::loop_isolation(false)]
    pub fn medically_evacuate_contestant_from_show(
        &mut self,
        contestant_id: i32,
        game_show_id: i32,
    ) -> (r: Result<(), StoreError>)
        requires
            old(self)@.wf(),
        ensures
            final(self)@.wf(),
            r is Ok <==> old(self)@.can_update_enrollment(contestant_id as int, game_show_id as int),
            r is Ok ==> final(self)@ == old(self)@.with_medevac(
                contestant_id as int,
                game_show_id as int,
            ),
            r is Err ==> final(self)@ == old(self)@,
            !old(self)@.enrollments_table ==> r == Result::<(), StoreError>::Err(
                StoreError::TableMissing,
            ),
            old(self)@.enrollments_table && !enrolled(
                old(self)@.enrollments,
                contestant_id as int,
                game_show_id as int,
            ) ==> r == Result::<(), StoreError>::Err(StoreError::NotEnrolled),
    {
        if !self.enrollments_table {
            return Err(StoreError::TableMissing);
        }
        match self.find_enrollment_idx(contestant_id, game_show_id) {
            None => Err(StoreError::NotEnrolled),
            Some(found) => {
                proof {
                    assert(self@.enrollments[found as int].contestant_id == contestant_id as int);
                    assert(enrolled(
                        self@.enrollments,
                        contestant_id as int,
                        game_show_id as int,
                    ));
                }
                let ghost m = self@;
                let ghost updf = |e: EnrollmentR|
                    if e.contestant_id == contestant_id as int && e.game_show_id
                        == game_show_id as int {
                        EnrollmentR { was_medically_evacuated: true, ..e }
                    } else {
                        e
                    };
                let mut updated: Vec<EnrollmentRow> = Vec::new();
                let mut i: usize = 0;
                while i < self.enrollments.len()
                    invariant
                        i <= self.enrollments.len(),
                        updated@.len() == i as int,
                        forall|k: int|
                            0 <= k < i as int ==> (#[trigger] updated@[k])@ == updf(
                                m.enrollments[k],
                            ),
                    decreases self.enrollments.len() - i,
                {
                    let row = &self.enrollments[i];
                    if row.contestant_id == contestant_id && row.game_show_id == game_show_id {
                        updated.push(
                            EnrollmentRow {
                                contestant_id: row.contestant_id,
                                game_show_id: row.game_show_id,
                                nickname: row.nickname.clone(),
                                eliminated_on_round: row.eliminated_on_round,
                                was_medically_evacuated: true,
                            },
                        );
                    } else {
                        updated.push(row.clone());
                    }
                    proof {
                        assert(updf(m.enrollments[i as int]) == updated@[i as int]@);
                    }
                    i = i + 1;
                }
                self.enrollments = updated;
                proof {
                    assert(self@.enrollments =~= m.enrollments.map_values(updf));
                    assert(self@ =~= m.with_medevac(contestant_id as int, game_show_id as int));
                    lemma_enrollment_update_wf(m, self@, updf);
                }
                Ok(())
            },
        }
    }

    /// The contestants-on-show join: every junction row of the show, each
    /// paired with its contestant's name, in insertion order.
    #[verifier::loop_isolation(false)]
    pub fn fetch_contestants_on_show(&self, game_show_id: i32) -> (r: Result<
        Vec<Contestant>,
        StoreError,
    >)
        requires
            self@.wf(),
        ensures
            self@.contestants_table && self@.enrollments_table ==> r is Ok,
            !(self@.contestants_table && self@.enrollments_table) ==> r == Result::<
                Vec<Contestant>,
                StoreError,
            >::Err(StoreError::TableMissing),
            r matches Ok(list) ==> {
                &&& list@.len() == self@.enrollments_on(game_show_id as int).len()
                &&& forall|i: int|
                    0 <= i < list@.len() ==> (#[trigger] list@[i])@ == spec_enrolled_contestant_of(
                        self@,
                        self@.enrollments_on(game_show_id as int)[i],
                    )
            },
    {
        if !self.contestants_table || !self.enrollments_table {
            return Err(StoreError::TableMissing);
        }
        let ghost m = self@;
        let ghost epred = |e: EnrollmentR| e.game_show_id == game_show_id as int;
        let mut out: Vec<Contestant> = Vec::new();
        let mut j: usize = 0;
        while j < self.enrollments.len()
            invariant
                j <= self.enrollments.len(),
                out@.len() == m.enrollments.take(j as int).filter(epred).len(),
                forall|k: int|
                    0 <= k < out@.len() ==> (#[trigger] out@[k])@ == spec_enrolled_contestant_of(
                        m,
                        m.enrollments.take(j as int).filter(epred)[k],
                    ),
            decreases self.enrollments.len() - j,
        {
            proof {
                assert(m.enrollments.take(j as int + 1) =~= m.enrollments.take(j as int).push(
                    m.enrollments[j as int],
                ));
                m.enrollments.take(j as int).lemma_filter_push(m.enrollments[j as int], epred);
                m.enrollments.take(j as int).lemma_filter_len(epred);
            }
            let row = &self.enrollments[j];
            if row.game_show_id == game_show_id {
                let cid = row.contestant_id;
                match self.find_contestant_idx(cid) {
                    None => {
                        proof {
                            let efk = |e: EnrollmentR| has_contestant(
                                m.contestants,
                                e.contestant_id,
                            ) && has_game_show(m.game_shows, e.game_show_id);
                            assert(efk(m.enrollments[j as int]));
                            assert(false);
                        }
                        return Err(StoreError::TableMissing);
                    },
                    Some(k) => {
                        proof {
                            lemma_contestant_name_at(m.contestants, k as int);
                        }
                        let named = &self.contestants[k];
                        out.push(
                            Contestant {
                                id: Some(cid),
                                name: named.name.clone(),
                                id_showseason: Some(game_show_id),
                                nickname: Some(row.nickname.clone()),
                                round_number: row.eliminated_on_round,
                                was_medically_evacuated: row.was_medically_evacuated,
                            },
                        );
                    },
                }
            }
            j = j + 1;
        }
        proof {
            assert(m.enrollments.take(m.enrollments.len() as int) =~= m.enrollments);
        }
        Ok(out)
    }

    // -- leagues --------------------------------------------------------------

    /// `SELECT id, name, id_showseason FROM leagues WHERE id_showseason =
    /// $1`, in insertion order; a league whose season column is null never
    /// matches.
    #[verifier::loop_isolation(false)]
    pub fn collect_leagues(&self, id_show_season: i32) -> (r: Result<Vec<League>, StoreError>)
        ensures
            self@.leagues_table ==> r is Ok,
            !self@.leagues_table ==> r == Result::<Vec<League>, StoreError>::Err(
                StoreError::TableMissing,
            ),
            r matches Ok(list) ==> {
                &&& list@.len() == self@.leagues_for(id_show_season as int).len()
                &&& forall|i: int|
                    0 <= i < list@.len() ==> (#[trigger] list@[i])@ == spec_league_of(
                        self@.leagues_for(id_show_season as int)[i],
                    )
            },
    {
        if !self.leagues_table {
            return Err(StoreError::TableMissing);
        }
        let ghost m = self@;
        let ghost lpred = |l: LeagueR| l.id_showseason == Some(id_show_season as int);
        let mut out: Vec<League> = Vec::new();
        let mut i: usize = 0;
        while i < self.leagues.len()
            invariant
                i <= self.leagues.len(),
                out@.len() == m.leagues.take(i as int).filter(lpred).len(),
                forall|k: int|
                    0 <= k < out@.len() ==> (#[trigger] out@[k])@ == spec_league_of(
                        m.leagues.take(i as int).filter(lpred)[k],
                    ),
            decreases self.leagues.len() - i,
        {
            proof {
                assert(m.leagues.take(i as int + 1) =~= m.leagues.take(i as int).push(
                    m.leagues[i as int],
                ));
                m.leagues.take(i as int).lemma_filter_push(m.leagues[i as int], lpred);
            }
            let row = &self.leagues[i];
            let matches_season: bool = match row.id_showseason {
                Some(s) => s == id_show_season,
                None => false,
            };
            if matches_season {
                out.push(
                    League {
                        id: Some(row.id),
                        name: row.name.clone(),
                        id_showseason: row.id_showseason,
                    },
                );
            }
            i = i + 1;
        }
        proof {
            assert(m.leagues.take(m.leagues.len() as int) =~= m.leagues);
        }
        Ok(out)
    }

    /// `INSERT INTO leagues (name, id_showseason) VALUES ($1, $2)`: the
    /// record's own identifier is ignored; its season may be null.
    pub fn create_league(&mut self, league: &League) -> (r: Result<(), StoreError>)
        requires
            old(self)@.wf(),
        ensures
            final(self)@.wf(),
            r is Ok <==> old(self)@.can_insert_league(),
            r is Ok ==> final(self)@ == old(self)@.with_league(
                league.name@,
                crate::records::opt_int(league.id_showseason),
            ),
            r is Err ==> final(self)@ == old(self)@,
            !old(self)@.leagues_table ==> r == Result::<(), StoreError>::Err(
                StoreError::TableMissing,
            ),
            old(self)@.leagues_table && old(self)@.next_league_id == i32::MAX as int ==> r
                == Result::<(), StoreError>::Err(StoreError::IdsExhausted),
    {
        if !self.leagues_table {
            return Err(StoreError::TableMissing);
        }
        if self.next_league_id == i32::MAX {
            return Err(StoreError::IdsExhausted);
        }
        let ghost m = self@;
        let id = self.next_league_id;
        self.leagues.push(
            LeagueRow { id, name: league.name.clone(), id_showseason: league.id_showseason },
        );
        self.next_league_id = id + 1;
        proof {
            let row = LeagueR {
                id: id as int,
                name: league.name@,
                id_showseason: crate::records::opt_int(league.id_showseason),
            };
            assert(self@.leagues =~= m.leagues.push(row));
            assert(self@ =~= m.with_league(
                league.name@,
                crate::records::opt_int(league.id_showseason),
            ));
            let sorted = |a: LeagueR, b: LeagueR| a.id < b.id;
            let bound_old = |l: LeagueR| 1 <= l.id < m.next_league_id;
            let bound_new = |l: LeagueR| 1 <= l.id < self@.next_league_id;
            assert forall|i: int| 0 <= i < m.leagues.len() implies #[trigger] sorted(
                m.leagues[i],
                row,
            ) by {
                assert(bound_old(m.leagues[i]));
            }
            lemma_pairwise_push(m.leagues, sorted, row);
            assert forall|i: int| 0 <= i < self@.leagues.len() implies #[trigger] bound_new(
                self@.leagues[i],
            ) by {
                if i < m.leagues.len() {
                    assert(self@.leagues[i] == m.leagues[i]);
                    assert(bound_old(m.leagues[i]));
                }
            }
            assert(all_rows(self@.leagues, bound_new));
            lemma_members_fk_stable(m, self@);
            lemma_picks_fk_stable(m, self@);
            lemma_enrollments_fk_stable(m, self@);
        }
        Ok(())
    }

    /// `DELETE FROM leagues WHERE id = $1`; an id that matches no row still
    /// succeeds, and memberships and picks of a deleted league cascade away.
    #[verifier::loop_isolation(false)]
    pub fn delete_league(&mut self, id: i32) -> (r: Result<(), StoreError>)
        requires
            old(self)@.wf(),
        ensures
            final(self)@.wf(),
            r is Ok <==> old(self)@.leagues_table,
            r is Ok ==> final(self)@ == old(self)@.without_league(id as int),
            r is Err ==> final(self)@ == old(self)@ && r == Result::<(), StoreError>::Err(
                StoreError::TableMissing,
            ),
    {
        if !self.leagues_table {
            return Err(StoreError::TableMissing);
        }
        let ghost m = self@;
        let ghost lpred = |l: LeagueR| l.id != id as int;
        let ghost mpred = |mb: MemberR| mb.league_id != id as int;
        let ghost ppred = |p: PickR| p.league_id != id as int;
        let mut kept_leagues: Vec<LeagueRow> = Vec::new();
        let mut i: usize = 0;
        while i < self.leagues.len()
            invariant
                i <= self.leagues.len(),
                kept_leagues@.map_values(|r: LeagueRow| r@) == m.leagues.take(i as int).filter(
                    lpred,
                ),
            decreases self.leagues.len() - i,
        {
            proof {
                assert(m.leagues.take(i as int + 1) =~= m.leagues.take(i as int).push(
                    m.leagues[i as int],
                ));
                m.leagues.take(i as int).lemma_filter_push(m.leagues[i as int], lpred);
            }
            let row = &self.leagues[i];
            if row.id != id {
                kept_leagues.push(row.clone());
            }
            proof {
                assert(kept_leagues@.map_values(|r: LeagueRow| r@) =~= m.leagues.take(i as int + 1)
                    .filter(lpred));
            }
            i = i + 1;
        }
        let mut kept_members: Vec<MemberRow> = Vec::new();
        let mut j: usize = 0;
        while j < self.members.len()
            invariant
                j <= self.members.len(),
                kept_members@.map_values(|r: MemberRow| r@) == m.members.take(j as int).filter(
                    mpred,
                ),
            decreases self.members.len() - j,
        {
            proof {
                assert(m.members.take(j as int + 1) =~= m.members.take(j as int).push(
                    m.members[j as int],
                ));
                m.members.take(j as int).lemma_filter_push(m.members[j as int], mpred);
            }
            let row = &self.members[j];
            if row.league_id != id {
                kept_members.push(row.clone());
            }
            proof {
                assert(kept_members@.map_values(|r: MemberRow| r@) =~= m.members.take(j as int + 1)
                    .filter(mpred));
            }
            j = j + 1;
        }
        let mut kept_picks: Vec<PickRow> = Vec::new();
        let mut n: usize = 0;
        while n < self.picks.len()
            invariant
                n <= self.picks.len(),
                kept_picks@.map_values(|r: PickRow| r@) == m.picks.take(n as int).filter(ppred),
            decreases self.picks.len() - n,
        {
            proof {
                assert(m.picks.take(n as int + 1) =~= m.picks.take(n as int).push(
                    m.picks[n as int],
                ));
                m.picks.take(n as int).lemma_filter_push(m.picks[n as int], ppred);
            }
            let row = &self.picks[n];
            if row.league_id != id {
                kept_picks.push(row.clone());
            }
            proof {
                assert(kept_picks@.map_values(|r: PickRow| r@) =~= m.picks.take(n as int + 1)
                    .filter(ppred));
            }
            n = n + 1;
        }
        self.leagues = kept_leagues;
        self.members = kept_members;
        self.picks = kept_picks;
        proof {
            assert(m.leagues.take(m.leagues.len() as int) =~= m.leagues);
            assert(m.members.take(m.members.len() as int) =~= m.members);
            assert(m.picks.take(m.picks.len() as int) =~= m.picks);
            assert(self@ =~= m.without_league(id as int));
            lemma_without_league_wf(m, id as int);
        }
        Ok(())
    }

    // -- league memberships ---------------------------------------------------

    /// `INSERT INTO league_members (league_id, user_id) VALUES ($1, $2)`:
    /// both parents must exist and the pairing is unique.
    pub fn add_user_to_league(&mut self, user_id: i32, league_id: i32) -> (r: Result<
        (),
        StoreError,
    >)
        requires
            old(self)@.wf(),
        ensures
            final(self)@.wf(),
            r is Ok <==> old(self)@.can_add_member(league_id as int, user_id as int),
            r is Ok ==> final(self)@ == old(self)@.with_member(league_id as int, user_id as int),
            r is Err ==> final(self)@ == old(self)@,
            !old(self)@.members_table ==> r == Result::<(), StoreError>::Err(
                StoreError::TableMissing,
            ),
            old(self)@.members_table && !(has_league(old(self)@.leagues, league_id as int)
                && has_user(old(self)@.users, user_id as int)) ==> r == Result::<(),
                StoreError,
            >::Err(StoreError::MissingReference),
            old(self)@.members_table && has_league(old(self)@.leagues, league_id as int)
                && has_user(old(self)@.users, user_id as int) && is_member(
                old(self)@.members,
                league_id as int,
                user_id as int,
            ) ==> r == Result::<(), StoreError>::Err(StoreError::DuplicateKey),
            old(self)@.members_table && has_league(old(self)@.leagues, league_id as int)
                && has_user(old(self)@.users, user_id as int) && !is_member(
                old(self)@.members,
                league_id as int,
                user_id as int,
            ) && old(self)@.next_member_id == i32::MAX as int ==> r == Result::<(),
                StoreError,
            >::Err(StoreError::IdsExhausted),
    {
        if !self.members_table {
            return Err(StoreError::TableMissing);
        }
        let has_l: bool = match self.find_league_idx(league_id) {
            Some(k) => {
                proof {
                    assert(has_league(self@.leagues, league_id as int));
                }
                true
            },
            None => false,
        };
        let has_u: bool = match self.find_user_idx(user_id) {
            Some(k) => {
                proof {
                    assert(has_user(self@.users, user_id as int));
                }
                true
            },
            None => false,
        };
        if !has_l || !has_u {
            return Err(StoreError::MissingReference);
        }
        match self.find_member_idx(league_id, user_id) {
            Some(_) => Err(StoreError::DuplicateKey),
            None => {
                if self.next_member_id == i32::MAX {
                    return Err(StoreError::IdsExhausted);
                }
                let ghost m = self@;
                let id = self.next_member_id;
                self.members.push(MemberRow { id, league_id, user_id });
                self.next_member_id = id + 1;
                proof {
                    let row = MemberR {
                        id: id as int,
                        league_id: league_id as int,
                        user_id: user_id as int,
                    };
                    assert(self@.members =~= m.members.push(row));
                    assert(self@ =~= m.with_member(league_id as int, user_id as int));
                    let sorted = |a: MemberR, b: MemberR| a.id < b.id;
                    let keys = |a: MemberR, b: MemberR| distinct_member_keys(a, b);
                    let bound_old = |mb: MemberR| 1 <= mb.id < m.next_member_id;
                    let bound_new = |mb: MemberR| 1 <= mb.id < self@.next_member_id;
                    assert forall|i: int| 0 <= i < m.members.len() implies #[trigger] sorted(
                        m.members[i],
                        row,
                    ) by {
                        assert(bound_old(m.members[i]));
                    }
                    assert forall|i: int| 0 <= i < m.members.len() implies #[trigger] keys(
                        m.members[i],
                        row,
                    ) by {
                        assert(!(m.members[i].league_id == league_id as int
                            && m.members[i].user_id == user_id as int));
                    }
                    lemma_pairwise_push(m.members, sorted, row);
                    lemma_pairwise_push(m.members, keys, row);
                    assert forall|i: int| 0 <= i < self@.members.len() implies #[trigger]
                    bound_new(self@.members[i]) by {
                        if i < m.members.len() {
                            assert(self@.members[i] == m.members[i]);
                            assert(bound_old(m.members[i]));
                        }
                    }
                    assert(all_rows(self@.members, bound_new));
                    let mfk_old = |mb: MemberR| has_league(m.leagues, mb.league_id) && has_user(
                        m.users,
                        mb.user_id,
                    );
                    let mfk_new = |mb: MemberR| has_league(self@.leagues, mb.league_id)
                        && has_user(self@.users, mb.user_id);
                    assert forall|i: int| 0 <= i < self@.members.len() implies #[trigger] mfk_new(
                        self@.members[i],
                    ) by {
                        if i < m.members.len() {
                            assert(self@.members[i] == m.members[i]);
                            assert(mfk_old(m.members[i]));
                        } else {
                            assert(self@.members[i] == row);
                        }
                    }
                    assert(all_rows(self@.members, mfk_new));
                    lemma_picks_fk_stable(m, self@);
                    lemma_enrollments_fk_stable(m, self@);
                }
                Ok(())
            },
        }
    }

    /// `DELETE FROM league_members WHERE user_id = $1 AND league_id = $2`; a
    /// pairing that matches no row still succeeds.
    #[verifier::loop_isolation(false)]
    pub fn remove_user_from_league(&mut self, user_id: i32, league_id: i32) -> (r: Result<
        (),
        StoreError,
    >)
        requires
            old(self)@.wf(),
        ensures
            final(self)@.wf(),
            r is Ok <==> old(self)@.members_table,
            r is Ok ==> final(self)@ == old(self)@.without_member(
                league_id as int,
                user_id as int,
            ),
            r is Err ==> final(self)@ == old(self)@ && r == Result::<(), StoreError>::Err(
                StoreError::TableMissing,
            ),
    {
        if !self.members_table {
            return Err(StoreError::TableMissing);
        }
        let ghost m = self@;
        let ghost mpred = |mb: MemberR|
            !(mb.league_id == league_id as int && mb.user_id == user_id as int);
        let mut kept_members: Vec<MemberRow> = Vec::new();
        let mut j: usize = 0;
        while j < self.members.len()
            invariant
                j <= self.members.len(),
                kept_members@.map_values(|r: MemberRow| r@) == m.members.take(j as int).filter(
                    mpred,
                ),
            decreases self.members.len() - j,
        {
            proof {
                assert(m.members.take(j as int + 1) =~= m.members.take(j as int).push(
                    m.members[j as int],
                ));
                m.members.take(j as int).lemma_filter_push(m.members[j as int], mpred);
            }
            let row = &self.members[j];
            if !(row.league_id == league_id && row.user_id == user_id) {
                kept_members.push(row.clone());
            }
            proof {
                assert(kept_members@.map_values(|r: MemberRow| r@) =~= m.members.take(j as int + 1)
                    .filter(mpred));
            }
            j = j + 1;
        }
        self.members = kept_members;
        proof {
            assert(m.members.take(m.members.len() as int) =~= m.members);
            assert(self@ =~= m.without_member(league_id as int, user_id as int));
            lemma_filter_pairwise(m.members, mpred, |a: MemberR, b: MemberR| a.id < b.id);
            lemma_filter_all(m.members, mpred, |mb: MemberR| 1 <= mb.id < m.next_member_id);
            lemma_filter_pairwise(
                m.members,
                mpred,
                |a: MemberR, b: MemberR| distinct_member_keys(a, b),
            );
            lemma_filter_elements(m.members, mpred);
            let mfk_old = |mb: MemberR| has_league(m.leagues, mb.league_id) && has_user(
                m.users,
                mb.user_id,
            );
            let mfk_new = |mb: MemberR| has_league(self@.leagues, mb.league_id) && has_user(
                self@.users,
                mb.user_id,
            );
            assert forall|k: int| 0 <= k < self@.members.len() implies #[trigger] mfk_new(
                self@.members[k],
            ) by {
                let mb = self@.members[k];
                assert(m.members.contains(mb));
                let w = choose|w: int| 0 <= w < m.members.len() && m.members[w] == mb;
                assert(mfk_old(m.members[w]));
            }
            assert(all_rows(self@.members, mfk_new));
            lemma_picks_fk_stable(m, self@);
            lemma_enrollments_fk_stable(m, self@);
        }
        Ok(())
    }

    // -- picks ----------------------------------------------------------------

    /// The pick upsert: `INSERT INTO league_picks ... ON CONFLICT (league_id,
    /// user_id, contestant_id, round_number) DO UPDATE SET rank_pick =
    /// EXCLUDED.rank_pick`.
    #[verifier::loop_isolation(false)]
    pub fn set_league_pick(
        &mut self,
        league_id: i32,
        user_id: i32,
        round_number: i32,
        contestant_id: i32,
        rank_pick: i32,
    ) -> (r: Result<(), StoreError>)
        requires
            old(self)@.wf(),
        ensures
            final(self)@.wf(),
            r is Ok <==> old(self)@.can_set_pick(
                league_id as int,
                user_id as int,
                round_number as int,
                contestant_id as int,
            ),
            r is Ok ==> final(self)@ == old(self)@.with_pick(
                league_id as int,
                user_id as int,
                round_number as int,
                contestant_id as int,
                rank_pick as int,
            ),
            r is Err ==> final(self)@ == old(self)@,
            !old(self)@.picks_table ==> r == Result::<(), StoreError>::Err(
                StoreError::TableMissing,
            ),
            old(self)@.picks_table && !(has_league(old(self)@.leagues, league_id as int)
                && has_user(old(self)@.users, user_id as int) && has_contestant(
                old(self)@.contestants,
                contestant_id as int,
            )) ==> r == Result::<(), StoreError>::Err(StoreError::MissingReference),
    {
        if !self.picks_table {
            return Err(StoreError::TableMissing);
        }
        let has_l: bool = match self.find_league_idx(league_id) {
            Some(k) => {
                proof {
                    assert(has_league(self@.leagues, league_id as int));
                }
                true
            },
            None => false,
        };
        let has_u: bool = match self.find_user_idx(user_id) {
            Some(k) => {
                proof {
                    assert(has_user(self@.users, user_id as int));
                }
                true
            },
            None => false,
        };
        let has_c: bool = match self.find_contestant_idx(contestant_id) {
            Some(k) => {
                proof {
                    assert(has_contestant(self@.contestants, contestant_id as int));
                }
                true
            },
            None => false,
        };
        if !has_l || !has_u || !has_c {
            return Err(StoreError::MissingReference);
        }
        match self.find_pick_idx(league_id, user_id, round_number, contestant_id) {
            Some(found) => {
                proof {
                    assert(self@.picks[found as int].league_id == league_id as int);
                    assert(has_pick(
                        self@.picks,
                        league_id as int,
                        user_id as int,
                        round_number as int,
                        contestant_id as int,
                    ));
                }
                let ghost m = self@;
                let ghost updf = |p: PickR|
                    if p.league_id == league_id as int && p.user_id == user_id as int
                        && p.round_number == round_number as int && p.contestant_id
                        == contestant_id as int {
                        PickR { rank_pick: rank_pick as int, ..p }
                    } else {
                        p
                    };
                let mut updated: Vec<PickRow> = Vec::new();
                let mut i: usize = 0;
                while i < self.picks.len()
                    invariant
                        i <= self.picks.len(),
                        updated@.len() == i as int,
                        forall|k: int|
                            0 <= k < i as int ==> (#[trigger] updated@[k])@ == updf(m.picks[k]),
                    decreases self.picks.len() - i,
                {
                    let row = &self.picks[i];
                    if row.league_id == league_id && row.user_id == user_id && row.round_number
                        == round_number && row.contestant_id == contestant_id {
                        updated.push(
                            PickRow {
                                id: row.id,
                                league_id: row.league_id,
                                user_id: row.user_id,
                                round_number: row.round_number,
                                contestant_id: row.contestant_id,
                                rank_pick,
                            },
                        );
                    } else {
                        updated.push(row.clone());
                    }
                    proof {
                        assert(updf(m.picks[i as int]) == updated@[i as int]@);
                    }
                    i = i + 1;
                }
                self.picks = updated;
                proof {
                    assert(self@.picks =~= m.picks.map_values(updf));
                    assert(self@ =~= (StoreModel { picks: m.picks.map_values(updf), ..m }));
                    assert(self@ == m.with_pick(
                        league_id as int,
                        user_id as int,
                        round_number as int,
                        contestant_id as int,
                        rank_pick as int,
                    ));
                    lemma_pick_update_wf(m, self@, updf);
                }
                Ok(())
            },
            None => {
                if self.next_pick_id == i32::MAX {
                    return Err(StoreError::IdsExhausted);
                }
                let ghost m = self@;
                let id = self.next_pick_id;
                self.picks.push(
                    PickRow { id, league_id, user_id, round_number, contestant_id, rank_pick },
                );
                self.next_pick_id = id + 1;
                proof {
                    let row = PickR {
                        id: id as int,
                        league_id: league_id as int,
                        user_id: user_id as int,
                        round_number: round_number as int,
                        contestant_id: contestant_id as int,
                        rank_pick: rank_pick as int,
                    };
                    assert(self@.picks =~= m.picks.push(row));
                    assert(self@ =~= m.with_pick(
                        league_id as int,
                        user_id as int,
                        round_number as int,
                        contestant_id as int,
                        rank_pick as int,
                    ));
                    let sorted = |a: PickR, b: PickR| a.id < b.id;
                    let keys = |a: PickR, b: PickR| distinct_pick_keys(a, b);
                    let bound_old = |p: PickR| 1 <= p.id < m.next_pick_id;
                    let bound_new = |p: PickR| 1 <= p.id < self@.next_pick_id;
                    assert forall|i: int| 0 <= i < m.picks.len() implies #[trigger] sorted(
                        m.picks[i],
                        row,
                    ) by {
                        assert(bound_old(m.picks[i]));
                    }
                    assert forall|i: int| 0 <= i < m.picks.len() implies #[trigger] keys(
                        m.picks[i],
                        row,
                    ) by {
                        assert(!(m.picks[i].league_id == league_id as int && m.picks[i].user_id
                            == user_id as int && m.picks[i].round_number == round_number as int
                            && m.picks[i].contestant_id == contestant_id as int));
                    }
                    lemma_pairwise_push(m.picks, sorted, row);
                    lemma_pairwise_push(m.picks, keys, row);
                    assert forall|i: int| 0 <= i < self@.picks.len() implies #[trigger] bound_new(
                        self@.picks[i],
                    ) by {
                        if i < m.picks.len() {
                            assert(self@.picks[i] == m.picks[i]);
                            assert(bound_old(m.picks[i]));
                        }
                    }
                    assert(all_rows(self@.picks, bound_new));
                    let pfk_old = |p: PickR| has_league(m.leagues, p.league_id) && has_user(
                        m.users,
                        p.user_id,
                    ) && has_contestant(m.contestants, p.contestant_id);
                    let pfk_new = |p: PickR| has_league(self@.leagues, p.league_id) && has_user(
                        self@.users,
                        p.user_id,
                    ) && has_contestant(self@.contestants, p.contestant_id);
                    assert forall|i: int| 0 <= i < self@.picks.len() implies #[trigger] pfk_new(
                        self@.picks[i],
                    ) by {
                        if i < m.picks.len() {
                            assert(self@.picks[i] == m.picks[i]);
                            assert(pfk_old(m.picks[i]));
                        } else {
                            assert(self@.picks[i] == row);
                        }
                    }
                    assert(all_rows(self@.picks, pfk_new));
                    lemma_members_fk_stable(m, self@);
                    lemma_enrollments_fk_stable(m, self@);
                }
                Ok(())
            },
        }
    }
}

/// Deleting a game show removes its row and its junction rows and preserves
/// every schema constraint: no junction row is orphaned.
pub proof fn lemma_without_game_show_wf(m: StoreModel, id: int)
    requires
        m.wf(),
    ensures
        m.without_game_show(id).wf(),
{
    let m2 = m.without_game_show(id);
    let gpred = |g: GameShowR| g.id != id;
    let epred = |e: EnrollmentR| e.game_show_id != id;
    lemma_filter_pairwise(m.game_shows, gpred, |a: GameShowR, b: GameShowR| a.id < b.id);
    lemma_filter_all(m.game_shows, gpred, |g: GameShowR| 1 <= g.id < m.next_game_show_id);
    lemma_filter_pairwise(
        m.enrollments,
        epred,
        |a: EnrollmentR, b: EnrollmentR| distinct_enrollment_keys(a, b),
    );
    m.game_shows.lemma_filter_len(gpred);
    m.enrollments.lemma_filter_len(epred);
    lemma_filter_elements(m.enrollments, epred);
    let efk_old = |e: EnrollmentR| has_contestant(m.contestants, e.contestant_id) && has_game_show(
        m.game_shows,
        e.game_show_id,
    );
    let efk_new = |e: EnrollmentR| has_contestant(m2.contestants, e.contestant_id) && has_game_show(
        m2.game_shows,
        e.game_show_id,
    );
    assert forall|i: int| 0 <= i < m2.enrollments.len() implies #[trigger] efk_new(
        m2.enrollments[i],
    ) by {
        let e = m2.enrollments[i];
        assert(m.enrollments.contains(e));
        let w = choose|w: int| 0 <= w < m.enrollments.len() && m.enrollments[w] == e;
        assert(efk_old(m.enrollments[w]));
        assert(epred(e));
        let g = choose|g: int|
            0 <= g < m.game_shows.len() && (#[trigger] m.game_shows[g]).id == e.game_show_id;
        assert(gpred(m.game_shows[g]));
        lemma_has_game_show_in_filter(m.game_shows, gpred, e.game_show_id);
    }
    assert(all_rows(m2.enrollments, efk_new));
    lemma_members_fk_stable(m, m2);
    lemma_picks_fk_stable(m, m2);
}

/// Deleting a user removes its row and cascades to memberships and picks,
/// preserving every schema constraint.
pub proof fn lemma_without_user_wf(m: StoreModel, id: int)
    requires
        m.wf(),
    ensures
        m.without_user(id).wf(),
{
    let m2 = m.without_user(id);
    let upred = |u: UserR| u.id != id;
    let mpred = |mb: MemberR| mb.user_id != id;
    let ppred = |p: PickR| p.user_id != id;
    lemma_filter_pairwise(m.users, upred, |a: UserR, b: UserR| a.id < b.id);
    lemma_filter_all(m.users, upred, |u: UserR| 1 <= u.id < m.next_user_id);
    lemma_filter_pairwise(m.members, mpred, |a: MemberR, b: MemberR| a.id < b.id);
    lemma_filter_all(m.members, mpred, |mb: MemberR| 1 <= mb.id < m.next_member_id);
    lemma_filter_pairwise(m.members, mpred, |a: MemberR, b: MemberR| distinct_member_keys(a, b));
    lemma_filter_pairwise(m.picks, ppred, |a: PickR, b: PickR| a.id < b.id);
    lemma_filter_all(m.picks, ppred, |p: PickR| 1 <= p.id < m.next_pick_id);
    lemma_filter_pairwise(m.picks, ppred, |a: PickR, b: PickR| distinct_pick_keys(a, b));
    m.users.lemma_filter_len(upred);
    m.members.lemma_filter_len(mpred);
    m.picks.lemma_filter_len(ppred);
    lemma_filter_elements(m.members, mpred);
    let mfk_old = |mb: MemberR| has_league(m.leagues, mb.league_id) && has_user(
        m.users,
        mb.user_id,
    );
    let mfk_new = |mb: MemberR| has_league(m2.leagues, mb.league_id) && has_user(
        m2.users,
        mb.user_id,
    );
    assert forall|k: int| 0 <= k < m2.members.len() implies #[trigger] mfk_new(m2.members[k]) by {
        let mb = m2.members[k];
        assert(m.members.contains(mb));
        let w = choose|w: int| 0 <= w < m.members.len() && m.members[w] == mb;
        assert(mfk_old(m.members[w]));
        assert(mpred(mb));
        let u = choose|u: int| 0 <= u < m.users.len() && (#[trigger] m.users[u]).id == mb.user_id;
        assert(upred(m.users[u]));
        lemma_has_user_in_filter(m.users, upred, mb.user_id);
    }
    assert(all_rows(m2.members, mfk_new));
    lemma_filter_elements(m.picks, ppred);
    let pfk_old = |p: PickR| has_league(m.leagues, p.league_id) && has_user(m.users, p.user_id)
        && has_contestant(m.contestants, p.contestant_id);
    let pfk_new = |p: PickR| has_league(m2.leagues, p.league_id) && has_user(m2.users, p.user_id)
        && has_contestant(m2.contestants, p.contestant_id);
    assert forall|k: int| 0 <= k < m2.picks.len() implies #[trigger] pfk_new(m2.picks[k]) by {
        let p = m2.picks[k];
        assert(m.picks.contains(p));
        let w = choose|w: int| 0 <= w < m.picks.len() && m.picks[w] == p;
        assert(pfk_old(m.picks[w]));
        assert(ppred(p));
        let u = choose|u: int| 0 <= u < m.users.len() && (#[trigger] m.users[u]).id == p.user_id;
        assert(upred(m.users[u]));
        lemma_has_user_in_filter(m.users, upred, p.user_id);
    }
    assert(all_rows(m2.picks, pfk_new));
    lemma_enrollments_fk_stable(m, m2);
}

/// Deleting a league removes its row and cascades to memberships and picks,
/// preserving every schema constraint.
pub proof fn lemma_without_league_wf(m: StoreModel, id: int)
    requires
        m.wf(),
    ensures
        m.without_league(id).wf(),
{
    let m2 = m.without_league(id);
    let lpred = |l: LeagueR| l.id != id;
    let mpred = |mb: MemberR| mb.league_id != id;
    let ppred = |p: PickR| p.league_id != id;
    lemma_filter_pairwise(m.leagues, lpred, |a: LeagueR, b: LeagueR| a.id < b.id);
    lemma_filter_all(m.leagues, lpred, |l: LeagueR| 1 <= l.id < m.next_league_id);
    lemma_filter_pairwise(m.members, mpred, |a: MemberR, b: MemberR| a.id < b.id);
    lemma_filter_all(m.members, mpred, |mb: MemberR| 1 <= mb.id < m.next_member_id);
    lemma_filter_pairwise(m.members, mpred, |a: MemberR, b: MemberR| distinct_member_keys(a, b));
    lemma_filter_pairwise(m.picks, ppred, |a: PickR, b: PickR| a.id < b.id);
    lemma_filter_all(m.picks, ppred, |p: PickR| 1 <= p.id < m.next_pick_id);
    lemma_filter_pairwise(m.picks, ppred, |a: PickR, b: PickR| distinct_pick_keys(a, b));
    m.leagues.lemma_filter_len(lpred);
    m.members.lemma_filter_len(mpred);
    m.picks.lemma_filter_len(ppred);
    lemma_filter_elements(m.members, mpred);
    let mfk_old = |mb: MemberR| has_league(m.leagues, mb.league_id) && has_user(
        m.users,
        mb.user_id,
    );
    let mfk_new = |mb: MemberR| has_league(m2.leagues, mb.league_id) && has_user(
        m2.users,
        mb.user_id,
    );
    assert forall|k: int| 0 <= k < m2.members.len() implies #[trigger] mfk_new(m2.members[k]) by {
        let mb = m2.members[k];
        assert(m.members.contains(mb));
        let w = choose|w: int| 0 <= w < m.members.len() && m.members[w] == mb;
        assert(mfk_old(m.members[w]));
        assert(mpred(mb));
        let lg = choose|lg: int|
            0 <= lg < m.leagues.len() && (#[trigger] m.leagues[lg]).id == mb.league_id;
        assert(lpred(m.leagues[lg]));
        lemma_has_league_in_filter(m.leagues, lpred, mb.league_id);
    }
    assert(all_rows(m2.members, mfk_new));
    lemma_filter_elements(m.picks, ppred);
    let pfk_old = |p: PickR| has_league(m.leagues, p.league_id) && has_user(m.users, p.user_id)
        && has_contestant(m.contestants, p.contestant_id);
    let pfk_new = |p: PickR| has_league(m2.leagues, p.league_id) && has_user(m2.users, p.user_id)
        && has_contestant(m2.contestants, p.contestant_id);
    assert forall|k: int| 0 <= k < m2.picks.len() implies #[trigger] pfk_new(m2.picks[k]) by {
        let p = m2.picks[k];
        assert(m.picks.contains(p));
        let w = choose|w: int| 0 <= w < m.picks.len() && m.picks[w] == p;
        assert(pfk_old(m.picks[w]));
        assert(ppred(p));
        let lg = choose|lg: int|
            0 <= lg < m.leagues.len() && (#[trigger] m.leagues[lg]).id == p.league_id;
        assert(lpred(m.leagues[lg]));
        lemma_has_league_in_filter(m.leagues, lpred, p.league_id);
    }
    assert(all_rows(m2.picks, pfk_new));
    lemma_enrollments_fk_stable(m, m2);
}

/// Deleting the contestants of one name removes their rows and cascades to
/// junction rows and picks, preserving every schema constraint.
pub proof fn lemma_without_contestants_named_wf(m: StoreModel, name: Seq<char>)
    requires
        m.wf(),
    ensures
        m.without_contestants_named(name).wf(),
{
    let m2 = m.without_contestants_named(name);
    let cpred = |c: ContestantR| c.name != name;
    let epred = |e: EnrollmentR| !m.contestant_named(e.contestant_id, name);
    let ppred = |p: PickR| !m.contestant_named(p.contestant_id, name);
    lemma_filter_pairwise(m.contestants, cpred, |a: ContestantR, b: ContestantR| a.id < b.id);
    lemma_filter_all(m.contestants, cpred, |c: ContestantR| 1 <= c.id < m.next_contestant_id);
    lemma_filter_pairwise(
        m.enrollments,
        epred,
        |a: EnrollmentR, b: EnrollmentR| distinct_enrollment_keys(a, b),
    );
    lemma_filter_pairwise(m.picks, ppred, |a: PickR, b: PickR| a.id < b.id);
    lemma_filter_all(m.picks, ppred, |p: PickR| 1 <= p.id < m.next_pick_id);
    lemma_filter_pairwise(m.picks, ppred, |a: PickR, b: PickR| distinct_pick_keys(a, b));
    m.contestants.lemma_filter_len(cpred);
    m.enrollments.lemma_filter_len(epred);
    m.picks.lemma_filter_len(ppred);
    lemma_filter_elements(m.enrollments, epred);
    let efk_old = |e: EnrollmentR| has_contestant(m.contestants, e.contestant_id) && has_game_show(
        m.game_shows,
        e.game_show_id,
    );
    let efk_new = |e: EnrollmentR| has_contestant(m2.contestants, e.contestant_id) && has_game_show(
        m2.game_shows,
        e.game_show_id,
    );
    assert forall|k: int| 0 <= k < m2.enrollments.len() implies #[trigger] efk_new(
        m2.enrollments[k],
    ) by {
        let e = m2.enrollments[k];
        assert(m.enrollments.contains(e));
        let w = choose|w: int| 0 <= w < m.enrollments.len() && m.enrollments[w] == e;
        assert(efk_old(m.enrollments[w]));
        assert(epred(e));
        let c = choose|c: int|
            0 <= c < m.contestants.len() && (#[trigger] m.contestants[c]).id == e.contestant_id;
        assert(cpred(m.contestants[c]));
        lemma_has_contestant_in_filter(m.contestants, cpred, e.contestant_id);
    }
    assert(all_rows(m2.enrollments, efk_new));
    lemma_filter_elements(m.picks, ppred);
    let pfk_old = |p: PickR| has_league(m.leagues, p.league_id) && has_user(m.users, p.user_id)
        && has_contestant(m.contestants, p.contestant_id);
    let pfk_new = |p: PickR| has_league(m2.leagues, p.league_id) && has_user(m2.users, p.user_id)
        && has_contestant(m2.contestants, p.contestant_id);
    assert forall|k: int| 0 <= k < m2.picks.len() implies #[trigger] pfk_new(m2.picks[k]) by {
        let p = m2.picks[k];
        assert(m.picks.contains(p));
        let w = choose|w: int| 0 <= w < m.picks.len() && m.picks[w] == p;
        assert(pfk_old(m.picks[w]));
        assert(ppred(p));
        let c = choose|c: int|
            0 <= c < m.contestants.len() && (#[trigger] m.contestants[c]).id == p.contestant_id;
        assert(cpred(m.contestants[c]));
        lemma_has_contestant_in_filter(m.contestants, cpred, p.contestant_id);
    }
    assert(all_rows(m2.picks, pfk_new));
    lemma_members_fk_stable(m, m2);
}

/// An update that rewrites junction rows without touching their composite
/// keys, and nothing else, preserves every schema constraint.
pub proof fn lemma_enrollment_update_wf(
    pre: StoreModel,
    post: StoreModel,
    updf: spec_fn(EnrollmentR) -> EnrollmentR,
)
    requires
        pre.wf(),
        post == (StoreModel { enrollments: pre.enrollments.map_values(updf), ..pre }),
        forall|e: EnrollmentR|
            (#[trigger] updf(e)).contestant_id == e.contestant_id && updf(e).game_show_id
                == e.game_show_id,
    ensures
        post.wf(),
{
    let keys = |a: EnrollmentR, b: EnrollmentR| distinct_enrollment_keys(a, b);
    assert forall|a: int, b: int| 0 <= a < b < post.enrollments.len() implies #[trigger] keys(
        post.enrollments[a],
        post.enrollments[b],
    ) by {
        assert(keys(pre.enrollments[a], pre.enrollments[b]));
        assert(updf(pre.enrollments[a]).contestant_id == pre.enrollments[a].contestant_id);
        assert(updf(pre.enrollments[b]).contestant_id == pre.enrollments[b].contestant_id);
    }
    assert(pairwise(post.enrollments, keys));
    assert forall|i: int|
        0 <= i < pre.enrollments.len() implies (#[trigger] post.enrollments[i]).contestant_id
        == pre.enrollments[i].contestant_id && post.enrollments[i].game_show_id
        == pre.enrollments[i].game_show_id by {
        assert(updf(pre.enrollments[i]).contestant_id == pre.enrollments[i].contestant_id);
    }
    lemma_enrollments_fk_stable(pre, post);
    lemma_members_fk_stable(pre, post);
    lemma_picks_fk_stable(pre, post);
}

/// An update that rewrites pick rows without touching their identifiers or
/// unique keys, and nothing else, preserves every schema constraint.
pub proof fn lemma_pick_update_wf(pre: StoreModel, post: StoreModel, updf: spec_fn(PickR) -> PickR)
    requires
        pre.wf(),
        post == (StoreModel { picks: pre.picks.map_values(updf), ..pre }),
        forall|p: PickR|
            (#[trigger] updf(p)).id == p.id && updf(p).league_id == p.league_id && updf(p).user_id
                == p.user_id && updf(p).round_number == p.round_number && updf(p).contestant_id
                == p.contestant_id,
    ensures
        post.wf(),
{
    let sorted = |a: PickR, b: PickR| a.id < b.id;
    let keys = |a: PickR, b: PickR| distinct_pick_keys(a, b);
    let bound = |p: PickR| 1 <= p.id < pre.next_pick_id;
    assert forall|a: int, b: int| 0 <= a < b < post.picks.len() implies #[trigger] sorted(
        post.picks[a],
        post.picks[b],
    ) by {
        assert(sorted(pre.picks[a], pre.picks[b]));
        assert(updf(pre.picks[a]).id == pre.picks[a].id);
        assert(updf(pre.picks[b]).id == pre.picks[b].id);
    }
    assert forall|a: int, b: int| 0 <= a < b < post.picks.len() implies #[trigger] keys(
        post.picks[a],
        post.picks[b],
    ) by {
        assert(keys(pre.picks[a], pre.picks[b]));
        assert(updf(pre.picks[a]).id == pre.picks[a].id);
        assert(updf(pre.picks[b]).id == pre.picks[b].id);
    }
    assert(pairwise(post.picks, sorted));
    assert(pairwise(post.picks, keys));
    assert forall|i: int| 0 <= i < post.picks.len() implies #[trigger] bound(post.picks[i]) by {
        assert(bound(pre.picks[i]));
        assert(updf(pre.picks[i]).id == pre.picks[i].id);
    }
    assert(all_rows(post.picks, bound));
    assert forall|i: int|
        0 <= i < pre.picks.len() implies (#[trigger] post.picks[i]).league_id
        == pre.picks[i].league_id && post.picks[i].user_id == pre.picks[i].user_id
        && post.picks[i].contestant_id == pre.picks[i].contestant_id by {
        assert(updf(pre.picks[i]).league_id == pre.picks[i].league_id);
    }
    lemma_picks_fk_stable(pre, post);
    lemma_members_fk_stable(pre, post);
    lemma_enrollments_fk_stable(pre, post);
}

/// Member foreign keys only mention leagues and users; if those tables did
/// not shrink and the member rows are unchanged, the constraint carries over.
pub proof fn lemma_members_fk_stable(pre: StoreModel, post: StoreModel)
    requires
        all_rows(
            pre.members,
            |m: MemberR| has_league(pre.leagues, m.league_id) && has_user(pre.users, m.user_id),
        ),
        pre.members.len() == post.members.len(),
        forall|i: int|
            0 <= i < pre.members.len() ==> (#[trigger] post.members[i]).league_id
                == pre.members[i].league_id && post.members[i].user_id == pre.members[i].user_id,
        forall|i: int|
            0 <= i < pre.leagues.len() ==> (#[trigger] post.leagues[i]).id == pre.leagues[i].id,
        forall|i: int|
            0 <= i < pre.users.len() ==> (#[trigger] post.users[i]).id == pre.users[i].id,
        post.leagues.len() >= pre.leagues.len(),
        post.users.len() >= pre.users.len(),
    ensures
        all_rows(
            post.members,
            |m: MemberR| has_league(post.leagues, m.league_id) && has_user(post.users, m.user_id),
        ),
{
    let p = |m: MemberR| has_league(post.leagues, m.league_id) && has_user(post.users, m.user_id);
    let q = |m: MemberR| has_league(pre.leagues, m.league_id) && has_user(pre.users, m.user_id);
    assert forall|i: int| 0 <= i < post.members.len() implies #[trigger] p(post.members[i]) by {
        assert(q(pre.members[i]));
        let mrow = pre.members[i];
        let k = choose|k: int|
            0 <= k < pre.leagues.len() && (#[trigger] pre.leagues[k]).id == mrow.league_id;
        assert(post.leagues[k].id == mrow.league_id);
        let k2 = choose|k2: int|
            0 <= k2 < pre.users.len() && (#[trigger] pre.users[k2]).id == mrow.user_id;
        assert(post.users[k2].id == mrow.user_id);
        assert(post.members[i].league_id == mrow.league_id);
        assert(post.members[i].user_id == mrow.user_id);
    }
}

/// Pick foreign keys only mention leagues, users and contestants; unchanged
/// pick rows stay valid when those tables did not shrink.
pub proof fn lemma_picks_fk_stable(pre: StoreModel, post: StoreModel)
    requires
        all_rows(
            pre.picks,
            |p: PickR| has_league(pre.leagues, p.league_id) && has_user(pre.users, p.user_id)
                && has_contestant(pre.contestants, p.contestant_id),
        ),
        pre.picks.len() == post.picks.len(),
        forall|i: int|
            0 <= i < pre.picks.len() ==> (#[trigger] post.picks[i]).league_id
                == pre.picks[i].league_id && post.picks[i].user_id == pre.picks[i].user_id
                && post.picks[i].contestant_id == pre.picks[i].contestant_id,
        forall|i: int|
            0 <= i < pre.leagues.len() ==> (#[trigger] post.leagues[i]).id == pre.leagues[i].id,
        forall|i: int|
            0 <= i < pre.users.len() ==> (#[trigger] post.users[i]).id == pre.users[i].id,
        forall|i: int|
            0 <= i < pre.contestants.len() ==> (#[trigger] post.contestants[i]).id
                == pre.contestants[i].id,
        post.leagues.len() >= pre.leagues.len(),
        post.users.len() >= pre.users.len(),
        post.contestants.len() >= pre.contestants.len(),
    ensures
        all_rows(
            post.picks,
            |p: PickR| has_league(post.leagues, p.league_id) && has_user(post.users, p.user_id)
                && has_contestant(post.contestants, p.contestant_id),
        ),
{
    let p = |p: PickR| has_league(post.leagues, p.league_id) && has_user(post.users, p.user_id)
        && has_contestant(post.contestants, p.contestant_id);
    let q = |p: PickR| has_league(pre.leagues, p.league_id) && has_user(pre.users, p.user_id)
        && has_contestant(pre.contestants, p.contestant_id);
    assert forall|i: int| 0 <= i < post.picks.len() implies #[trigger] p(post.picks[i]) by {
        assert(q(pre.picks[i]));
        let row = pre.picks[i];
        let k = choose|k: int|
            0 <= k < pre.leagues.len() && (#[trigger] pre.leagues[k]).id == row.league_id;
        assert(post.leagues[k].id == row.league_id);
        let k2 = choose|k2: int|
            0 <= k2 < pre.users.len() && (#[trigger] pre.users[k2]).id == row.user_id;
        assert(post.users[k2].id == row.user_id);
        let k3 = choose|k3: int|
            0 <= k3 < pre.contestants.len() && (#[trigger] pre.contestants[k3]).id
                == row.contestant_id;
        assert(post.contestants[k3].id == row.contestant_id);
        assert(post.picks[i].league_id == row.league_id);
        assert(post.picks[i].user_id == row.user_id);
        assert(post.picks[i].contestant_id == row.contestant_id);
    }
}

/// Enrollment foreign keys only mention contestants and game shows; unchanged
/// enrollment rows stay valid when those tables did not shrink.
pub proof fn lemma_enrollments_fk_stable(pre: StoreModel, post: StoreModel)
    requires
        all_rows(
            pre.enrollments,
            |e: EnrollmentR| has_contestant(pre.contestants, e.contestant_id) && has_game_show(
                pre.game_shows,
                e.game_show_id,
            ),
        ),
        pre.enrollments.len() == post.enrollments.len(),
        forall|i: int|
            0 <= i < pre.enrollments.len() ==> (#[trigger] post.enrollments[i]).contestant_id
                == pre.enrollments[i].contestant_id && post.enrollments[i].game_show_id
                == pre.enrollments[i].game_show_id,
        forall|i: int|
            0 <= i < pre.contestants.len() ==> (#[trigger] post.contestants[i]).id
                == pre.contestants[i].id,
        forall|i: int|
            0 <= i < pre.game_shows.len() ==> (#[trigger] post.game_shows[i]).id
                == pre.game_shows[i].id,
        post.contestants.len() >= pre.contestants.len(),
        post.game_shows.len() >= pre.game_shows.len(),
    ensures
        all_rows(
            post.enrollments,
            |e: EnrollmentR| has_contestant(post.contestants, e.contestant_id) && has_game_show(
                post.game_shows,
                e.game_show_id,
            ),
        ),
{
    let p = |e: EnrollmentR| has_contestant(post.contestants, e.contestant_id) && has_game_show(
        post.game_shows,
        e.game_show_id,
    );
    let q = |e: EnrollmentR| has_contestant(pre.contestants, e.contestant_id) && has_game_show(
        pre.game_shows,
        e.game_show_id,
    );
    assert forall|i: int| 0 <= i < post.enrollments.len() implies #[trigger] p(
        post.enrollments[i],
    ) by {
        assert(q(pre.enrollments[i]));
        let row = pre.enrollments[i];
        let k = choose|k: int|
            0 <= k < pre.contestants.len() && (#[trigger] pre.contestants[k]).id
                == row.contestant_id;
        assert(post.contestants[k].id == row.contestant_id);
        let k2 = choose|k2: int|
            0 <= k2 < pre.game_shows.len() && (#[trigger] pre.game_shows[k2]).id
                == row.game_show_id;
        assert(post.game_shows[k2].id == row.game_show_id);
        assert(post.enrollments[i].contestant_id == row.contestant_id);
        assert(post.enrollments[i].game_show_id == row.game_show_id);
    }
}

/// The record a `users` row is returned as.
pub open spec fn spec_user_of(r: UserR) -> UserV {
    UserV { id: Some(r.id), name: r.name, email: r.email, account_type: r.account_type }
}

/// The record a `game_shows` row is returned as.
pub open spec fn spec_game_show_of(r: GameShowR) -> GameShowV {
    GameShowV { id: Some(r.id), name: r.name }
}

/// The record a bare `contestants` row is returned as: no season, no
/// nickname, the elimination fields at their defaults.
pub open spec fn spec_contestant_of(r: ContestantR) -> ContestantV {
    ContestantV {
        id: Some(r.id),
        name: r.name,
        id_showseason: None,
        nickname: None,
        round_number: -1,
        was_medically_evacuated: false,
    }
}

/// The record a `leagues` row is returned as.
pub open spec fn spec_league_of(r: LeagueR) -> LeagueV {
    LeagueV { id: Some(r.id), name: r.name, id_showseason: r.id_showseason }
}

/// The name held by the contestant row with this identifier; well-defined
/// whenever identifiers are unique and the row exists.
pub open spec fn contestant_name(s: Seq<ContestantR>, id: int) -> Seq<char> {
    let i = choose|i: int| 0 <= i < s.len() && (#[trigger] s[i]).id == id;
    s[i].name
}

/// With unique identifiers, `contestant_name` reads the row itself.
pub proof fn lemma_contestant_name_at(s: Seq<ContestantR>, k: int)
    requires
        pairwise(s, |a: ContestantR, b: ContestantR| a.id < b.id),
        0 <= k < s.len(),
    ensures
        contestant_name(s, s[k].id) == s[k].name,
{
    assert(has_contestant(s, s[k].id));
    let i = choose|i: int| 0 <= i < s.len() && (#[trigger] s[i]).id == s[k].id;
    lemma_contestant_id_unique(s, i, k);
}

/// The record a contestants-on-show join row is returned as.
pub open spec fn spec_enrolled_contestant_of(m: StoreModel, e: EnrollmentR) -> ContestantV {
    ContestantV {
        id: Some(e.contestant_id),
        name: contestant_name(m.contestants, e.contestant_id),
        id_showseason: Some(e.game_show_id),
        nickname: Some(e.nickname),
        round_number: e.eliminated_on_round,
        was_medically_evacuated: e.was_medically_evacuated,
    }
}

} // verus!
