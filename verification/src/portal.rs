//! The client portal's state: the per-entity form states, the lookup that
//! fills the edit form, the drag-reorder of the ranked list, and the exact
//! requests a pick submission issues.

use vstd::prelude::*;
use vstd::string::StringSliceAdditionalSpecFns;

use crate::codec::{contestant_record_body, spec_contestant_record_body};
use crate::records::{opt_int, GameShowV, LeagueV, User, UserV};
use crate::routes::{set_pick_url, spec_set_pick_url};
use crate::text::{append_bool_text, append_i32, append_str, spec_bool_text, spec_i32_text};

verus! {

/// The bytes a text value occupies on the wire.
pub open spec fn utf8_bytes(s: Seq<char>) -> Seq<u8> {
    vstd::utf8::encode_utf8(s)
}

/// An optional number the way a debug rendering shows it.
pub open spec fn spec_opt_i32_debug(o: Option<int>) -> Seq<u8> {
    match o {
        None => "None".spec_bytes(),
        Some(v) => "Some(".spec_bytes() + spec_i32_text(v) + ")".spec_bytes(),
    }
}

/// An optional number, or zero when absent.
pub open spec fn spec_or_zero(o: Option<int>) -> int {
    match o {
        None => 0,
        Some(v) => v,
    }
}

/// An optional flag, or false when absent.
pub open spec fn spec_or_false(o: Option<bool>) -> bool {
    match o {
        None => false,
        Some(b) => b,
    }
}

// ---------------------------------------------------------------------------
// Contestant state
// ---------------------------------------------------------------------------

/// The contestant form's state.
pub struct ContestantState {
    pub name: String,
    pub id: Option<i32>,
    pub id_showseason: Option<i32>,
    pub round_number: Option<i32>,
    pub was_medically_evacuated: Option<bool>,
}

/// Mathematical view of a [`ContestantState`].
#[verifier::ext_equal]
pub ghost struct ContestantStateV {
    pub name: Seq<char>,
    pub id: Option<int>,
    pub id_showseason: Option<int>,
    pub round_number: Option<int>,
    pub was_medically_evacuated: Option<bool>,
}

impl View for ContestantState {
    type V = ContestantStateV;

    open spec fn view(&self) -> ContestantStateV {
        ContestantStateV {
            name: self.name@,
            id: opt_int(self.id),
            id_showseason: opt_int(self.id_showseason),
            round_number: opt_int(self.round_number),
            was_medically_evacuated: self.was_medically_evacuated,
        }
    }
}

/// The line [`ContestantState::to_string`] renders.
pub open spec fn spec_contestant_state_line(
    id: Option<int>,
    name: Seq<u8>,
    id_showseason: Option<int>,
    round_number: int,
    was_medically_evacuated: bool,
) -> Seq<u8> {
    "ContestantState { id: ".spec_bytes() + spec_opt_i32_debug(id) + ", name: ".spec_bytes() + name
        + ", id_showseason: ".spec_bytes() + spec_opt_i32_debug(id_showseason)
        + " }, round_#: [".spec_bytes() + spec_i32_text(round_number)
        + "], Medical[: ".spec_bytes() + spec_bool_text(was_medically_evacuated)
        + "]".spec_bytes()
}

/// Append an optional number the way a debug rendering shows it.
fn append_opt_i32_debug(out: &mut Vec<u8>, o: Option<i32>)
    ensures
        final(out)@ == old(out)@ + spec_opt_i32_debug(opt_int(o)),
{
    match o {
        None => append_str(out, "None"),
        Some(v) => {
            append_str(out, "Some(");
            append_i32(out, v);
            append_str(out, ")");
        },
    }
}

impl ContestantState {
    /// A fresh form state: round at its sentinel, not evacuated.
    pub fn new(id_in: Option<i32>, name_in: String, id_showseason_in: Option<i32>) -> (r:
        ContestantState)
        ensures
            r@ == (ContestantStateV {
                name: name_in@,
                id: opt_int(id_in),
                id_showseason: opt_int(id_showseason_in),
                round_number: Some(-1int),
                was_medically_evacuated: Some(false),
            }),
    {
        ContestantState {
            name: name_in,
            id: id_in,
            id_showseason: id_showseason_in,
            round_number: Some(-1),
            was_medically_evacuated: Some(false),
        }
    }

    /// The state's log line, byte for byte; absent round and medevac fields
    /// print as their defaults.
    pub fn to_string(&self) -> (r: Vec<u8>)
        ensures
            r@ == spec_contestant_state_line(
                opt_int(self.id),
                utf8_bytes(self.name@),
                opt_int(self.id_showseason),
                spec_or_zero(opt_int(self.round_number)),
                spec_or_false(self.was_medically_evacuated),
            ),
    {
        let mut out: Vec<u8> = Vec::new();
        append_str(&mut out, "ContestantState { id: ");
        append_opt_i32_debug(&mut out, self.id);
        append_str(&mut out, ", name: ");
        append_str(&mut out, self.name.as_str());
        append_str(&mut out, ", id_showseason: ");
        append_opt_i32_debug(&mut out, self.id_showseason);
        append_str(&mut out, " }, round_#: [");
        let round: i32 = match self.round_number {
            Some(v) => v,
            None => 0,
        };
        append_i32(&mut out, round);
        append_str(&mut out, "], Medical[: ");
        let medevac: bool = match self.was_medically_evacuated {
            Some(b) => b,
            None => false,
        };
        append_bool_text(&mut out, medevac);
        append_str(&mut out, "]");
        out
    }

    /// The state as the JSON body enrollment, elimination and medevac
    /// requests send; absent round and medevac fields are sent as their
    /// defaults, absent identifiers as `null`.
    pub fn convert_to_json(&self) -> (r: Vec<u8>)
        ensures
            r@ == spec_contestant_record_body(
                opt_int(self.id),
                opt_int(self.id_showseason),
                utf8_bytes(self.name@),
                spec_or_zero(opt_int(self.round_number)),
                spec_or_false(self.was_medically_evacuated),
            ),
    {
        let round: i32 = match self.round_number {
            Some(v) => v,
            None => 0,
        };
        let medevac: bool = match self.was_medically_evacuated {
            Some(b) => b,
            None => false,
        };
        contestant_record_body(self.id, self.id_showseason, self.name.as_str(), round, medevac)
    }
}

// ---------------------------------------------------------------------------
// User, game-show and league form state
// ---------------------------------------------------------------------------

/// The user form's state.
pub struct UserState {
    pub name: String,
    pub email: String,
    pub account_type: String,
    pub id: Option<i32>,
}

impl View for UserState {
    type V = UserV;

    open spec fn view(&self) -> UserV {
        UserV {
            id: opt_int(self.id),
            name: self.name@,
            email: self.email@,
            account_type: self.account_type@,
        }
    }
}

impl UserState {
    /// An empty form.
    pub fn from_default() -> (r: UserState)
        ensures
            r@ == (UserV {
                id: None,
                name: Seq::empty(),
                email: Seq::empty(),
                account_type: Seq::empty(),
            }),
    {
        UserState {
            name: String::new(),
            email: String::new(),
            account_type: String::new(),
            id: None,
        }
    }

    /// A filled form.
    pub fn new(id_in: Option<i32>, name_in: String, email_in: String, account_type_in: String) -> (
        r: UserState)
        ensures
            r@ == (UserV {
                id: opt_int(id_in),
                name: name_in@,
                email: email_in@,
                account_type: account_type_in@,
            }),
    {
        UserState { name: name_in, email: email_in, account_type: account_type_in, id: id_in }
    }
}

/// The game-show form's state.
pub struct GameShowState {
    pub name: String,
    pub id: Option<i32>,
}

impl View for GameShowState {
    type V = GameShowV;

    open spec fn view(&self) -> GameShowV {
        GameShowV { id: opt_int(self.id), name: self.name@ }
    }
}

impl GameShowState {
    /// A filled form.
    pub fn new(id_in: Option<i32>, name_in: String) -> (r: GameShowState)
        ensures
            r@ == (GameShowV { id: opt_int(id_in), name: name_in@ }),
    {
        GameShowState { name: name_in, id: id_in }
    }

    /// An empty form.
    pub fn from_default() -> (r: GameShowState)
        ensures
            r@ == (GameShowV { id: None, name: Seq::empty() }),
    {
        GameShowState { name: String::new(), id: None }
    }
}

/// The league form's state.
pub struct LeagueState {
    pub id: Option<i32>,
    pub name: String,
    pub id_showseason: Option<i32>,
}

impl View for LeagueState {
    type V = LeagueV;

    open spec fn view(&self) -> LeagueV {
        LeagueV {
            id: opt_int(self.id),
            name: self.name@,
            id_showseason: opt_int(self.id_showseason),
        }
    }
}

impl LeagueState {
    /// A filled form.
    pub fn new(id_in: Option<i32>, name_in: String, id_showseason_in: Option<i32>) -> (r:
        LeagueState)
        ensures
            r@ == (LeagueV {
                id: opt_int(id_in),
                name: name_in@,
                id_showseason: opt_int(id_showseason_in),
            }),
    {
        LeagueState { id: id_in, name: name_in, id_showseason: id_showseason_in }
    }

    /// An empty form.
    pub fn from_default() -> (r: LeagueState)
        ensures
            r@ == (LeagueV { id: None, name: Seq::empty(), id_showseason: None }),
    {
        LeagueState { id: None, name: String::new(), id_showseason: None }
    }
}

// ---------------------------------------------------------------------------
// Ranked picks
// ---------------------------------------------------------------------------

/// One contestant's place in a player's ranking.
pub struct ContestantPickState {
    pub contestant_id: i32,
    pub rank_pick: i32,
}

/// Mathematical view of a [`ContestantPickState`].
#[verifier::ext_equal]
pub ghost struct ContestantPickV {
    pub contestant_id: int,
    pub rank_pick: int,
}

impl View for ContestantPickState {
    type V = ContestantPickV;

    open spec fn view(&self) -> ContestantPickV {
        ContestantPickV {
            contestant_id: self.contestant_id as int,
            rank_pick: self.rank_pick as int,
        }
    }
}

impl ContestantPickState {
    /// A filled pick.
    pub fn new(contestant_id_in: i32, rank_pick_in: i32) -> (r: ContestantPickState)
        ensures
            r@ == (ContestantPickV {
                contestant_id: contestant_id_in as int,
                rank_pick: rank_pick_in as int,
            }),
    {
        ContestantPickState { contestant_id: contestant_id_in, rank_pick: rank_pick_in }
    }

    /// The sentinel pick: nothing chosen yet.
    pub fn from_default() -> (r: ContestantPickState)
        ensures
            r@ == (ContestantPickV { contestant_id: -1, rank_pick: -1 }),
    {
        ContestantPickState { contestant_id: -1, rank_pick: -1 }
    }
}

/// One round's ranked picks.
pub struct RoundPickState {
    pub round_number: i32,
    pub picks: Vec<ContestantPickState>,
}

/// Mathematical view of a [`RoundPickState`].
#[verifier::ext_equal]
pub ghost struct RoundPickV {
    pub round_number: int,
    pub picks: Seq<ContestantPickV>,
}

impl View for RoundPickState {
    type V = RoundPickV;

    open spec fn view(&self) -> RoundPickV {
        RoundPickV {
            round_number: self.round_number as int,
            picks: self.picks@.map_values(|p: ContestantPickState| p@),
        }
    }
}

// ---------------------------------------------------------------------------
// List logic
// ---------------------------------------------------------------------------

/// Fill the edit form from the first listed user carrying the identifier;
/// with no such user the form is left alone, which `None` reports.
#[verifier::loop_isolation(false)]
pub fn edit_user(users: &Vec<User>, id: i32) -> (r: Option<UserState>)
    ensures
        r is None <==> (forall|i: int|
            0 <= i < users@.len() ==> (#[trigger] users@[i])@.id != Some(id as int)),
        r matches Some(st) ==> (exists|i: int|
            {
                &&& 0 <= i < users@.len()
                &&& (#[trigger] users@[i])@.id == Some(id as int)
                &&& st@ == users@[i]@
                &&& forall|j: int| 0 <= j < i ==> users@[j]@.id != Some(id as int)
            }),
{
    let mut i: usize = 0;
    while i < users.len()
        invariant
            i <= users.len(),
            forall|k: int| 0 <= k < i as int ==> (#[trigger] users@[k])@.id != Some(id as int),
        decreases users.len() - i,
    {
        let user = &users[i];
        let found: bool = match user.id {
            Some(v) => v == id,
            None => false,
        };
        if found {
            return Some(
                UserState::new(
                    user.id,
                    user.name.clone(),
                    user.email.clone(),
                    user.account_type.clone(),
                ),
            );
        }
        i = i + 1;
    }
    None
}

/// The drag-reorder of the ranked list: the dragged entry leaves its place
/// and lands at the drop position; everything else keeps its order.
pub fn reorder(ranked: &mut Vec<ContestantState>, from: usize, to: usize)
    requires
        from < old(ranked).len(),
        to < old(ranked).len(),
    ensures
        final(ranked)@ == old(ranked)@.remove(from as int).insert(to as int, old(ranked)@[
            from as int
        ]),
{
    let item = ranked.remove(from);
    ranked.insert(to, item);
}

/// The URLs one round's picks submit, in ranking order.
pub open spec fn spec_round_urls(
    base: Seq<u8>,
    round: RoundPickV,
    player_id: int,
    league_id: int,
) -> Seq<Seq<u8>> {
    Seq::new(
        round.picks.len(),
        |i: int|
            spec_set_pick_url(
                base,
                player_id,
                league_id,
                round.round_number,
                round.picks[i].contestant_id,
                round.picks[i].rank_pick,
            ),
    )
}

/// The URLs a full submission issues: every round's picks, rounds in order.
pub open spec fn spec_submit_urls(
    base: Seq<u8>,
    rounds: Seq<RoundPickV>,
    player_id: int,
    league_id: int,
) -> Seq<Seq<u8>>
    decreases rounds.len(),
{
    if rounds.len() == 0 {
        Seq::empty()
    } else {
        spec_submit_urls(base, rounds.drop_last(), player_id, league_id) + spec_round_urls(
            base,
            rounds.last(),
            player_id,
            league_id,
        )
    }
}

/// Submitting picks issues one request per ranked contestant, round by
/// round, pick by pick — these are exactly the URLs it requests, in order.
#[verifier::loop_isolation(false)]
pub fn submit_pick_urls(
    base: &str,
    picks: &Vec<RoundPickState>,
    player_id: i32,
    league_id: i32,
) -> (r: Vec<Vec<u8>>)
    ensures
        r@.map_values(|v: Vec<u8>| v@) == spec_submit_urls(
            base.spec_bytes(),
            picks@.map_values(|rp: RoundPickState| rp@),
            player_id as int,
            league_id as int,
        ),
{
    let ghost rounds_v = picks@.map_values(|rp: RoundPickState| rp@);
    let mut out: Vec<Vec<u8>> = Vec::new();
    let mut i: usize = 0;
    while i < picks.len()
        invariant
            i <= picks.len(),
            out@.map_values(|v: Vec<u8>| v@) == spec_submit_urls(
                base.spec_bytes(),
                rounds_v.take(i as int),
                player_id as int,
                league_id as int,
            ),
        decreases picks.len() - i,
    {
        let round = &picks[i];
        let ghost round_v = rounds_v[i as int];
        let mut j: usize = 0;
        while j < round.picks.len()
            invariant
                j <= round.picks.len(),
                round_v == rounds_v[i as int],
                round_v.picks.len() == round.picks.len(),
                i < picks.len(),
                round == &picks[i as int],
                out@.map_values(|v: Vec<u8>| v@) == spec_submit_urls(
                    base.spec_bytes(),
                    rounds_v.take(i as int),
                    player_id as int,
                    league_id as int,
                ) + spec_round_urls(
                    base.spec_bytes(),
                    round_v,
                    player_id as int,
                    league_id as int,
                ).take(j as int),
            decreases round.picks.len() - j,
        {
            let pick = &round.picks[j];
            let url = set_pick_url(
                base,
                player_id,
                league_id,
                round.round_number,
                pick.contestant_id,
                pick.rank_pick,
            );
            proof {
                let urls = spec_round_urls(
                    base.spec_bytes(),
                    round_v,
                    player_id as int,
                    league_id as int,
                );
                assert(round_v.picks[j as int] == pick@);
                assert(urls[j as int] == url@);
                assert(urls.take(j as int + 1) =~= urls.take(j as int).push(url@));
                assert((out@.push(url)).map_values(|v: Vec<u8>| v@) =~= out@.map_values(
                    |v: Vec<u8>| v@,
                ).push(url@));
            }
            out.push(url);
            j = j + 1;
        }
        proof {
            let urls = spec_round_urls(base.spec_bytes(), round_v, player_id as int, league_id as int);
            assert(urls.take(round_v.picks.len() as int) =~= urls);
            assert(rounds_v.take(i as int + 1).drop_last() =~= rounds_v.take(i as int));
            assert(rounds_v.take(i as int + 1).last() == rounds_v[i as int]);
        }
        i = i + 1;
    }
    proof {
        assert(rounds_v.take(rounds_v.len() as int) =~= rounds_v);
    }
    out
}

} // verus!
