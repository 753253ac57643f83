//! The game-show manager: seasons, contestants, enrollments, leagues,
//! memberships and picks, forwarded to the store. Its one composite rule:
//! a medical evacuation is recorded only after the elimination for the same
//! round succeeded.

use vstd::prelude::*;

use crate::records::{Contestant, GameShow, League, StoreError};
use crate::store::{enrolled, has_league, has_user, spec_contestant_of,
    spec_enrolled_contestant_of, spec_game_show_of, spec_league_of, Store};

verus! {

/// Manages seasons, contestants and leagues against an injected store.
pub struct GameShowManager {}

impl GameShowManager {
    /// Connect the manager: lays out the tables the game-show and league
    /// repositories create at startup, idempotently.
    pub fn create(store: &mut Store) -> (m: GameShowManager)
        ensures
            final(store)@ == old(store)@.with_show_and_league_schema(),
            old(store)@.wf() ==> final(store)@.wf(),
    {
        let ghost m0 = store@;
        store.initialize_gameshows();
        store.initialize_contestants();
        store.initialize_gameshow_contestants();
        store.initialize_storage_leagues();
        store.initialize_storage_league_memberships();
        store.initialize_storage_league_picks();
        proof {
            assert(store@ =~= m0.with_show_and_league_schema());
        }
        GameShowManager {}
    }

    /// The season list, in insertion order.
    pub fn collect_gameshows(&self, store: &Store) -> (r: Result<Vec<GameShow>, StoreError>)
        ensures
            store@.game_shows_table ==> r is Ok,
            !store@.game_shows_table ==> r == Result::<Vec<GameShow>, StoreError>::Err(
                StoreError::TableMissing,
            ),
            r matches Ok(list) ==> {
                &&& list@.len() == store@.game_shows.len()
                &&& forall|i: int|
                    0 <= i < list@.len() ==> (#[trigger] list@[i])@ == spec_game_show_of(
                        store@.game_shows[i],
                    )
            },
    {
        store.collect_game_shows()
    }

    /// Insert the season and return the refreshed list; on failure the
    /// store is unchanged and the error propagates without a refetch.
    pub fn add_gameshow_and_refresh(&self, store: &mut Store, gameshow: &GameShow) -> (r: Result<
        Vec<GameShow>,
        StoreError,
    >)
        requires
            old(store)@.wf(),
        ensures
            final(store)@.wf(),
            r is Ok <==> old(store)@.can_insert_game_show(),
            r is Ok ==> final(store)@ == old(store)@.with_game_show(gameshow.name@),
            r is Err ==> final(store)@ == old(store)@,
            r matches Ok(list) ==> {
                &&& list@.len() == final(store)@.game_shows.len()
                &&& forall|i: int|
                    0 <= i < list@.len() ==> (#[trigger] list@[i])@ == spec_game_show_of(
                        final(store)@.game_shows[i],
                    )
            },
            !old(store)@.game_shows_table ==> r == Result::<Vec<GameShow>, StoreError>::Err(
                StoreError::TableMissing,
            ),
    {
        store.add_gameshow(gameshow)?;
        self.collect_gameshows(store)
    }

    /// Delete the season and return the refreshed list; junction rows of
    /// the season cascade away.
    pub fn delete_gameshow_and_refresh(&self, store: &mut Store, id: i32) -> (r: Result<
        Vec<GameShow>,
        StoreError,
    >)
        requires
            old(store)@.wf(),
        ensures
            final(store)@.wf(),
            r is Ok <==> old(store)@.game_shows_table,
            r is Ok ==> final(store)@ == old(store)@.without_game_show(id as int),
            r is Err ==> final(store)@ == old(store)@ && r == Result::<
                Vec<GameShow>,
                StoreError,
            >::Err(StoreError::TableMissing),
            r matches Ok(list) ==> {
                &&& list@.len() == final(store)@.game_shows.len()
                &&& forall|i: int|
                    0 <= i < list@.len() ==> (#[trigger] list@[i])@ == spec_game_show_of(
                        final(store)@.game_shows[i],
                    )
            },
    {
        self.delete_gameshow(store, id)?;
        self.collect_gameshows(store)
    }

    /// `DELETE FROM game_shows`, forwarded unchanged.
    pub fn delete_gameshow(&self, store: &mut Store, id: i32) -> (r: Result<(), StoreError>)
        requires
            old(store)@.wf(),
        ensures
            final(store)@.wf(),
            r is Ok <==> old(store)@.game_shows_table,
            r is Ok ==> final(store)@ == old(store)@.without_game_show(id as int),
            r is Err ==> final(store)@ == old(store)@ && r == Result::<(), StoreError>::Err(
                StoreError::TableMissing,
            ),
    {
        store.delete_game_show(id)
    }

    /// `INSERT INTO contestants`, forwarded unchanged.
    pub fn create_contestant(&self, store: &mut Store, contestant: &Contestant) -> (r: Result<
        (),
        StoreError,
    >)
        requires
            old(store)@.wf(),
        ensures
            final(store)@.wf(),
            r is Ok <==> old(store)@.can_insert_contestant(),
            r is Ok ==> final(store)@ == old(store)@.with_contestant(contestant.name@),
            r is Err ==> final(store)@ == old(store)@,
            !old(store)@.contestants_table ==> r == Result::<(), StoreError>::Err(
                StoreError::TableMissing,
            ),
    {
        store.create_contestant(contestant)
    }

    /// Contestant lookup by name, forwarded unchanged.
    pub fn select_contestant_by_name(&self, store: &Store, name: String) -> (r: Result<
        Contestant,
        StoreError,
    >)
        ensures
            !store@.contestants_table ==> r == Result::<Contestant, StoreError>::Err(
                StoreError::TableMissing,
            ),
            store@.contestants_table && store@.contestants_named(name@).len() == 0 ==> r
                == Result::<Contestant, StoreError>::Err(StoreError::NotFound),
            store@.contestants_table && store@.contestants_named(name@).len() == 1 ==> (r
                matches Ok(c) && c@ == spec_contestant_of(store@.contestants_named(name@)[0])),
            store@.contestants_table && store@.contestants_named(name@).len() > 1 ==> r
                == Result::<Contestant, StoreError>::Err(StoreError::Ambiguous),
    {
        store.select_contestant_by_name(name)
    }

    /// `DELETE FROM contestants WHERE name`, forwarded unchanged.
    pub fn delete_contestant(&self, store: &mut Store, name: &str) -> (r: Result<(), StoreError>)
        requires
            old(store)@.wf(),
        ensures
            final(store)@.wf(),
            r is Ok <==> old(store)@.contestants_table,
            r is Ok ==> final(store)@ == old(store)@.without_contestants_named(name@),
            r is Err ==> final(store)@ == old(store)@ && r == Result::<(), StoreError>::Err(
                StoreError::TableMissing,
            ),
    {
        store.delete_contestant(name)
    }

    /// The contestant list, in insertion order.
    pub fn collect_all_contestants(&self, store: &Store) -> (r: Result<Vec<Contestant>, StoreError>)
        ensures
            store@.contestants_table ==> r is Ok,
            !store@.contestants_table ==> r == Result::<Vec<Contestant>, StoreError>::Err(
                StoreError::TableMissing,
            ),
            r matches Ok(list) ==> {
                &&& list@.len() == store@.contestants.len()
                &&& forall|i: int|
                    0 <= i < list@.len() ==> (#[trigger] list@[i])@ == spec_contestant_of(
                        store@.contestants[i],
                    )
            },
    {
        store.collect_all_contestants()
    }

    /// Enroll the contestant onto the show, forwarded unchanged.
    pub fn enter_contestant_onto_show(
        &self,
        store: &mut Store,
        contestant_id: i32,
        game_show_id: i32,
        nickname: String,
    ) -> (r: Result<(), StoreError>)
        requires
            old(store)@.wf(),
        ensures
            final(store)@.wf(),
            r is Ok <==> old(store)@.can_enroll(contestant_id as int, game_show_id as int),
            r is Ok ==> final(store)@ == old(store)@.with_enrollment(
                contestant_id as int,
                game_show_id as int,
                nickname@,
            ),
            r is Err ==> final(store)@ == old(store)@,
    {
        store.enter_contestant_onto_show(contestant_id, game_show_id, nickname)
    }

    /// Record an elimination, forwarded unchanged.
    pub fn eliminiate_contestant_from_show(
        &self,
        store: &mut Store,
        contestant_id: i32,
        game_show_id: i32,
        round_number: i32,
    ) -> (r: Result<(), StoreError>)
        requires
            old(store)@.wf(),
        ensures
            final(store)@.wf(),
            r is Ok <==> old(store)@.can_update_enrollment(
                contestant_id as int,
                game_show_id as int,
            ),
            r is Ok ==> final(store)@ == old(store)@.with_elimination(
                contestant_id as int,
                game_show_id as int,
                round_number as int,
            ),
            r is Err ==> final(store)@ == old(store)@,
            !old(store)@.enrollments_table ==> r == Result::<(), StoreError>::Err(
                StoreError::TableMissing,
            ),
            old(store)@.enrollments_table && !enrolled(
                old(store)@.enrollments,
                contestant_id as int,
                game_show_id as int,
            ) ==> r == Result::<(), StoreError>::Err(StoreError::NotEnrolled),
    {
        store.eliminate_contestant_from_show(contestant_id, game_show_id, round_number)
    }

    /// Record a medical evacuation: the elimination for the round is
    /// recorded first, and if it is refused, its error returns and the
    /// store is untouched — the medevac flag is never set on a pairing
    /// whose elimination did not succeed.
    pub fn medically_evacuate_contestant_from_show(
        &self,
        store: &mut Store,
        contestant_id: i32,
        game_show_id: i32,
        round_number: i32,
    ) -> (r: Result<(), StoreError>)
        requires
            old(store)@.wf(),
        ensures
            final(store)@.wf(),
            r is Ok <==> old(store)@.can_update_enrollment(
                contestant_id as int,
                game_show_id as int,
            ),
            r is Ok ==> final(store)@ == old(store)@.with_elimination(
                contestant_id as int,
                game_show_id as int,
                round_number as int,
            ).with_medevac(contestant_id as int, game_show_id as int),
            r is Err ==> final(store)@ == old(store)@,
            !old(store)@.enrollments_table ==> r == Result::<(), StoreError>::Err(
                StoreError::TableMissing,
            ),
            old(store)@.enrollments_table && !enrolled(
                old(store)@.enrollments,
                contestant_id as int,
                game_show_id as int,
            ) ==> r == Result::<(), StoreError>::Err(StoreError::NotEnrolled),
    {
        let elimination_result = store.eliminate_contestant_from_show(
            contestant_id,
            game_show_id,
            round_number,
        );
        match elimination_result {
            Err(e) => Err(e),
            Ok(()) => {
                proof {
                    let pre = old(store)@;
                    let i = choose|i: int|
                        0 <= i < pre.enrollments.len() && (#[trigger] pre.enrollments[
                            i
                        ]).contestant_id == contestant_id as int && pre.enrollments[
                            i
                        ].game_show_id == game_show_id as int;
                    assert(store@.enrollments[i].contestant_id == contestant_id as int);
                    assert(enrolled(
                        store@.enrollments,
                        contestant_id as int,
                        game_show_id as int,
                    ));
                }
                store.medically_evacuate_contestant_from_show(contestant_id, game_show_id)
            },
        }
    }

    /// `INSERT INTO leagues`, forwarded unchanged.
    pub fn create_league(&self, store: &mut Store, league: &League) -> (r: Result<(), StoreError>)
        requires
            old(store)@.wf(),
        ensures
            final(store)@.wf(),
            r is Ok <==> old(store)@.can_insert_league(),
            r is Ok ==> final(store)@ == old(store)@.with_league(
                league.name@,
                crate::records::opt_int(league.id_showseason),
            ),
            r is Err ==> final(store)@ == old(store)@,
            !old(store)@.leagues_table ==> r == Result::<(), StoreError>::Err(
                StoreError::TableMissing,
            ),
    {
        store.create_league(league)
    }

    /// The leagues of one season, in insertion order.
    pub fn collect_leagues(&self, store: &Store, id_showseason: i32) -> (r: Result<
        Vec<League>,
        StoreError,
    >)
        ensures
            store@.leagues_table ==> r is Ok,
            !store@.leagues_table ==> r == Result::<Vec<League>, StoreError>::Err(
                StoreError::TableMissing,
            ),
            r matches Ok(list) ==> {
                &&& list@.len() == store@.leagues_for(id_showseason as int).len()
                &&& forall|i: int|
                    0 <= i < list@.len() ==> (#[trigger] list@[i])@ == spec_league_of(
                        store@.leagues_for(id_showseason as int)[i],
                    )
            },
    {
        store.collect_leagues(id_showseason)
    }

    /// `DELETE FROM leagues`, forwarded unchanged.
    pub fn delete_league(&self, store: &mut Store, id: i32) -> (r: Result<(), StoreError>)
        requires
            old(store)@.wf(),
        ensures
            final(store)@.wf(),
            r is Ok <==> old(store)@.leagues_table,
            r is Ok ==> final(store)@ == old(store)@.without_league(id as int),
            r is Err ==> final(store)@ == old(store)@ && r == Result::<(), StoreError>::Err(
                StoreError::TableMissing,
            ),
    {
        store.delete_league(id)
    }

    /// Add the user to the league, forwarded unchanged.
    pub fn add_user_to_league(&self, store: &mut Store, user_id: i32, league_id: i32) -> (r: Result<
        (),
        StoreError,
    >)
        requires
            old(store)@.wf(),
        ensures
            final(store)@.wf(),
            r is Ok <==> old(store)@.can_add_member(league_id as int, user_id as int),
            r is Ok ==> final(store)@ == old(store)@.with_member(league_id as int, user_id as int),
            r is Err ==> final(store)@ == old(store)@,
            old(store)@.members_table && !(has_league(old(store)@.leagues, league_id as int)
                && has_user(old(store)@.users, user_id as int)) ==> r == Result::<(),
                StoreError,
            >::Err(StoreError::MissingReference),
    {
        store.add_user_to_league(user_id, league_id)
    }

    /// Remove the user from the league, forwarded unchanged.
    pub fn remove_user_from_league(
        &self,
        store: &mut Store,
        user_id: i32,
        league_id: i32,
    ) -> (r: Result<(), StoreError>)
        requires
            old(store)@.wf(),
        ensures
            final(store)@.wf(),
            r is Ok <==> old(store)@.members_table,
            r is Ok ==> final(store)@ == old(store)@.without_member(
                league_id as int,
                user_id as int,
            ),
            r is Err ==> final(store)@ == old(store)@ && r == Result::<(), StoreError>::Err(
                StoreError::TableMissing,
            ),
    {
        store.remove_user_from_league(user_id, league_id)
    }

    /// The contestants-on-show join, forwarded unchanged.
    pub fn fetch_contestants_on_show(&self, store: &Store, game_show_id: i32) -> (r: Result<
        Vec<Contestant>,
        StoreError,
    >)
        requires
            store@.wf(),
        ensures
            store@.contestants_table && store@.enrollments_table ==> r is Ok,
            !(store@.contestants_table && store@.enrollments_table) ==> r == Result::<
                Vec<Contestant>,
                StoreError,
            >::Err(StoreError::TableMissing),
            r matches Ok(list) ==> {
                &&& list@.len() == store@.enrollments_on(game_show_id as int).len()
                &&& forall|i: int|
                    0 <= i < list@.len() ==> (#[trigger] list@[i])@ == spec_enrolled_contestant_of(
                        store@,
                        store@.enrollments_on(game_show_id as int)[i],
                    )
            },
    {
        store.fetch_contestants_on_show(game_show_id)
    }

    /// The pick upsert, forwarded unchanged.
    pub fn set_league_pick(
        &self,
        store: &mut Store,
        league_id: i32,
        user_id: i32,
        round_number: i32,
        contestant_id: i32,
        rank_pick: i32,
    ) -> (r: Result<(), StoreError>)
        requires
            old(store)@.wf(),
        ensures
            final(store)@.wf(),
            r is Ok <==> old(store)@.can_set_pick(
                league_id as int,
                user_id as int,
                round_number as int,
                contestant_id as int,
            ),
            r is Ok ==> final(store)@ == old(store)@.with_pick(
                league_id as int,
                user_id as int,
                round_number as int,
                contestant_id as int,
                rank_pick as int,
            ),
            r is Err ==> final(store)@ == old(store)@,
    {
        store.set_league_pick(league_id, user_id, round_number, contestant_id, rank_pick)
    }
}

} // verus!
