//! The request handlers that do more than forward one manager call: the
//! contestant-creation handler re-selects the new row by name, the
//! league-deletion handler returns the season's refreshed league list, the
//! enrollment handler unpacks its record, and the browsers' preflight
//! requests are answered with fixed statuses.

use vstd::prelude::*;

use crate::gameshow_manager::GameShowManager;
use crate::records::{Contestant, League, StoreError};
use crate::store::{spec_league_of, Store};

verus! {

/// The HTTP status a successful preflight answer carries.
pub const NO_CONTENT: u16 = 204;

/// Answer a browser's preflight probe of the game-show collection.
pub fn gameshow_preflight() -> (r: u16)
    ensures
        r == NO_CONTENT,
{
    NO_CONTENT
}

/// Answer a browser's preflight probe of one game show.
pub fn gameshow_preflight_for_delete(id: i32) -> (r: u16)
    ensures
        r == NO_CONTENT,
{
    NO_CONTENT
}

/// Answer a browser's preflight probe of the contestant collection.
pub fn create_contestant_preflight() -> (r: Result<(), StoreError>)
    ensures
        r is Ok,
{
    Ok(())
}

/// Answer a browser's preflight probe of one contestant.
pub fn delete_contestant_preflight(name: &str) -> (r: Result<(), StoreError>)
    ensures
        r is Ok,
{
    Ok(())
}

/// The contestant-creation handler: insert the record's name, then answer
/// with the row selected back by that name — so the caller learns the
/// assigned identifier. The insert's own outcome is only logged by the
/// service, never returned: the selection verdict on the resulting state is
/// the response.
pub fn create_contestant(
    manager: &GameShowManager,
    store: &mut Store,
    contestant: &Contestant,
) -> (r: Result<Contestant, StoreError>)
    requires
        old(store)@.wf(),
    ensures
        final(store)@.wf(),
        old(store)@.can_insert_contestant() ==> final(store)@ == old(store)@.with_contestant(
            contestant.name@,
        ),
        !old(store)@.can_insert_contestant() ==> final(store)@ == old(store)@,
        !final(store)@.contestants_table ==> r == Result::<Contestant, StoreError>::Err(
            StoreError::TableMissing,
        ),
        final(store)@.contestants_table && final(store)@.contestants_named(contestant.name@).len()
            == 0 ==> r == Result::<Contestant, StoreError>::Err(StoreError::NotFound),
        final(store)@.contestants_table && final(store)@.contestants_named(contestant.name@).len()
            == 1 ==> (r matches Ok(c) && c@ == crate::store::spec_contestant_of(
            final(store)@.contestants_named(contestant.name@)[0],
        )),
        final(store)@.contestants_table && final(store)@.contestants_named(contestant.name@).len()
            > 1 ==> r == Result::<Contestant, StoreError>::Err(StoreError::Ambiguous),
{
    let _creation_result = manager.create_contestant(store, contestant);
    manager.select_contestant_by_name(store, contestant.name.clone())
}

/// The enrollment handler: the route body must carry the contestant's
/// identifier, the season and a nickname — the service unwraps them, so a
/// caller may not omit any.
pub fn enroll_contestant(
    manager: &GameShowManager,
    store: &mut Store,
    contestant: &Contestant,
) -> (r: Result<(), StoreError>)
    requires
        old(store)@.wf(),
        contestant.id is Some,
        contestant.id_showseason is Some,
        contestant.nickname is Some,
    ensures
        final(store)@.wf(),
        r is Ok <==> old(store)@.can_enroll(
            contestant.id->0 as int,
            contestant.id_showseason->0 as int,
        ),
        r is Ok ==> final(store)@ == old(store)@.with_enrollment(
            contestant.id->0 as int,
            contestant.id_showseason->0 as int,
            contestant.nickname->0@,
        ),
        r is Err ==> final(store)@ == old(store)@,
{
    let id = match contestant.id {
        Some(v) => v,
        None => 0,
    };
    let season = match contestant.id_showseason {
        Some(v) => v,
        None => 0,
    };
    let nickname = match &contestant.nickname {
        Some(v) => v.clone(),
        None => String::new(),
    };
    manager.enter_contestant_onto_show(store, id, season, nickname)
}

/// The league-deletion handler: delete the league, then answer with the
/// season's refreshed league list. As in the service, the deletion's own
/// outcome is dropped and the list query decides the response.
pub fn delete_league(
    manager: &GameShowManager,
    store: &mut Store,
    league_id: i32,
    id_seasonshow: i32,
) -> (r: Result<Vec<League>, StoreError>)
    requires
        old(store)@.wf(),
    ensures
        final(store)@.wf(),
        old(store)@.leagues_table ==> final(store)@ == old(store)@.without_league(
            league_id as int,
        ),
        !old(store)@.leagues_table ==> final(store)@ == old(store)@ && r == Result::<
            Vec<League>,
            StoreError,
        >::Err(StoreError::TableMissing),
        final(store)@.leagues_table ==> r is Ok,
        r matches Ok(list) ==> {
            &&& list@.len() == final(store)@.leagues_for(id_seasonshow as int).len()
            &&& forall|i: int|
                0 <= i < list@.len() ==> (#[trigger] list@[i])@ == spec_league_of(
                    final(store)@.leagues_for(id_seasonshow as int)[i],
                )
        },
{
    let _deletion_result = manager.delete_league(store, league_id);
    manager.collect_leagues(store, id_seasonshow)
}

} // verus!
