//! The user manager: forwards account calls to the store and, for each
//! mutation, returns the freshly re-read user list.

use vstd::prelude::*;

use crate::records::{StoreError, User};
use crate::store::{spec_user_of, Store};

verus! {

/// Manages user accounts against an injected store.
pub struct UserManager {}

impl UserManager {
    /// Connect the manager: lays out the tables the user repository creates
    /// at startup, idempotently.
    pub fn create(store: &mut Store) -> (m: UserManager)
        ensures
            final(store)@ == old(store)@.with_user_schema(),
            old(store)@.wf() ==> final(store)@.wf(),
    {
        store.initialize_storage();
        UserManager {}
    }

    /// The user list, in insertion order.
    pub fn collect_users(&self, store: &Store) -> (r: Result<Vec<User>, StoreError>)
        ensures
            store@.users_table ==> r is Ok,
            !store@.users_table ==> r == Result::<Vec<User>, StoreError>::Err(
                StoreError::TableMissing,
            ),
            r matches Ok(list) ==> {
                &&& list@.len() == store@.users.len()
                &&& forall|i: int|
                    0 <= i < list@.len() ==> (#[trigger] list@[i])@ == spec_user_of(
                        store@.users[i],
                    )
            },
    {
        store.collect_users()
    }

    /// Insert the user and return the refreshed list; on failure the store
    /// is unchanged and the error propagates without a refetch.
    pub fn add_user_and_refresh(&self, store: &mut Store, user: &User) -> (r: Result<
        Vec<User>,
        StoreError,
    >)
        requires
            old(store)@.wf(),
        ensures
            final(store)@.wf(),
            r is Ok <==> old(store)@.can_insert_user(),
            r is Ok ==> final(store)@ == old(store)@.with_user(
                user.name@,
                user.email@,
                user.account_type@,
            ),
            r is Err ==> final(store)@ == old(store)@,
            r matches Ok(list) ==> {
                &&& list@.len() == final(store)@.users.len()
                &&& forall|i: int|
                    0 <= i < list@.len() ==> (#[trigger] list@[i])@ == spec_user_of(
                        final(store)@.users[i],
                    )
            },
            !old(store)@.users_table ==> r == Result::<Vec<User>, StoreError>::Err(
                StoreError::TableMissing,
            ),
    {
        self.add_user(store, user)?;
        self.collect_users(store)
    }

    /// `INSERT INTO users`, forwarded unchanged.
    fn add_user(&self, store: &mut Store, user: &User) -> (r: Result<(), StoreError>)
        requires
            old(store)@.wf(),
        ensures
            final(store)@.wf(),
            r is Ok <==> old(store)@.can_insert_user(),
            r is Ok ==> final(store)@ == old(store)@.with_user(
                user.name@,
                user.email@,
                user.account_type@,
            ),
            r is Err ==> final(store)@ == old(store)@,
            !old(store)@.users_table ==> r == Result::<(), StoreError>::Err(
                StoreError::TableMissing,
            ),
    {
        store.add_user(user)
    }

    /// Update the user's name and email and return the refreshed list; the
    /// account type keeps its stored value.
    pub fn edit_user_and_refresh(&self, store: &mut Store, id: i32, user: &User) -> (r: Result<
        Vec<User>,
        StoreError,
    >)
        requires
            old(store)@.wf(),
        ensures
            final(store)@.wf(),
            r is Ok <==> old(store)@.users_table,
            r is Ok ==> final(store)@ == old(store)@.with_user_edit(
                id as int,
                user.name@,
                user.email@,
            ),
            r is Err ==> final(store)@ == old(store)@ && r == Result::<Vec<User>, StoreError>::Err(
                StoreError::TableMissing,
            ),
            r matches Ok(list) ==> {
                &&& list@.len() == final(store)@.users.len()
                &&& forall|i: int|
                    0 <= i < list@.len() ==> (#[trigger] list@[i])@ == spec_user_of(
                        final(store)@.users[i],
                    )
            },
    {
        self.edit_user(store, id, user)?;
        self.collect_users(store)
    }

    /// `UPDATE users`, forwarded unchanged.
    fn edit_user(&self, store: &mut Store, id: i32, user: &User) -> (r: Result<(), StoreError>)
        requires
            old(store)@.wf(),
        ensures
            final(store)@.wf(),
            r is Ok <==> old(store)@.users_table,
            r is Ok ==> final(store)@ == old(store)@.with_user_edit(
                id as int,
                user.name@,
                user.email@,
            ),
            r is Err ==> final(store)@ == old(store)@ && r == Result::<(), StoreError>::Err(
                StoreError::TableMissing,
            ),
    {
        store.edit_user(id, user)
    }

    /// Delete the user (whether or not the id matches a row) and return the
    /// refreshed list; memberships and picks of a deleted user cascade away.
    pub fn delete_user_and_refresh(&self, store: &mut Store, id: i32) -> (r: Result<
        Vec<User>,
        StoreError,
    >)
        requires
            old(store)@.wf(),
        ensures
            final(store)@.wf(),
            r is Ok <==> old(store)@.users_table,
            r is Ok ==> final(store)@ == old(store)@.without_user(id as int),
            r is Err ==> final(store)@ == old(store)@ && r == Result::<Vec<User>, StoreError>::Err(
                StoreError::TableMissing,
            ),
            r matches Ok(list) ==> {
                &&& list@.len() == final(store)@.users.len()
                &&& forall|i: int|
                    0 <= i < list@.len() ==> (#[trigger] list@[i])@ == spec_user_of(
                        final(store)@.users[i],
                    )
            },
    {
        self.delete_user(store, id)?;
        self.collect_users(store)
    }

    /// `DELETE FROM users`, forwarded unchanged.
    fn delete_user(&self, store: &mut Store, id: i32) -> (r: Result<(), StoreError>)
        requires
            old(store)@.wf(),
        ensures
            final(store)@.wf(),
            r is Ok <==> old(store)@.users_table,
            r is Ok ==> final(store)@ == old(store)@.without_user(id as int),
            r is Err ==> final(store)@ == old(store)@ && r == Result::<(), StoreError>::Err(
                StoreError::TableMissing,
            ),
    {
        store.delet_user(id)
    }
}

} // verus!
