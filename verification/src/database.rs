//! The state of the service: its two tables, and how a fresh one is made.

use crate::error::ApiError;
use crate::models::{TodoView, UserView};
use crate::password::password_matches;
use crate::time::Timestamp;
use crate::todos::TodoStore;
use crate::users::{created_user, lookup, UserQuery, UserStore};
use vstd::prelude::*;

verus! {

/// The name of the user that every database starts with.
pub open spec fn default_username() -> Seq<char> {
    "admin"@
}

/// The password of the user that every database starts with.
pub open spec fn default_password() -> Seq<char> {
    "password"@
}

/// Everything the service keeps: the users and their tasks.
pub struct AppState {
    pub users: UserStore,
    pub todos: TodoStore,
}

impl AppState {
    /// The invariant of the state: both tables are well formed.
    pub open spec fn wf(&self) -> bool {
        self.users.wf() && self.todos.wf()
    }

    /// A state without users and without tasks.
    pub fn new() -> (state: Self)
        ensures
            state.wf(),
            state.users@ == Seq::<UserView>::empty(),
            state.todos@ == Seq::<TodoView>::empty(),
            state.users.next_id() == 1,
            state.todos.next_id() == 1,
    {
        AppState { users: UserStore::new(), todos: TodoStore::new() }
    }
}

/// Whether `after` is `before` with one user more: a user named
/// `username` with the given flags, created at `now`, who takes the next id
/// and whose password hash matches `password`.
pub open spec fn user_added(
    before: &UserStore,
    after: &UserStore,
    username: Seq<char>,
    password: Seq<char>,
    public_access: bool,
    readonly: bool,
    now: int,
) -> bool {
    &&& after@.len() == before@.len() + 1
    &&& after@ == before@.push(after@.last())
    &&& after.next_id() == before.next_id() + 1
    &&& password_matches(password, after@.last().password_hash)
    &&& after@.last() == created_user(
        before.next_id(),
        username,
        after@.last().password_hash,
        public_access,
        readonly,
        now,
    )
}

/// Whether two stores hold the same users and give out the same next id.
pub open spec fn same_users(before: &UserStore, after: &UserStore) -> bool {
    after@ == before@ && after.next_id() == before.next_id()
}

/// Whether two stores hold the same tasks and give out the same next id.
pub open spec fn same_todos(before: &TodoStore, after: &TodoStore) -> bool {
    after@ == before@ && after.next_id() == before.next_id()
}

/// Brings a state up to date: makes sure that the default user exists.
///
/// Where a user with the default name is there already, nothing changes.
/// Otherwise the default user is created, neither public nor read-only;
/// that fails only where hashing does or no id is left.
pub fn run_migrations(state: &mut AppState, now: Timestamp) -> (r: Result<(), ApiError>)
    requires
        old(state).wf(),
    ensures
        final(state).wf(),
        same_todos(&old(state).todos, &final(state).todos),
        if lookup(old(state).users@, UserQuery::Named(default_username())) is Some {
            r is Ok && same_users(&old(state).users, &final(state).users)
        } else {
            match r {
                Ok(_) => user_added(
                    &old(state).users,
                    &final(state).users,
                    default_username(),
                    default_password(),
                    false,
                    false,
                    now@,
                ),
                Err(e) => e == ApiError::StorageFailure && same_users(
                    &old(state).users,
                    &final(state).users,
                ),
            }
        },
{
    proof {
        reveal_strlit("admin");
        reveal_strlit("password");
    }
    if state.users.find_by_username("admin").is_some() {
        return Ok(());
    }
    match state.users.create("admin", "password", false, false, now) {
        Ok(_) => Ok(()),
        Err(e) => Err(e),
    }
}

/// A fresh database: no tasks, and the default user alone.
pub fn init_database(now: Timestamp) -> (r: Result<AppState, ApiError>)
    ensures
        match r {
            Ok(state) => {
                &&& state.wf()
                &&& state.todos@ == Seq::<TodoView>::empty()
                &&& state.users@.len() == 1
                &&& password_matches(default_password(), state.users@[0].password_hash)
                &&& state.users@[0] == created_user(
                    1,
                    default_username(),
                    state.users@[0].password_hash,
                    false,
                    false,
                    now@,
                )
            },
            Err(e) => e == ApiError::StorageFailure,
        },
{
    let mut state = AppState::new();
    match run_migrations(&mut state, now) {
        Ok(_) => Ok(state),
        Err(e) => Err(e),
    }
}

} // verus!
