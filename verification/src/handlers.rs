//! The operations of the service, one for each request it answers.
//!
//! A handler takes the state, the value of the credential header where the
//! request carries one, and the body. It returns what is sent back, or the
//! failure that ends the request.

use crate::access::{
    check_readonly_permission, extract_user_id, header_view, identity_of, read_scope,
    resolve_read_scope, write_permission, writer_of,
};
use crate::database::{same_todos, same_users, user_added, AppState};
use crate::error::ApiError;
use crate::history::{
    is_history, labeled_history, to_responses, window_start, DayBucketView, HISTORY_WINDOW_DAYS,
};
use crate::models::{
    history_views, opt_text, profile_of, response_of, response_views, responses_of, ApiResponse,
    CreateTodoRequest, HistoryDay, LoginRequest, LoginResponse, PublicAccessResponse,
    RegisterRequest, TodoResponse, TodoResponseView, TodoView, UpdateTodoRequest,
    UpdateUserSettingsRequest, User, UserResponse, UserView,
};
use crate::todos::{created_todo, holds, is_at, is_listing, patched, todo_views, valid_patch};
use crate::password::{password_matches, verify_password};
use crate::time::Timestamp;
use crate::token::{generate_token, token_text};
use crate::users::{
    lemma_position, lookup, position, valid_password, valid_username, UserQuery, UserStore,
};
use vstd::prelude::*;

verus! {

/// The message of a successful login.
pub open spec fn login_message() -> Seq<char> {
    "登录成功"@
}

/// The message that refuses a username that is taken.
pub open spec fn username_taken_message() -> Seq<char> {
    "username already exists"@
}

/// Resolves the writer of a request: checks that its user may write,
/// then who that user is.
pub fn authorize_writer(authorization: Option<&str>, users: &UserStore) -> (r: Result<
    i64,
    ApiError,
>)
    ensures
        match r {
            Ok(id) => writer_of(users@, header_view(authorization)) == Ok::<int, ApiError>(
                id as int,
            ),
            Err(e) => writer_of(users@, header_view(authorization)) == Err::<int, ApiError>(e),
        },
{
    match check_readonly_permission(authorization, users) {
        Ok(_) => extract_user_id(authorization, users),
        Err(e) => Err(e),
    }
}

/// Reports the public-access flag of the user with the lowest id.
/// Fails with `NotFound` where there is no user at all.
pub fn get_public_access_handler(state: &AppState) -> (r: Result<PublicAccessResponse, ApiError>)
    ensures
        match lookup(state.users@, UserQuery::Any) {
            Some(user) => r matches Ok(response) && response.public_access == user.public_access
                && response.username@ == user.username,
            None => r == Err::<PublicAccessResponse, ApiError>(ApiError::NotFound),
        },
{
    match state.users.first() {
        Some(user) => Ok(
            PublicAccessResponse { public_access: user.public_access, username: user.username },
        ),
        None => Err(ApiError::NotFound),
    }
}

/// What a login returns once the user has been looked up and the password
/// checked: the profile and the token of the user where the password was
/// accepted, `Unauthorized` where it was not.
pub fn login_response(user: User, accepted: bool) -> (r: Result<LoginResponse, ApiError>)
    ensures
        if accepted {
            &&& r matches Ok(response)
            &&& response.user@ == profile_of(user@)
            &&& response.token@ == token_text(user@.username, user@.password_hash)
            &&& response.message@ == login_message()
        } else {
            r == Err::<LoginResponse, ApiError>(ApiError::Unauthorized)
        },
{
    if accepted {
        let token = generate_token(user.username.as_str(), user.password_hash.as_str());
        Ok(LoginResponse { user: user.into(), token, message: "登录成功".to_string() })
    } else {
        Err(ApiError::Unauthorized)
    }
}

/// Whether a login with this name and password succeeds, and as whom.
pub open spec fn login_user(users: Seq<UserView>, username: Seq<char>, password: Seq<char>)
    -> Option<UserView> {
    match lookup(users, UserQuery::Named(username)) {
        Some(user) => if password_matches(password, user.password_hash) {
            Some(user)
        } else {
            None
        },
        None => None,
    }
}

/// Logs a user in: returns the profile and the bearer token of the user
/// with this name if the password is theirs, and fails with
/// `Unauthorized` otherwise, whether the name or the password is wrong.
pub fn login_handler(state: &AppState, payload: &LoginRequest) -> (r: Result<
    LoginResponse,
    ApiError,
>)
    ensures
        match login_user(state.users@, payload.username@, payload.password@) {
            Some(user) => {
                &&& r matches Ok(response)
                &&& response.user@ == profile_of(user)
                &&& response.token@ == token_text(user.username, user.password_hash)
                &&& response.message@ == login_message()
            },
            None => r == Err::<LoginResponse, ApiError>(ApiError::Unauthorized),
        },
{
    match state.users.find_by_username(payload.username.as_str()) {
        Some(user) => {
            let accepted = verify_password(payload.password.as_str(), user.password_hash.as_str());
            login_response(user, accepted)
        },
        None => Err(ApiError::Unauthorized),
    }
}

/// Registers a user who is neither public nor read-only.
///
/// Fails with `ValidationFailed` where the name or the password is too
/// short. A name that is taken is no failure: the envelope then reports
/// it, and no user is added. Otherwise the call fails only where hashing
/// does or no id is left, with `StorageFailure`.
pub fn register_handler(state: &mut AppState, payload: &RegisterRequest, now: Timestamp) -> (r:
    Result<ApiResponse<UserResponse>, ApiError>)
    requires
        old(state).wf(),
    ensures
        final(state).wf(),
        same_todos(&old(state).todos, &final(state).todos),
        if !(valid_username(payload.username@) && valid_password(payload.password@)) {
            &&& r == Err::<ApiResponse<UserResponse>, ApiError>(ApiError::ValidationFailed)
            &&& same_users(&old(state).users, &final(state).users)
        } else if lookup(old(state).users@, UserQuery::Named(payload.username@)) is Some {
            &&& r matches Ok(response)
            &&& !response.success
            &&& response.data is None
            &&& response.message@ == username_taken_message()
            &&& same_users(&old(state).users, &final(state).users)
        } else {
            match r {
                Ok(response) => {
                    &&& response.success
                    &&& response.data matches Some(profile)
                    &&& profile@ == profile_of(final(state).users@.last())
                    &&& user_added(
                        &old(state).users,
                        &final(state).users,
                        payload.username@,
                        payload.password@,
                        false,
                        false,
                        now@,
                    )
                },
                Err(e) => e == ApiError::StorageFailure && same_users(
                    &old(state).users,
                    &final(state).users,
                ),
            }
        },
{
    match state.users.create(
        payload.username.as_str(),
        payload.password.as_str(),
        false,
        false,
        now,
    ) {
        Ok(user) => Ok(ApiResponse::success(user.into())),
        Err(ApiError::Conflict) => Ok(ApiResponse::error("username already exists")),
        Err(e) => Err(e),
    }
}

/// Sets the public-access flag of the acting user, who must be allowed to
/// write. Nothing else about any user changes.
pub fn update_user_settings_handler(
    state: &mut AppState,
    authorization: Option<&str>,
    payload: &UpdateUserSettingsRequest,
) -> (r: Result<ApiResponse<UserResponse>, ApiError>)
    requires
        old(state).wf(),
    ensures
        final(state).wf(),
        same_todos(&old(state).todos, &final(state).todos),
        final(state).users.next_id() == old(state).users.next_id(),
        match writer_of(old(state).users@, header_view(authorization)) {
            Ok(id) => {
                &&& r matches Ok(response)
                &&& response.success
                &&& response.data matches Some(profile)
                &&& position(old(state).users@, UserQuery::WithId(id)) matches Some(i)
                &&& final(state).users@ == old(state).users@.update(
                    i,
                    UserView { public_access: payload.public_access, ..old(state).users@[i] },
                )
                &&& profile@ == profile_of(final(state).users@[i])
            },
            Err(e) => {
                &&& r == Err::<ApiResponse<UserResponse>, ApiError>(e)
                &&& final(state).users@ == old(state).users@
            },
        },
{
    let user_id = match authorize_writer(authorization, &state.users) {
        Ok(id) => id,
        Err(e) => {
            return Err(e);
        },
    };
    proof {
        lemma_writer_exists(state.users@, header_view(authorization));
        lemma_position(state.users@, UserQuery::WithId(user_id as int));
    }
    match state.users.update_public_access(user_id, payload.public_access) {
        Ok(user) => Ok(ApiResponse::success(user.into())),
        Err(e) => Err(e),
    }
}

/// An outward task with its owner put back.
pub open spec fn owned(response: TodoResponseView, owner: int) -> TodoView {
    TodoView {
        id: response.id,
        user_id: owner,
        title: response.title,
        description: response.description,
        emoji: response.emoji,
        completed: response.completed,
        created_at: response.created_at,
        updated_at: response.updated_at,
    }
}

/// Outward tasks with their owner put back.
pub open spec fn owned_by(responses: Seq<TodoResponseView>, owner: int) -> Seq<TodoView> {
    Seq::new(responses.len(), |i: int| owned(responses[i], owner))
}

/// Lists the tasks that the caller may read, newest first: those of the
/// acting user, else those of the public user with the lowest id. Where
/// there is neither, the list is empty; that is no failure.
pub fn get_todos_handler(state: &AppState, authorization: Option<&str>) -> (todos: Vec<
    TodoResponse,
>)
    requires
        state.wf(),
    ensures
        match read_scope(state.users@, header_view(authorization)) {
            Some(owner) => is_listing(
                state.todos@,
                owner,
                None,
                owned_by(response_views(todos@), owner).reverse(),
            ),
            None => todos@.len() == 0,
        },
{
    match resolve_read_scope(authorization, &state.users) {
        Some(owner_id) => {
            let listing = state.todos.list_for_owner(owner_id);
            let todos = to_responses(&listing);
            proof {
                let owner = owner_id as int;
                let newest_first = todo_views(listing@);
                let oldest_first = newest_first.reverse();
                assert forall|i: int| 0 <= i < newest_first.len() implies (
                #[trigger] newest_first[i]).user_id == owner by {
                    assert(oldest_first[newest_first.len() - 1 - i] == newest_first[i]);
                }
                assert(owned_by(response_views(todos@), owner) =~= newest_first);
            }
            todos
        },
        None => Vec::new(),
    }
}

/// Creates a task for the acting user, who must be allowed to write.
///
/// Fails with `ValidationFailed` on an empty title, before the
/// credential is looked at; then as the credential demands; then with
/// `StorageFailure` where no id is left.
pub fn create_todo_handler(
    state: &mut AppState,
    authorization: Option<&str>,
    payload: CreateTodoRequest,
    now: Timestamp,
) -> (r: Result<TodoResponse, ApiError>)
    requires
        old(state).wf(),
    ensures
        final(state).wf(),
        same_users(&old(state).users, &final(state).users),
        r is Err ==> same_todos(&old(state).todos, &final(state).todos),
        if payload.title@.len() == 0 {
            r == Err::<TodoResponse, ApiError>(ApiError::ValidationFailed)
        } else {
            match writer_of(old(state).users@, header_view(authorization)) {
                Ok(owner) => if old(state).todos.next_id() > i64::MAX {
                    r == Err::<TodoResponse, ApiError>(ApiError::StorageFailure)
                } else {
                    &&& r matches Ok(response)
                    &&& response@ == response_of(final(state).todos@.last())
                    &&& final(state).todos@ == old(state).todos@.push(
                        created_todo(
                            old(state).todos.next_id(),
                            owner,
                            payload.title@,
                            opt_text(payload.description),
                            payload.emoji@,
                            now@,
                        ),
                    )
                    &&& final(state).todos.next_id() == old(state).todos.next_id() + 1
                },
                Err(e) => r == Err::<TodoResponse, ApiError>(e),
            }
        },
{
    if payload.title.as_str().is_empty() {
        return Err(ApiError::ValidationFailed);
    }
    let user_id = match authorize_writer(authorization, &state.users) {
        Ok(id) => id,
        Err(e) => {
            return Err(e);
        },
    };
    match state.todos.create(user_id, payload.title, payload.description, payload.emoji, now) {
        Ok(todo) => Ok(todo.into()),
        Err(e) => Err(e),
    }
}

/// Changes the task with id `id` as the patch says. The acting user must
/// be allowed to write; the task is looked up by its id alone, so it need
/// not be the acting user's own.
///
/// Fails with `ValidationFailed` where the patch gives an empty title,
/// before the credential is looked at; then as the credential demands;
/// then with `NotFound` where no task has this id.
pub fn update_todo_handler(
    state: &mut AppState,
    id: i64,
    authorization: Option<&str>,
    payload: &UpdateTodoRequest,
    now: Timestamp,
) -> (r: Result<TodoResponse, ApiError>)
    requires
        old(state).wf(),
    ensures
        final(state).wf(),
        same_users(&old(state).users, &final(state).users),
        final(state).todos.next_id() == old(state).todos.next_id(),
        r is Err ==> final(state).todos@ == old(state).todos@,
        if !valid_patch(payload@) {
            r == Err::<TodoResponse, ApiError>(ApiError::ValidationFailed)
        } else {
            match writer_of(old(state).users@, header_view(authorization)) {
                Ok(_) => if !holds(old(state).todos@, id as int, None) {
                    r == Err::<TodoResponse, ApiError>(ApiError::NotFound)
                } else {
                    &&& r matches Ok(response)
                    &&& exists|i: int|
                        {
                            &&& is_at(old(state).todos@, i, id as int, None)
                            &&& response@ == response_of(
                                patched(old(state).todos@[i], payload@, now@),
                            )
                            &&& final(state).todos@ == old(state).todos@.update(
                                i,
                                patched(old(state).todos@[i], payload@, now@),
                            )
                        }
                },
                Err(e) => r == Err::<TodoResponse, ApiError>(e),
            }
        },
{
    let valid = match &payload.title {
        Some(title) => !title.as_str().is_empty(),
        None => true,
    };
    if !valid {
        return Err(ApiError::ValidationFailed);
    }
    match authorize_writer(authorization, &state.users) {
        Ok(_) => {},
        Err(e) => {
            return Err(e);
        },
    }
    match state.todos.update(id, payload, now) {
        Ok(todo) => Ok(todo.into()),
        Err(e) => Err(e),
    }
}

/// Deletes the task with id `id` if it is the acting user's, who must be
/// allowed to write.
///
/// Fails as the credential demands; then with `NotFound` where the acting
/// user owns no task with this id, whether or not someone else does.
pub fn delete_todo_handler(state: &mut AppState, id: i64, authorization: Option<&str>) -> (r:
    Result<(), ApiError>)
    requires
        old(state).wf(),
    ensures
        final(state).wf(),
        same_users(&old(state).users, &final(state).users),
        final(state).todos.next_id() == old(state).todos.next_id(),
        r is Err ==> final(state).todos@ == old(state).todos@,
        match writer_of(old(state).users@, header_view(authorization)) {
            Ok(owner) => if holds(old(state).todos@, id as int, Some(owner)) {
                &&& r is Ok
                &&& exists|i: int|
                    {
                        &&& is_at(old(state).todos@, i, id as int, Some(owner))
                        &&& final(state).todos@ == old(state).todos@.remove(i)
                    }
            } else {
                r == Err::<(), ApiError>(ApiError::NotFound)
            },
            Err(e) => r == Err::<(), ApiError>(e),
        },
{
    let user_id = match authorize_writer(authorization, &state.users) {
        Ok(id) => id,
        Err(e) => {
            return Err(e);
        },
    };
    state.todos.delete(id, user_id)
}

/// Reports the history that the caller may read, over the default window
/// back from the day of `now`: that of the acting user, else that of the
/// public user with the lowest id. Where there is neither, the history is
/// empty; that is no failure.
pub fn get_history_handler(state: &AppState, authorization: Option<&str>, now: Timestamp) -> (history:
    Vec<HistoryDay>)
    requires
        state.wf(),
    ensures
        match read_scope(state.users@, header_view(authorization)) {
            Some(owner) => exists|buckets: Seq<DayBucketView>|
                {
                    &&& is_history(
                        state.todos@,
                        owner,
                        window_start(now@, HISTORY_WINDOW_DAYS as int),
                        buckets,
                    )
                    &&& history_views(history@) == labeled_history(buckets)
                },
            None => history@.len() == 0,
        },
{
    match resolve_read_scope(authorization, &state.users) {
        Some(owner_id) => state.todos.history_for_owner(owner_id, HISTORY_WINDOW_DAYS, now),
        None => Vec::new(),
    }
}

/// A user who has just been added logs in with the password that was
/// hashed, and under the same name nobody else can be registered: where
/// `user` carries a hash of `password` and its name was free in `users`,
/// then in the store with `user` added a login with that name and
/// password succeeds as `user`, and the name is taken.
pub proof fn lemma_added_user_logs_in(users: Seq<UserView>, user: UserView, password: Seq<char>)
    requires
        lookup(users, UserQuery::Named(user.username)) is None,
        password_matches(password, user.password_hash),
    ensures
        login_user(users.push(user), user.username, password) == Some(user),
        lookup(users.push(user), UserQuery::Named(user.username)) == Some(user),
{
    let query = UserQuery::Named(user.username);
    let after = users.push(user);
    lemma_position(users, query);
    lemma_position(after, query);
    assert(after[users.len() as int] == user);
    assert forall|j: int| 0 <= j < users.len() implies !crate::users::admits(
        query,
        #[trigger] after[j],
    ) by {
        assert(after[j] == users[j]);
    }
}

/// The identity that a header resolves to is the id of a user of the store.
pub proof fn lemma_writer_exists(users: Seq<UserView>, authorization: Option<Seq<char>>)
    ensures
        identity_of(users, authorization) matches Ok(id) ==> position(
            users,
            UserQuery::WithId(id),
        ) is Some,
{
    if let Ok(id) = identity_of(users, authorization) {
        let token = crate::access::bearer_of(authorization)->0;
        lemma_position(users, UserQuery::Bearer(token));
        lemma_position(users, UserQuery::WithId(id));
        let k = position(users, UserQuery::Bearer(token))->0;
        assert(crate::users::admits(UserQuery::WithId(id), users[k]));
    }
}

} // verus!
