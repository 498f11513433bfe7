use todo_backend::database::{init_database, run_migrations, AppState};
use todo_backend::error::ApiError;
use todo_backend::handlers::{
    authorize_writer, create_todo_handler, delete_todo_handler, get_history_handler,
    get_public_access_handler, get_todos_handler, login_handler, login_response,
    register_handler, update_todo_handler, update_user_settings_handler,
};
use todo_backend::models::{
    ApiResponse, CreateTodoRequest, LoginRequest, RegisterRequest, UpdateTodoRequest,
    UpdateUserSettingsRequest, User,
};
use todo_backend::time::Timestamp;
use todo_backend::token::{generate_token, verify_token};

/// 2024-01-15T00:00:00Z
const JAN_15: i64 = 1_705_276_800_000;

fn ts(millis: i64) -> Timestamp {
    Timestamp::from_millis(millis).unwrap()
}

/// A state whose users have made-up hashes: no password is ever checked.
fn state_of(names: &[(&str, bool, bool)]) -> AppState {
    let mut state = AppState::new();
    for (name, public_access, readonly) in names {
        state
            .users
            .insert_hashed(name, format!("hash-of-{}", name), *public_access, *readonly, ts(JAN_15))
            .unwrap();
    }
    state
}

fn header_for(name: &str) -> String {
    format!("Bearer {}", generate_token(name, &format!("hash-of-{}", name)))
}

fn new_todo(title: &str) -> CreateTodoRequest {
    CreateTodoRequest::new(title.to_string(), None, None)
}

fn patch() -> UpdateTodoRequest {
    UpdateTodoRequest { title: None, description: None, emoji: None, completed: None }
}

fn register(name: &str, password: &str) -> RegisterRequest {
    RegisterRequest { username: name.to_string(), password: password.to_string() }
}

fn login(name: &str, password: &str) -> LoginRequest {
    LoginRequest { username: name.to_string(), password: password.to_string() }
}

#[test]
fn end_to_end_alice_creates_completes_and_deletes_a_task() {
    let mut state = AppState::new();
    state.users.create("alice", "password1", false, false, ts(JAN_15)).unwrap();
    let session = login_handler(&state, &login("alice", "password1")).unwrap();
    assert_eq!(session.user.username, "alice");
    let header = format!("Bearer {}", session.token);

    let request = CreateTodoRequest::new("buy milk".to_string(), None, Some("🛒".to_string()));
    let created = create_todo_handler(&mut state, Some(&header), request, ts(JAN_15 + 1_000)).unwrap();
    assert_eq!(created.title, "buy milk");
    assert_eq!(created.emoji, "🛒");
    assert!(!created.completed);

    let done = UpdateTodoRequest { completed: Some(true), ..patch() };
    let updated =
        update_todo_handler(&mut state, created.id, Some(&header), &done, ts(JAN_15 + 2_000)).unwrap();
    assert!(updated.completed);

    let list = get_todos_handler(&state, Some(&header));
    assert_eq!(list.len(), 1);
    assert!(list[0].completed);
    assert_eq!(list[0].title, "buy milk");
    assert!(list[0].updated_at.millis() > list[0].created_at.millis());

    assert_eq!(delete_todo_handler(&mut state, created.id, Some(&header)), Ok(()));
    assert!(get_todos_handler(&state, Some(&header)).is_empty());
}

#[test]
fn created_user_logs_in_and_the_token_verifies_against_that_user() {
    let mut state = AppState::new();
    let alice = state.users.create("alice", "password1", false, false, ts(JAN_15)).unwrap();
    let bob = state.users.insert_hashed("bob", "hash-of-bob".to_string(), false, false, ts(JAN_15)).unwrap();
    let session = login_handler(&state, &login("alice", "password1")).unwrap();
    assert_eq!(session.user.id, alice.id);
    assert_eq!(session.user.username, "alice");
    assert!(!session.user.public_access);
    assert_eq!(session.message, "登录成功");
    assert_eq!(session.token, generate_token("alice", &alice.password_hash));
    assert!(verify_token(&session.token, &alice.username, &alice.password_hash));
    assert!(!verify_token(&session.token, &bob.username, &bob.password_hash));
}

#[test]
fn login_with_a_wrong_password_or_name_is_unauthorized() {
    let mut state = AppState::new();
    state.users.create("alice", "password1", false, false, ts(JAN_15)).unwrap();
    assert_eq!(login_handler(&state, &login("alice", "password2")).unwrap_err(), ApiError::Unauthorized);
    assert_eq!(login_handler(&state, &login("alicia", "password1")).unwrap_err(), ApiError::Unauthorized);
    assert_eq!(login_handler(&state, &login("", "")).unwrap_err(), ApiError::Unauthorized);
}

#[test]
fn login_response_follows_the_verdict() {
    let user = || User {
        id: 3,
        username: "alice".to_string(),
        password_hash: "hash".to_string(),
        public_access: true,
        readonly: true,
        created_at: ts(1),
    };
    let granted = login_response(user(), true).unwrap();
    assert_eq!(granted.user.id, 3);
    assert_eq!(granted.user.username, "alice");
    assert!(granted.user.public_access);
    assert_eq!(granted.token, "DGPqaPgbL3FKGYZtLZLfSSq35pnxuWG0jTQkh0+WFjU=");
    assert_eq!(granted.message, "登录成功");
    assert_eq!(login_response(user(), false).unwrap_err(), ApiError::Unauthorized);
}

#[test]
fn registering_the_same_username_twice_adds_one_user() {
    let mut state = AppState::new();
    let first = register_handler(&mut state, &register("alice", "password1"), ts(JAN_15)).unwrap();
    assert!(first.success);
    let profile = first.data.unwrap();
    assert_eq!(profile.id, 1);
    assert_eq!(profile.username, "alice");
    assert!(!profile.public_access);
    assert_eq!(first.message, "操作成功");
    assert_eq!(state.users.len(), 1);
    let stored = state.users.find_by_username("alice").unwrap();
    assert!(!stored.readonly);
    assert!(!stored.public_access);

    let second = register_handler(&mut state, &register("alice", "password9"), ts(JAN_15 + 1)).unwrap();
    assert!(!second.success);
    assert!(second.data.is_none());
    assert_eq!(second.message, "username already exists");
    assert_eq!(state.users.len(), 1);
    assert_eq!(state.users.find_by_username("alice").unwrap().password_hash, stored.password_hash);
}

#[test]
fn register_validates_before_it_looks_for_the_name() {
    let mut state = state_of(&[("alice", false, false)]);
    assert_eq!(
        register_handler(&mut state, &register("al", "password1"), ts(JAN_15)).unwrap_err(),
        ApiError::ValidationFailed
    );
    assert_eq!(
        register_handler(&mut state, &register("alice", "short"), ts(JAN_15)).unwrap_err(),
        ApiError::ValidationFailed
    );
    assert_eq!(state.users.len(), 1);
}

#[test]
fn readonly_user_cannot_write_anything() {
    let mut state = state_of(&[("alice", false, false), ("reader", false, true)]);
    let reader = header_for("reader");
    let alice = header_for("alice");
    let todo = create_todo_handler(&mut state, Some(&alice), new_todo("task"), ts(JAN_15)).unwrap();
    assert_eq!(
        create_todo_handler(&mut state, Some(&reader), new_todo("mine"), ts(JAN_15)).unwrap_err(),
        ApiError::Forbidden
    );
    assert_eq!(
        update_todo_handler(&mut state, todo.id, Some(&reader), &patch(), ts(JAN_15)).unwrap_err(),
        ApiError::Forbidden
    );
    assert_eq!(delete_todo_handler(&mut state, todo.id, Some(&reader)).unwrap_err(), ApiError::Forbidden);
    assert_eq!(
        update_user_settings_handler(&mut state, Some(&reader), &UpdateUserSettingsRequest { public_access: true })
            .unwrap_err(),
        ApiError::Forbidden
    );
    assert_eq!(authorize_writer(Some(&reader), &state.users), Err(ApiError::Forbidden));
    assert_eq!(authorize_writer(Some(&alice), &state.users), Ok(1));
    assert_eq!(state.todos.len(), 1);
    assert!(!state.users.find_by_username("reader").unwrap().public_access);
    // Reading is still allowed.
    assert!(get_todos_handler(&state, Some(&reader)).is_empty());
}

#[test]
fn writing_without_a_valid_credential_is_unauthorized() {
    let mut state = state_of(&[("alice", false, false)]);
    assert_eq!(
        create_todo_handler(&mut state, None, new_todo("task"), ts(JAN_15)).unwrap_err(),
        ApiError::Unauthorized
    );
    assert_eq!(
        create_todo_handler(&mut state, Some("Bearer nonsense"), new_todo("task"), ts(JAN_15)).unwrap_err(),
        ApiError::Unauthorized
    );
    assert_eq!(
        update_todo_handler(&mut state, 1, None, &patch(), ts(JAN_15)).unwrap_err(),
        ApiError::Unauthorized
    );
    assert_eq!(delete_todo_handler(&mut state, 1, None).unwrap_err(), ApiError::Unauthorized);
    assert_eq!(
        update_user_settings_handler(&mut state, None, &UpdateUserSettingsRequest { public_access: true })
            .unwrap_err(),
        ApiError::Unauthorized
    );
    assert_eq!(state.todos.len(), 0);
}

#[test]
fn create_todo_validates_the_title_before_the_credential() {
    let mut state = state_of(&[("alice", false, false)]);
    assert_eq!(
        create_todo_handler(&mut state, None, new_todo(""), ts(JAN_15)).unwrap_err(),
        ApiError::ValidationFailed
    );
    assert_eq!(
        create_todo_handler(&mut state, Some(&header_for("alice")), new_todo(""), ts(JAN_15)).unwrap_err(),
        ApiError::ValidationFailed
    );
    let empty_title = UpdateTodoRequest { title: Some(String::new()), ..patch() };
    assert_eq!(
        update_todo_handler(&mut state, 1, None, &empty_title, ts(JAN_15)).unwrap_err(),
        ApiError::ValidationFailed
    );
}

#[test]
fn create_todo_defaults_the_emoji() {
    let mut state = state_of(&[("alice", false, false)]);
    let created =
        create_todo_handler(&mut state, Some(&header_for("alice")), new_todo("task"), ts(JAN_15)).unwrap();
    assert_eq!(created.id, 1);
    assert_eq!(created.emoji, "📝");
    assert_eq!(created.description, None);
    assert_eq!(created.created_at.millis(), JAN_15);
    assert_eq!(created.updated_at.millis(), JAN_15);
    assert_eq!(state.todos.find(1).unwrap().user_id, 1);
}

#[test]
fn deleting_another_users_task_is_not_found_and_keeps_it() {
    let mut state = state_of(&[("alice", false, false), ("bob", false, false)]);
    let todo =
        create_todo_handler(&mut state, Some(&header_for("alice")), new_todo("mine"), ts(JAN_15)).unwrap();
    assert_eq!(
        delete_todo_handler(&mut state, todo.id, Some(&header_for("bob"))).unwrap_err(),
        ApiError::NotFound
    );
    assert_eq!(state.todos.len(), 1);
    assert_eq!(delete_todo_handler(&mut state, todo.id, Some(&header_for("alice"))), Ok(()));
    assert_eq!(state.todos.len(), 0);
    assert_eq!(
        delete_todo_handler(&mut state, todo.id, Some(&header_for("alice"))).unwrap_err(),
        ApiError::NotFound
    );
}

#[test]
fn update_looks_the_task_up_by_id_alone() {
    let mut state = state_of(&[("alice", false, false), ("bob", false, false)]);
    let todo =
        create_todo_handler(&mut state, Some(&header_for("alice")), new_todo("mine"), ts(JAN_15)).unwrap();
    let done = UpdateTodoRequest { completed: Some(true), ..patch() };
    let updated =
        update_todo_handler(&mut state, todo.id, Some(&header_for("bob")), &done, ts(JAN_15 + 5)).unwrap();
    assert!(updated.completed);
    assert_eq!(state.todos.find(todo.id).unwrap().user_id, 1);
    assert_eq!(
        update_todo_handler(&mut state, 99, Some(&header_for("bob")), &done, ts(JAN_15 + 5)).unwrap_err(),
        ApiError::NotFound
    );
}

#[test]
fn listing_without_credential_and_public_user_is_empty() {
    let mut state = state_of(&[("alice", false, false)]);
    create_todo_handler(&mut state, Some(&header_for("alice")), new_todo("task"), ts(JAN_15)).unwrap();
    assert!(get_todos_handler(&state, None).is_empty());
    assert!(get_todos_handler(&state, Some("Bearer nonsense")).is_empty());
    assert!(get_history_handler(&state, None, ts(JAN_15)).is_empty());
    assert!(get_todos_handler(&AppState::new(), None).is_empty());
}

#[test]
fn anonymous_callers_read_the_first_public_user() {
    let mut state = state_of(&[("alice", false, false), ("bob", true, false), ("carol", true, false)]);
    create_todo_handler(&mut state, Some(&header_for("alice")), new_todo("private"), ts(JAN_15)).unwrap();
    create_todo_handler(&mut state, Some(&header_for("bob")), new_todo("bob 1"), ts(JAN_15 + 1)).unwrap();
    create_todo_handler(&mut state, Some(&header_for("bob")), new_todo("bob 2"), ts(JAN_15 + 2)).unwrap();
    create_todo_handler(&mut state, Some(&header_for("carol")), new_todo("carol"), ts(JAN_15 + 3)).unwrap();
    let list = get_todos_handler(&state, None);
    let titles: Vec<&str> = list.iter().map(|t| t.title.as_str()).collect();
    assert_eq!(titles, vec!["bob 2", "bob 1"]);
    let history = get_history_handler(&state, None, ts(JAN_15 + 10));
    assert_eq!(history.len(), 1);
    assert_eq!(history[0].date, "2024-01-15");
    assert_eq!(history[0].count, 2);
    // A credential wins over the fallback.
    let own = get_todos_handler(&state, Some(&header_for("alice")));
    assert_eq!(own.len(), 1);
    assert_eq!(own[0].title, "private");
}

#[test]
fn history_handler_uses_the_default_window() {
    let mut state = state_of(&[("alice", false, false)]);
    let alice = header_for("alice");
    let day = 86_400_000;
    create_todo_handler(&mut state, Some(&alice), new_todo("old"), ts(JAN_15 - 366 * day)).unwrap();
    create_todo_handler(&mut state, Some(&alice), new_todo("edge"), ts(JAN_15 - 365 * day)).unwrap();
    create_todo_handler(&mut state, Some(&alice), new_todo("new"), ts(JAN_15)).unwrap();
    let history = get_history_handler(&state, Some(&alice), ts(JAN_15 + 1));
    assert_eq!(history.len(), 2);
    assert_eq!(history[0].date, "2023-01-15");
    assert_eq!(history[1].date, "2024-01-15");
}

#[test]
fn settings_update_sets_the_flag_of_the_acting_user() {
    let mut state = state_of(&[("alice", false, false), ("bob", false, false)]);
    let response = update_user_settings_handler(
        &mut state,
        Some(&header_for("bob")),
        &UpdateUserSettingsRequest { public_access: true },
    )
    .unwrap();
    assert!(response.success);
    assert_eq!(response.message, "操作成功");
    let profile = response.data.unwrap();
    assert_eq!(profile.id, 2);
    assert_eq!(profile.username, "bob");
    assert!(profile.public_access);
    assert!(state.users.find_by_id(2).unwrap().public_access);
    assert!(!state.users.find_by_id(1).unwrap().public_access);
    // The token is unchanged by the flag.
    assert_eq!(authorize_writer(Some(&header_for("bob")), &state.users), Ok(2));
}

#[test]
fn public_access_reports_the_first_user() {
    let state = state_of(&[("alice", false, false), ("bob", true, false)]);
    let response = get_public_access_handler(&state).unwrap();
    assert_eq!(response.username, "alice");
    assert!(!response.public_access);
    assert_eq!(get_public_access_handler(&AppState::new()).unwrap_err(), ApiError::NotFound);
}

#[test]
fn migrations_seed_the_default_user_once() {
    let state = init_database(ts(JAN_15)).unwrap();
    assert_eq!(state.users.len(), 1);
    assert_eq!(state.todos.len(), 0);
    let admin = state.users.find_by_username("admin").unwrap();
    assert_eq!(admin.id, 1);
    assert!(!admin.public_access);
    assert!(!admin.readonly);
    assert_eq!(admin.created_at.millis(), JAN_15);
    let mut state = state;
    assert_eq!(run_migrations(&mut state, ts(JAN_15 + 1)), Ok(()));
    assert_eq!(state.users.len(), 1);
    assert_eq!(state.users.find_by_username("admin").unwrap().password_hash, admin.password_hash);
    let session = login_handler(&state, &login("admin", "password")).unwrap();
    assert_eq!(session.user.username, "admin");
}

#[test]
fn envelope_reports_success_and_failure() {
    let ok: ApiResponse<i64> = ApiResponse::success(7);
    assert!(ok.success);
    assert_eq!(ok.data, Some(7));
    assert_eq!(ok.message, "操作成功");
    let failed: ApiResponse<i64> = ApiResponse::error("nope");
    assert!(!failed.success);
    assert_eq!(failed.data, None);
    assert_eq!(failed.message, "nope");
}
