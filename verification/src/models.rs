//! The records the service keeps and the shapes it sends and receives.

use crate::time::Timestamp;
use vstd::prelude::*;
use vstd::std_specs::convert::FromSpecImpl;

verus! {

/// The view of an optional string: the text it holds, if any.
pub open spec fn opt_text(text: Option<String>) -> Option<Seq<char>> {
    match text {
        Some(s) => Some(s@),
        None => None,
    }
}

/// Copies an optional string.
pub fn clone_opt_text(text: &Option<String>) -> (copy: Option<String>)
    ensures
        copy == *text,
{
    match text {
        Some(s) => Some(s.clone()),
        None => None,
    }
}

/// A registered identity.
#[derive(Debug)]
pub struct User {
    pub id: i64,
    pub username: String,
    pub password_hash: String,
    pub public_access: bool,
    pub readonly: bool,
    pub created_at: Timestamp,
}

/// What a [`User`] is, mathematically.
pub ghost struct UserView {
    pub id: int,
    pub username: Seq<char>,
    pub password_hash: Seq<char>,
    pub public_access: bool,
    pub readonly: bool,
    pub created_at: int,
}

impl View for User {
    type V = UserView;

    open spec fn view(&self) -> UserView {
        UserView {
            id: self.id as int,
            username: self.username@,
            password_hash: self.password_hash@,
            public_access: self.public_access,
            readonly: self.readonly,
            created_at: self.created_at@,
        }
    }
}

impl Clone for User {
    fn clone(&self) -> (copy: Self)
        ensures
            copy == *self,
    {
        User {
            id: self.id,
            username: self.username.clone(),
            password_hash: self.password_hash.clone(),
            public_access: self.public_access,
            readonly: self.readonly,
            created_at: self.created_at,
        }
    }
}

/// A task, owned by exactly one user.
#[derive(Debug)]
pub struct Todo {
    pub id: i64,
    pub user_id: i64,
    pub title: String,
    pub description: Option<String>,
    pub emoji: String,
    pub completed: bool,
    pub created_at: Timestamp,
    pub updated_at: Timestamp,
}

/// What a [`Todo`] is, mathematically.
pub ghost struct TodoView {
    pub id: int,
    pub user_id: int,
    pub title: Seq<char>,
    pub description: Option<Seq<char>>,
    pub emoji: Seq<char>,
    pub completed: bool,
    pub created_at: int,
    pub updated_at: int,
}

impl View for Todo {
    type V = TodoView;

    open spec fn view(&self) -> TodoView {
        TodoView {
            id: self.id as int,
            user_id: self.user_id as int,
            title: self.title@,
            description: opt_text(self.description),
            emoji: self.emoji@,
            completed: self.completed,
            created_at: self.created_at@,
            updated_at: self.updated_at@,
        }
    }
}

impl Clone for Todo {
    fn clone(&self) -> (copy: Self)
        ensures
            copy == *self,
    {
        Todo {
            id: self.id,
            user_id: self.user_id,
            title: self.title.clone(),
            description: clone_opt_text(&self.description),
            emoji: self.emoji.clone(),
            completed: self.completed,
            created_at: self.created_at,
            updated_at: self.updated_at,
        }
    }
}

/// The body of a login request.
#[derive(Debug)]
pub struct LoginRequest {
    pub username: String,
    pub password: String,
}

/// The body of a registration request.
#[derive(Debug)]
pub struct RegisterRequest {
    pub username: String,
    pub password: String,
}

/// What a successful login returns.
#[derive(Debug)]
pub struct LoginResponse {
    pub user: UserResponse,
    pub token: String,
    pub message: String,
}

/// The outward profile of a user. It carries neither the password hash nor
/// the read-only flag.
#[derive(Debug)]
pub struct UserResponse {
    pub id: i64,
    pub username: String,
    pub public_access: bool,
}

/// What a [`UserResponse`] is, mathematically.
pub ghost struct UserResponseView {
    pub id: int,
    pub username: Seq<char>,
    pub public_access: bool,
}

impl View for UserResponse {
    type V = UserResponseView;

    open spec fn view(&self) -> UserResponseView {
        UserResponseView {
            id: self.id as int,
            username: self.username@,
            public_access: self.public_access,
        }
    }
}

/// The outward profile of a user.
pub open spec fn profile_of(user: UserView) -> UserResponseView {
    UserResponseView { id: user.id, username: user.username, public_access: user.public_access }
}

impl From<User> for UserResponse {
    fn from(user: User) -> (profile: Self) {
        UserResponse { id: user.id, username: user.username, public_access: user.public_access }
    }
}

impl FromSpecImpl<User> for UserResponse {
    open spec fn obeys_from_spec() -> bool {
        true
    }

    open spec fn from_spec(user: User) -> Self {
        UserResponse { id: user.id, username: user.username, public_access: user.public_access }
    }
}

/// The body of a settings update.
#[derive(Debug)]
pub struct UpdateUserSettingsRequest {
    pub public_access: bool,
}

/// The public-access flag of a user, with the user's name.
#[derive(Debug)]
pub struct PublicAccessResponse {
    pub public_access: bool,
    pub username: String,
}

/// The body of a request to create a task.
#[derive(Debug)]
pub struct CreateTodoRequest {
    pub title: String,
    pub description: Option<String>,
    pub emoji: String,
}

/// The emoji of a task whose request names none.
pub open spec fn default_emoji() -> Seq<char> {
    "📝"@
}

impl CreateTodoRequest {
    /// A request to create a task. An emoji that is left out defaults to
    /// the standard marker.
    pub fn new(title: String, description: Option<String>, emoji: Option<String>) -> (request:
        Self)
        ensures
            request.title == title,
            request.description == description,
            request.emoji@ == match emoji {
                Some(given) => given@,
                None => default_emoji(),
            },
    {
        let emoji = match emoji {
            Some(given) => given,
            None => "📝".to_string(),
        };
        CreateTodoRequest { title, description, emoji }
    }
}

/// The body of a request to change a task. Fields that are absent stay as
/// they are.
#[derive(Debug)]
pub struct UpdateTodoRequest {
    pub title: Option<String>,
    pub description: Option<String>,
    pub emoji: Option<String>,
    pub completed: Option<bool>,
}

/// What an [`UpdateTodoRequest`] is, mathematically.
pub ghost struct TodoPatch {
    pub title: Option<Seq<char>>,
    pub description: Option<Seq<char>>,
    pub emoji: Option<Seq<char>>,
    pub completed: Option<bool>,
}

impl View for UpdateTodoRequest {
    type V = TodoPatch;

    open spec fn view(&self) -> TodoPatch {
        TodoPatch {
            title: opt_text(self.title),
            description: opt_text(self.description),
            emoji: opt_text(self.emoji),
            completed: self.completed,
        }
    }
}

/// The outward shape of a task: every field but the owner.
#[derive(Debug)]
pub struct TodoResponse {
    pub id: i64,
    pub title: String,
    pub description: Option<String>,
    pub emoji: String,
    pub completed: bool,
    pub created_at: Timestamp,
    pub updated_at: Timestamp,
}

/// What a [`TodoResponse`] is, mathematically.
pub ghost struct TodoResponseView {
    pub id: int,
    pub title: Seq<char>,
    pub description: Option<Seq<char>>,
    pub emoji: Seq<char>,
    pub completed: bool,
    pub created_at: int,
    pub updated_at: int,
}

impl View for TodoResponse {
    type V = TodoResponseView;

    open spec fn view(&self) -> TodoResponseView {
        TodoResponseView {
            id: self.id as int,
            title: self.title@,
            description: opt_text(self.description),
            emoji: self.emoji@,
            completed: self.completed,
            created_at: self.created_at@,
            updated_at: self.updated_at@,
        }
    }
}

/// The outward shape of a task.
pub open spec fn response_of(todo: TodoView) -> TodoResponseView {
    TodoResponseView {
        id: todo.id,
        title: todo.title,
        description: todo.description,
        emoji: todo.emoji,
        completed: todo.completed,
        created_at: todo.created_at,
        updated_at: todo.updated_at,
    }
}

impl From<Todo> for TodoResponse {
    fn from(todo: Todo) -> (response: Self) {
        TodoResponse {
            id: todo.id,
            title: todo.title,
            description: todo.description,
            emoji: todo.emoji,
            completed: todo.completed,
            created_at: todo.created_at,
            updated_at: todo.updated_at,
        }
    }
}

impl FromSpecImpl<Todo> for TodoResponse {
    open spec fn obeys_from_spec() -> bool {
        true
    }

    open spec fn from_spec(todo: Todo) -> Self {
        TodoResponse {
            id: todo.id,
            title: todo.title,
            description: todo.description,
            emoji: todo.emoji,
            completed: todo.completed,
            created_at: todo.created_at,
            updated_at: todo.updated_at,
        }
    }
}

/// The views of a sequence of outward tasks.
pub open spec fn response_views(tasks: Seq<TodoResponse>) -> Seq<TodoResponseView> {
    Seq::new(tasks.len(), |i: int| tasks[i]@)
}

/// The outward shapes of a sequence of tasks.
pub open spec fn responses_of(tasks: Seq<TodoView>) -> Seq<TodoResponseView> {
    Seq::new(tasks.len(), |i: int| response_of(tasks[i]))
}

/// One day of a user's history: the tasks created on that day.
#[derive(Debug)]
pub struct HistoryDay {
    /// The day, as `YYYY-MM-DD`.
    pub date: String,
    /// How many tasks were created on the day.
    pub count: i64,
    /// How many of them are completed.
    pub completed_count: i64,
    /// The tasks themselves, from the earliest to the latest.
    pub tasks: Vec<TodoResponse>,
}

/// What a [`HistoryDay`] is, mathematically.
pub ghost struct HistoryDayView {
    pub date: Seq<char>,
    pub count: int,
    pub completed_count: int,
    pub tasks: Seq<TodoResponseView>,
}

impl View for HistoryDay {
    type V = HistoryDayView;

    open spec fn view(&self) -> HistoryDayView {
        HistoryDayView {
            date: self.date@,
            count: self.count as int,
            completed_count: self.completed_count as int,
            tasks: response_views(self.tasks@),
        }
    }
}

/// The views of a sequence of history days.
pub open spec fn history_views(days: Seq<HistoryDay>) -> Seq<HistoryDayView> {
    Seq::new(days.len(), |i: int| days[i]@)
}

/// The envelope of an endpoint that reports success apart from its data.
#[derive(Debug)]
pub struct ApiResponse<T> {
    pub success: bool,
    pub data: Option<T>,
    pub message: String,
}

impl<T> ApiResponse<T> {
    /// The envelope of a success that carries `data`.
    pub fn success(data: T) -> (response: Self)
        ensures
            response.success,
            response.data == Some(data),
            response.message@ == "操作成功"@,
    {
        ApiResponse { success: true, data: Some(data), message: "操作成功".to_string() }
    }

    /// The envelope of a failure explained by `message`.
    pub fn error(message: &str) -> (response: Self)
        ensures
            !response.success,
            response.data is None,
            response.message@ == message@,
    {
        ApiResponse { success: false, data: None, message: message.to_string() }
    }
}

} // verus!
