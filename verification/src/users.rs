//! The credential store: the users of the service, in the order of their
//! ids, with no username held twice.

use crate::error::ApiError;
use crate::models::{User, UserView};
use crate::password::{hash_password, password_matches};
use crate::time::Timestamp;
use crate::token::{generate_token, token_text};
use vstd::prelude::*;
use vstd::string::StrSliceExecFns;

verus! {

/// The least number of characters in a username.
pub const MIN_USERNAME_CHARS: usize = 3;

/// The least number of characters in a password.
pub const MIN_PASSWORD_CHARS: usize = 6;

/// A username is valid when it has at least three characters.
pub open spec fn valid_username(username: Seq<char>) -> bool {
    username.len() >= MIN_USERNAME_CHARS
}

/// A password is valid when it has at least six characters.
pub open spec fn valid_password(password: Seq<char>) -> bool {
    password.len() >= MIN_PASSWORD_CHARS
}

/// Whether a username and a password may be registered together.
pub fn check_credentials(username: &str, password: &str) -> (valid: bool)
    ensures
        valid == (valid_username(username@) && valid_password(password@)),
{
    username.unicode_len() >= MIN_USERNAME_CHARS && password.unicode_len() >= MIN_PASSWORD_CHARS
}

/// What a lookup asks of a user.
pub ghost enum UserQuery {
    /// Any user at all.
    Any,
    /// A user whose tasks the public may read.
    Public,
    /// The user with this id.
    WithId(int),
    /// The user with this name.
    Named(Seq<char>),
    /// A user whose bearer token is this text.
    Bearer(Seq<char>),
}

/// Whether `user` is what `query` asks for.
pub open spec fn admits(query: UserQuery, user: UserView) -> bool {
    match query {
        UserQuery::Any => true,
        UserQuery::Public => user.public_access,
        UserQuery::WithId(id) => user.id == id,
        UserQuery::Named(name) => user.username == name,
        UserQuery::Bearer(token) => token == token_text(user.username, user.password_hash),
    }
}

/// The index of the first user that `query` asks for.
pub open spec fn position(users: Seq<UserView>, query: UserQuery) -> Option<int>
    decreases users.len(),
{
    if users.len() == 0 {
        None
    } else if admits(query, users.first()) {
        Some(0)
    } else {
        match position(users.drop_first(), query) {
            Some(i) => Some(i + 1),
            None => None,
        }
    }
}

/// The first user that `query` asks for.
pub open spec fn lookup(users: Seq<UserView>, query: UserQuery) -> Option<UserView> {
    match position(users, query) {
        Some(i) => Some(users[i]),
        None => None,
    }
}

/// [`position`] finds a user that the query admits and that no admitted
/// user precedes, and finds none only where the query admits none.
pub proof fn lemma_position(users: Seq<UserView>, query: UserQuery)
    ensures
        match position(users, query) {
            Some(i) => {
                &&& 0 <= i < users.len()
                &&& admits(query, users[i])
                &&& forall|j: int| 0 <= j < i ==> !admits(query, #[trigger] users[j])
            },
            None => forall|j: int| 0 <= j < users.len() ==> !admits(query, #[trigger] users[j]),
        },
    decreases users.len(),
{
    if users.len() > 0 && !admits(query, users.first()) {
        let rest = users.drop_first();
        lemma_position(rest, query);
        assert(forall|j: int| 0 <= j < rest.len() ==> rest[j] == users[j + 1]);
        match position(rest, query) {
            Some(i) => {
                assert forall|j: int| 0 <= j < i + 1 implies !admits(query, #[trigger] users[j]) by {
                    if j > 0 {
                        assert(users[j] == rest[j - 1]);
                    }
                }
            },
            None => {
                assert forall|j: int| 0 <= j < users.len() implies !admits(
                    query,
                    #[trigger] users[j],
                ) by {
                    if j > 0 {
                        assert(users[j] == rest[j - 1]);
                    }
                }
            },
        }
    }
}

/// The views of a sequence of users.
pub open spec fn views(users: Seq<User>) -> Seq<UserView> {
    Seq::new(users.len(), |i: int| users[i]@)
}

/// The view of a user that may be absent.
pub open spec fn view_of(user: Option<User>) -> Option<UserView> {
    match user {
        Some(u) => Some(u@),
        None => None,
    }
}

/// What holds of the users of a store: ids are positive and grow along the
/// sequence, usernames are valid, and no two users share one.
pub open spec fn users_wf(users: Seq<UserView>) -> bool {
    &&& forall|i: int|
        0 <= i < users.len() ==> 1 <= (#[trigger] users[i]).id <= i64::MAX && valid_username(
            users[i].username,
        )
    &&& forall|i: int, j: int|
        0 <= i < j < users.len() ==> (#[trigger] users[i]).id < (#[trigger] users[j]).id
    &&& forall|i: int, j: int|
        0 <= i < j < users.len() ==> (#[trigger] users[i]).username != (
        #[trigger] users[j]).username
}

/// The id that the next user of a store loaded from `users` receives.
pub open spec fn next_after(users: Seq<UserView>) -> int {
    if users.len() == 0 {
        1
    } else {
        users.last().id + 1
    }
}

/// The user that a successful creation adds.
pub open spec fn created_user(
    id: int,
    username: Seq<char>,
    password_hash: Seq<char>,
    public_access: bool,
    readonly: bool,
    now: int,
) -> UserView {
    UserView { id, username, password_hash, public_access, readonly, created_at: now }
}

/// The executable form of a [`UserQuery`].
enum Selector {
    Any,
    Public,
    WithId(i64),
    Named(String),
    Bearer(String),
}

impl View for Selector {
    type V = UserQuery;

    closed spec fn view(&self) -> UserQuery {
        match self {
            Selector::Any => UserQuery::Any,
            Selector::Public => UserQuery::Public,
            Selector::WithId(id) => UserQuery::WithId(*id as int),
            Selector::Named(name) => UserQuery::Named(name@),
            Selector::Bearer(token) => UserQuery::Bearer(token@),
        }
    }
}

impl Selector {
    fn admits(&self, user: &User) -> (admitted: bool)
        ensures
            admitted == admits(self@, user@),
    {
        match self {
            Selector::Any => true,
            Selector::Public => user.public_access,
            Selector::WithId(id) => user.id == *id,
            Selector::Named(name) => user.username == *name,
            Selector::Bearer(token) => {
                let expected = generate_token(user.username.as_str(), user.password_hash.as_str());
                expected == *token
            },
        }
    }
}

/// The users of the service.
pub struct UserStore {
    users: Vec<User>,
    next_id: u64,
}

impl View for UserStore {
    type V = Seq<UserView>;

    /// The users, in the order of their ids.
    closed spec fn view(&self) -> Seq<UserView> {
        views(self.users@)
    }
}

impl UserStore {
    /// The id that the next created user receives.
    pub closed spec fn next_id(&self) -> int {
        self.next_id as int
    }

    /// The invariant of the store: its users are well formed, and every id
    /// in use lies below the next one to be given out.
    pub open spec fn wf(&self) -> bool {
        &&& users_wf(self@)
        &&& 1 <= self.next_id() <= i64::MAX + 1
        &&& forall|i: int| 0 <= i < self@.len() ==> (#[trigger] self@[i]).id < self.next_id()
    }

    /// A store without users, whose first user will have id 1.
    pub fn new() -> (store: Self)
        ensures
            store.wf(),
            store@ == Seq::<UserView>::empty(),
            store.next_id() == 1,
    {
        let store = UserStore { users: Vec::new(), next_id: 1 };
        assert(store@ =~= Seq::<UserView>::empty());
        store
    }

    /// The store that holds exactly `users`, if they are well formed.
    pub fn from_rows(users: Vec<User>) -> (loaded: Option<Self>)
        ensures
            loaded is Some <==> users_wf(views(users@)),
            loaded matches Some(store) ==> {
                &&& store.wf()
                &&& store@ == views(users@)
                &&& store.next_id() == next_after(views(users@))
            },
    {
        let ghost rows = views(users@);
        let n = users.len();
        let mut j: usize = 0;
        while j < n
            invariant
                j <= n,
                n == users.len(),
                rows == views(users@),
                forall|i: int|
                    0 <= i < j ==> 1 <= (#[trigger] rows[i]).id <= i64::MAX && valid_username(
                        rows[i].username,
                    ),
                forall|a: int, b: int|
                    0 <= a < b < j ==> (#[trigger] rows[a]).id < (#[trigger] rows[b]).id,
                forall|a: int, b: int|
                    0 <= a < b < j ==> (#[trigger] rows[a]).username != (
                    #[trigger] rows[b]).username,
            decreases n - j,
        {
            let user = &users[j];
            assert(rows[j as int] == user@);
            if user.id < 1 || user.username.as_str().unicode_len() < MIN_USERNAME_CHARS {
                return None;
            }
            if j > 0 {
                assert(rows[j - 1] == users@[j - 1]@);
                if users[j - 1].id >= user.id {
                    return None;
                }
            }
            let mut i: usize = 0;
            while i < j
                invariant
                    i <= j < n,
                    n == users.len(),
                    rows == views(users@),
                    rows[j as int] == user@,
                    forall|a: int| 0 <= a < i ==> (#[trigger] rows[a]).username != user@.username,
                decreases j - i,
            {
                assert(rows[i as int] == users@[i as int]@);
                if users[i].username == user.username {
                    return None;
                }
                i += 1;
            }
            j += 1;
        }
        let next_id: u64 = if n == 0 {
            1
        } else {
            assert(rows[n - 1] == users@[n - 1]@);
            users[n - 1].id as u64 + 1
        };
        Some(UserStore { users, next_id })
    }

    /// The number of users.
    pub fn len(&self) -> (n: usize)
        ensures
            n == self@.len(),
    {
        self.users.len()
    }

    fn find(&self, selector: &Selector) -> (found: Option<usize>)
        ensures
            match found {
                Some(i) => position(self@, selector@) == Some(i as int) && i < self.users.len(),
                None => position(self@, selector@) is None,
            },
    {
        let mut i: usize = 0;
        while i < self.users.len()
            invariant
                i <= self.users.len(),
                forall|j: int| 0 <= j < i ==> !admits(selector@, #[trigger] self@[j]),
            decreases self.users.len() - i,
        {
            assert(self@[i as int] == self.users@[i as int]@);
            if selector.admits(&self.users[i]) {
                proof {
                    lemma_position(self@, selector@);
                }
                return Some(i);
            }
            i += 1;
        }
        proof {
            lemma_position(self@, selector@);
        }
        None
    }

    fn get(&self, selector: &Selector) -> (found: Option<User>)
        ensures
            view_of(found) == lookup(self@, selector@),
    {
        match self.find(selector) {
            Some(i) => Some(self.users[i].clone()),
            None => None,
        }
    }

    /// The user with this name.
    pub fn find_by_username(&self, username: &str) -> (found: Option<User>)
        ensures
            view_of(found) == lookup(self@, UserQuery::Named(username@)),
    {
        self.get(&Selector::Named(username.to_string()))
    }

    /// The user with this id.
    pub fn find_by_id(&self, id: i64) -> (found: Option<User>)
        ensures
            view_of(found) == lookup(self@, UserQuery::WithId(id as int)),
    {
        self.get(&Selector::WithId(id))
    }

    /// The public user with the lowest id.
    pub fn find_first_public(&self) -> (found: Option<User>)
        ensures
            view_of(found) == lookup(self@, UserQuery::Public),
    {
        self.get(&Selector::Public)
    }

    /// The user with the lowest id.
    pub fn first(&self) -> (found: Option<User>)
        ensures
            view_of(found) == lookup(self@, UserQuery::Any),
    {
        self.get(&Selector::Any)
    }

    /// The first user, in the order of ids, whose bearer token is `token`.
    pub fn find_by_token(&self, token: &str) -> (found: Option<User>)
        ensures
            view_of(found) == lookup(self@, UserQuery::Bearer(token@)),
    {
        self.get(&Selector::Bearer(token.to_string()))
    }

    /// Sets the public-access flag of the user with id `user_id`. Nothing
    /// else about any user changes.
    pub fn update_public_access(&mut self, user_id: i64, value: bool) -> (r: Result<User, ApiError>)
        requires
            old(self).wf(),
        ensures
            final(self).wf(),
            final(self).next_id() == old(self).next_id(),
            match position(old(self)@, UserQuery::WithId(user_id as int)) {
                Some(i) => {
                    &&& r matches Ok(user)
                    &&& user@ == UserView { public_access: value, ..old(self)@[i] }
                    &&& final(self)@ == old(self)@.update(i, user@)
                },
                None => r == Err::<User, ApiError>(ApiError::NotFound) && final(self)@ == old(
                    self,
                )@,
            },
    {
        match self.find(&Selector::WithId(user_id)) {
            Some(i) => {
                let ghost before = self@;
                assert(before[i as int] == self.users@[i as int]@);
                let mut user = self.users[i].clone();
                user.public_access = value;
                let updated = user.clone();
                self.users.set(i, user);
                assert(self@ =~= before.update(i as int, updated@));
                Ok(updated)
            },
            None => Err(ApiError::NotFound),
        }
    }

    /// Adds a user whose password has already been hashed.
    ///
    /// Fails with `ValidationFailed` on an invalid username, else with
    /// `Conflict` where the name is taken, else with `StorageFailure` where
    /// no id is left. Otherwise the new user takes the next id and stands
    /// last in the store.
    pub fn insert_hashed(
        &mut self,
        username: &str,
        password_hash: String,
        public_access: bool,
        readonly: bool,
        now: Timestamp,
    ) -> (r: Result<User, ApiError>)
        requires
            old(self).wf(),
        ensures
            final(self).wf(),
            r is Err ==> final(self)@ == old(self)@ && final(self).next_id() == old(
                self,
            ).next_id(),
            if !valid_username(username@) {
                r == Err::<User, ApiError>(ApiError::ValidationFailed)
            } else if lookup(old(self)@, UserQuery::Named(username@)) is Some {
                r == Err::<User, ApiError>(ApiError::Conflict)
            } else if old(self).next_id() > i64::MAX {
                r == Err::<User, ApiError>(ApiError::StorageFailure)
            } else {
                &&& r matches Ok(user)
                &&& user@ == created_user(
                    old(self).next_id(),
                    username@,
                    password_hash@,
                    public_access,
                    readonly,
                    now@,
                )
                &&& final(self)@ == old(self)@.push(user@)
                &&& final(self).next_id() == old(self).next_id() + 1
            },
    {
        if username.unicode_len() < MIN_USERNAME_CHARS {
            return Err(ApiError::ValidationFailed);
        }
        let name = username.to_string();
        let selector = Selector::Named(name);
        if self.find(&selector).is_some() {
            return Err(ApiError::Conflict);
        }
        if self.next_id > i64::MAX as u64 {
            return Err(ApiError::StorageFailure);
        }
        let ghost before = self@;
        proof {
            lemma_position(before, UserQuery::Named(username@));
        }
        let user = User {
            id: self.next_id as i64,
            username: username.to_string(),
            password_hash,
            public_access,
            readonly,
            created_at: now,
        };
        let added = user.clone();
        self.users.push(user);
        self.next_id = self.next_id + 1;
        assert(self@ =~= before.push(added@));
        Ok(added)
    }

    /// Registers a user: validates the name and the password, refuses a
    /// name that is taken, hashes the password and adds the user.
    ///
    /// Validation comes first and the check for a taken name second, both
    /// before any hashing. Where both pass, the call fails only if the
    /// hasher does or no id is left, and then as a `StorageFailure`.
    pub fn create(
        &mut self,
        username: &str,
        password: &str,
        public_access: bool,
        readonly: bool,
        now: Timestamp,
    ) -> (r: Result<User, ApiError>)
        requires
            old(self).wf(),
        ensures
            final(self).wf(),
            r is Err ==> final(self)@ == old(self)@ && final(self).next_id() == old(
                self,
            ).next_id(),
            if !(valid_username(username@) && valid_password(password@)) {
                r == Err::<User, ApiError>(ApiError::ValidationFailed)
            } else if lookup(old(self)@, UserQuery::Named(username@)) is Some {
                r == Err::<User, ApiError>(ApiError::Conflict)
            } else {
                match r {
                    Ok(user) => {
                        &&& password_matches(password@, user@.password_hash)
                        &&& user@ == created_user(
                            old(self).next_id(),
                            username@,
                            user@.password_hash,
                            public_access,
                            readonly,
                            now@,
                        )
                        &&& final(self)@ == old(self)@.push(user@)
                        &&& final(self).next_id() == old(self).next_id() + 1
                    },
                    Err(e) => e == ApiError::StorageFailure,
                }
            },
    {
        if !check_credentials(username, password) {
            return Err(ApiError::ValidationFailed);
        }
        if self.find(&Selector::Named(username.to_string())).is_some() {
            return Err(ApiError::Conflict);
        }
        match hash_password(password) {
            Ok(password_hash) => self.insert_hashed(
                username,
                password_hash,
                public_access,
                readonly,
                now,
            ),
            Err(e) => Err(e),
        }
    }

    /// Every user, in the order of ids.
    pub fn list_all(&self) -> (all: Vec<User>)
        ensures
            views(all@) == self@,
    {
        let mut all: Vec<User> = Vec::new();
        let mut i: usize = 0;
        while i < self.users.len()
            invariant
                i <= self.users.len(),
                all@.len() == i,
                forall|j: int| 0 <= j < i ==> (#[trigger] all@[j])@ == self@[j],
            decreases self.users.len() - i,
        {
            all.push(self.users[i].clone());
            i += 1;
        }
        assert(views(all@) =~= self@);
        all
    }
}

} // verus!
