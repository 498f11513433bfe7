//! Access control: who is acting, whether they may write, and whose tasks
//! an anonymous caller may read.

use crate::error::ApiError;
use crate::models::UserView;
use crate::token::token_text;
use crate::users::{admits, lemma_position, lookup, UserQuery, UserStore};
use vstd::prelude::*;
use vstd::string::StrSliceExecFns;

verus! {

/// The scheme that opens a bearer credential: the word and one space.
pub open spec fn bearer_prefix() -> Seq<char> {
    seq!['B', 'e', 'a', 'r', 'e', 'r', ' ']
}

/// The token a credential header carries: what follows the bearer scheme.
/// A missing header, or one that does not open with the scheme, carries none.
pub open spec fn bearer_of(authorization: Option<Seq<char>>) -> Option<Seq<char>> {
    match authorization {
        Some(header) => if header.len() >= 7 && header.subrange(0, 7) == bearer_prefix() {
            Some(header.subrange(7, header.len() as int))
        } else {
            None
        },
        None => None,
    }
}

/// The view of a header that may be absent.
pub open spec fn header_view(authorization: Option<&str>) -> Option<Seq<char>> {
    match authorization {
        Some(header) => Some(header@),
        None => None,
    }
}

/// The view of a token that may be absent.
pub open spec fn token_view(token: Option<&str>) -> Option<Seq<char>> {
    match token {
        Some(text) => Some(text@),
        None => None,
    }
}

/// Extracts the bearer token from the value of a credential header.
pub fn bearer_token<'a>(authorization: Option<&'a str>) -> (token: Option<&'a str>)
    ensures
        token_view(token) == bearer_of(header_view(authorization)),
{
    match authorization {
        None => None,
        Some(header) => {
            let n = header.unicode_len();
            if n < 7 {
                return None;
            }
            let scheme = "Bearer ";
            proof {
                reveal_strlit("Bearer ");
            }
            assert(scheme@ =~= bearer_prefix());
            let mut i: usize = 0;
            while i < 7
                invariant
                    i <= 7 <= n,
                    n == header@.len(),
                    authorization == Some(header),
                    scheme@ == bearer_prefix(),
                    forall|j: int| 0 <= j < i ==> header@[j] == bearer_prefix()[j],
                decreases 7 - i,
            {
                if header.get_char(i) != scheme.get_char(i) {
                    assert(header@.subrange(0, 7)[i as int] != bearer_prefix()[i as int]);
                    return None;
                }
                i += 1;
            }
            assert(header@.subrange(0, 7) =~= bearer_prefix());
            Some(header.substring_char(7, n))
        },
    }
}

/// Who a credential header speaks for: the first user, in the order of
/// ids, whose token the header carries.
pub open spec fn acting_user(users: Seq<UserView>, authorization: Option<Seq<char>>) -> Option<
    UserView,
> {
    match bearer_of(authorization) {
        Some(token) => lookup(users, UserQuery::Bearer(token)),
        None => None,
    }
}

/// The identity a credential header resolves to.
pub open spec fn identity_of(users: Seq<UserView>, authorization: Option<Seq<char>>) -> Result<
    int,
    ApiError,
> {
    match acting_user(users, authorization) {
        Some(user) => Ok(user.id),
        None => Err(ApiError::Unauthorized),
    }
}

/// Whether a credential header permits writing.
pub open spec fn write_permission(
    users: Seq<UserView>,
    authorization: Option<Seq<char>>,
) -> Result<(), ApiError> {
    match acting_user(users, authorization) {
        Some(user) => if user.readonly {
            Err(ApiError::Forbidden)
        } else {
            Ok(())
        },
        None => Err(ApiError::Unauthorized),
    }
}

/// The writer a credential header resolves to: the acting user's id where
/// that user may write.
pub open spec fn writer_of(users: Seq<UserView>, authorization: Option<Seq<char>>) -> Result<
    int,
    ApiError,
> {
    match write_permission(users, authorization) {
        Ok(_) => identity_of(users, authorization),
        Err(e) => Err(e),
    }
}

/// Whose tasks a caller reads: the acting user's, else those of the public
/// user with the lowest id, else nobody's.
pub open spec fn read_scope(users: Seq<UserView>, authorization: Option<Seq<char>>) -> Option<
    int,
> {
    match acting_user(users, authorization) {
        Some(user) => Some(user.id),
        None => match lookup(users, UserQuery::Public) {
            Some(user) => Some(user.id),
            None => None,
        },
    }
}

/// Resolves the acting user of a request from its credential header.
///
/// Fails with `Unauthorized` where the header is missing, carries no
/// bearer token, or carries one that is no user's.
pub fn extract_user_id(authorization: Option<&str>, users: &UserStore) -> (r: Result<
    i64,
    ApiError,
>)
    ensures
        match r {
            Ok(id) => identity_of(users@, header_view(authorization)) == Ok::<int, ApiError>(
                id as int,
            ),
            Err(e) => identity_of(users@, header_view(authorization)) == Err::<int, ApiError>(e),
        },
{
    match bearer_token(authorization) {
        None => Err(ApiError::Unauthorized),
        Some(token) => match users.find_by_token(token) {
            Some(user) => Ok(user.id),
            None => Err(ApiError::Unauthorized),
        },
    }
}

/// Checks that the acting user of a request may write.
///
/// Fails with `Unauthorized` where the header resolves to no user, and
/// with `Forbidden` where it resolves to a read-only one.
pub fn check_readonly_permission(authorization: Option<&str>, users: &UserStore) -> (r: Result<
    (),
    ApiError,
>)
    ensures
        r == write_permission(users@, header_view(authorization)),
{
    match bearer_token(authorization) {
        None => Err(ApiError::Unauthorized),
        Some(token) => match users.find_by_token(token) {
            Some(user) => if user.readonly {
                Err(ApiError::Forbidden)
            } else {
                Ok(())
            },
            None => Err(ApiError::Unauthorized),
        },
    }
}

/// Resolves the user whose tasks a request reads. `None` means that there
/// is nothing to read, which is no failure.
pub fn resolve_read_scope(authorization: Option<&str>, users: &UserStore) -> (scope: Option<i64>)
    ensures
        match scope {
            Some(id) => read_scope(users@, header_view(authorization)) == Some(id as int),
            None => read_scope(users@, header_view(authorization)) is None,
        },
{
    match extract_user_id(authorization, users) {
        Ok(id) => Some(id),
        Err(_) => match users.find_first_public() {
            Some(user) => Some(user.id),
            None => None,
        },
    }
}

/// A token that some user holds is never `Unauthorized`: where the header
/// carries the token of a user of the store, it resolves to an identity,
/// and the write check either succeeds or answers `Forbidden`.
pub proof fn lemma_held_token_is_never_unauthorized(
    users: Seq<UserView>,
    authorization: Option<Seq<char>>,
    i: int,
)
    requires
        0 <= i < users.len(),
        bearer_of(authorization) == Some(token_text(users[i].username, users[i].password_hash)),
    ensures
        identity_of(users, authorization) is Ok,
        write_permission(users, authorization) != Err::<(), ApiError>(ApiError::Unauthorized),
{
    let query = UserQuery::Bearer(bearer_of(authorization)->0);
    lemma_position(users, query);
    assert(admits(query, users[i]));
}

/// The token of a read-only user is `Forbidden` to write: where the header
/// carries the token of the read-only user at index `i`, and no user
/// before that one holds the same token, the write check answers
/// `Forbidden`, while the identity still resolves to that user.
pub proof fn lemma_readonly_token_is_forbidden(
    users: Seq<UserView>,
    authorization: Option<Seq<char>>,
    i: int,
)
    requires
        0 <= i < users.len(),
        users[i].readonly,
        bearer_of(authorization) == Some(token_text(users[i].username, users[i].password_hash)),
        forall|j: int|
            0 <= j < i ==> token_text(
                (#[trigger] users[j]).username,
                users[j].password_hash,
            ) != token_text(users[i].username, users[i].password_hash),
    ensures
        write_permission(users, authorization) == Err::<(), ApiError>(ApiError::Forbidden),
        identity_of(users, authorization) == Ok::<int, ApiError>(users[i].id),
{
    let query = UserQuery::Bearer(bearer_of(authorization)->0);
    lemma_position(users, query);
    assert(admits(query, users[i]));
}

/// Nobody writes as a read-only user: where a header resolves to a
/// writer, the acting user is a user of the store, has the writer's id and
/// is not read-only.
pub proof fn lemma_writer_is_not_readonly(users: Seq<UserView>, authorization: Option<Seq<char>>)
    ensures
        writer_of(users, authorization) matches Ok(id) ==> {
            &&& acting_user(users, authorization) matches Some(user)
            &&& user.id == id
            &&& !user.readonly
            &&& users.contains(user)
        },
        writer_of(users, authorization) matches Err(e) ==> e == ApiError::Unauthorized || e
            == ApiError::Forbidden,
{
    if let Some(token) = bearer_of(authorization) {
        lemma_position(users, UserQuery::Bearer(token));
    }
}

/// Without a credential and without a public user there is nothing to
/// read: the read scope is empty, whoever the users are.
pub proof fn lemma_no_credential_no_public_user(users: Seq<UserView>)
    requires
        forall|i: int| 0 <= i < users.len() ==> !(#[trigger] users[i]).public_access,
    ensures
        read_scope(users, None) is None,
{
    lemma_position(users, UserQuery::Public);
}

} // verus!
