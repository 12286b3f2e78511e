//! Authentication and authorization: login and logout, the step that turns
//! a token into an identity, and the role checks on that identity.

use vstd::prelude::*;
use crate::model::{
    AccessToken,
    AccessTokenResponse,
    AppError,
    AuthorizedUser,
    LoginRequest,
    Role,
    Timestamp,
    User,
    UserId,
};
use crate::token::{is_token_text, resolve_result, TokenRecord, TokenStore};
use crate::repository::UserRepository;
use crate::user::{user_by_id, verify_result, UserStore};

verus! {

/// The user behind a token at `now`: the record that the user store holds
/// at this moment for the user that the live token is bound to.
pub open spec fn identity_of(
    users: Seq<User>,
    records: Map<Seq<char>, TokenRecord>,
    ttl: u64,
    token: Seq<char>,
    now: Timestamp,
) -> Option<User> {
    match resolve_result(records, ttl, token, now) {
        Ok(id) => user_by_id(users, id),
        Err(_) => None,
    }
}

/// How a login at `now` relates its answer to the bindings before and after
/// it. With credentials that do not hold, the answer is their error and
/// nothing changes. With credentials that hold, the answer is either the
/// user's identifier with a token of 32 hexadecimal digits that was not held
/// before and is bound to the user from `now` on, or `PersistenceFailure`
/// with nothing changed.
pub open spec fn login_outcome(
    users: Seq<User>,
    before: Map<Seq<char>, TokenRecord>,
    after: Map<Seq<char>, TokenRecord>,
    req: LoginRequest,
    now: Timestamp,
    r: Result<AccessTokenResponse, AppError>,
) -> bool {
    match verify_result(users, req.email@, req.password@) {
        Ok(id) => match r {
            Ok(resp) => {
                &&& resp.user_id == id
                &&& is_token_text(resp.access_token@)
                &&& !before.contains_key(resp.access_token@)
                &&& after == before.insert(
                    resp.access_token@,
                    TokenRecord { user_id: id, created_at: now },
                )
            },
            Err(e) => e == AppError::PersistenceFailure && after == before,
        },
        Err(e) => r == Err::<AccessTokenResponse, AppError>(e) && after == before,
    }
}

/// What a role check answers.
pub open spec fn role_check(held: Role, required: Role) -> Result<(), AppError> {
    if held == required {
        Ok(())
    } else {
        Err(AppError::Forbidden)
    }
}

/// What a check for ownership or role answers.
pub open spec fn self_or_role_check(identity: AuthorizedUser, target: UserId, required: Role)
    -> Result<(), AppError> {
    if identity.user.id == target || identity.user.role == required {
        Ok(())
    } else {
        Err(AppError::Forbidden)
    }
}

/// Logs a user in: checks the credentials and, where they hold, issues a
/// token that is bound to the user from `now` on. Where they hold, the only
/// failure left is that of the token store.
pub fn login(users: &UserStore, tokens: &mut TokenStore, req: &LoginRequest, now: Timestamp) -> (r:
    Result<AccessTokenResponse, AppError>)
    requires
        users.wf(),
        old(tokens).wf(),
    ensures
        final(tokens).wf(),
        final(tokens).ttl_ms() == old(tokens).ttl_ms(),
        login_outcome(users@, old(tokens)@, final(tokens)@, *req, now, r),
{
    match users.verify_user(&req.email, &req.password) {
        Ok(user_id) => match tokens.issue(user_id, now) {
            Ok(token) => Ok(AccessTokenResponse { user_id, access_token: token.0 }),
            Err(e) => Err(e),
        },
        Err(e) => Err(e),
    }
}

/// Logs a session out: revokes its token.
pub fn logout(tokens: &mut TokenStore, token: &AccessToken)
    requires
        old(tokens).wf(),
    ensures
        final(tokens).wf(),
        final(tokens).ttl_ms() == old(tokens).ttl_ms(),
        final(tokens)@ == old(tokens)@.remove(token@),
{
    tokens.revoke(token);
}

/// Turns a token into an identity. The role is read from the user store at
/// every call; the token carries none.
pub fn authenticate(users: &UserStore, tokens: &TokenStore, token: &AccessToken, now: Timestamp)
    -> (r: Result<AuthorizedUser, AppError>)
    requires
        users.wf(),
        tokens.wf(),
    ensures
        match identity_of(users@, tokens@, tokens.ttl_ms(), token@, now) {
            Some(u) => r == Ok::<AuthorizedUser, AppError>(
                AuthorizedUser { access_token: *token, user: u },
            ),
            None => r == Err::<AuthorizedUser, AppError>(AppError::Unauthenticated),
        },
{
    match tokens.resolve(token, now) {
        Ok(user_id) => match users.find_current_user(user_id) {
            Some(u) => Ok(
                AuthorizedUser { access_token: AccessToken(token.0.clone()), user: u.duplicate() },
            ),
            None => Err(AppError::Unauthenticated),
        },
        Err(_) => Err(AppError::Unauthenticated),
    }
}

/// Accepts an identity that holds exactly the required role.
pub fn require_role(identity: &AuthorizedUser, role: Role) -> (r: Result<(), AppError>)
    ensures
        r == role_check(identity.user.role, role),
{
    if identity.user.role == role {
        Ok(())
    } else {
        Err(AppError::Forbidden)
    }
}

/// Accepts an identity that acts on its own resource, or that holds the
/// required role.
pub fn require_self_or_role(identity: &AuthorizedUser, target: UserId, role: Role) -> (r: Result<
    (),
    AppError,
>)
    ensures
        r == self_or_role_check(*identity, target, role),
{
    if identity.user.id == target || identity.user.role == role {
        Ok(())
    } else {
        Err(AppError::Forbidden)
    }
}

} // verus!
