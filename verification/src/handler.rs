//! The request handlers: what each protected operation does once the caller
//! has been authenticated. Each takes the identity as an argument; none
//! reads it from anywhere else.

use vstd::prelude::*;
use crate::auth;
use crate::auth::{login_outcome, require_role, role_check};
use crate::ledger::{create_result, create_rows, is_listing, return_result, return_rows, Selector};
use crate::model::{
    AccessTokenResponse,
    AppError,
    AuthorizedUser,
    BookId,
    Checkout,
    CheckoutId,
    CreateCheckout,
    CreateUser,
    DeleteUser,
    LoginRequest,
    Role,
    Timestamp,
    UpdateReturned,
    UpdateUserPassword,
    UpdateUserRole,
    User,
    UserId,
};
use crate::outside::bcrypt_verify;
use crate::registry::AppRegistry;
use crate::repository::{CheckoutRepository, UserRepository};
use crate::user::{
    can_register,
    delete_result,
    delete_users,
    has_id,
    index_of_id,
    password_change_admitted,
    role_result,
    role_users,
};

verus! {

/// The checkout that a handler asks the ledger for at `now`.
pub open spec fn checkout_event(user: AuthorizedUser, book_id: BookId, now: Timestamp)
    -> CreateCheckout {
    CreateCheckout { book_id, checked_out_by: user.user.id, checked_out_at: now }
}

/// The return that a handler asks the ledger for at `now`.
pub open spec fn return_event(
    user: AuthorizedUser,
    book_id: BookId,
    checkout_id: CheckoutId,
    now: Timestamp,
) -> UpdateReturned {
    UpdateReturned { checkout_id, book_id, returned_by: user.user.id, returned_at: now }
}

/// Logs a user in at `now`, the time of the request.
pub fn login(registry: &mut AppRegistry, req: &LoginRequest, now: Timestamp) -> (r: Result<
    AccessTokenResponse,
    AppError,
>)
    requires
        old(registry).wf(),
    ensures
        final(registry).wf(),
        final(registry).users == old(registry).users,
        final(registry).ledger == old(registry).ledger,
        final(registry).tokens.ttl_ms() == old(registry).tokens.ttl_ms(),
        login_outcome(
            old(registry).users@,
            old(registry).tokens@,
            final(registry).tokens@,
            *req,
            now,
            r,
        ),
{
    auth::login(&registry.users, &mut registry.tokens, req, now)
}

/// Logs the caller's session out.
pub fn logout(user: &AuthorizedUser, registry: &mut AppRegistry) -> (r: Result<(), AppError>)
    requires
        old(registry).wf(),
    ensures
        final(registry).wf(),
        r is Ok,
        final(registry).users == old(registry).users,
        final(registry).ledger == old(registry).ledger,
        final(registry).tokens.ttl_ms() == old(registry).tokens.ttl_ms(),
        final(registry).tokens@ == old(registry).tokens@.remove(user.access_token@),
{
    auth::logout(&mut registry.tokens, &user.access_token);
    Ok(())
}

/// Lends a book to the caller at `now`, the time of the request.
pub fn checkout_book(
    user: &AuthorizedUser,
    book_id: BookId,
    registry: &mut AppRegistry,
    now: Timestamp,
) -> (r: Result<(), AppError>)
    requires
        old(registry).wf(),
    ensures
        final(registry).wf(),
        final(registry).users == old(registry).users,
        final(registry).tokens == old(registry).tokens,
        r == create_result(old(registry).ledger@, checkout_event(*user, book_id, now)),
        final(registry).ledger@ == create_rows(
            old(registry).ledger@,
            checkout_event(*user, book_id, now),
        ),
{
    registry.ledger.create(CreateCheckout::new(book_id, user.id(), now))
}

/// Takes a book back from the caller at `now`, the time of the request.
pub fn return_book(
    user: &AuthorizedUser,
    book_id: BookId,
    checkout_id: CheckoutId,
    registry: &mut AppRegistry,
    now: Timestamp,
) -> (r: Result<(), AppError>)
    requires
        old(registry).wf(),
    ensures
        final(registry).wf(),
        final(registry).users == old(registry).users,
        final(registry).tokens == old(registry).tokens,
        r == return_result(
            old(registry).ledger@,
            return_event(*user, book_id, checkout_id, now),
        ),
        final(registry).ledger@ == return_rows(
            old(registry).ledger@,
            return_event(*user, book_id, checkout_id, now),
        ),
{
    registry.ledger.update_returned(UpdateReturned::new(checkout_id, book_id, user.id(), now))
}

/// Every book that is out, oldest checkout first.
pub fn show_checked_out_list(_user: &AuthorizedUser, registry: &AppRegistry) -> (r: Result<
    Vec<Checkout>,
    AppError,
>)
    requires
        registry.wf(),
    ensures
        r matches Ok(list) && is_listing(registry.ledger@, Selector::Unreturned, false, list@),
{
    Ok(registry.ledger.find_unreturned_all())
}

/// Every checkout of one book, most recent first.
pub fn checkout_history(_user: &AuthorizedUser, book_id: BookId, registry: &AppRegistry) -> (r:
    Result<Vec<Checkout>, AppError>)
    requires
        registry.wf(),
    ensures
        r matches Ok(list) && is_listing(
            registry.ledger@,
            Selector::HistoryOf(book_id),
            true,
            list@,
        ),
{
    Ok(registry.ledger.find_history_by_book_id(book_id))
}

/// The books that the caller has out, oldest checkout first.
pub fn get_checkouts(user: &AuthorizedUser, registry: &AppRegistry) -> (r: Result<
    Vec<Checkout>,
    AppError,
>)
    requires
        registry.wf(),
    ensures
        r matches Ok(list) && is_listing(
            registry.ledger@,
            Selector::UnreturnedBy(user.user.id),
            false,
            list@,
        ),
{
    Ok(registry.ledger.find_unreturned_by_user_id(user.id()))
}

/// Registers a user. Only an administrator may: anyone else gets
/// `Forbidden`, and an administrator never does.
pub fn register_user(user: &AuthorizedUser, registry: &mut AppRegistry, req: CreateUser) -> (r:
    Result<User, AppError>)
    requires
        old(registry).wf(),
    ensures
        final(registry).wf(),
        final(registry).tokens == old(registry).tokens,
        final(registry).ledger == old(registry).ledger,
        final(registry).users.cost() == old(registry).users.cost(),
        match role_check(user.user.role, Role::Admin) {
            Err(e) => {
                &&& r == Err::<User, AppError>(e)
                &&& final(registry).users@ == old(registry).users@
                &&& final(registry).users.next_id() == old(registry).users.next_id()
            },
            Ok(_) => match r {
                Ok(u) => {
                    &&& can_register(
                        old(registry).users@,
                        old(registry).users.next_id(),
                        req.email@,
                    )
                    &&& u.id == UserId(old(registry).users.next_id())
                    &&& u.name == req.name
                    &&& u.email == req.email
                    &&& u.role == Role::Patron
                    &&& bcrypt_verify(req.password@, u.password_hash@) == Some(true)
                    &&& final(registry).users@ == old(registry).users@.push(u)
                    &&& final(registry).users.next_id() == old(registry).users.next_id() + 1
                },
                Err(e) => {
                    &&& e == AppError::PersistenceFailure
                    &&& final(registry).users@ == old(registry).users@
                    &&& final(registry).users.next_id() == old(registry).users.next_id()
                },
            },
        },
{
    if let Err(e) = require_role(user, Role::Admin) {
        return Err(e);
    }
    registry.users.create(req)
}

/// Every user. Only an administrator may ask.
pub fn list_users(user: &AuthorizedUser, registry: &AppRegistry) -> (r: Result<
    Vec<User>,
    AppError,
>)
    requires
        registry.wf(),
    ensures
        match role_check(user.user.role, Role::Admin) {
            Ok(_) => r matches Ok(list) && list@ == registry.users@,
            Err(e) => r == Err::<Vec<User>, AppError>(e),
        },
{
    if let Err(e) = require_role(user, Role::Admin) {
        return Err(e);
    }
    Ok(registry.users.find_all())
}

/// Deletes a user. Only an administrator may.
pub fn delete_user(user: &AuthorizedUser, user_id: UserId, registry: &mut AppRegistry) -> (r:
    Result<(), AppError>)
    requires
        old(registry).wf(),
    ensures
        final(registry).wf(),
        final(registry).tokens == old(registry).tokens,
        final(registry).ledger == old(registry).ledger,
        final(registry).users.cost() == old(registry).users.cost(),
        final(registry).users.next_id() == old(registry).users.next_id(),
        match role_check(user.user.role, Role::Admin) {
            Ok(_) => r == delete_result(old(registry).users@, DeleteUser { user_id })
                && final(registry).users@ == delete_users(
                old(registry).users@,
                DeleteUser { user_id },
            ),
            Err(e) => r == Err::<(), AppError>(e) && final(registry).users@ == old(
                registry,
            ).users@,
        },
{
    if let Err(e) = require_role(user, Role::Admin) {
        return Err(e);
    }
    registry.users.delete(DeleteUser { user_id })
}

/// Changes a user's role. Only an administrator may.
pub fn change_role(
    user: &AuthorizedUser,
    user_id: UserId,
    registry: &mut AppRegistry,
    role: Role,
) -> (r: Result<(), AppError>)
    requires
        old(registry).wf(),
    ensures
        final(registry).wf(),
        final(registry).tokens == old(registry).tokens,
        final(registry).ledger == old(registry).ledger,
        final(registry).users.cost() == old(registry).users.cost(),
        final(registry).users.next_id() == old(registry).users.next_id(),
        match role_check(user.user.role, Role::Admin) {
            Ok(_) => r == role_result(old(registry).users@, UpdateUserRole { user_id, role })
                && final(registry).users@ == role_users(
                old(registry).users@,
                UpdateUserRole { user_id, role },
            ),
            Err(e) => r == Err::<(), AppError>(e) && final(registry).users@ == old(
                registry,
            ).users@,
        },
{
    if let Err(e) = require_role(user, Role::Admin) {
        return Err(e);
    }
    registry.users.update_role(UpdateUserRole { user_id, role })
}

/// The caller's own record, as it stood when the caller was authenticated.
pub fn get_current_user(user: &AuthorizedUser) -> (r: User)
    ensures
        r == user.user,
{
    user.user.duplicate()
}

/// Changes the caller's own password.
pub fn change_password(
    user: &AuthorizedUser,
    registry: &mut AppRegistry,
    current_password: String,
    new_password: String,
) -> (r: Result<(), AppError>)
    requires
        old(registry).wf(),
    ensures
        final(registry).wf(),
        final(registry).tokens == old(registry).tokens,
        final(registry).ledger == old(registry).ledger,
        final(registry).users.cost() == old(registry).users.cost(),
        final(registry).users.next_id() == old(registry).users.next_id(),
        ({
            let users = old(registry).users@;
            let event = UpdateUserPassword { user_id: user.user.id, current_password, new_password };
            &&& !has_id(users, event.user_id) ==> r == Err::<(), AppError>(AppError::NotFound)
            &&& has_id(users, event.user_id) && !password_change_admitted(users, event) ==> r
                == Err::<(), AppError>(AppError::InvalidCredentials)
            &&& password_change_admitted(users, event) ==> r is Ok || r == Err::<(), AppError>(
                AppError::PersistenceFailure,
            )
            &&& r is Err ==> final(registry).users@ == users
            &&& r is Ok ==> exists|h: String|
                {
                    &&& bcrypt_verify(new_password@, h@) == Some(true)
                    &&& final(registry).users@ == users.update(
                        index_of_id(users, event.user_id),
                        User { password_hash: h, ..users[index_of_id(users, event.user_id)] },
                    )
                }
        }),
{
    registry.users.update_password(
        UpdateUserPassword { user_id: user.id(), current_password, new_password },
    )
}

} // verus!
