//! The capability interfaces of the stores: what a checkout repository and
//! a user repository owe their callers, whatever holds the rows.

use vstd::prelude::*;
use crate::ledger::{create_result, create_rows, is_listing, return_result, return_rows, Selector};
use crate::model::{
    AppError,
    BookId,
    Checkout,
    CreateCheckout,
    CreateUser,
    DeleteUser,
    Role,
    UpdateReturned,
    UpdateUserPassword,
    UpdateUserRole,
    User,
    UserId,
};
use crate::outside::bcrypt_verify;
use crate::user::{
    can_register,
    delete_result,
    delete_users,
    has_id,
    index_of_id,
    password_change_admitted,
    role_result,
    role_users,
    user_by_id,
};

verus! {

/// A store of checkout rows.
pub trait CheckoutRepository {
    /// The rows, in the order in which they were created.
    spec fn rows(&self) -> Seq<Checkout>;

    /// The store's invariant.
    spec fn valid(&self) -> bool;

    /// Lends a book: appends an open row, unless the book is out already.
    fn create(&mut self, event: CreateCheckout) -> (r: Result<(), AppError>)
        requires
            old(self).valid(),
        ensures
            final(self).valid(),
            r == create_result(old(self).rows(), event),
            final(self).rows() == create_rows(old(self).rows(), event),
    ;

    /// Takes a book back: sets the return time of the row that the event
    /// names, once.
    fn update_returned(&mut self, event: UpdateReturned) -> (r: Result<(), AppError>)
        requires
            old(self).valid(),
        ensures
            final(self).valid(),
            r == return_result(old(self).rows(), event),
            final(self).rows() == return_rows(old(self).rows(), event),
    ;

    /// Every open row, oldest checkout first.
    fn find_unreturned_all(&self) -> (r: Vec<Checkout>)
        requires
            self.valid(),
        ensures
            is_listing(self.rows(), Selector::Unreturned, false, r@),
    ;

    /// The open rows of one borrower, oldest checkout first.
    fn find_unreturned_by_user_id(&self, user_id: UserId) -> (r: Vec<Checkout>)
        requires
            self.valid(),
        ensures
            is_listing(self.rows(), Selector::UnreturnedBy(user_id), false, r@),
    ;

    /// Every row of one book, returned or not, most recent checkout first.
    fn find_history_by_book_id(&self, book_id: BookId) -> (r: Vec<Checkout>)
        requires
            self.valid(),
        ensures
            is_listing(self.rows(), Selector::HistoryOf(book_id), true, r@),
    ;
}

/// A store of user records.
pub trait UserRepository {
    /// The records, in the order of registration.
    spec fn users(&self) -> Seq<User>;

    /// The identifier that the next registration gets.
    spec fn next_user_id(&self) -> u128;

    /// The store's invariant.
    spec fn valid(&self) -> bool;

    /// The record of a user as the store holds it now.
    fn find_current_user(&self, current_user_id: UserId) -> (r: Option<&User>)
        requires
            self.valid(),
        ensures
            match r {
                Some(u) => user_by_id(self.users(), current_user_id) == Some(*u),
                None => user_by_id(self.users(), current_user_id) is None,
            },
    ;

    /// Every record, in the order of registration.
    fn find_all(&self) -> (r: Vec<User>)
        requires
            self.valid(),
        ensures
            r@ == self.users(),
    ;

    /// Registers a user as a patron: hashes the password and stores the
    /// record. Hashing draws a random salt, so the stored hash is not
    /// determined; it is one that the password matches. Fails where the
    /// email is taken or no identifier is left, and where hashing fails.
    fn create(&mut self, event: CreateUser) -> (r: Result<User, AppError>)
        requires
            old(self).valid(),
        ensures
            final(self).valid(),
            match r {
                Ok(u) => {
                    &&& can_register(old(self).users(), old(self).next_user_id(), event.email@)
                    &&& u.id == UserId(old(self).next_user_id())
                    &&& u.name == event.name
                    &&& u.email == event.email
                    &&& u.role == Role::Patron
                    &&& bcrypt_verify(event.password@, u.password_hash@) == Some(true)
                    &&& final(self).users() == old(self).users().push(u)
                    &&& final(self).next_user_id() == old(self).next_user_id() + 1
                },
                Err(e) => {
                    &&& e == AppError::PersistenceFailure
                    &&& final(self).users() == old(self).users()
                    &&& final(self).next_user_id() == old(self).next_user_id()
                },
            },
            !can_register(old(self).users(), old(self).next_user_id(), event.email@) ==> r is Err,
    ;

    /// Changes a user's password: checks the current one, hashes the new one
    /// and stores the hash. Hashing draws a random salt, so the stored hash is
    /// not determined; it is one that the new password matches.
    fn update_password(&mut self, event: UpdateUserPassword) -> (r: Result<(), AppError>)
        requires
            old(self).valid(),
        ensures
            final(self).valid(),
            final(self).next_user_id() == old(self).next_user_id(),
            !has_id(old(self).users(), event.user_id) ==> r == Err::<(), AppError>(
                AppError::NotFound,
            ),
            has_id(old(self).users(), event.user_id) && !password_change_admitted(
                old(self).users(),
                event,
            ) ==> r == Err::<(), AppError>(AppError::InvalidCredentials),
            password_change_admitted(old(self).users(), event) ==> r is Ok || r == Err::<
                (),
                AppError,
            >(AppError::PersistenceFailure),
            r is Err ==> final(self).users() == old(self).users(),
            r is Ok ==> exists|h: String|
                {
                    &&& bcrypt_verify(event.new_password@, h@) == Some(true)
                    &&& final(self).users() == old(self).users().update(
                        index_of_id(old(self).users(), event.user_id),
                        User {
                            password_hash: h,
                            ..old(self).users()[index_of_id(old(self).users(), event.user_id)]
                        },
                    )
                },
    ;

    /// Changes a user's role.
    fn update_role(&mut self, event: UpdateUserRole) -> (r: Result<(), AppError>)
        requires
            old(self).valid(),
        ensures
            final(self).valid(),
            final(self).next_user_id() == old(self).next_user_id(),
            r == role_result(old(self).users(), event),
            final(self).users() == role_users(old(self).users(), event),
    ;

    /// Deletes a user.
    fn delete(&mut self, event: DeleteUser) -> (r: Result<(), AppError>)
        requires
            old(self).valid(),
        ensures
            final(self).valid(),
            final(self).next_user_id() == old(self).next_user_id(),
            r == delete_result(old(self).users(), event),
            final(self).users() == delete_users(old(self).users(), event),
    ;
}

} // verus!
