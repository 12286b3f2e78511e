//! Plain data shared by every component: identifiers, roles, errors, and
//! the records that the stores hold.

use vstd::prelude::*;

verus! {

/// Milliseconds since the Unix epoch.
pub type Timestamp = i64;

/// Identifier of a user.
#[derive(Clone, Copy, Debug, PartialEq, Eq, Structural)]
pub struct UserId(pub u128);

/// Identifier of a catalog item.
#[derive(Clone, Copy, Debug, PartialEq, Eq, Structural)]
pub struct BookId(pub u128);

/// Identifier of a checkout row. The ledger hands them out in sequence, so a
/// row's identifier is also its position in the ledger.
#[derive(Clone, Copy, Debug, PartialEq, Eq, Structural)]
pub struct CheckoutId(pub u64);

/// Coarse authorization class.
#[derive(Clone, Copy, Debug, PartialEq, Eq, Structural)]
pub enum Role {
    Admin,
    Patron,
}

/// Every way in which a request can end without success.
#[derive(Clone, Copy, Debug, PartialEq, Eq, Structural)]
pub enum AppError {
    /// Unknown email or wrong password; the two are not told apart.
    InvalidCredentials,
    /// The token store holds no live entry for the token.
    TokenNotFound,
    /// Missing, expired or invalid token, or a token whose user is gone.
    Unauthenticated,
    /// Authenticated, but lacking the required role or ownership.
    Forbidden,
    /// The book already has an open checkout.
    BookAlreadyCheckedOut,
    /// No checkout row matches the given checkout and book.
    CheckoutNotFound,
    /// The checkout row already carries a return time.
    AlreadyReturned,
    /// A generic missing entity.
    NotFound,
    /// The backing store failed.
    PersistenceFailure,
    /// Malformed input.
    ValidationFailure,
}

/// An opaque session credential.
#[derive(Clone, Debug, PartialEq, Eq)]
pub struct AccessToken(pub String);

impl View for AccessToken {
    type V = Seq<char>;

    open spec fn view(&self) -> Seq<char> {
        self.0@
    }
}

/// A user record as the user store keeps it.
#[derive(Clone, Debug, PartialEq, Eq)]
pub struct User {
    pub id: UserId,
    pub name: String,
    pub email: String,
    pub password_hash: String,
    pub role: Role,
}

impl User {
    /// A copy of the record, field by field.
    pub fn duplicate(&self) -> (r: User)
        ensures
            r == *self,
    {
        User {
            id: self.id,
            name: self.name.clone(),
            email: self.email.clone(),
            password_hash: self.password_hash.clone(),
            role: self.role,
        }
    }
}

/// One row of the checkout ledger.
#[derive(Clone, Copy, Debug, PartialEq, Eq)]
pub struct Checkout {
    pub id: CheckoutId,
    pub book_id: BookId,
    pub checked_out_by: UserId,
    pub checked_out_at: Timestamp,
    pub returned_at: Option<Timestamp>,
}

/// Request to lend a book.
#[derive(Clone, Copy, Debug, PartialEq, Eq)]
pub struct CreateCheckout {
    pub book_id: BookId,
    pub checked_out_by: UserId,
    pub checked_out_at: Timestamp,
}

impl CreateCheckout {
    pub fn new(book_id: BookId, checked_out_by: UserId, checked_out_at: Timestamp) -> (r: Self)
        ensures
            r.book_id == book_id,
            r.checked_out_by == checked_out_by,
            r.checked_out_at == checked_out_at,
    {
        CreateCheckout { book_id, checked_out_by, checked_out_at }
    }
}

/// Request to take a book back.
#[derive(Clone, Copy, Debug, PartialEq, Eq)]
pub struct UpdateReturned {
    pub checkout_id: CheckoutId,
    pub book_id: BookId,
    pub returned_by: UserId,
    pub returned_at: Timestamp,
}

impl UpdateReturned {
    pub fn new(
        checkout_id: CheckoutId,
        book_id: BookId,
        returned_by: UserId,
        returned_at: Timestamp,
    ) -> (r: Self)
        ensures
            r.checkout_id == checkout_id,
            r.book_id == book_id,
            r.returned_by == returned_by,
            r.returned_at == returned_at,
    {
        UpdateReturned { checkout_id, book_id, returned_by, returned_at }
    }
}

/// Request to register a user.
#[derive(Clone, Debug, PartialEq, Eq)]
pub struct CreateUser {
    pub name: String,
    pub email: String,
    pub password: String,
}

/// Request to change a user's password.
#[derive(Clone, Debug, PartialEq, Eq)]
pub struct UpdateUserPassword {
    pub user_id: UserId,
    pub current_password: String,
    pub new_password: String,
}

/// Request to change a user's role.
#[derive(Clone, Copy, Debug, PartialEq, Eq)]
pub struct UpdateUserRole {
    pub user_id: UserId,
    pub role: Role,
}

/// Request to delete a user.
#[derive(Clone, Copy, Debug, PartialEq, Eq)]
pub struct DeleteUser {
    pub user_id: UserId,
}

/// Body of a login request.
#[derive(Clone, Debug, PartialEq, Eq)]
pub struct LoginRequest {
    pub email: String,
    pub password: String,
}

/// Body of a successful login response.
#[derive(Clone, Debug, PartialEq, Eq)]
pub struct AccessTokenResponse {
    pub user_id: UserId,
    pub access_token: String,
}

/// The identity that every protected operation receives: the user as the
/// store holds it at the time of the request, and the token that proved it.
#[derive(Clone, Debug, PartialEq, Eq)]
pub struct AuthorizedUser {
    pub access_token: AccessToken,
    pub user: User,
}

impl AuthorizedUser {
    pub fn id(&self) -> (r: UserId)
        ensures
            r == self.user.id,
    {
        self.user.id
    }

    pub fn is_admin(&self) -> (r: bool)
        ensures
            r == (self.user.role == Role::Admin),
    {
        self.user.role == Role::Admin
    }
}

} // verus!
