//! The user store: the records that logins are checked against, and the
//! operations that administrators change them with.

use vstd::prelude::*;
use crate::model::{
    AppError,
    CreateUser,
    DeleteUser,
    Role,
    UpdateUserPassword,
    UpdateUserRole,
    User,
    UserId,
};
use crate::outside::{bcrypt_verify, hash_password, password_matches};
use crate::repository::UserRepository;

verus! {

/// Some record carries the identifier.
pub open spec fn has_id(users: Seq<User>, id: UserId) -> bool {
    exists|i: int| 0 <= i < users.len() && (#[trigger] users[i]).id == id
}

/// The position of a record that carries the identifier.
pub open spec fn index_of_id(users: Seq<User>, id: UserId) -> int {
    choose|i: int| 0 <= i < users.len() && (#[trigger] users[i]).id == id
}

/// Some record carries the email.
pub open spec fn has_email(users: Seq<User>, email: Seq<char>) -> bool {
    exists|i: int| 0 <= i < users.len() && (#[trigger] users[i]).email@ == email
}

/// The position of a record that carries the email.
pub open spec fn index_of_email(users: Seq<User>, email: Seq<char>) -> int {
    choose|i: int| 0 <= i < users.len() && (#[trigger] users[i]).email@ == email
}

/// The record of a user, if the store holds one.
pub open spec fn user_by_id(users: Seq<User>, id: UserId) -> Option<User> {
    if has_id(users, id) {
        Some(users[index_of_id(users, id)])
    } else {
        None
    }
}

/// No identifier and no email occurs twice, and every identifier lies below
/// the next one to be given out.
pub open spec fn users_wf(users: Seq<User>, next_id: u128) -> bool {
    &&& forall|i: int, j: int|
        0 <= i < j < users.len() ==> (#[trigger] users[i]).id != (#[trigger] users[j]).id
    &&& forall|i: int, j: int|
        0 <= i < j < users.len() ==> (#[trigger] users[i]).email@ != (#[trigger] users[j]).email@
    &&& forall|i: int| 0 <= i < users.len() ==> (#[trigger] users[i]).id.0 < next_id
}

/// What a login answers once the user is known, given what the comparison
/// of the password with the stored hash said: the user's identifier where it
/// said that they match, and `InvalidCredentials` where it said that they do
/// not or could not read the hash.
pub open spec fn credential_verdict(user_id: UserId, answer: Option<bool>) -> Result<
    UserId,
    AppError,
> {
    if answer == Some(true) {
        Ok(user_id)
    } else {
        Err(AppError::InvalidCredentials)
    }
}

/// What checking an email and a password answers: the user's identifier
/// where a record carries the email and the password matches its hash, and
/// one and the same error otherwise.
pub open spec fn verify_result(users: Seq<User>, email: Seq<char>, password: Seq<char>) -> Result<
    UserId,
    AppError,
> {
    if has_email(users, email) {
        credential_verdict(
            users[index_of_email(users, email)].id,
            bcrypt_verify(password, users[index_of_email(users, email)].password_hash@),
        )
    } else {
        Err(AppError::InvalidCredentials)
    }
}

/// Whether a registration can be stored at all.
pub open spec fn can_register(users: Seq<User>, next_id: u128, email: Seq<char>) -> bool {
    !has_email(users, email) && next_id < u128::MAX
}

/// What changing a role answers.
pub open spec fn role_result(users: Seq<User>, event: UpdateUserRole) -> Result<(), AppError> {
    if has_id(users, event.user_id) {
        Ok(())
    } else {
        Err(AppError::NotFound)
    }
}

/// The records after a change of role.
pub open spec fn role_users(users: Seq<User>, event: UpdateUserRole) -> Seq<User> {
    if has_id(users, event.user_id) {
        let i = index_of_id(users, event.user_id);
        users.update(i, User { role: event.role, ..users[i] })
    } else {
        users
    }
}

/// What deleting a user answers.
pub open spec fn delete_result(users: Seq<User>, event: DeleteUser) -> Result<(), AppError> {
    if has_id(users, event.user_id) {
        Ok(())
    } else {
        Err(AppError::NotFound)
    }
}

/// The records after a deletion.
pub open spec fn delete_users(users: Seq<User>, event: DeleteUser) -> Seq<User> {
    if has_id(users, event.user_id) {
        users.remove(index_of_id(users, event.user_id))
    } else {
        users
    }
}

/// Whether a change of password gets as far as hashing the new password.
pub open spec fn password_change_admitted(users: Seq<User>, event: UpdateUserPassword) -> bool {
    has_id(users, event.user_id) && bcrypt_verify(
        event.current_password@,
        users[index_of_id(users, event.user_id)].password_hash@,
    ) == Some(true)
}

/// What a change of password answers, given what the comparison of the
/// current password with the stored hash said, and the hash of the new
/// password, or `None` where hashing failed.
pub open spec fn password_result(
    users: Seq<User>,
    user_id: UserId,
    current: Option<bool>,
    hash: Option<String>,
) -> Result<(), AppError> {
    if !has_id(users, user_id) {
        Err(AppError::NotFound)
    } else if current != Some(true) {
        Err(AppError::InvalidCredentials)
    } else if hash is None {
        Err(AppError::PersistenceFailure)
    } else {
        Ok(())
    }
}

/// The work factor for password hashes where nothing else is asked for.
pub const DEFAULT_HASH_COST: u32 = 12;

/// The user store.
pub struct UserStore {
    users: Vec<User>,
    next_id: u128,
    hash_cost: u32,
}

impl View for UserStore {
    type V = Seq<User>;

    closed spec fn view(&self) -> Seq<User> {
        self.users@
    }
}

impl UserStore {
    /// The identifier that the next registration gets.
    pub closed spec fn next_id(&self) -> u128 {
        self.next_id
    }

    /// The work factor that new password hashes are made with.
    pub closed spec fn cost(&self) -> u32 {
        self.hash_cost
    }

    /// The store's invariant.
    pub open spec fn wf(&self) -> bool {
        users_wf(self@, self.next_id())
    }

    /// An empty store that hashes passwords with the given work factor.
    pub fn new(hash_cost: u32) -> (r: Self)
        ensures
            r.wf(),
            r@ == Seq::<User>::empty(),
            r.next_id() == 0,
            r.cost() == hash_cost,
    {
        UserStore { users: Vec::new(), next_id: 0, hash_cost }
    }

    proof fn lemma_index_of_id(&self, i: int)
        requires
            self.wf(),
            0 <= i < self@.len(),
        ensures
            has_id(self@, self@[i].id),
            index_of_id(self@, self@[i].id) == i,
    {
        let users = self@;
        let j = index_of_id(users, users[i].id);
        assert(0 <= j < users.len() && users[j].id == users[i].id);
        if j < i {
            assert(users[j].id != users[i].id);
        } else if i < j {
            assert(users[i].id != users[j].id);
        }
    }

    proof fn lemma_index_of_email(&self, i: int)
        requires
            self.wf(),
            0 <= i < self@.len(),
        ensures
            has_email(self@, self@[i].email@),
            index_of_email(self@, self@[i].email@) == i,
    {
        let users = self@;
        let j = index_of_email(users, users[i].email@);
        assert(0 <= j < users.len() && users[j].email@ == users[i].email@);
        if j < i {
            assert(users[j].email@ != users[i].email@);
        } else if i < j {
            assert(users[i].email@ != users[j].email@);
        }
    }

    fn position_of_id(&self, id: UserId) -> (r: Option<usize>)
        requires
            self.wf(),
        ensures
            match r {
                Some(i) => has_id(self@, id) && i == index_of_id(self@, id) && i < self@.len(),
                None => !has_id(self@, id),
            },
    {
        let n = self.users.len();
        let mut i: usize = 0;
        while i < n
            invariant
                n == self.users@.len(),
                i <= n,
                self.wf(),
                forall|j: int| 0 <= j < i ==> (#[trigger] self.users@[j]).id != id,
            decreases n - i,
        {
            if self.users[i].id == id {
                proof {
                    self.lemma_index_of_id(i as int);
                }
                return Some(i);
            }
            i += 1;
        }
        None
    }

    fn position_of_email(&self, email: &String) -> (r: Option<usize>)
        requires
            self.wf(),
        ensures
            match r {
                Some(i) => has_email(self@, email@) && i == index_of_email(self@, email@) && i
                    < self@.len(),
                None => !has_email(self@, email@),
            },
    {
        let n = self.users.len();
        let mut i: usize = 0;
        while i < n
            invariant
                n == self.users@.len(),
                i <= n,
                self.wf(),
                forall|j: int| 0 <= j < i ==> (#[trigger] self.users@[j]).email@ != email@,
            decreases n - i,
        {
            if self.users[i].email == *email {
                proof {
                    self.lemma_index_of_email(i as int);
                }
                return Some(i);
            }
            i += 1;
        }
        None
    }

    /// Checks an email and a password against the stored hash.
    pub fn verify_user(&self, email: &String, password: &String) -> (r: Result<UserId, AppError>)
        requires
            self.wf(),
        ensures
            r == verify_result(self@, email@, password@),
    {
        match self.position_of_email(email) {
            Some(i) => {
                let u = &self.users[i];
                verdict(u.id, password_matches(password, &u.password_hash))
            },
            None => Err(AppError::InvalidCredentials),
        }
    }

    /// Stores a registration whose password has been hashed: `hash` is the
    /// hash, or `None` where hashing failed. The new user is a patron.
    pub fn insert_hashed(&mut self, name: String, email: String, hash: Option<String>) -> (r:
        Result<User, AppError>)
        requires
            old(self).wf(),
        ensures
            final(self).wf(),
            final(self).cost() == old(self).cost(),
            can_register(old(self)@, old(self).next_id(), email@) && hash is Some ==> r == Ok::<
                User,
                AppError,
            >(
                User {
                    id: UserId(old(self).next_id()),
                    name,
                    email,
                    password_hash: hash->0,
                    role: Role::Patron,
                },
            ) && final(self)@ == old(self)@.push(r->Ok_0) && final(self).next_id() == old(
                self,
            ).next_id() + 1,
            !(can_register(old(self)@, old(self).next_id(), email@) && hash is Some) ==> r == Err::<
                User,
                AppError,
            >(AppError::PersistenceFailure) && final(self)@ == old(self)@ && final(self).next_id()
                == old(self).next_id(),
    {
        if self.position_of_email(&email).is_some() || self.next_id == u128::MAX {
            return Err(AppError::PersistenceFailure);
        }
        match hash {
            None => Err(AppError::PersistenceFailure),
            Some(h) => {
                let user = User {
                    id: UserId(self.next_id),
                    name,
                    email,
                    password_hash: h,
                    role: Role::Patron,
                };
                let copy = user.duplicate();
                self.users.push(user);
                self.next_id = self.next_id + 1;
                Ok(copy)
            },
        }
    }

    /// Replaces a user's password hash, given what the comparison of the
    /// current password with the stored hash said, and the hash of the new
    /// password, or `None` where hashing failed.
    pub fn replace_hash(&mut self, user_id: UserId, current: Option<bool>, hash: Option<String>)
        -> (r: Result<(), AppError>)
        requires
            old(self).wf(),
        ensures
            final(self).wf(),
            final(self).cost() == old(self).cost(),
            final(self).next_id() == old(self).next_id(),
            r == password_result(old(self)@, user_id, current, hash),
            r is Ok ==> final(self)@ == old(self)@.update(
                index_of_id(old(self)@, user_id),
                User { password_hash: hash->0, ..old(self)@[index_of_id(old(self)@, user_id)] },
            ),
            r is Err ==> final(self)@ == old(self)@,
    {
        match self.position_of_id(user_id) {
            None => Err(AppError::NotFound),
            Some(i) => match current {
                Some(true) => match hash {
                    None => Err(AppError::PersistenceFailure),
                    Some(h) => {
                        let mut u = self.users[i].duplicate();
                        u.password_hash = h;
                        self.users.set(i, u);
                        Ok(())
                    },
                },
                _ => Err(AppError::InvalidCredentials),
            },
        }
    }
}

/// What a login answers once the user is known, given what the comparison of
/// the password with the stored hash said.
pub fn verdict(user_id: UserId, answer: Option<bool>) -> (r: Result<UserId, AppError>)
    ensures
        r == credential_verdict(user_id, answer),
{
    match answer {
        Some(true) => Ok(user_id),
        _ => Err(AppError::InvalidCredentials),
    }
}

impl UserRepository for UserStore {
    open spec fn users(&self) -> Seq<User> {
        self@
    }

    open spec fn next_user_id(&self) -> u128 {
        self.next_id()
    }

    open spec fn valid(&self) -> bool {
        self.wf()
    }

    /// The record of a user as the store holds it now.
    fn find_current_user(&self, current_user_id: UserId) -> (r: Option<&User>)
        ensures
            match r {
                Some(u) => user_by_id(self@, current_user_id) == Some(*u),
                None => user_by_id(self@, current_user_id) is None,
            },
    {
        match self.position_of_id(current_user_id) {
            Some(i) => Some(&self.users[i]),
            None => None,
        }
    }

    /// Every record, in the order of registration.
    fn find_all(&self) -> (r: Vec<User>)
        ensures
            r@ == self@,
    {
        let n = self.users.len();
        let mut out: Vec<User> = Vec::new();
        let mut i: usize = 0;
        while i < n
            invariant
                n == self.users@.len(),
                i <= n,
                out@ == self.users@.take(i as int),
            decreases n - i,
        {
            out.push(self.users[i].duplicate());
            proof {
                assert(out@ =~= self.users@.take(i as int + 1));
            }
            i += 1;
        }
        proof {
            assert(self.users@.take(n as int) =~= self.users@);
        }
        out
    }

    /// Registers a user: hashes the password and stores the record. Hashing
    /// draws a random salt, so the stored hash is not determined; it is one
    /// that the password matches.
    fn create(&mut self, event: CreateUser) -> (r: Result<User, AppError>)
        ensures
            final(self).wf(),
            final(self).cost() == old(self).cost(),
            match r {
                Ok(u) => {
                    &&& can_register(old(self)@, old(self).next_id(), event.email@)
                    &&& u.id == UserId(old(self).next_id())
                    &&& u.name == event.name
                    &&& u.email == event.email
                    &&& u.role == Role::Patron
                    &&& bcrypt_verify(event.password@, u.password_hash@) == Some(true)
                    &&& final(self)@ == old(self)@.push(u)
                    &&& final(self).next_id() == old(self).next_id() + 1
                },
                Err(e) => {
                    &&& e == AppError::PersistenceFailure
                    &&& final(self)@ == old(self)@
                    &&& final(self).next_id() == old(self).next_id()
                },
            },
            !can_register(old(self)@, old(self).next_id(), event.email@) ==> r is Err,
            !(4 <= old(self).cost() <= 31) ==> r is Err,
    {
        let hash = hash_password(&event.password, self.hash_cost);
        self.insert_hashed(event.name, event.email, hash)
    }

    /// Changes a user's password: checks the current one, hashes the new one
    /// and stores the hash. Hashing draws a random salt, so the stored hash is
    /// not determined; it is one that the new password matches.
    fn update_password(&mut self, event: UpdateUserPassword) -> (r: Result<(), AppError>)
        ensures
            final(self).wf(),
            final(self).cost() == old(self).cost(),
            final(self).next_id() == old(self).next_id(),
            !has_id(old(self)@, event.user_id) ==> r == Err::<(), AppError>(AppError::NotFound),
            has_id(old(self)@, event.user_id) && !password_change_admitted(old(self)@, event) ==> r
                == Err::<(), AppError>(AppError::InvalidCredentials),
            password_change_admitted(old(self)@, event) ==> r is Ok || r == Err::<(), AppError>(
                AppError::PersistenceFailure,
            ),
            password_change_admitted(old(self)@, event) && !(4 <= old(self).cost() <= 31) ==> r
                == Err::<(), AppError>(AppError::PersistenceFailure),
            r is Err ==> final(self)@ == old(self)@,
            r is Ok ==> exists|h: String|
                {
                    &&& bcrypt_verify(event.new_password@, h@) == Some(true)
                    &&& final(self)@ == old(self)@.update(
                        index_of_id(old(self)@, event.user_id),
                        User {
                            password_hash: h,
                            ..old(self)@[index_of_id(old(self)@, event.user_id)]
                        },
                    )
                },
    {
        let current = match self.position_of_id(event.user_id) {
            Some(i) => password_matches(&event.current_password, &self.users[i].password_hash),
            None => None,
        };
        let hash = match current {
            Some(true) => hash_password(&event.new_password, self.hash_cost),
            _ => None,
        };
        self.replace_hash(event.user_id, current, hash)
    }

    /// Changes a user's role.
    fn update_role(&mut self, event: UpdateUserRole) -> (r: Result<(), AppError>)
        ensures
            final(self).wf(),
            final(self).cost() == old(self).cost(),
            final(self).next_id() == old(self).next_id(),
            r == role_result(old(self)@, event),
            final(self)@ == role_users(old(self)@, event),
    {
        match self.position_of_id(event.user_id) {
            Some(i) => {
                let mut u = self.users[i].duplicate();
                u.role = event.role;
                self.users.set(i, u);
                Ok(())
            },
            None => Err(AppError::NotFound),
        }
    }

    /// Deletes a user.
    fn delete(&mut self, event: DeleteUser) -> (r: Result<(), AppError>)
        ensures
            final(self).wf(),
            final(self).cost() == old(self).cost(),
            final(self).next_id() == old(self).next_id(),
            r == delete_result(old(self)@, event),
            final(self)@ == delete_users(old(self)@, event),
    {
        match self.position_of_id(event.user_id) {
            Some(i) => {
                let ghost before = self.users@;
                self.users.remove(i);
                proof {
                    let after = self.users@;
                    assert forall|a: int| 0 <= a < after.len() implies #[trigger] after[a] == (if a
                        < i {
                        before[a]
                    } else {
                        before[a + 1]
                    }) by {}
                    assert forall|a: int, b: int| 0 <= a < b < after.len() implies (
                    #[trigger] after[a]).id != (#[trigger] after[b]).id by {
                        let a0 = if a < i { a } else { a + 1 };
                        let b0 = if b < i { b } else { b + 1 };
                        assert(before[a0].id != before[b0].id);
                    }
                    assert forall|a: int, b: int| 0 <= a < b < after.len() implies (
                    #[trigger] after[a]).email@ != (#[trigger] after[b]).email@ by {
                        let a0 = if a < i { a } else { a + 1 };
                        let b0 = if b < i { b } else { b + 1 };
                        assert(before[a0].email@ != before[b0].email@);
                    }
                    assert forall|a: int| 0 <= a < after.len() implies (#[trigger] after[a]).id.0
                        < self.next_id by {
                        let a0 = if a < i { a } else { a + 1 };
                        assert(before[a0].id.0 < self.next_id);
                    }
                }
                Ok(())
            },
            None => Err(AppError::NotFound),
        }
    }
}

} // verus!
