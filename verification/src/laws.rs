//! What holds of the stores across several operations, stated over the same
//! models that the operations' contracts use.

use vstd::prelude::*;
use crate::auth::{identity_of, role_check};
use crate::ledger::{
    checked_out,
    create_result,
    create_rows,
    is_listing,
    is_open,
    ledger_wf,
    new_row,
    open_count,
    precedes,
    selects,
    return_result,
    return_rows,
    Selector,
};
use crate::model::{
    AccessToken,
    AppError,
    AuthorizedUser,
    BookId,
    Checkout,
    CreateCheckout,
    Role,
    Timestamp,
    UpdateReturned,
    UpdateUserRole,
    User,
    UserId,
};
use crate::token::{issue_records, resolve_result, TokenRecord};
use crate::outside::bcrypt_verify;
use crate::user::{
    has_email,
    has_id,
    index_of_email,
    index_of_id,
    role_users,
    user_by_id,
    users_wf,
    verify_result,
};

verus! {

/// A book without an open row has an open count of zero.
pub proof fn lemma_available_counts_zero(rows: Seq<Checkout>, book: BookId)
    requires
        !checked_out(rows, book),
    ensures
        open_count(rows, book) == 0,
    decreases rows.len(),
{
    if rows.len() > 0 {
        let front = rows.drop_last();
        assert(!(rows[rows.len() - 1].book_id == book && is_open(rows[rows.len() - 1])));
        assert forall|i: int| 0 <= i < front.len() implies !((#[trigger] front[i]).book_id == book
            && is_open(front[i])) by {
            assert(front[i] == rows[i]);
        }
        lemma_available_counts_zero(front, book);
    }
}

/// Single custody: in a well-formed ledger every book has at most one open
/// row, and exactly one while it is out.
pub proof fn law_single_custody(rows: Seq<Checkout>, book: BookId)
    requires
        ledger_wf(rows),
    ensures
        open_count(rows, book) <= 1,
        checked_out(rows, book) <==> open_count(rows, book) == 1,
    decreases rows.len(),
{
    if rows.len() == 0 {
    } else {
        let front = rows.drop_last();
        let last = rows.last();
        assert forall|i: int| 0 <= i < front.len() implies #[trigger] front[i] == rows[i] by {}
        assert(ledger_wf(front));
        law_single_custody(front, book);
        if last.book_id == book && is_open(last) {
            assert(rows[rows.len() - 1] == last);
            assert forall|i: int| 0 <= i < front.len() implies !((#[trigger] front[i]).book_id
                == book && is_open(front[i])) by {
                assert(rows[i] == front[i]);
            }
            lemma_available_counts_zero(front, book);
        } else {
            if checked_out(rows, book) {
                let i = choose|i: int|
                    0 <= i < rows.len() && #[trigger] rows[i].book_id == book && is_open(rows[i]);
                assert(front[i] == rows[i]);
                assert(checked_out(front, book));
            }
            if checked_out(front, book) {
                let i = choose|i: int|
                    0 <= i < front.len() && #[trigger] front[i].book_id == book && is_open(
                        front[i],
                    );
                assert(front[i] == rows[i]);
            }
        }
    }
}

/// Checkouts and returns, whatever they answer, leave a well-formed ledger
/// well formed: single custody holds at every point in time.
pub proof fn law_ledger_stays_well_formed(
    rows: Seq<Checkout>,
    lend: CreateCheckout,
    take_back: UpdateReturned,
)
    requires
        ledger_wf(rows),
    ensures
        ledger_wf(create_rows(rows, lend)),
        ledger_wf(return_rows(rows, take_back)),
{
}

/// What a run of checkout attempts answers, one after the other.
pub open spec fn checkout_outcomes(rows: Seq<Checkout>, attempts: Seq<CreateCheckout>) -> Seq<
    Result<(), AppError>,
>
    decreases attempts.len(),
{
    if attempts.len() == 0 {
        seq![]
    } else {
        seq![create_result(rows, attempts[0])] + checkout_outcomes(
            create_rows(rows, attempts[0]),
            attempts.drop_first(),
        )
    }
}

/// The rows after a run of checkout attempts.
pub open spec fn checkout_run(rows: Seq<Checkout>, attempts: Seq<CreateCheckout>) -> Seq<Checkout>
    decreases attempts.len(),
{
    if attempts.len() == 0 {
        rows
    } else {
        checkout_run(create_rows(rows, attempts[0]), attempts.drop_first())
    }
}

/// While a book is out, every attempt to lend it fails with
/// `BookAlreadyCheckedOut` and changes nothing.
pub proof fn law_checked_out_book_is_refused(
    rows: Seq<Checkout>,
    book: BookId,
    attempts: Seq<CreateCheckout>,
)
    requires
        checked_out(rows, book),
        forall|k: int| 0 <= k < attempts.len() ==> (#[trigger] attempts[k]).book_id == book,
    ensures
        checkout_outcomes(rows, attempts).len() == attempts.len(),
        forall|k: int|
            0 <= k < attempts.len() ==> #[trigger] checkout_outcomes(rows, attempts)[k] == Err::<
                (),
                AppError,
            >(AppError::BookAlreadyCheckedOut),
        checkout_run(rows, attempts) == rows,
    decreases attempts.len(),
{
    if attempts.len() > 0 {
        let rest = attempts.drop_first();
        assert(attempts[0].book_id == book);
        assert(create_rows(rows, attempts[0]) == rows);
        assert forall|k: int| 0 <= k < rest.len() implies (#[trigger] rest[k]).book_id == book by {
            assert(rest[k] == attempts[k + 1]);
        }
        law_checked_out_book_is_refused(rows, book, rest);
        let tail = checkout_outcomes(rows, rest);
        let all = checkout_outcomes(rows, attempts);
        assert(all == seq![create_result(rows, attempts[0])] + tail);
        assert forall|k: int| 0 <= k < attempts.len() implies #[trigger] all[k] == Err::<
            (),
            AppError,
        >(AppError::BookAlreadyCheckedOut) by {
            if k > 0 {
                assert(all[k] == tail[k - 1]);
            }
        }
    }
}

/// Of any number of attempts to lend one available book, by whichever
/// borrowers and in whichever order they reach the ledger, the first
/// succeeds and every other fails with `BookAlreadyCheckedOut`; afterwards
/// the ledger is what it was plus the winner's row, and the book has exactly
/// one open row. A checkout takes the ledger by exclusive reference, so
/// attempts made at the same time reach it one after the other, in some
/// order, and this holds of every order.
pub proof fn law_one_checkout_wins(
    rows: Seq<Checkout>,
    book: BookId,
    attempts: Seq<CreateCheckout>,
)
    requires
        ledger_wf(rows),
        rows.len() < u64::MAX,
        !checked_out(rows, book),
        attempts.len() >= 1,
        forall|k: int| 0 <= k < attempts.len() ==> (#[trigger] attempts[k]).book_id == book,
    ensures
        checkout_outcomes(rows, attempts).len() == attempts.len(),
        checkout_outcomes(rows, attempts)[0] == Ok::<(), AppError>(()),
        forall|k: int|
            1 <= k < attempts.len() ==> #[trigger] checkout_outcomes(rows, attempts)[k] == Err::<
                (),
                AppError,
            >(AppError::BookAlreadyCheckedOut),
        ledger_wf(checkout_run(rows, attempts)),
        checkout_run(rows, attempts) == rows.push(new_row(rows, attempts[0])),
        new_row(rows, attempts[0]).checked_out_by == attempts[0].checked_out_by,
        open_count(checkout_run(rows, attempts), book) == 1,
{
    let first = attempts[0];
    let rest = attempts.drop_first();
    let next = create_rows(rows, first);
    assert(first.book_id == book);
    assert(create_result(rows, first) == Ok::<(), AppError>(()));
    assert(next[rows.len() as int].book_id == book && is_open(next[rows.len() as int]));
    assert(checked_out(next, book));
    assert forall|k: int| 0 <= k < rest.len() implies (#[trigger] rest[k]).book_id == book by {
        assert(rest[k] == attempts[k + 1]);
    }
    law_checked_out_book_is_refused(next, book, rest);
    let tail = checkout_outcomes(next, rest);
    let all = checkout_outcomes(rows, attempts);
    assert(all == seq![create_result(rows, first)] + tail);
    assert forall|k: int| 1 <= k < attempts.len() implies #[trigger] all[k] == Err::<
        (),
        AppError,
    >(AppError::BookAlreadyCheckedOut) by {
        assert(all[k] == tail[k - 1]);
    }
    assert(checkout_run(rows, attempts) == next);
    law_single_custody(next, book);
}

/// A return is not idempotent: once a return has succeeded, a second return
/// of the same checkout fails with `AlreadyReturned` and changes nothing.
pub proof fn law_second_return_fails(
    rows: Seq<Checkout>,
    first: UpdateReturned,
    second: UpdateReturned,
)
    requires
        ledger_wf(rows),
        return_result(rows, first) is Ok,
        second.checkout_id == first.checkout_id,
        second.book_id == first.book_id,
    ensures
        return_result(return_rows(rows, first), second) == Err::<(), AppError>(
            AppError::AlreadyReturned,
        ),
        return_rows(return_rows(rows, first), second) == return_rows(rows, first),
{
}

/// A return makes the book available again, and the row keeps both times.
pub proof fn law_return_frees_book(rows: Seq<Checkout>, event: UpdateReturned)
    requires
        ledger_wf(rows),
        return_result(rows, event) is Ok,
    ensures
        !checked_out(return_rows(rows, event), event.book_id),
        return_rows(rows, event)[event.checkout_id.0 as int].returned_at == Some(
            event.returned_at,
        ),
        return_rows(rows, event)[event.checkout_id.0 as int].checked_out_at
            == rows[event.checkout_id.0 as int].checked_out_at,
{
    let after = return_rows(rows, event);
    let i = event.checkout_id.0 as int;
    if checked_out(after, event.book_id) {
        let j = choose|j: int|
            0 <= j < after.len() && #[trigger] after[j].book_id == event.book_id && is_open(
                after[j],
            );
        assert(j != i);
        assert(rows[j] == after[j]);
        assert(rows[i].book_id == rows[j].book_id && is_open(rows[i]) && is_open(rows[j]));
    }
}

/// Two sequences in listing order that hold the same rows are one sequence.
pub proof fn lemma_order_fixes_sequence(newest_first: bool, a: Seq<Checkout>, b: Seq<Checkout>)
    requires
        forall|k: int, l: int|
            0 <= k < l < a.len() ==> precedes(newest_first, #[trigger] a[k], #[trigger] a[l]),
        forall|k: int, l: int|
            0 <= k < l < b.len() ==> precedes(newest_first, #[trigger] b[k], #[trigger] b[l]),
        forall|k: int| 0 <= k < a.len() ==> b.contains(#[trigger] a[k]),
        forall|k: int| 0 <= k < b.len() ==> a.contains(#[trigger] b[k]),
    ensures
        a == b,
    decreases a.len(),
{
    if a.len() == 0 {
        if b.len() > 0 {
            assert(a.contains(b[0]));
        }
        assert(a =~= b);
    } else {
        let x = a.last();
        assert(b.contains(a[a.len() - 1]));
        let j = choose|j: int| 0 <= j < b.len() && b[j] == x;
        let y = b.last();
        assert(a.contains(b[b.len() - 1]));
        let m = choose|m: int| 0 <= m < a.len() && a[m] == y;
        if j < b.len() - 1 {
            assert(precedes(newest_first, b[j], b[b.len() - 1]));
            if m < a.len() - 1 {
                assert(precedes(newest_first, a[m], a[a.len() - 1]));
            }
            assert(false);
        }
        assert(y == x);
        let a0 = a.drop_last();
        let b0 = b.drop_last();
        assert forall|k: int| 0 <= k < a0.len() implies b0.contains(#[trigger] a0[k]) by {
            assert(a0[k] == a[k]);
            assert(b.contains(a[k]));
            let i = choose|i: int| 0 <= i < b.len() && b[i] == a[k];
            assert(precedes(newest_first, a[k], a[a.len() - 1]));
            assert(i < b.len() - 1);
            assert(b0[i] == a0[k]);
        }
        assert forall|k: int| 0 <= k < b0.len() implies a0.contains(#[trigger] b0[k]) by {
            assert(b0[k] == b[k]);
            assert(a.contains(b[k]));
            let i = choose|i: int| 0 <= i < a.len() && a[i] == b[k];
            assert(precedes(newest_first, b[k], b[b.len() - 1]));
            assert(i < a.len() - 1);
            assert(a0[i] == b0[k]);
        }
        assert forall|k: int, l: int| 0 <= k < l < a0.len() implies precedes(
            newest_first,
            #[trigger] a0[k],
            #[trigger] a0[l],
        ) by {
            assert(a0[k] == a[k] && a0[l] == a[l]);
        }
        assert forall|k: int, l: int| 0 <= k < l < b0.len() implies precedes(
            newest_first,
            #[trigger] b0[k],
            #[trigger] b0[l],
        ) by {
            assert(b0[k] == b[k] && b0[l] == b[l]);
        }
        lemma_order_fixes_sequence(newest_first, a0, b0);
        assert(a =~= a0.push(x));
        assert(b =~= b0.push(y));
    }
}

/// A query has exactly one answer: the rows, the selector and the direction
/// determine the listing, element for element.
pub proof fn law_listing_is_determined(
    rows: Seq<Checkout>,
    sel: Selector,
    newest_first: bool,
    a: Seq<Checkout>,
    b: Seq<Checkout>,
)
    requires
        is_listing(rows, sel, newest_first, a),
        is_listing(rows, sel, newest_first, b),
    ensures
        a == b,
{
    assert forall|k: int| 0 <= k < a.len() implies b.contains(#[trigger] a[k]) by {
        assert(rows.contains(a[k]));
        let i = choose|i: int| 0 <= i < rows.len() && rows[i] == a[k];
        assert(selects(sel, rows[i]));
    }
    assert forall|k: int| 0 <= k < b.len() implies a.contains(#[trigger] b[k]) by {
        assert(rows.contains(b[k]));
        let i = choose|i: int| 0 <= i < rows.len() && rows[i] == b[k];
        assert(selects(sel, rows[i]));
    }
    lemma_order_fixes_sequence(newest_first, a, b);
}

/// What a borrower has out is what is out at all, narrowed to that
/// borrower: each of the borrower's rows is among the unreturned rows, and
/// each unreturned row of that borrower is among the borrower's.
pub proof fn law_borrower_listing_narrows_all(
    rows: Seq<Checkout>,
    borrower: UserId,
    all: Seq<Checkout>,
    mine: Seq<Checkout>,
)
    requires
        is_listing(rows, Selector::Unreturned, false, all),
        is_listing(rows, Selector::UnreturnedBy(borrower), false, mine),
    ensures
        forall|k: int| 0 <= k < mine.len() ==> all.contains(#[trigger] mine[k]),
        forall|k: int|
            0 <= k < all.len() && (#[trigger] all[k]).checked_out_by == borrower ==> mine.contains(
                all[k],
            ),
{
    assert forall|k: int| 0 <= k < mine.len() implies all.contains(#[trigger] mine[k]) by {
        assert(rows.contains(mine[k]));
        let i = choose|i: int| 0 <= i < rows.len() && rows[i] == mine[k];
        assert(selects(Selector::Unreturned, rows[i]));
    }
    assert forall|k: int|
        0 <= k < all.len() && (#[trigger] all[k]).checked_out_by == borrower implies mine.contains(
        all[k],
    ) by {
        assert(rows.contains(all[k]));
        let i = choose|i: int| 0 <= i < rows.len() && rows[i] == all[k];
        assert(selects(Selector::UnreturnedBy(borrower), rows[i]));
    }
}

/// Issuing never rebinds a token that is held: whatever was drawn, every
/// token that the store held resolves afterwards as it did before.
pub proof fn law_issue_keeps_held_tokens(
    records: Map<Seq<char>, TokenRecord>,
    ttl: u64,
    drawn: Option<AccessToken>,
    user_id: UserId,
    issued_at: Timestamp,
    held: Seq<char>,
    now: Timestamp,
)
    requires
        records.contains_key(held),
    ensures
        resolve_result(issue_records(records, drawn, user_id, issued_at), ttl, held, now)
            == resolve_result(records, ttl, held, now),
{
}

/// A token that has just been issued resolves to its user, as long as the
/// time to live is not zero.
pub proof fn law_issued_token_resolves(
    records: Map<Seq<char>, TokenRecord>,
    ttl: u64,
    token: Seq<char>,
    user_id: UserId,
    now: Timestamp,
)
    requires
        ttl > 0,
    ensures
        resolve_result(
            records.insert(token, TokenRecord { user_id, created_at: now }),
            ttl,
            token,
            now,
        ) == Ok::<UserId, AppError>(user_id),
{
}

/// A revoked token does not resolve, whether or not it was ever issued.
pub proof fn law_revoked_token_is_unknown(
    records: Map<Seq<char>, TokenRecord>,
    ttl: u64,
    token: Seq<char>,
    now: Timestamp,
)
    ensures
        resolve_result(records.remove(token), ttl, token, now) == Err::<UserId, AppError>(
            AppError::TokenNotFound,
        ),
{
}

/// A token resolves exactly until its time to live has passed: before that
/// to its user, from then on not at all, with no revocation needed.
pub proof fn law_token_expires(
    records: Map<Seq<char>, TokenRecord>,
    ttl: u64,
    token: Seq<char>,
    user_id: UserId,
    issued_at: Timestamp,
    now: Timestamp,
)
    ensures
        now >= issued_at + ttl ==> resolve_result(
            records.insert(token, TokenRecord { user_id, created_at: issued_at }),
            ttl,
            token,
            now,
        ) == Err::<UserId, AppError>(AppError::TokenNotFound),
        now < issued_at + ttl ==> resolve_result(
            records.insert(token, TokenRecord { user_id, created_at: issued_at }),
            ttl,
            token,
            now,
        ) == Ok::<UserId, AppError>(user_id),
{
}

/// Issuing or revoking one token leaves every other token as it was.
pub proof fn law_tokens_are_independent(
    records: Map<Seq<char>, TokenRecord>,
    ttl: u64,
    token: Seq<char>,
    other: Seq<char>,
    record: TokenRecord,
    now: Timestamp,
)
    requires
        token != other,
    ensures
        resolve_result(records.insert(other, record), ttl, token, now) == resolve_result(
            records,
            ttl,
            token,
            now,
        ),
        resolve_result(records.remove(other), ttl, token, now) == resolve_result(
            records,
            ttl,
            token,
            now,
        ),
{
}

/// A change of role shows at once through every token issued before it: the
/// identity behind a live token carries the new role, and is otherwise the
/// user it was.
pub proof fn law_role_change_is_immediate(
    users: Seq<User>,
    next_id: u128,
    records: Map<Seq<char>, TokenRecord>,
    ttl: u64,
    token: Seq<char>,
    now: Timestamp,
    change: UpdateUserRole,
)
    requires
        users_wf(users, next_id),
        identity_of(users, records, ttl, token, now) is Some,
        identity_of(users, records, ttl, token, now)->0.id == change.user_id,
    ensures
        identity_of(role_users(users, change), records, ttl, token, now) == Some(
            User { role: change.role, ..identity_of(users, records, ttl, token, now)->0 },
        ),
{
    let after = role_users(users, change);
    let id = change.user_id;
    assert(has_id(users, id));
    let i = index_of_id(users, id);
    assert(after[i].id == id);
    assert(has_id(after, id));
    let j = index_of_id(after, id);
    assert(after[j].id == id);
    if j != i {
        assert(users[j] == after[j]);
        if j < i {
            assert(users[j].id != users[i].id);
        } else {
            assert(users[i].id != users[j].id);
        }
    }
}

/// A user who has just been registered can log in with the password that
/// the registration gave.
pub proof fn law_registered_user_can_log_in(
    users: Seq<User>,
    next_id: u128,
    registered: User,
    password: Seq<char>,
)
    requires
        users_wf(users, next_id),
        !has_email(users, registered.email@),
        bcrypt_verify(password, registered.password_hash@) == Some(true),
    ensures
        verify_result(users.push(registered), registered.email@, password) == Ok::<
            UserId,
            AppError,
        >(registered.id),
{
    let after = users.push(registered);
    let email = registered.email@;
    assert(after[users.len() as int].email@ == email);
    assert(has_email(after, email));
    let j = index_of_email(after, email);
    if j < users.len() {
        assert(users[j].email@ == email);
    }
}

/// The token of a login authenticates, while it lives, as the user who
/// logged in.
pub proof fn law_login_then_authenticate(
    users: Seq<User>,
    records: Map<Seq<char>, TokenRecord>,
    ttl: u64,
    token: Seq<char>,
    user_id: UserId,
    issued_at: Timestamp,
    now: Timestamp,
)
    requires
        has_id(users, user_id),
        now < issued_at + ttl,
    ensures
        identity_of(
            users,
            records.insert(token, TokenRecord { user_id, created_at: issued_at }),
            ttl,
            token,
            now,
        ) == user_by_id(users, user_id),
        user_by_id(users, user_id) is Some,
        user_by_id(users, user_id)->0.id == user_id,
{
}

/// A patron is refused what only an administrator may do, with `Forbidden`,
/// and an administrator is admitted.
pub proof fn law_admin_only(identity: AuthorizedUser)
    ensures
        identity.user.role == Role::Patron ==> role_check(identity.user.role, Role::Admin) == Err::<
            (),
            AppError,
        >(AppError::Forbidden),
        identity.user.role == Role::Admin ==> role_check(identity.user.role, Role::Admin) == Ok::<
            (),
            AppError,
        >(()),
{
}

} // verus!
