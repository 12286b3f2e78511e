//! The checkout ledger: which book is out, with whom, since when.

use vstd::prelude::*;
use crate::model::{AppError, BookId, Checkout, CheckoutId, CreateCheckout, UpdateReturned, UserId};
use crate::repository::CheckoutRepository;

verus! {

/// A row is open while it carries no return time.
pub open spec fn is_open(c: Checkout) -> bool {
    c.returned_at is None
}

/// Some open row refers to `book`.
pub open spec fn checked_out(rows: Seq<Checkout>, book: BookId) -> bool {
    exists|i: int| 0 <= i < rows.len() && #[trigger] rows[i].book_id == book && is_open(rows[i])
}

/// The number of open rows that refer to `book`.
pub open spec fn open_count(rows: Seq<Checkout>, book: BookId) -> nat
    decreases rows.len(),
{
    if rows.len() == 0 {
        0
    } else {
        open_count(rows.drop_last(), book) + if rows.last().book_id == book && is_open(rows.last()) {
            1nat
        } else {
            0nat
        }
    }
}

/// Row identifiers are positions, and no book has two open rows.
pub open spec fn ledger_wf(rows: Seq<Checkout>) -> bool {
    &&& rows.len() <= u64::MAX
    &&& forall|i: int| 0 <= i < rows.len() ==> (#[trigger] rows[i]).id.0 == i
    &&& forall|i: int, j: int|
        0 <= i < rows.len() && 0 <= j < rows.len() && (#[trigger] rows[i]).book_id == (
        #[trigger] rows[j]).book_id && is_open(rows[i]) && is_open(rows[j]) ==> i == j
}

/// The row that a checkout appends.
pub open spec fn new_row(rows: Seq<Checkout>, event: CreateCheckout) -> Checkout {
    Checkout {
        id: CheckoutId(rows.len() as u64),
        book_id: event.book_id,
        checked_out_by: event.checked_out_by,
        checked_out_at: event.checked_out_at,
        returned_at: None,
    }
}

/// What a checkout answers.
pub open spec fn create_result(rows: Seq<Checkout>, event: CreateCheckout) -> Result<(), AppError> {
    if checked_out(rows, event.book_id) {
        Err(AppError::BookAlreadyCheckedOut)
    } else if rows.len() >= u64::MAX {
        Err(AppError::PersistenceFailure)
    } else {
        Ok(())
    }
}

/// The rows after a checkout.
pub open spec fn create_rows(rows: Seq<Checkout>, event: CreateCheckout) -> Seq<Checkout> {
    if create_result(rows, event) is Ok {
        rows.push(new_row(rows, event))
    } else {
        rows
    }
}

/// What a return answers.
pub open spec fn return_result(rows: Seq<Checkout>, event: UpdateReturned) -> Result<(), AppError> {
    let i = event.checkout_id.0 as int;
    if i >= rows.len() || rows[i].book_id != event.book_id {
        Err(AppError::CheckoutNotFound)
    } else if !is_open(rows[i]) {
        Err(AppError::AlreadyReturned)
    } else {
        Ok(())
    }
}

/// The rows after a return.
pub open spec fn return_rows(rows: Seq<Checkout>, event: UpdateReturned) -> Seq<Checkout> {
    let i = event.checkout_id.0 as int;
    if return_result(rows, event) is Ok {
        rows.update(i, Checkout { returned_at: Some(event.returned_at), ..rows[i] })
    } else {
        rows
    }
}

/// Which rows a query asks for.
#[derive(Clone, Copy, Debug)]
pub enum Selector {
    /// Every open row.
    Unreturned,
    /// The open rows of one borrower.
    UnreturnedBy(UserId),
    /// Every row of one book, open or not.
    HistoryOf(BookId),
}

/// Whether the query asks for the row.
pub open spec fn selects(sel: Selector, c: Checkout) -> bool {
    match sel {
        Selector::Unreturned => is_open(c),
        Selector::UnreturnedBy(user) => is_open(c) && c.checked_out_by == user,
        Selector::HistoryOf(book) => c.book_id == book,
    }
}

/// `a` is listed before `b`: by checkout time, and among rows of one time by
/// identifier; ascending, or descending where `newest_first` is set.
pub open spec fn precedes(newest_first: bool, a: Checkout, b: Checkout) -> bool {
    if newest_first {
        a.checked_out_at > b.checked_out_at || (a.checked_out_at == b.checked_out_at && a.id.0
            > b.id.0)
    } else {
        a.checked_out_at < b.checked_out_at || (a.checked_out_at == b.checked_out_at && a.id.0
            < b.id.0)
    }
}

/// `out` lists exactly the rows of `rows` that `sel` asks for, each once, in
/// the order that `precedes` gives.
pub open spec fn is_listing(
    rows: Seq<Checkout>,
    sel: Selector,
    newest_first: bool,
    out: Seq<Checkout>,
) -> bool {
    &&& forall|k: int| 0 <= k < out.len() ==> selects(sel, #[trigger] out[k]) && rows.contains(out[k])
    &&& forall|i: int|
        0 <= i < rows.len() && selects(sel, #[trigger] rows[i]) ==> out.contains(rows[i])
    &&& forall|k: int, l: int|
        0 <= k < l < out.len() ==> precedes(newest_first, #[trigger] out[k], #[trigger] out[l])
}

/// The ledger of checkouts. Rows are never deleted.
pub struct CheckoutLedger {
    rows: Vec<Checkout>,
}

impl View for CheckoutLedger {
    type V = Seq<Checkout>;

    closed spec fn view(&self) -> Seq<Checkout> {
        self.rows@
    }
}

impl CheckoutLedger {
    /// The ledger's invariant.
    pub open spec fn wf(&self) -> bool {
        ledger_wf(self@)
    }

    /// An empty ledger.
    pub fn new() -> (r: Self)
        ensures
            r.wf(),
            r@ == Seq::<Checkout>::empty(),
    {
        CheckoutLedger { rows: Vec::new() }
    }

    /// Whether the book is out.
    pub fn is_checked_out(&self, book_id: BookId) -> (r: bool)
        ensures
            r == checked_out(self@, book_id),
    {
        let n = self.rows.len();
        let mut i: usize = 0;
        while i < n
            invariant
                n == self.rows@.len(),
                i <= n,
                forall|j: int|
                    0 <= j < i ==> !((#[trigger] self.rows@[j]).book_id == book_id && is_open(
                        self.rows@[j],
                    )),
            decreases n - i,
        {
            let c = &self.rows[i];
            if c.book_id == book_id && c.returned_at.is_none() {
                return true;
            }
            i += 1;
        }
        false
    }

    /// The rows that `sel` asks for, in the order that `precedes` gives.
    pub fn listing(&self, sel: Selector, newest_first: bool) -> (r: Vec<Checkout>)
        requires
            self.wf(),
        ensures
            is_listing(self@, sel, newest_first, r@),
    {
        let n = self.rows.len();
        let mut out: Vec<Checkout> = Vec::new();
        let mut i: usize = 0;
        while i < n
            invariant
                n == self.rows@.len(),
                i <= n,
                self.wf(),
                is_listing(self.rows@.take(i as int), sel, newest_first, out@),
            decreases n - i,
        {
            let c = self.rows[i];
            let ghost before = out@;
            let ghost seen = self.rows@.take(i as int);
            if selected(sel, &c) {
                let m = out.len();
                let mut p: usize = 0;
                while p < m && comes_before(newest_first, &out[p], &c)
                    invariant
                        m == out@.len(),
                        p <= m,
                        out@ == before,
                        forall|k: int| 0 <= k < p ==> precedes(newest_first, #[trigger] out@[k], c),
                    decreases m - p,
                {
                    p += 1;
                }
                out.insert(p, c);
                proof {
                    let after = out@;
                    let next = self.rows@.take(i as int + 1);
                    assert(after.len() == before.len() + 1);
                    assert(after[p as int] == c);
                    assert forall|k: int| 0 <= k < after.len() implies selects(
                        sel,
                        #[trigger] after[k],
                    ) && next.contains(after[k]) by {
                        if k == p {
                            assert(next[i as int] == after[k]);
                        } else {
                            let b = if k < p { k } else { k - 1 };
                            assert(after[k] == before[b]);
                            assert(seen.contains(before[b]));
                            let j = choose|j: int| 0 <= j < seen.len() && seen[j] == before[b];
                            assert(next[j] == seen[j]);
                        }
                    }
                    assert forall|j: int| 0 <= j < next.len() && selects(
                        sel,
                        #[trigger] next[j],
                    ) implies after.contains(next[j]) by {
                        if j < i {
                            assert(seen[j] == next[j]);
                            assert(before.contains(seen[j]));
                            let k = choose|k: int| 0 <= k < before.len() && before[k] == seen[j];
                            if k < p {
                                assert(after[k] == before[k]);
                            } else {
                                assert(after[k + 1] == before[k]);
                            }
                        } else {
                            assert(after[p as int] == next[j]);
                        }
                    }
                    assert forall|k: int, l: int| 0 <= k < l < after.len() implies precedes(
                        newest_first,
                        #[trigger] after[k],
                        #[trigger] after[l],
                    ) by {
                        if l < p {
                            assert(after[k] == before[k] && after[l] == before[l]);
                        } else if l == p {
                            assert(after[k] == before[k]);
                        } else if k == p {
                            assert(after[l] == before[l - 1]);
                            assert(seen.contains(before[p as int]));
                            let j = choose|j: int| 0 <= j < seen.len() && seen[j] == before[p as int];
                            assert(self.rows@[j] == seen[j]);
                            assert(before[p as int].id.0 == j);
                            assert(!precedes(newest_first, before[p as int], c));
                            if l - 1 > p {
                                assert(precedes(newest_first, before[p as int], before[l - 1]));
                            }
                        } else if k < p {
                            assert(after[k] == before[k] && after[l] == before[l - 1]);
                            if l - 1 > p {
                                assert(precedes(newest_first, before[p as int], before[l - 1]));
                            }
                        } else {
                            assert(after[k] == before[k - 1] && after[l] == before[l - 1]);
                        }
                    }
                }
            } else {
                proof {
                    let next = self.rows@.take(i as int + 1);
                    assert forall|j: int| 0 <= j < next.len() && selects(
                        sel,
                        #[trigger] next[j],
                    ) implies out@.contains(next[j]) by {
                        assert(j < i);
                        assert(seen[j] == next[j]);
                    }
                    assert forall|k: int| 0 <= k < out@.len() implies next.contains(
                        #[trigger] out@[k],
                    ) by {
                        assert(seen.contains(out@[k]));
                        let j = choose|j: int| 0 <= j < seen.len() && seen[j] == out@[k];
                        assert(next[j] == seen[j]);
                    }
                }
            }
            i += 1;
        }
        proof {
            assert(self.rows@.take(n as int) =~= self.rows@);
        }
        out
    }
}

impl CheckoutRepository for CheckoutLedger {
    open spec fn rows(&self) -> Seq<Checkout> {
        self@
    }

    open spec fn valid(&self) -> bool {
        self.wf()
    }

    /// Lends a book: appends an open row, unless the book is out already.
    fn create(&mut self, event: CreateCheckout) -> (r: Result<(), AppError>)
        ensures
            final(self).wf(),
            r == create_result(old(self)@, event),
            final(self)@ == create_rows(old(self)@, event),
    {
        if self.is_checked_out(event.book_id) {
            return Err(AppError::BookAlreadyCheckedOut);
        }
        let n = self.rows.len();
        if n as u64 >= u64::MAX {
            return Err(AppError::PersistenceFailure);
        }
        let row = Checkout {
            id: CheckoutId(n as u64),
            book_id: event.book_id,
            checked_out_by: event.checked_out_by,
            checked_out_at: event.checked_out_at,
            returned_at: None,
        };
        self.rows.push(row);
        Ok(())
    }

    /// Takes a book back: sets the return time of the row that the event
    /// names, once.
    fn update_returned(&mut self, event: UpdateReturned) -> (r: Result<(), AppError>)
        ensures
            final(self).wf(),
            r == return_result(old(self)@, event),
            final(self)@ == return_rows(old(self)@, event),
    {
        let n = self.rows.len();
        if event.checkout_id.0 >= n as u64 {
            return Err(AppError::CheckoutNotFound);
        }
        let i = event.checkout_id.0 as usize;
        let c = self.rows[i];
        if c.book_id != event.book_id {
            return Err(AppError::CheckoutNotFound);
        }
        if c.returned_at.is_some() {
            return Err(AppError::AlreadyReturned);
        }
        let row = Checkout {
            id: c.id,
            book_id: c.book_id,
            checked_out_by: c.checked_out_by,
            checked_out_at: c.checked_out_at,
            returned_at: Some(event.returned_at),
        };
        self.rows.set(i, row);
        Ok(())
    }

    /// Every open row, oldest checkout first.
    fn find_unreturned_all(&self) -> (r: Vec<Checkout>)
        ensures
            is_listing(self@, Selector::Unreturned, false, r@),
    {
        self.listing(Selector::Unreturned, false)
    }

    /// The open rows of one borrower, oldest checkout first.
    fn find_unreturned_by_user_id(&self, user_id: UserId) -> (r: Vec<Checkout>)
        ensures
            is_listing(self@, Selector::UnreturnedBy(user_id), false, r@),
    {
        self.listing(Selector::UnreturnedBy(user_id), false)
    }

    /// Every row of one book, returned or not, most recent checkout first.
    fn find_history_by_book_id(&self, book_id: BookId) -> (r: Vec<Checkout>)
        ensures
            is_listing(self@, Selector::HistoryOf(book_id), true, r@),
    {
        self.listing(Selector::HistoryOf(book_id), true)
    }
}


/// Whether the query asks for the row.
pub fn selected(sel: Selector, c: &Checkout) -> (r: bool)
    ensures
        r == selects(sel, *c),
{
    match sel {
        Selector::Unreturned => c.returned_at.is_none(),
        Selector::UnreturnedBy(user) => c.returned_at.is_none() && c.checked_out_by == user,
        Selector::HistoryOf(book) => c.book_id == book,
    }
}

/// Whether `a` is listed before `b`.
pub fn comes_before(newest_first: bool, a: &Checkout, b: &Checkout) -> (r: bool)
    ensures
        r == precedes(newest_first, *a, *b),
{
    if newest_first {
        a.checked_out_at > b.checked_out_at || (a.checked_out_at == b.checked_out_at && a.id.0
            > b.id.0)
    } else {
        a.checked_out_at < b.checked_out_at || (a.checked_out_at == b.checked_out_at && a.id.0
            < b.id.0)
    }
}

} // verus!
