use book_manager::ledger::{comes_before, selected, CheckoutLedger, Selector};
use book_manager::model::{
    AppError, BookId, Checkout, CheckoutId, CreateCheckout, UpdateReturned, UserId,
};
use book_manager::repository::CheckoutRepository;

fn lend(ledger: &mut CheckoutLedger, book: u128, user: u128, at: i64) -> Result<(), AppError> {
    ledger.create(CreateCheckout::new(BookId(book), UserId(user), at))
}

fn take_back(
    ledger: &mut CheckoutLedger,
    checkout: u64,
    book: u128,
    user: u128,
    at: i64,
) -> Result<(), AppError> {
    ledger.update_returned(UpdateReturned::new(CheckoutId(checkout), BookId(book), UserId(user), at))
}

#[test]
fn new_ledger_is_empty() {
    let ledger = CheckoutLedger::new();
    assert!(ledger.find_unreturned_all().is_empty());
    assert!(ledger.find_history_by_book_id(BookId(1)).is_empty());
    assert!(!ledger.is_checked_out(BookId(1)));
}

#[test]
fn checkout_appends_open_row() {
    let mut ledger = CheckoutLedger::new();
    assert_eq!(lend(&mut ledger, 7, 3, 100), Ok(()));
    assert!(ledger.is_checked_out(BookId(7)));
    assert_eq!(
        ledger.find_unreturned_all(),
        vec![Checkout {
            id: CheckoutId(0),
            book_id: BookId(7),
            checked_out_by: UserId(3),
            checked_out_at: 100,
            returned_at: None,
        }]
    );
}

#[test]
fn second_checkout_of_same_book_is_refused() {
    let mut ledger = CheckoutLedger::new();
    assert_eq!(lend(&mut ledger, 1, 10, 100), Ok(()));
    assert_eq!(lend(&mut ledger, 1, 11, 101), Err(AppError::BookAlreadyCheckedOut));
    assert_eq!(lend(&mut ledger, 1, 10, 102), Err(AppError::BookAlreadyCheckedOut));
    assert_eq!(ledger.find_history_by_book_id(BookId(1)).len(), 1);
}

#[test]
fn of_many_attempts_exactly_one_succeeds() {
    let mut ledger = CheckoutLedger::new();
    let mut ok = 0;
    let mut refused = 0;
    for user in 0..25u128 {
        match lend(&mut ledger, 42, user, 1_000 + user as i64) {
            Ok(()) => ok += 1,
            Err(AppError::BookAlreadyCheckedOut) => refused += 1,
            Err(e) => panic!("unexpected error {:?}", e),
        }
        let open: Vec<Checkout> = ledger
            .find_unreturned_all()
            .into_iter()
            .filter(|c| c.book_id == BookId(42))
            .collect();
        assert_eq!(open.len(), 1);
    }
    assert_eq!(ok, 1);
    assert_eq!(refused, 24);
    assert_eq!(ledger.find_unreturned_all()[0].checked_out_by, UserId(0));
}

#[test]
fn different_books_do_not_conflict() {
    let mut ledger = CheckoutLedger::new();
    assert_eq!(lend(&mut ledger, 1, 10, 100), Ok(()));
    assert_eq!(lend(&mut ledger, 2, 10, 100), Ok(()));
    assert_eq!(ledger.find_unreturned_all().len(), 2);
}

#[test]
fn return_sets_return_time_once() {
    let mut ledger = CheckoutLedger::new();
    assert_eq!(lend(&mut ledger, 1, 10, 100), Ok(()));
    assert_eq!(take_back(&mut ledger, 0, 1, 10, 200), Ok(()));
    assert_eq!(
        ledger.find_history_by_book_id(BookId(1)),
        vec![Checkout {
            id: CheckoutId(0),
            book_id: BookId(1),
            checked_out_by: UserId(10),
            checked_out_at: 100,
            returned_at: Some(200),
        }]
    );
    assert!(!ledger.is_checked_out(BookId(1)));
    assert!(ledger.find_unreturned_all().is_empty());
}

#[test]
fn return_twice_is_success_then_already_returned() {
    let mut ledger = CheckoutLedger::new();
    assert_eq!(lend(&mut ledger, 1, 10, 100), Ok(()));
    assert_eq!(take_back(&mut ledger, 0, 1, 10, 200), Ok(()));
    assert_eq!(take_back(&mut ledger, 0, 1, 10, 300), Err(AppError::AlreadyReturned));
    assert_eq!(ledger.find_history_by_book_id(BookId(1))[0].returned_at, Some(200));
}

#[test]
fn return_of_unknown_checkout_is_not_found() {
    let mut ledger = CheckoutLedger::new();
    assert_eq!(take_back(&mut ledger, 0, 1, 10, 200), Err(AppError::CheckoutNotFound));
    assert_eq!(lend(&mut ledger, 1, 10, 100), Ok(()));
    assert_eq!(take_back(&mut ledger, 1, 1, 10, 200), Err(AppError::CheckoutNotFound));
    assert_eq!(take_back(&mut ledger, u64::MAX, 1, 10, 200), Err(AppError::CheckoutNotFound));
    assert!(ledger.is_checked_out(BookId(1)));
}

#[test]
fn return_with_wrong_book_is_not_found() {
    let mut ledger = CheckoutLedger::new();
    assert_eq!(lend(&mut ledger, 1, 10, 100), Ok(()));
    assert_eq!(take_back(&mut ledger, 0, 2, 10, 200), Err(AppError::CheckoutNotFound));
    assert!(ledger.is_checked_out(BookId(1)));
}

#[test]
fn wrong_book_is_reported_before_already_returned() {
    let mut ledger = CheckoutLedger::new();
    assert_eq!(lend(&mut ledger, 1, 10, 100), Ok(()));
    assert_eq!(take_back(&mut ledger, 0, 1, 10, 200), Ok(()));
    assert_eq!(take_back(&mut ledger, 0, 2, 10, 300), Err(AppError::CheckoutNotFound));
}

#[test]
fn book_can_be_lent_again_after_return() {
    let mut ledger = CheckoutLedger::new();
    assert_eq!(lend(&mut ledger, 1, 10, 100), Ok(()));
    assert_eq!(take_back(&mut ledger, 0, 1, 10, 200), Ok(()));
    assert_eq!(lend(&mut ledger, 1, 11, 300), Ok(()));
    let open = ledger.find_unreturned_all();
    assert_eq!(open.len(), 1);
    assert_eq!(open[0].id, CheckoutId(1));
    assert_eq!(open[0].checked_out_by, UserId(11));
}

#[test]
fn unreturned_are_listed_oldest_first() {
    let mut ledger = CheckoutLedger::new();
    assert_eq!(lend(&mut ledger, 1, 10, 300), Ok(()));
    assert_eq!(lend(&mut ledger, 2, 11, 100), Ok(()));
    assert_eq!(lend(&mut ledger, 3, 12, 200), Ok(()));
    assert_eq!(lend(&mut ledger, 4, 13, 100), Ok(()));
    assert_eq!(lend(&mut ledger, 5, 14, -5), Ok(()));
    assert_eq!(take_back(&mut ledger, 2, 3, 12, 400), Ok(()));
    let ids: Vec<u64> = ledger.find_unreturned_all().iter().map(|c| c.id.0).collect();
    assert_eq!(ids, vec![4, 1, 3, 0]);
}

#[test]
fn unreturned_by_user_filters_by_borrower() {
    let mut ledger = CheckoutLedger::new();
    assert_eq!(lend(&mut ledger, 1, 10, 300), Ok(()));
    assert_eq!(lend(&mut ledger, 2, 11, 100), Ok(()));
    assert_eq!(lend(&mut ledger, 3, 10, 200), Ok(()));
    assert_eq!(lend(&mut ledger, 4, 10, 250), Ok(()));
    assert_eq!(take_back(&mut ledger, 3, 4, 10, 400), Ok(()));
    let ids: Vec<u64> =
        ledger.find_unreturned_by_user_id(UserId(10)).iter().map(|c| c.id.0).collect();
    assert_eq!(ids, vec![2, 0]);
    assert!(ledger.find_unreturned_by_user_id(UserId(99)).is_empty());
}

#[test]
fn history_is_listed_most_recent_first() {
    let mut ledger = CheckoutLedger::new();
    assert_eq!(lend(&mut ledger, 1, 10, 100), Ok(()));
    assert_eq!(take_back(&mut ledger, 0, 1, 10, 150), Ok(()));
    assert_eq!(lend(&mut ledger, 2, 10, 120), Ok(()));
    assert_eq!(lend(&mut ledger, 1, 11, 300), Ok(()));
    assert_eq!(take_back(&mut ledger, 2, 1, 11, 350), Ok(()));
    assert_eq!(lend(&mut ledger, 1, 12, 200), Ok(()));
    assert_eq!(take_back(&mut ledger, 3, 1, 12, 360), Ok(()));
    assert_eq!(lend(&mut ledger, 1, 13, 300), Ok(()));
    let history = ledger.find_history_by_book_id(BookId(1));
    let ids: Vec<u64> = history.iter().map(|c| c.id.0).collect();
    assert_eq!(ids, vec![4, 2, 3, 0]);
    assert_eq!(history[0].returned_at, None);
    assert_eq!(history[1].returned_at, Some(350));
    assert_eq!(history[3].returned_at, Some(150));
}

#[test]
fn listing_with_selector_matches_named_queries() {
    let mut ledger = CheckoutLedger::new();
    assert_eq!(lend(&mut ledger, 1, 10, 100), Ok(()));
    assert_eq!(lend(&mut ledger, 2, 11, 50), Ok(()));
    assert_eq!(ledger.listing(Selector::Unreturned, false), ledger.find_unreturned_all());
    assert_eq!(
        ledger.listing(Selector::UnreturnedBy(UserId(11)), false),
        ledger.find_unreturned_by_user_id(UserId(11))
    );
    assert_eq!(
        ledger.listing(Selector::HistoryOf(BookId(2)), true),
        ledger.find_history_by_book_id(BookId(2))
    );
    let newest: Vec<u64> =
        ledger.listing(Selector::Unreturned, true).iter().map(|c| c.id.0).collect();
    assert_eq!(newest, vec![0, 1]);
}

#[test]
fn selected_and_comes_before_follow_their_rules() {
    let open = Checkout {
        id: CheckoutId(0),
        book_id: BookId(1),
        checked_out_by: UserId(10),
        checked_out_at: 100,
        returned_at: None,
    };
    let closed = Checkout { id: CheckoutId(1), returned_at: Some(5), ..open };
    assert!(selected(Selector::Unreturned, &open));
    assert!(!selected(Selector::Unreturned, &closed));
    assert!(selected(Selector::UnreturnedBy(UserId(10)), &open));
    assert!(!selected(Selector::UnreturnedBy(UserId(11)), &open));
    assert!(!selected(Selector::UnreturnedBy(UserId(10)), &closed));
    assert!(selected(Selector::HistoryOf(BookId(1)), &closed));
    assert!(!selected(Selector::HistoryOf(BookId(2)), &closed));
    assert!(comes_before(false, &open, &closed));
    assert!(!comes_before(false, &closed, &open));
    assert!(comes_before(true, &closed, &open));
    assert!(!comes_before(true, &open, &open));
    let later = Checkout { checked_out_at: 101, ..open };
    assert!(comes_before(false, &closed, &later));
    assert!(comes_before(true, &later, &closed));
}

#[test]
fn extreme_timestamps_are_ordered() {
    let mut ledger = CheckoutLedger::new();
    assert_eq!(lend(&mut ledger, 1, 10, i64::MAX), Ok(()));
    assert_eq!(lend(&mut ledger, 2, 10, i64::MIN), Ok(()));
    assert_eq!(lend(&mut ledger, 3, 10, 0), Ok(()));
    let ids: Vec<u64> = ledger.find_unreturned_all().iter().map(|c| c.id.0).collect();
    assert_eq!(ids, vec![1, 2, 0]);
}
