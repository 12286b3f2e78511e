//! The composition root: the three stores side by side.

use vstd::prelude::*;
use crate::ledger::CheckoutLedger;
use crate::model::{Checkout, User};
use crate::token::{TokenRecord, TokenStore};
use crate::user::UserStore;

verus! {

/// The stores that the request handlers work on.
pub struct AppRegistry {
    pub users: UserStore,
    pub tokens: TokenStore,
    pub ledger: CheckoutLedger,
}

impl AppRegistry {
    /// Every store meets its invariant.
    pub open spec fn wf(&self) -> bool {
        &&& self.users.wf()
        &&& self.tokens.wf()
        &&& self.ledger.wf()
    }

    /// Empty stores. Tokens live for `ttl` milliseconds; password hashes are
    /// made with the work factor `hash_cost`.
    pub fn new(ttl: u64, hash_cost: u32) -> (r: Self)
        ensures
            r.wf(),
            r.users@ == Seq::<User>::empty(),
            r.users.next_id() == 0,
            r.users.cost() == hash_cost,
            r.tokens@ == Map::<Seq<char>, TokenRecord>::empty(),
            r.tokens.ttl_ms() == ttl,
            r.ledger@ == Seq::<Checkout>::empty(),
    {
        AppRegistry {
            users: UserStore::new(hash_cost),
            tokens: TokenStore::new(ttl),
            ledger: CheckoutLedger::new(),
        }
    }
}

} // verus!
