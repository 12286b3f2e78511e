//! The token store: opaque session tokens, each bound to one user for a
//! fixed time to live.

use vstd::prelude::*;
use crate::model::{AccessToken, AppError, Timestamp, UserId};
use crate::outside::{is_lower_hex, random_bytes, token_text};

verus! {

/// What the store remembers of a token.
pub struct TokenRecord {
    pub user_id: UserId,
    pub created_at: Timestamp,
}

/// A record is live until its time to live has passed since its creation.
pub open spec fn live(rec: TokenRecord, ttl: u64, now: Timestamp) -> bool {
    now < rec.created_at + ttl
}

/// What resolving `token` at `now` answers.
pub open spec fn resolve_result(
    records: Map<Seq<char>, TokenRecord>,
    ttl: u64,
    token: Seq<char>,
    now: Timestamp,
) -> Result<UserId, AppError> {
    if records.contains_key(token) && live(records[token], ttl, now) {
        Ok(records[token].user_id)
    } else {
        Err(AppError::TokenNotFound)
    }
}

/// The text of an issued token: 32 digits of lower-case hexadecimal, which
/// stand for 128 bits.
pub open spec fn is_token_text(token: Seq<char>) -> bool {
    &&& token.len() == 32
    &&& forall|i: int| 0 <= i < 32 ==> is_lower_hex(#[trigger] token[i])
}

/// What issuing answers, given the token that was drawn, or `None` where
/// the draw failed.
pub open spec fn issue_result(records: Map<Seq<char>, TokenRecord>, drawn: Option<AccessToken>)
    -> Result<AccessToken, AppError> {
    match drawn {
        Some(token) => if records.contains_key(token@) {
            Err(AppError::PersistenceFailure)
        } else {
            Ok(token)
        },
        None => Err(AppError::PersistenceFailure),
    }
}

/// The bindings after issuing.
pub open spec fn issue_records(
    records: Map<Seq<char>, TokenRecord>,
    drawn: Option<AccessToken>,
    user_id: UserId,
    now: Timestamp,
) -> Map<Seq<char>, TokenRecord> {
    match issue_result(records, drawn) {
        Ok(token) => records.insert(token@, TokenRecord { user_id, created_at: now }),
        Err(_) => records,
    }
}

struct TokenEntry {
    token: String,
    user_id: UserId,
    created_at: Timestamp,
}

spec fn record(e: TokenEntry) -> TokenRecord {
    TokenRecord { user_id: e.user_id, created_at: e.created_at }
}

spec fn holds(es: Seq<TokenEntry>, t: Seq<char>) -> bool {
    exists|i: int| 0 <= i < es.len() && (#[trigger] es[i]).token@ == t
}

spec fn slot(es: Seq<TokenEntry>, t: Seq<char>) -> int {
    choose|i: int| 0 <= i < es.len() && (#[trigger] es[i]).token@ == t
}

spec fn distinct(es: Seq<TokenEntry>) -> bool {
    forall|i: int, j: int|
        0 <= i < j < es.len() ==> (#[trigger] es[i]).token@ != (#[trigger] es[j]).token@
}

spec fn records_of(es: Seq<TokenEntry>) -> Map<Seq<char>, TokenRecord> {
    Map::new(|t: Seq<char>| holds(es, t), |t: Seq<char>| record(es[slot(es, t)]))
}

proof fn lemma_slot(es: Seq<TokenEntry>, i: int)
    requires
        distinct(es),
        0 <= i < es.len(),
    ensures
        holds(es, es[i].token@),
        slot(es, es[i].token@) == i,
        records_of(es).contains_key(es[i].token@),
        records_of(es)[es[i].token@] == record(es[i]),
{
    let t = es[i].token@;
    assert(holds(es, t));
    let j = slot(es, t);
    assert(0 <= j < es.len() && es[j].token@ == t);
    if j < i {
        assert(es[j].token@ != es[i].token@);
    } else if i < j {
        assert(es[i].token@ != es[j].token@);
    }
}

/// The token store.
pub struct TokenStore {
    entries: Vec<TokenEntry>,
    ttl: u64,
}

impl View for TokenStore {
    type V = Map<Seq<char>, TokenRecord>;

    closed spec fn view(&self) -> Map<Seq<char>, TokenRecord> {
        records_of(self.entries@)
    }
}

impl TokenStore {
    /// The store's invariant: no token is held twice.
    pub closed spec fn wf(&self) -> bool {
        distinct(self.entries@)
    }

    /// The time to live, in milliseconds, that every token gets.
    pub closed spec fn ttl_ms(&self) -> u64 {
        self.ttl
    }

    /// An empty store whose tokens live for `ttl` milliseconds.
    pub fn new(ttl: u64) -> (r: Self)
        ensures
            r.wf(),
            r.ttl_ms() == ttl,
            r@ == Map::<Seq<char>, TokenRecord>::empty(),
    {
        let r = TokenStore { entries: Vec::new(), ttl };
        proof {
            assert(r@ =~= Map::<Seq<char>, TokenRecord>::empty());
        }
        r
    }

    /// The time to live, in milliseconds, that every token gets.
    pub fn ttl(&self) -> (r: u64)
        ensures
            r == self.ttl_ms(),
    {
        self.ttl
    }

    fn position(&self, token: &String) -> (r: Option<usize>)
        ensures
            match r {
                Some(i) => i < self.entries@.len() && self.entries@[i as int].token@ == token@,
                None => !holds(self.entries@, token@),
            },
    {
        let n = self.entries.len();
        let mut i: usize = 0;
        while i < n
            invariant
                n == self.entries@.len(),
                i <= n,
                forall|j: int| 0 <= j < i ==> (#[trigger] self.entries@[j]).token@ != token@,
            decreases n - i,
        {
            if self.entries[i].token == *token {
                return Some(i);
            }
            i += 1;
        }
        None
    }

    /// Binds `token` to `user_id` from `now` on, in place of whatever the
    /// token was bound to before.
    pub fn store(&mut self, token: &AccessToken, user_id: UserId, now: Timestamp)
        requires
            old(self).wf(),
        ensures
            final(self).wf(),
            final(self).ttl_ms() == old(self).ttl_ms(),
            final(self)@ == old(self)@.insert(token@, TokenRecord { user_id, created_at: now }),
    {
        let ghost before = self.entries@;
        let entry = TokenEntry { token: token.0.clone(), user_id, created_at: now };
        match self.position(&token.0) {
            Some(i) => {
                self.entries.set(i, entry);
                proof {
                    let after = self.entries@;
                    assert(distinct(after)) by {
                        assert forall|a: int, b: int| 0 <= a < b < after.len() implies (
                        #[trigger] after[a]).token@ != (#[trigger] after[b]).token@ by {
                            assert(before[a].token@ != before[b].token@);
                        }
                    }
                    assert forall|t: Seq<char>| holds(after, t) <==> holds(before, t) by {
                        if holds(after, t) {
                            let j = slot(after, t);
                            assert(before[j].token@ == t);
                        }
                        if holds(before, t) {
                            let j = slot(before, t);
                            assert(after[j].token@ == t);
                        }
                    }
                    assert forall|t: Seq<char>| holds(after, t) implies #[trigger] records_of(
                        after,
                    )[t] == records_of(before).insert(token@, record(entry))[t] by {
                        let j = slot(after, t);
                        lemma_slot(after, j);
                        lemma_slot(before, j);
                    }
                    lemma_slot(before, i as int);
                    assert(records_of(after) =~= records_of(before).insert(token@, record(entry)));
                }
            },
            None => {
                self.entries.push(entry);
                proof {
                    let after = self.entries@;
                    let n = before.len() as int;
                    assert(distinct(after)) by {
                        assert forall|a: int, b: int| 0 <= a < b < after.len() implies (
                        #[trigger] after[a]).token@ != (#[trigger] after[b]).token@ by {
                            if b < n {
                                assert(before[a].token@ != before[b].token@);
                            } else {
                                assert(before[a].token@ != token@);
                            }
                        }
                    }
                    assert forall|t: Seq<char>| holds(after, t) <==> (holds(before, t) || t
                        == token@) by {
                        if holds(after, t) {
                            let j = slot(after, t);
                            if j < n {
                                assert(before[j].token@ == t);
                            }
                        }
                        if holds(before, t) {
                            let j = slot(before, t);
                            assert(after[j].token@ == t);
                        }
                        if t == token@ {
                            assert(after[n].token@ == t);
                        }
                    }
                    assert forall|t: Seq<char>| holds(after, t) implies #[trigger] records_of(
                        after,
                    )[t] == records_of(before).insert(token@, record(entry))[t] by {
                        let j = slot(after, t);
                        lemma_slot(after, j);
                        if j < n {
                            lemma_slot(before, j);
                        }
                    }
                    assert(records_of(after) =~= records_of(before).insert(token@, record(entry)));
                }
            },
        }
    }

    /// Binds a token that has been drawn for `user_id`: `drawn` is the token,
    /// or `None` where the random source failed. A token that the store holds
    /// already is never bound again: that, like a failed draw, is a failure of
    /// the store, and changes nothing.
    pub fn issue_with(&mut self, drawn: Option<AccessToken>, user_id: UserId, now: Timestamp) -> (r:
        Result<AccessToken, AppError>)
        requires
            old(self).wf(),
        ensures
            final(self).wf(),
            final(self).ttl_ms() == old(self).ttl_ms(),
            r == issue_result(old(self)@, drawn),
            final(self)@ == issue_records(old(self)@, drawn, user_id, now),
    {
        match drawn {
            None => Err(AppError::PersistenceFailure),
            Some(token) => {
                if self.position(&token.0).is_some() {
                    return Err(AppError::PersistenceFailure);
                }
                self.store(&token, user_id, now);
                Ok(token)
            },
        }
    }

    /// Issues a token for `user_id`: draws sixteen random bytes, writes them
    /// as 32 hexadecimal digits and binds that token from `now` on. The token
    /// is one that the store did not hold. Where the random source fails, or
    /// the drawn token is held already, nothing changes.
    pub fn issue(&mut self, user_id: UserId, now: Timestamp) -> (r: Result<AccessToken, AppError>)
        requires
            old(self).wf(),
        ensures
            final(self).wf(),
            final(self).ttl_ms() == old(self).ttl_ms(),
            match r {
                Ok(token) => {
                    &&& is_token_text(token@)
                    &&& !old(self)@.contains_key(token@)
                    &&& final(self)@ == old(self)@.insert(
                        token@,
                        TokenRecord { user_id, created_at: now },
                    )
                },
                Err(e) => e == AppError::PersistenceFailure && final(self)@ == old(self)@,
            },
    {
        let drawn = match random_bytes() {
            Some(bytes) => Some(AccessToken(token_text(bytes))),
            None => None,
        };
        self.issue_with(drawn, user_id, now)
    }

    /// The user that `token` is bound to, while the binding is live.
    pub fn resolve(&self, token: &AccessToken, now: Timestamp) -> (r: Result<UserId, AppError>)
        requires
            self.wf(),
        ensures
            r == resolve_result(self@, self.ttl_ms(), token@, now),
    {
        match self.position(&token.0) {
            Some(i) => {
                proof {
                    lemma_slot(self.entries@, i as int);
                }
                let e = &self.entries[i];
                if (now as i128) < (e.created_at as i128) + (self.ttl as i128) {
                    Ok(e.user_id)
                } else {
                    Err(AppError::TokenNotFound)
                }
            },
            None => Err(AppError::TokenNotFound),
        }
    }

    /// Forgets `token`. Forgetting a token that is not held changes nothing.
    pub fn revoke(&mut self, token: &AccessToken)
        requires
            old(self).wf(),
        ensures
            final(self).wf(),
            final(self).ttl_ms() == old(self).ttl_ms(),
            final(self)@ == old(self)@.remove(token@),
    {
        let ghost before = self.entries@;
        match self.position(&token.0) {
            Some(i) => {
                self.entries.remove(i);
                proof {
                    let after = self.entries@;
                    assert forall|a: int| 0 <= a < after.len() implies #[trigger] after[a] == (if a
                        < i {
                        before[a]
                    } else {
                        before[a + 1]
                    }) by {}
                    assert(distinct(after)) by {
                        assert forall|a: int, b: int| 0 <= a < b < after.len() implies (
                        #[trigger] after[a]).token@ != (#[trigger] after[b]).token@ by {
                            let a0 = if a < i { a } else { a + 1 };
                            let b0 = if b < i { b } else { b + 1 };
                            assert(before[a0].token@ != before[b0].token@);
                        }
                    }
                    lemma_slot(before, i as int);
                    assert forall|t: Seq<char>| holds(after, t) <==> (holds(before, t) && t
                        != token@) by {
                        if holds(after, t) {
                            let j = slot(after, t);
                            let j0 = if j < i { j } else { j + 1 };
                            assert(before[j0].token@ == t);
                            lemma_slot(before, j0);
                        }
                        if holds(before, t) && t != token@ {
                            let j = slot(before, t);
                            if j < i {
                                assert(after[j].token@ == t);
                            } else {
                                assert(after[j - 1].token@ == t);
                            }
                        }
                    }
                    assert forall|t: Seq<char>| holds(after, t) implies #[trigger] records_of(
                        after,
                    )[t] == records_of(before)[t] by {
                        let j = slot(after, t);
                        let j0 = if j < i { j } else { j + 1 };
                        lemma_slot(after, j);
                        lemma_slot(before, j0);
                    }
                    assert(records_of(after) =~= records_of(before).remove(token@));
                }
            },
            None => {
                proof {
                    assert(records_of(before) =~= records_of(before).remove(token@));
                }
            },
        }
    }
}

} // verus!
