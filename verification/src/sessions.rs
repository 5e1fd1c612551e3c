//! Session tokens: opaque bearer credentials bound to one account and
//! to an absolute expiry instant. Validity is re-checked against the
//! caller's current instant on every use, and revocation works by
//! moving the expiry to "now" rather than deleting rows.

use vstd::prelude::*;

use crate::ApiError;

verus! {

/// Seconds in 15 days, the lifetime of a freshly issued session token.
pub const TOKEN_LIFETIME_SECS: i64 = 1296000;

/// One stored bearer token.
#[derive(Debug)]
pub struct SessionToken {
    pub token: String,
    pub account_id: i64,
    pub expires_at: i64,
}

/// All stored tokens. Several live rows per account are permitted, and
/// rows are never deleted, so an expired row may linger.
#[derive(Debug)]
pub struct SessionStore {
    pub tokens: Vec<SessionToken>,
}

/// A token row authorizes exactly while its expiry lies strictly in the
/// future.
pub open spec fn token_live(t: SessionToken, now: i64) -> bool {
    t.expires_at > now
}

/// No two rows carry the same token string.
pub open spec fn distinct_tokens(s: Seq<SessionToken>) -> bool {
    forall|i: int, j: int| 0 <= i < j < s.len() ==> s[i].token@ != s[j].token@
}

/// Some row holds `tok` and is live at `now`.
pub open spec fn token_valid(s: Seq<SessionToken>, tok: Seq<char>, now: i64) -> bool {
    exists|i: int| 0 <= i < s.len() && s[i].token@ == tok && token_live(s[i], now)
}

/// How one row looks after a bulk revocation for `account_id` at `now`:
/// a live row of that account is expired on the spot, anything else is
/// left alone.
pub open spec fn revoke_one(t: SessionToken, account_id: i64, now: i64) -> SessionToken {
    if t.account_id == account_id && token_live(t, now) {
        SessionToken { token: t.token, account_id: t.account_id, expires_at: now }
    } else {
        t
    }
}

/// The whole store after a bulk revocation for `account_id` at `now`.
pub open spec fn revoked_model(s: Seq<SessionToken>, account_id: i64, now: i64) -> Seq<
    SessionToken,
> {
    s.map_values(|t: SessionToken| revoke_one(t, account_id, now))
}

/// Number of rows of `account_id` that are still live at `now`.
pub open spec fn live_count(s: Seq<SessionToken>, account_id: i64, now: i64) -> nat
    decreases s.len(),
{
    if s.len() == 0 {
        0
    } else {
        live_count(s.drop_last(), account_id, now) + (
        if s.last().account_id == account_id && token_live(s.last(), now) {
            1nat
        } else {
            0nat
        })
    }
}

impl SessionStore {
    pub open spec fn wf(self) -> bool {
        distinct_tokens(self.tokens@)
    }

    /// The store starts with no tokens.
    pub fn new() -> (s: SessionStore)
        ensures
            s.tokens@ == Seq::<SessionToken>::empty(),
            s.wf(),
    {
        SessionStore { tokens: Vec::new() }
    }

    /// Index of the row holding exactly this token string, if any.
    fn find(&self, token: &str) -> (r: Option<usize>)
        ensures
            match r {
                Some(i) => i < self.tokens@.len() && self.tokens@[i as int].token@ == token@,
                None => forall|j: int|
                    0 <= j < self.tokens@.len() ==> self.tokens@[j].token@ != token@,
            },
    {
        let tok: String = token.to_owned();
        let n = self.tokens.len();
        let mut i: usize = 0;
        while i < n
            invariant
                n == self.tokens@.len(),
                i <= n,
                tok@ == token@,
                forall|j: int| 0 <= j < i ==> self.tokens@[j].token@ != token@,
            decreases n - i,
        {
            if self.tokens[i].token == tok {
                return Some(i);
            }
            i += 1;
        }
        None
    }

    /// Decides whether the token authorizes at the instant `now`: it
    /// must be stored and not yet expired. An unknown token and an
    /// expired one are indistinguishable to the caller.
    pub fn validate(&self, token: &str, now: i64) -> (r: Option<i64>)
        requires
            self.wf(),
        ensures
            r is Some <==> token_valid(self.tokens@, token@, now),
            r matches Some(aid) ==> exists|i: int|
                0 <= i < self.tokens@.len() && (#[trigger] self.tokens@[i]).token@ == token@
                    && token_live(self.tokens@[i], now) && self.tokens@[i].account_id == aid,
    {
        match self.find(token) {
            Some(i) => {
                let rec = &self.tokens[i];
                if rec.expires_at > now {
                    Some(rec.account_id)
                } else {
                    proof {
                        if token_valid(self.tokens@, token@, now) {
                            let k = choose|k: int|
                                0 <= k < self.tokens@.len() && self.tokens@[k].token@ == token@
                                    && token_live(self.tokens@[k], now);
                            if k < i as int {
                                assert(self.tokens@[k].token@ != self.tokens@[i as int].token@);
                            } else {
                                assert(self.tokens@[i as int].token@ != self.tokens@[k].token@);
                            }
                            assert(false);
                        }
                    }
                    None
                }
            },
            None => None,
        }
    }

    /// Stores a caller-supplied fresh token string for the account,
    /// expiring `TOKEN_LIFETIME_SECS` after `now`, and returns the
    /// expiry. A token string that is already stored is refused rather
    /// than silently rebound.
    pub fn issue(&mut self, account_id: i64, token: String, now: i64) -> (r: Result<i64, ApiError>)
        requires
            old(self).wf(),
            now <= i64::MAX - TOKEN_LIFETIME_SECS,
        ensures
            final(self).wf(),
            match r {
                Ok(expiry) => {
                    &&& forall|j: int|
                        0 <= j < old(self).tokens@.len() ==> old(self).tokens@[j].token@ != token@
                    &&& expiry == now + TOKEN_LIFETIME_SECS
                    &&& final(self).tokens@ == old(self).tokens@.push(
                        SessionToken { token: token, account_id: account_id, expires_at: expiry },
                    )
                },
                Err(e) => {
                    &&& e == ApiError::TokenInUse
                    &&& exists|j: int|
                        0 <= j < old(self).tokens@.len() && (#[trigger] old(
                            self,
                        ).tokens@[j]).token@ == token@
                    &&& *final(self) == *old(self)
                },
            },
    {
        match self.find(token.as_str()) {
            Some(_) => Err(ApiError::TokenInUse),
            None => {
                let expiry = now + TOKEN_LIFETIME_SECS;
                self.tokens.push(SessionToken { token, account_id, expires_at: expiry });
                proof {
                    assert forall|i: int, j: int| 0 <= i < j < self.tokens@.len() implies self
                        .tokens@[i].token@ != self.tokens@[j].token@ by {
                        if j < self.tokens@.len() - 1 {
                            assert(distinct_tokens(old(self).tokens@));
                        }
                    }
                }
                Ok(expiry)
            },
        }
    }

    /// Expires, at `now`, every still-live token of the account; rows of
    /// other accounts, and rows that had already expired, are untouched.
    /// Returns how many rows were expired, mirroring a rows-affected
    /// count.
    pub fn revoke_all(&mut self, account_id: i64, now: i64) -> (r: usize)
        requires
            old(self).wf(),
        ensures
            final(self).wf(),
            final(self).tokens@ == revoked_model(old(self).tokens@, account_id, now),
            r == live_count(old(self).tokens@, account_id, now),
    {
        let n = self.tokens.len();
        let mut i: usize = 0;
        let mut count: usize = 0;
        while i < n
            invariant
                n == self.tokens@.len(),
                n == old(self).tokens@.len(),
                i <= n,
                count <= i,
                forall|j: int|
                    0 <= j < i ==> self.tokens@[j] == revoke_one(
                        old(self).tokens@[j],
                        account_id,
                        now,
                    ),
                forall|j: int| i <= j < n ==> self.tokens@[j] == old(self).tokens@[j],
                count == live_count(old(self).tokens@.take(i as int), account_id, now),
            decreases n - i,
        {
            if self.tokens[i].account_id == account_id && self.tokens[i].expires_at > now {
                self.tokens[i].expires_at = now;
                count += 1;
            }
            proof {
                assert(old(self).tokens@.take(i as int + 1).drop_last() =~= old(
                    self,
                ).tokens@.take(i as int));
                assert(old(self).tokens@.take(i as int + 1).last() == old(self).tokens@[i as int]);
            }
            i += 1;
        }
        proof {
            assert(old(self).tokens@.take(n as int) =~= old(self).tokens@);
            assert(self.tokens@ =~= revoked_model(old(self).tokens@, account_id, now));
            assert forall|i2: int, j2: int| 0 <= i2 < j2 < self.tokens@.len() implies self
                .tokens@[i2].token@ != self.tokens@[j2].token@ by {
                assert(distinct_tokens(old(self).tokens@));
                assert(old(self).tokens@[i2].token@ != old(self).tokens@[j2].token@);
            }
        }
        count
    }
}

/// A token that is stored authorizes strictly before its expiry instant
/// and never at or after it, whatever else the store holds.
pub proof fn lemma_validity_window(s: Seq<SessionToken>, t: SessionToken, now: i64)
    requires
        distinct_tokens(s),
        s.contains(t),
    ensures
        now < t.expires_at ==> token_valid(s, t.token@, now),
        now >= t.expires_at ==> !token_valid(s, t.token@, now),
{
    let i = choose|i: int| 0 <= i < s.len() && s[i] == t;
    if now < t.expires_at {
        assert(s[i].token@ == t.token@ && token_live(s[i], now));
    } else {
        if token_valid(s, t.token@, now) {
            let k = choose|k: int|
                0 <= k < s.len() && s[k].token@ == t.token@ && token_live(s[k], now);
            if k < i {
                assert(s[k].token@ != s[i].token@);
            } else if i < k {
                assert(s[i].token@ != s[k].token@);
            }
            assert(false);
        }
    }
}

/// Bulk revocation for one account at `now` expires exactly that
/// account's live tokens: each of its rows is dead at `now` (and so at
/// every later instant), every row of another account is left exactly
/// as it was, and no row changes its token string or its binding.
pub proof fn lemma_revoke_all_effect(s: Seq<SessionToken>, account_id: i64, now: i64)
    requires
        distinct_tokens(s),
    ensures
        revoked_model(s, account_id, now).len() == s.len(),
        distinct_tokens(revoked_model(s, account_id, now)),
        forall|i: int|
            0 <= i < s.len() ==> (#[trigger] revoked_model(s, account_id, now)[i]).token
                == s[i].token,
        forall|i: int|
            0 <= i < s.len() ==> (#[trigger] revoked_model(s, account_id, now)[i]).account_id
                == s[i].account_id,
        forall|i: int|
            0 <= i < s.len() && s[i].account_id == account_id ==> !token_live(
                #[trigger] revoked_model(s, account_id, now)[i],
                now,
            ),
        forall|i: int|
            0 <= i < s.len() && s[i].account_id != account_id ==> #[trigger] revoked_model(
                s,
                account_id,
                now,
            )[i] == s[i],
{
}

/// Life of one session: a fresh token issued at `now` validates to its
/// account at every instant from `now` up to (not including) its
/// expiry, stops validating from the expiry on, and a bulk revocation
/// for its account at any instant `t` kills it at `t` and afterwards.
pub proof fn lemma_session_lifecycle(s: Seq<SessionToken>, st: SessionToken, now: i64, at: i64)
    requires
        distinct_tokens(s),
        forall|j: int| 0 <= j < s.len() ==> s[j].token@ != st.token@,
        st.expires_at == now + TOKEN_LIFETIME_SECS,
        now <= i64::MAX - TOKEN_LIFETIME_SECS,
    ensures
        distinct_tokens(s.push(st)),
        now <= at < st.expires_at ==> token_valid(s.push(st), st.token@, at),
        now <= at < st.expires_at ==> forall|i: int|
            0 <= i < s.push(st).len() && (#[trigger] s.push(st)[i]).token@ == st.token@
                && token_live(s.push(st)[i], at) ==> s.push(st)[i].account_id == st.account_id,
        at >= st.expires_at ==> !token_valid(s.push(st), st.token@, at),
        forall|t2: i64, t3: i64|
            t3 >= t2 ==> !(#[trigger] token_live(
                revoked_model(s.push(st), st.account_id, t2)[s.len() as int],
                t3,
            )),
{
    let s1 = s.push(st);
    assert(s1[s.len() as int] == st);
    assert forall|i: int, j: int| 0 <= i < j < s1.len() implies s1[i].token@ != s1[j].token@ by {
        if j < s.len() {
            assert(distinct_tokens(s));
            assert(s[i].token@ != s[j].token@);
        }
    }
    if now <= at < st.expires_at {
        assert(s1[s.len() as int].token@ == st.token@ && token_live(st, at));
    }
    if at >= st.expires_at {
        if token_valid(s1, st.token@, at) {
            let k = choose|k: int|
                0 <= k < s1.len() && s1[k].token@ == st.token@ && token_live(s1[k], at);
            assert(k < s.len() ==> s[k].token@ != st.token@);
            assert(false);
        }
    }
    assert forall|t2: i64, t3: i64| t3 >= t2 implies !(#[trigger] token_live(
        revoked_model(s1, st.account_id, t2)[s.len() as int],
        t3,
    )) by {
        assert(revoked_model(s1, st.account_id, t2)[s.len() as int] == revoke_one(
            st,
            st.account_id,
            t2,
        ));
    }
}

} // verus!
