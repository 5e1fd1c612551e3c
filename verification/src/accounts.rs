//! Account credentials: usernames, display names, salted one-way
//! password digests, and the operations that create accounts, log in,
//! and reset passwords. A password reset immediately revokes every
//! live session token of the account.

use vstd::prelude::*;

use crate::ApiError;
use crate::sessions::{
    SessionStore, SessionToken, TOKEN_LIFETIME_SECS, live_count, revoked_model, token_valid,
};

verus! {

/// Result of `bcrypt::verify` on a password and a digest: true exactly
/// when the digest was produced from that password (up to bcrypt's
/// 72-byte truncation). A function of its two arguments alone.
pub uninterp spec fn bcrypt_verifies(password: Seq<char>, digest: Seq<char>) -> bool;

/// Whether `bcrypt::verify` can read the digest at all: in its source,
/// success or failure of the call depends only on the digest string
/// (its format and the cost field embedded in it).
pub uninterp spec fn bcrypt_parses(digest: Seq<char>) -> bool;

/// Relies on bcrypt::hash (bcrypt 0.19): it rejects a work-factor
/// outside 4..=31; on success it returns a 2b-format digest, which
/// bcrypt::verify parses back and accepts against the hashed password.
/// The digest embeds a random salt, so nothing more is promised of it.
#[verifier::external_body]
fn hash_password(password: &str, cost: u32) -> (r: Option<String>)
    ensures
        r matches Some(d) ==> bcrypt_parses(d@) && bcrypt_verifies(password@, d@),
        !(4 <= cost <= 31) ==> r is None,
{
    match bcrypt::hash(password, cost) {
        Ok(d) => Some(d),
        Err(_) => None,
    }
}

/// Relies on bcrypt::verify (bcrypt 0.19): whether it returns at all
/// depends on the digest alone, and the boolean it returns is a
/// function of the password and the digest, compared in constant time.
#[verifier::external_body]
fn check_password(password: &str, digest: &str) -> (r: Option<bool>)
    ensures
        r is Some <==> bcrypt_parses(digest@),
        r matches Some(b) ==> b == bcrypt_verifies(password@, digest@),
{
    match bcrypt::verify(password, digest) {
        Ok(b) => Some(b),
        Err(_) => None,
    }
}

/// One account. The password is held only as a one-way digest; the
/// email is optional and editable.
#[derive(Debug)]
pub struct Account {
    pub id: i64,
    pub username: String,
    pub name: String,
    pub password_digest: String,
    pub email: Option<String>,
}

/// All accounts, with the next identifier to hand out.
#[derive(Debug)]
pub struct AccountStore {
    pub accounts: Vec<Account>,
    pub next_id: i64,
}

/// Some account carries this username.
pub open spec fn has_username(s: Seq<Account>, username: Seq<char>) -> bool {
    exists|i: int| 0 <= i < s.len() && s[i].username@ == username
}

/// The username names an account whose digest is readable and was
/// produced from this password: exactly when a login must succeed.
pub open spec fn credentials_ok(s: Seq<Account>, username: Seq<char>, password: Seq<char>) -> bool {
    exists|i: int|
        0 <= i < s.len() && (#[trigger] s[i]).username@ == username && bcrypt_parses(
            s[i].password_digest@,
        ) && bcrypt_verifies(password, s[i].password_digest@)
}

impl AccountStore {
    pub open spec fn wf(self) -> bool {
        &&& forall|i: int, j: int|
            0 <= i < j < self.accounts@.len() ==> self.accounts@[i].username@
                != self.accounts@[j].username@
        &&& forall|i: int, j: int|
            0 <= i < j < self.accounts@.len() ==> self.accounts@[i].id != self.accounts@[j].id
        &&& forall|i: int|
            0 <= i < self.accounts@.len() ==> 1 <= (#[trigger] self.accounts@[i]).id
                < self.next_id
        &&& self.next_id >= 1
    }

    /// The store starts with no accounts.
    pub fn new() -> (s: AccountStore)
        ensures
            s.accounts@ == Seq::<Account>::empty(),
            s.next_id == 1,
            s.wf(),
    {
        AccountStore { accounts: Vec::new(), next_id: 1 }
    }

    /// Index of the account carrying this username, if any.
    fn find_by_username(&self, username: &str) -> (r: Option<usize>)
        ensures
            match r {
                Some(i) => i < self.accounts@.len() && self.accounts@[i as int].username@
                    == username@,
                None => forall|j: int|
                    0 <= j < self.accounts@.len() ==> self.accounts@[j].username@ != username@,
            },
    {
        let uname: String = username.to_owned();
        let n = self.accounts.len();
        let mut i: usize = 0;
        while i < n
            invariant
                n == self.accounts@.len(),
                i <= n,
                uname@ == username@,
                forall|j: int| 0 <= j < i ==> self.accounts@[j].username@ != username@,
            decreases n - i,
        {
            if self.accounts[i].username == uname {
                return Some(i);
            }
            i += 1;
        }
        None
    }

    /// Index of the account with this identifier, if any.
    fn find_by_id(&self, account_id: i64) -> (r: Option<usize>)
        ensures
            match r {
                Some(i) => i < self.accounts@.len() && self.accounts@[i as int].id == account_id,
                None => forall|j: int|
                    0 <= j < self.accounts@.len() ==> self.accounts@[j].id != account_id,
            },
    {
        let n = self.accounts.len();
        let mut i: usize = 0;
        while i < n
            invariant
                n == self.accounts@.len(),
                i <= n,
                forall|j: int| 0 <= j < i ==> self.accounts@[j].id != account_id,
            decreases n - i,
        {
            if self.accounts[i].id == account_id {
                return Some(i);
            }
            i += 1;
        }
        None
    }

    /// Creates an account under a unique username, digesting the
    /// password with the given bcrypt work-factor, and returns the new
    /// identifier. A taken username is refused before any hashing.
    pub fn create_account(
        &mut self,
        username: String,
        name: String,
        password: &str,
        cost: u32,
    ) -> (r: Result<i64, ApiError>)
        requires
            old(self).wf(),
            old(self).next_id < i64::MAX,
        ensures
            final(self).wf(),
            match r {
                Ok(id) => {
                    &&& !has_username(old(self).accounts@, username@)
                    &&& id == old(self).next_id
                    &&& final(self).next_id == old(self).next_id + 1
                    &&& final(self).accounts@ == old(self).accounts@.push(
                        Account {
                            id: id,
                            username: username,
                            name: name,
                            password_digest: final(self).accounts@.last().password_digest,
                            email: None,
                        },
                    )
                    &&& bcrypt_parses(final(self).accounts@.last().password_digest@)
                    &&& bcrypt_verifies(password@, final(self).accounts@.last().password_digest@)
                },
                Err(e) => {
                    &&& *final(self) == *old(self)
                    &&& (e == ApiError::UsernameTaken || e == ApiError::HashFailed)
                    &&& (e == ApiError::UsernameTaken <==> has_username(
                        old(self).accounts@,
                        username@,
                    ))
                },
            },
            !(4 <= cost <= 31) ==> !(r is Ok),
    {
        match self.find_by_username(username.as_str()) {
            Some(_) => Err(ApiError::UsernameTaken),
            None => {
                proof {
                    if has_username(self.accounts@, username@) {
                        let k = choose|k: int|
                            0 <= k < self.accounts@.len() && self.accounts@[k].username@
                                == username@;
                        assert(false);
                    }
                }
                match hash_password(password, cost) {
                    None => Err(ApiError::HashFailed),
                    Some(digest) => {
                        let id = self.next_id;
                        self.next_id = id + 1;
                        self.accounts.push(
                            Account {
                                id,
                                username,
                                name,
                                password_digest: digest,
                                email: None,
                            },
                        );
                        proof {
                            let s1 = self.accounts@;
                            let n = s1.len() - 1;
                            assert forall|i: int, j: int| 0 <= i < j < s1.len() implies s1[i].username@
                                != s1[j].username@ by {
                                if j < n {
                                    assert(old(self).accounts@[i].username@ != old(
                                        self,
                                    ).accounts@[j].username@);
                                }
                            }
                            assert forall|i: int, j: int| 0 <= i < j < s1.len() implies s1[i].id
                                != s1[j].id by {
                                if j < n {
                                    assert(old(self).accounts@[i].id != old(self).accounts@[j].id);
                                }
                            }
                        }
                        Ok(id)
                    },
                }
            },
        }
    }

    /// Edits the optional email address of an account.
    pub fn set_email(&mut self, account_id: i64, email: Option<String>) -> (r: Result<
        (),
        ApiError,
    >)
        requires
            old(self).wf(),
        ensures
            final(self).wf(),
            final(self).next_id == old(self).next_id,
            match r {
                Ok(()) => exists|i: int|
                    {
                        &&& 0 <= i < old(self).accounts@.len()
                        &&& (#[trigger] old(self).accounts@[i]).id == account_id
                        &&& final(self).accounts@ == old(self).accounts@.update(
                            i,
                            Account {
                                id: old(self).accounts@[i].id,
                                username: old(self).accounts@[i].username,
                                name: old(self).accounts@[i].name,
                                password_digest: old(self).accounts@[i].password_digest,
                                email: email,
                            },
                        )
                    },
                Err(e) => {
                    &&& e == ApiError::NotFound
                    &&& *final(self) == *old(self)
                    &&& forall|j: int|
                        0 <= j < old(self).accounts@.len() ==> (#[trigger] old(
                            self,
                        ).accounts@[j]).id != account_id
                },
            },
    {
        match self.find_by_id(account_id) {
            None => Err(ApiError::NotFound),
            Some(i) => {
                self.accounts[i].email = email;
                proof {
                    assert(self.accounts@ == old(self).accounts@.update(
                        i as int,
                        self.accounts@[i as int],
                    ));
                }
                Ok(())
            },
        }
    }
}

/// Logs in: if the username names an account whose digest verifies the
/// password, stores the caller-supplied fresh token for it (expiring
/// `TOKEN_LIFETIME_SECS` after `now`) and returns the account id and
/// display name. A wrong username and a wrong password fail alike.
pub fn login(
    accounts: &AccountStore,
    sessions: &mut SessionStore,
    username: &str,
    password: &str,
    token: String,
    now: i64,
) -> (r: Result<(i64, String), ApiError>)
    requires
        accounts.wf(),
        old(sessions).wf(),
        now <= i64::MAX - TOKEN_LIFETIME_SECS,
    ensures
        final(sessions).wf(),
        match r {
            Ok((aid, name)) => {
                &&& credentials_ok(accounts.accounts@, username@, password@)
                &&& exists|i: int|
                    0 <= i < accounts.accounts@.len() && (#[trigger] accounts.accounts@[i]).username@
                        == username@ && accounts.accounts@[i].id == aid
                        && accounts.accounts@[i].name@ == name@
                &&& forall|j: int|
                    0 <= j < old(sessions).tokens@.len() ==> (#[trigger] old(
                        sessions,
                    ).tokens@[j]).token@ != token@
                &&& final(sessions).tokens@ == old(sessions).tokens@.push(
                    SessionToken {
                        token: token,
                        account_id: aid,
                        expires_at: (now + TOKEN_LIFETIME_SECS) as i64,
                    },
                )
            },
            Err(e) => {
                &&& *final(sessions) == *old(sessions)
                &&& (e == ApiError::Unauthorized || e == ApiError::TokenInUse)
                &&& (e == ApiError::Unauthorized <==> !credentials_ok(
                    accounts.accounts@,
                    username@,
                    password@,
                ))
                &&& e == ApiError::TokenInUse ==> exists|j: int|
                    0 <= j < old(sessions).tokens@.len() && (#[trigger] old(
                        sessions,
                    ).tokens@[j]).token@ == token@
            },
        },
{
    match accounts.find_by_username(username) {
        None => {
            proof {
                if credentials_ok(accounts.accounts@, username@, password@) {
                    let k = choose|k: int|
                        0 <= k < accounts.accounts@.len() && (#[trigger] accounts.accounts@[k]).username@
                            == username@ && bcrypt_parses(accounts.accounts@[k].password_digest@)
                            && bcrypt_verifies(password@, accounts.accounts@[k].password_digest@);
                    assert(false);
                }
            }
            Err(ApiError::Unauthorized)
        },
        Some(i) => {
            let acc = &accounts.accounts[i];
            let ok = check_password(password, acc.password_digest.as_str());
            match ok {
                Some(true) => {
                    match sessions.issue(acc.id, token, now) {
                        Ok(_) => Ok((acc.id, acc.name.clone())),
                        Err(e) => Err(e),
                    }
                },
                _ => {
                    proof {
                        if credentials_ok(accounts.accounts@, username@, password@) {
                            let k = choose|k: int|
                                0 <= k < accounts.accounts@.len() && (#[trigger] accounts.accounts@[k]).username@
                                    == username@ && bcrypt_parses(
                                    accounts.accounts@[k].password_digest@,
                                ) && bcrypt_verifies(
                                    password@,
                                    accounts.accounts@[k].password_digest@,
                                );
                            if k < i as int {
                                assert(accounts.accounts@[k].username@ != accounts.accounts@[i as int].username@);
                            } else if (i as int) < k {
                                assert(accounts.accounts@[i as int].username@ != accounts.accounts@[k].username@);
                            }
                            assert(false);
                        }
                    }
                    Err(ApiError::Unauthorized)
                },
            }
        },
    }
}

/// Resets a password given the old one: verifies the old password,
/// replaces the digest with one of the new password, and immediately
/// expires every live token of the account, so the old credential
/// stops authorizing at once. Returns how many tokens were expired.
pub fn reset_password(
    accounts: &mut AccountStore,
    sessions: &mut SessionStore,
    username: &str,
    old_password: &str,
    new_password: &str,
    cost: u32,
    now: i64,
) -> (r: Result<usize, ApiError>)
    requires
        old(accounts).wf(),
        old(sessions).wf(),
    ensures
        final(accounts).wf(),
        final(sessions).wf(),
        final(accounts).next_id == old(accounts).next_id,
        match r {
            Ok(n) => {
                &&& credentials_ok(old(accounts).accounts@, username@, old_password@)
                &&& exists|i: int|
                    {
                        &&& 0 <= i < old(accounts).accounts@.len()
                        &&& (#[trigger] old(accounts).accounts@[i]).username@ == username@
                        &&& final(accounts).accounts@ == old(accounts).accounts@.update(
                            i,
                            Account {
                                id: old(accounts).accounts@[i].id,
                                username: old(accounts).accounts@[i].username,
                                name: old(accounts).accounts@[i].name,
                                password_digest: final(accounts).accounts@[i].password_digest,
                                email: old(accounts).accounts@[i].email,
                            },
                        )
                        &&& bcrypt_parses(final(accounts).accounts@[i].password_digest@)
                        &&& bcrypt_verifies(
                            new_password@,
                            final(accounts).accounts@[i].password_digest@,
                        )
                        &&& final(sessions).tokens@ == revoked_model(
                            old(sessions).tokens@,
                            old(accounts).accounts@[i].id,
                            now,
                        )
                        &&& n == live_count(
                            old(sessions).tokens@,
                            old(accounts).accounts@[i].id,
                            now,
                        )
                    }
            },
            Err(e) => {
                &&& *final(accounts) == *old(accounts)
                &&& *final(sessions) == *old(sessions)
                &&& (e == ApiError::Unauthorized || e == ApiError::HashFailed)
                &&& (e == ApiError::Unauthorized <==> !credentials_ok(
                    old(accounts).accounts@,
                    username@,
                    old_password@,
                ))
            },
        },
        !(4 <= cost <= 31) ==> !(r is Ok),
{
    match accounts.find_by_username(username) {
        None => {
            proof {
                if credentials_ok(accounts.accounts@, username@, old_password@) {
                    let k = choose|k: int|
                        0 <= k < accounts.accounts@.len() && (#[trigger] accounts.accounts@[k]).username@
                            == username@ && bcrypt_parses(accounts.accounts@[k].password_digest@)
                            && bcrypt_verifies(
                            old_password@,
                            accounts.accounts@[k].password_digest@,
                        );
                    assert(false);
                }
            }
            Err(ApiError::Unauthorized)
        },
        Some(i) => {
            let verdict = check_password(old_password, accounts.accounts[i].password_digest.as_str());
            match verdict {
                Some(true) => {
                    match hash_password(new_password, cost) {
                        None => Err(ApiError::HashFailed),
                        Some(digest) => {
                            let aid = accounts.accounts[i].id;
                            accounts.accounts[i].password_digest = digest;
                            let n = sessions.revoke_all(aid, now);
                            proof {
                                assert(final(accounts).accounts@ == old(
                                    accounts,
                                ).accounts@.update(i as int, final(accounts).accounts@[i as int]));
                            }
                            Ok(n)
                        },
                    }
                },
                _ => {
                    proof {
                        if credentials_ok(accounts.accounts@, username@, old_password@) {
                            let k = choose|k: int|
                                0 <= k < accounts.accounts@.len() && (#[trigger] accounts.accounts@[k]).username@
                                    == username@ && bcrypt_parses(
                                    accounts.accounts@[k].password_digest@,
                                ) && bcrypt_verifies(
                                    old_password@,
                                    accounts.accounts@[k].password_digest@,
                                );
                            if k < i as int {
                                assert(accounts.accounts@[k].username@ != accounts.accounts@[i as int].username@);
                            } else if (i as int) < k {
                                assert(accounts.accounts@[i as int].username@ != accounts.accounts@[k].username@);
                            }
                            assert(false);
                        }
                    }
                    Err(ApiError::Unauthorized)
                },
            }
        },
    }
}

/// Administrative password reset by account id: no old password is
/// asked for, but the credential-change policy still applies, so every
/// live token of the account is expired. Returns the count expired.
pub fn admin_set_password(
    accounts: &mut AccountStore,
    sessions: &mut SessionStore,
    account_id: i64,
    new_password: &str,
    cost: u32,
    now: i64,
) -> (r: Result<usize, ApiError>)
    requires
        old(accounts).wf(),
        old(sessions).wf(),
    ensures
        final(accounts).wf(),
        final(sessions).wf(),
        final(accounts).next_id == old(accounts).next_id,
        match r {
            Ok(n) => exists|i: int|
                {
                    &&& 0 <= i < old(accounts).accounts@.len()
                    &&& (#[trigger] old(accounts).accounts@[i]).id == account_id
                    &&& final(accounts).accounts@ == old(accounts).accounts@.update(
                        i,
                        Account {
                            id: old(accounts).accounts@[i].id,
                            username: old(accounts).accounts@[i].username,
                            name: old(accounts).accounts@[i].name,
                            password_digest: final(accounts).accounts@[i].password_digest,
                            email: old(accounts).accounts@[i].email,
                        },
                    )
                    &&& bcrypt_parses(final(accounts).accounts@[i].password_digest@)
                    &&& bcrypt_verifies(
                        new_password@,
                        final(accounts).accounts@[i].password_digest@,
                    )
                    &&& final(sessions).tokens@ == revoked_model(
                        old(sessions).tokens@,
                        account_id,
                        now,
                    )
                    &&& n == live_count(old(sessions).tokens@, account_id, now)
                },
            Err(e) => {
                &&& *final(accounts) == *old(accounts)
                &&& *final(sessions) == *old(sessions)
                &&& (e == ApiError::NotFound || e == ApiError::HashFailed)
                &&& (e == ApiError::NotFound <==> forall|j: int|
                    0 <= j < old(accounts).accounts@.len() ==> (#[trigger] old(
                        accounts,
                    ).accounts@[j]).id != account_id)
            },
        },
        !(4 <= cost <= 31) ==> !(r is Ok),
{
    match accounts.find_by_id(account_id) {
        None => Err(ApiError::NotFound),
        Some(i) => {
            match hash_password(new_password, cost) {
                None => Err(ApiError::HashFailed),
                Some(digest) => {
                    accounts.accounts[i].password_digest = digest;
                    let n = sessions.revoke_all(account_id, now);
                    proof {
                        assert(final(accounts).accounts@ == old(accounts).accounts@.update(
                            i as int,
                            final(accounts).accounts@[i as int],
                        ));
                    }
                    Ok(n)
                },
            }
        },
    }
}

/// After a successful login the issued token validates to the very
/// account whose credentials were presented, at every instant up to
/// its expiry; and a later password reset of that account kills the
/// token from the reset instant on.
pub proof fn lemma_login_then_reset(
    s: Seq<SessionToken>,
    st: SessionToken,
    now: i64,
    at: i64,
    reset_at: i64,
)
    requires
        crate::sessions::distinct_tokens(s),
        forall|j: int| 0 <= j < s.len() ==> s[j].token@ != st.token@,
        st.expires_at == now + TOKEN_LIFETIME_SECS,
        now <= i64::MAX - TOKEN_LIFETIME_SECS,
    ensures
        now <= at < st.expires_at ==> token_valid(s.push(st), st.token@, at),
        at >= st.expires_at ==> !token_valid(s.push(st), st.token@, at),
        at >= reset_at ==> !token_valid(
            revoked_model(s.push(st), st.account_id, reset_at),
            st.token@,
            at,
        ),
{
    crate::sessions::lemma_session_lifecycle(s, st, now, at);
    let s1 = s.push(st);
    let s2 = revoked_model(s1, st.account_id, reset_at);
    if at >= reset_at {
        if token_valid(s2, st.token@, at) {
            let k = choose|k: int|
                0 <= k < s2.len() && s2[k].token@ == st.token@ && crate::sessions::token_live(
                    s2[k],
                    at,
                );
            assert(s2[k] == crate::sessions::revoke_one(s1[k], st.account_id, reset_at));
            if k < s.len() {
                assert(s1[k].token@ == s[k].token@);
                assert(false);
            } else {
                assert(s1[k] == st);
                assert(!crate::sessions::token_live(s2[k], at));
                assert(false);
            }
        }
    }
}

} // verus!
