use codeabode::ApiError;
use codeabode::accounts::{AccountStore, admin_set_password, login, reset_password};
use codeabode::sessions::{SessionStore, TOKEN_LIFETIME_SECS};

fn s(x: &str) -> String {
    x.to_string()
}

#[test]
fn token_lifetime_is_fifteen_days() {
    assert_eq!(TOKEN_LIFETIME_SECS, 15 * 24 * 60 * 60);
}

#[test]
fn issue_sets_expiry_fifteen_days_out() {
    let mut sessions = SessionStore::new();
    let expiry = sessions.issue(7, s("tok-a"), 1000).unwrap();
    assert_eq!(expiry, 1000 + TOKEN_LIFETIME_SECS);
    assert_eq!(sessions.tokens.len(), 1);
}

#[test]
fn issue_refuses_duplicate_token_string() {
    let mut sessions = SessionStore::new();
    sessions.issue(7, s("tok-a"), 1000).unwrap();
    assert_eq!(sessions.issue(8, s("tok-a"), 2000), Err(ApiError::TokenInUse));
    assert_eq!(sessions.tokens.len(), 1);
}

#[test]
fn validate_is_true_strictly_before_expiry_false_after() {
    let mut sessions = SessionStore::new();
    let expiry = sessions.issue(7, s("tok-a"), 1000).unwrap();
    assert_eq!(sessions.validate("tok-a", 1000), Some(7));
    assert_eq!(sessions.validate("tok-a", expiry - 1), Some(7));
    assert_eq!(sessions.validate("tok-a", expiry), None);
    assert_eq!(sessions.validate("tok-a", expiry + 1), None);
}

#[test]
fn validate_unknown_token_is_rejected() {
    let mut sessions = SessionStore::new();
    sessions.issue(7, s("tok-a"), 1000).unwrap();
    assert_eq!(sessions.validate("tok-b", 1000), None);
}

#[test]
fn revoke_all_kills_only_that_accounts_live_tokens() {
    let mut sessions = SessionStore::new();
    sessions.issue(1, s("tok-a"), 1000).unwrap();
    sessions.issue(1, s("tok-b"), 1500).unwrap();
    sessions.issue(2, s("tok-c"), 1500).unwrap();
    let now = 2000;
    let cleared = sessions.revoke_all(1, now);
    assert_eq!(cleared, 2);
    assert_eq!(sessions.validate("tok-a", now), None);
    assert_eq!(sessions.validate("tok-b", now), None);
    assert_eq!(sessions.validate("tok-c", now), Some(2));
}

#[test]
fn revoke_all_skips_already_expired_tokens() {
    let mut sessions = SessionStore::new();
    let expiry = sessions.issue(1, s("tok-old"), 0).unwrap();
    sessions.issue(1, s("tok-new"), expiry).unwrap();
    let cleared = sessions.revoke_all(1, expiry + 5);
    assert_eq!(cleared, 1);
}

#[test]
fn create_account_hands_out_sequential_ids() {
    let mut accounts = AccountStore::new();
    let a = accounts.create_account(s("ada"), s("Ada"), "pw-one", 4).unwrap();
    let b = accounts.create_account(s("bob"), s("Bob"), "pw-two", 4).unwrap();
    assert_eq!(a, 1);
    assert_eq!(b, 2);
    assert_eq!(accounts.accounts.len(), 2);
    assert_eq!(accounts.accounts[0].email, None);
}

#[test]
fn create_account_refuses_taken_username() {
    let mut accounts = AccountStore::new();
    accounts.create_account(s("ada"), s("Ada"), "pw-one", 4).unwrap();
    assert_eq!(
        accounts.create_account(s("ada"), s("Other"), "pw-two", 4),
        Err(ApiError::UsernameTaken)
    );
    assert_eq!(accounts.accounts.len(), 1);
}

#[test]
fn create_account_reports_bad_work_factor() {
    let mut accounts = AccountStore::new();
    assert_eq!(
        accounts.create_account(s("ada"), s("Ada"), "pw-one", 3),
        Err(ApiError::HashFailed)
    );
    assert_eq!(accounts.accounts.len(), 0);
}

#[test]
fn login_with_correct_credentials_issues_token() {
    let mut accounts = AccountStore::new();
    let mut sessions = SessionStore::new();
    let id = accounts.create_account(s("ada"), s("Ada Lovelace"), "secret", 4).unwrap();
    let (aid, name) = login(&accounts, &mut sessions, "ada", "secret", s("tok-a"), 500).unwrap();
    assert_eq!(aid, id);
    assert_eq!(name, "Ada Lovelace");
    assert_eq!(sessions.validate("tok-a", 600), Some(id));
    assert_eq!(sessions.validate("tok-a", 500 + TOKEN_LIFETIME_SECS - 1), Some(id));
    assert_eq!(sessions.validate("tok-a", 500 + TOKEN_LIFETIME_SECS), None);
}

#[test]
fn login_with_wrong_password_fails_without_side_effects() {
    let mut accounts = AccountStore::new();
    let mut sessions = SessionStore::new();
    accounts.create_account(s("ada"), s("Ada"), "secret", 4).unwrap();
    assert_eq!(
        login(&accounts, &mut sessions, "ada", "wrong", s("tok-a"), 500),
        Err(ApiError::Unauthorized)
    );
    assert_eq!(sessions.tokens.len(), 0);
}

#[test]
fn login_with_unknown_username_fails_like_wrong_password() {
    let mut accounts = AccountStore::new();
    let mut sessions = SessionStore::new();
    accounts.create_account(s("ada"), s("Ada"), "secret", 4).unwrap();
    assert_eq!(
        login(&accounts, &mut sessions, "eve", "secret", s("tok-a"), 500),
        Err(ApiError::Unauthorized)
    );
}

#[test]
fn reset_password_rotates_digest_and_revokes_tokens() {
    let mut accounts = AccountStore::new();
    let mut sessions = SessionStore::new();
    let id = accounts.create_account(s("ada"), s("Ada"), "old-pw", 4).unwrap();
    login(&accounts, &mut sessions, "ada", "old-pw", s("tok-a"), 500).unwrap();
    assert_eq!(sessions.validate("tok-a", 600), Some(id));

    let cleared = reset_password(&mut accounts, &mut sessions, "ada", "old-pw", "new-pw", 4, 600)
        .unwrap();
    assert_eq!(cleared, 1);
    assert_eq!(sessions.validate("tok-a", 600), None);

    assert_eq!(
        login(&accounts, &mut sessions, "ada", "old-pw", s("tok-b"), 700),
        Err(ApiError::Unauthorized)
    );
    let (aid, _) = login(&accounts, &mut sessions, "ada", "new-pw", s("tok-b"), 700).unwrap();
    assert_eq!(aid, id);
}

#[test]
fn reset_password_with_wrong_old_password_changes_nothing() {
    let mut accounts = AccountStore::new();
    let mut sessions = SessionStore::new();
    let id = accounts.create_account(s("ada"), s("Ada"), "old-pw", 4).unwrap();
    login(&accounts, &mut sessions, "ada", "old-pw", s("tok-a"), 500).unwrap();
    assert_eq!(
        reset_password(&mut accounts, &mut sessions, "ada", "guess", "new-pw", 4, 600),
        Err(ApiError::Unauthorized)
    );
    assert_eq!(sessions.validate("tok-a", 600), Some(id));
}

#[test]
fn admin_set_password_needs_no_old_password_but_revokes() {
    let mut accounts = AccountStore::new();
    let mut sessions = SessionStore::new();
    let id = accounts.create_account(s("ada"), s("Ada"), "old-pw", 4).unwrap();
    login(&accounts, &mut sessions, "ada", "old-pw", s("tok-a"), 500).unwrap();
    let cleared = admin_set_password(&mut accounts, &mut sessions, id, "new-pw", 4, 600).unwrap();
    assert_eq!(cleared, 1);
    assert_eq!(sessions.validate("tok-a", 600), None);
    login(&accounts, &mut sessions, "ada", "new-pw", s("tok-b"), 700).unwrap();
}

#[test]
fn admin_set_password_on_unknown_id_is_not_found() {
    let mut accounts = AccountStore::new();
    let mut sessions = SessionStore::new();
    assert_eq!(
        admin_set_password(&mut accounts, &mut sessions, 42, "new-pw", 4, 600),
        Err(ApiError::NotFound)
    );
}

#[test]
fn set_email_edits_only_the_named_account() {
    let mut accounts = AccountStore::new();
    let a = accounts.create_account(s("ada"), s("Ada"), "pw-one", 4).unwrap();
    accounts.create_account(s("bob"), s("Bob"), "pw-two", 4).unwrap();
    accounts.set_email(a, Some(s("ada@example.org"))).unwrap();
    assert_eq!(accounts.accounts[0].email, Some(s("ada@example.org")));
    assert_eq!(accounts.accounts[1].email, None);
    assert_eq!(accounts.set_email(99, None), Err(ApiError::NotFound));
}
