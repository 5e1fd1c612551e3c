use codeabode::ApiError;
use codeabode::accounts::{AccountStore, login, reset_password};
use codeabode::classes::ClassStore;
use codeabode::curriculum::{Class, Curriculum, enroll_student};
use codeabode::sessions::{SessionStore, TOKEN_LIFETIME_SECS};
use codeabode::students::StudentStore;

fn s(x: &str) -> String {
    x.to_string()
}

#[test]
fn login_list_and_reset_in_one_session() {
    let mut accounts = AccountStore::new();
    let mut sessions = SessionStore::new();
    let mut students = StudentStore::new();
    let mut classes = ClassStore::new();

    let tutor = accounts.create_account(s("tutor"), s("The Tutor"), "hunter2", 4).unwrap();
    let other = accounts.create_account(s("other"), s("Somebody Else"), "pw", 4).unwrap();

    let curriculum = Curriculum {
        current_level: s("beginner"),
        final_goal: s("a website"),
        classes: vec![Class {
            status: s("upcoming"),
            name: s("variables"),
            relevance: s("state"),
            methods: s("int"),
            stretch_methods: s(""),
            skills_tested: s(""),
            description: s("first"),
        }],
        future_concepts: vec![],
    };
    let mine = enroll_student(&mut students, &mut classes, s("Mina"), 11, curriculum).unwrap();
    let theirs = enroll_student(
        &mut students,
        &mut classes,
        s("Noor"),
        12,
        Curriculum {
            current_level: s("beginner"),
            final_goal: s("a robot"),
            classes: vec![],
            future_concepts: vec![],
        },
    )
    .unwrap();
    students.grant_access(tutor, mine).unwrap();
    students.grant_access(other, theirs).unwrap();

    // Login with correct credentials: the token is good for 15 days.
    let now = 1_000_000;
    let (aid, name) = login(&accounts, &mut sessions, "tutor", "hunter2", s("tok-1"), now)
        .unwrap();
    assert_eq!(aid, tutor);
    assert_eq!(name, "The Tutor");
    assert_eq!(sessions.validate("tok-1", now + TOKEN_LIFETIME_SECS - 1), Some(tutor));
    assert_eq!(sessions.validate("tok-1", now + TOKEN_LIFETIME_SECS), None);

    // The token lists exactly the students whose ownership set holds
    // the account id.
    let later = now + 50;
    let acting = sessions.validate("tok-1", later).unwrap();
    let listed = students.owned_students(acting);
    assert_eq!(listed.len(), 1);
    assert_eq!(listed[0].id, mine);
    assert_eq!(listed[0].name, "Mina");

    // A password reset with the correct old password invalidates the
    // token on the next use.
    let cleared =
        reset_password(&mut accounts, &mut sessions, "tutor", "hunter2", "correct horse", 4, later)
            .unwrap();
    assert_eq!(cleared, 1);
    assert_eq!(sessions.validate("tok-1", later), None);
    assert_eq!(
        login(&accounts, &mut sessions, "tutor", "hunter2", s("tok-2"), later),
        Err(ApiError::Unauthorized)
    );
    let (aid2, _) =
        login(&accounts, &mut sessions, "tutor", "correct horse", s("tok-2"), later).unwrap();
    assert_eq!(aid2, tutor);
}
