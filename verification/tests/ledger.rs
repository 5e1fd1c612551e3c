use codeabode::ApiError;
use codeabode::classes::ClassStore;
use codeabode::curriculum::{Class, Curriculum, enroll_student};
use codeabode::students::StudentStore;
use codeabode::submissions::{SubmissionLedger, WorkType};

fn s(x: &str) -> String {
    x.to_string()
}

fn one_class_curriculum() -> Curriculum {
    Curriculum {
        current_level: s("beginner"),
        final_goal: s("a chat app"),
        classes: vec![Class {
            status: s("upcoming"),
            name: s("variables"),
            relevance: s("everything needs state"),
            methods: s("int, str"),
            stretch_methods: s(""),
            skills_tested: s(""),
            description: s("first steps"),
        }],
        future_concepts: vec![s("loops")],
    }
}

fn roster_with_owner(
    owner: i64,
) -> (StudentStore, ClassStore, i64, i64) {
    let mut students = StudentStore::new();
    let mut classes = ClassStore::new();
    let sid = enroll_student(&mut students, &mut classes, s("Mina"), 11, one_class_curriculum())
        .unwrap();
    students.grant_access(owner, sid).unwrap();
    let cid = classes.classes[0].id;
    (students, classes, sid, cid)
}

#[test]
fn submit_by_owner_appends_one_row() {
    let (students, classes, _sid, cid) = roster_with_owner(7);
    let mut ledger = SubmissionLedger::new();
    let id = ledger
        .submit(&students, &classes, 7, cid, WorkType::Classwork, s("print('hi')"), 100)
        .unwrap();
    assert_eq!(id, 1);
    assert_eq!(ledger.rows.len(), 1);
    assert_eq!(ledger.rows[0].class_id, cid);
    assert_eq!(ledger.rows[0].account_id, 7);
    assert_eq!(ledger.rows[0].text, "print('hi')");
}

#[test]
fn submit_for_a_class_the_account_does_not_own_inserts_zero_rows() {
    let (students, classes, _sid, cid) = roster_with_owner(7);
    let mut ledger = SubmissionLedger::new();
    assert_eq!(
        ledger.submit(&students, &classes, 8, cid, WorkType::Homework, s("work"), 100),
        Err(ApiError::Unauthorized)
    );
    assert_eq!(ledger.rows.len(), 0);
}

#[test]
fn submit_to_a_missing_class_fails_the_same_way() {
    let (students, classes, _sid, _cid) = roster_with_owner(7);
    let mut ledger = SubmissionLedger::new();
    assert_eq!(
        ledger.submit(&students, &classes, 7, 999, WorkType::Homework, s("work"), 100),
        Err(ApiError::Unauthorized)
    );
    assert_eq!(ledger.rows.len(), 0);
}

#[test]
fn latest_picks_the_most_recently_created_row() {
    let (students, classes, _sid, cid) = roster_with_owner(7);
    let mut ledger = SubmissionLedger::new();
    ledger.submit(&students, &classes, 7, cid, WorkType::Homework, s("draft"), 100).unwrap();
    ledger.submit(&students, &classes, 7, cid, WorkType::Homework, s("final"), 200).unwrap();
    let hit = ledger.latest(cid, WorkType::Homework).unwrap();
    assert_eq!(hit.text, "final");
    assert_eq!(hit.id, 2);
}

#[test]
fn latest_breaks_creation_time_ties_by_identifier() {
    let (students, classes, _sid, cid) = roster_with_owner(7);
    let mut ledger = SubmissionLedger::new();
    let same_instant = 100;
    ledger
        .submit(&students, &classes, 7, cid, WorkType::Homework, s("first"), same_instant)
        .unwrap();
    ledger
        .submit(&students, &classes, 7, cid, WorkType::Homework, s("second"), same_instant)
        .unwrap();
    let hit = ledger.latest(cid, WorkType::Homework).unwrap();
    assert_eq!(hit.text, "second");
    assert_eq!(hit.created_at, same_instant);
}

#[test]
fn latest_filters_by_work_type() {
    let (students, classes, _sid, cid) = roster_with_owner(7);
    let mut ledger = SubmissionLedger::new();
    ledger.submit(&students, &classes, 7, cid, WorkType::Classwork, s("cw"), 100).unwrap();
    ledger.submit(&students, &classes, 7, cid, WorkType::Homework, s("hw"), 200).unwrap();
    assert_eq!(ledger.latest(cid, WorkType::Classwork).unwrap().text, "cw");
    assert_eq!(ledger.latest(cid, WorkType::Homework).unwrap().text, "hw");
    assert!(ledger.latest(cid, WorkType::Project).is_none());
    assert!(ledger.latest(999, WorkType::Homework).is_none());
}

#[test]
fn find_submission_looks_up_by_identifier() {
    let (students, classes, _sid, cid) = roster_with_owner(7);
    let mut ledger = SubmissionLedger::new();
    let id = ledger
        .submit(&students, &classes, 7, cid, WorkType::Project, s("game"), 100)
        .unwrap();
    assert_eq!(ledger.find_submission(id).unwrap().text, "game");
    assert!(ledger.find_submission(id + 1).is_none());
}
