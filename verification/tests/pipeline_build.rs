use codeabode::ApiError;
use codeabode::classes::ClassStore;
use codeabode::curriculum::{Class, Curriculum, enroll_student};
use codeabode::pipeline::{
    BUILD_TIMEOUT_SECS, BuildAction, BuildEvent, BuildPhase, entry_path, start_build, step_build,
    workspace_path,
};
use codeabode::projects::{BuildOutcome, ProjectStatus, ProjectStore};
use codeabode::students::StudentStore;
use codeabode::submissions::{SubmissionLedger, WorkType};

fn s(x: &str) -> String {
    x.to_string()
}

fn roster_with_submission() -> (StudentStore, ClassStore, SubmissionLedger, i64) {
    let mut students = StudentStore::new();
    let mut classes = ClassStore::new();
    let curriculum = Curriculum {
        current_level: s("beginner"),
        final_goal: s("a game"),
        classes: vec![Class {
            status: s("assessment"),
            name: s("Your Game"),
            relevance: s("the goal itself"),
            methods: s(""),
            stretch_methods: s(""),
            skills_tested: s("loops, functions"),
            description: s("build it"),
        }],
        future_concepts: vec![],
    };
    let sid = enroll_student(&mut students, &mut classes, s("Mina"), 11, curriculum).unwrap();
    students.grant_access(7, sid).unwrap();
    let cid = classes.classes[0].id;
    let mut ledger = SubmissionLedger::new();
    let sub = ledger
        .submit(&students, &classes, 7, cid, WorkType::Project, s("import pygame"), 100)
        .unwrap();
    (students, classes, ledger, sub)
}

#[test]
fn workspace_path_is_keyed_by_the_identifier() {
    assert_eq!(workspace_path(0), "builds/0");
    assert_eq!(workspace_path(7), "builds/7");
    assert_eq!(workspace_path(10), "builds/10");
    assert_eq!(workspace_path(1234567890), "builds/1234567890");
    assert_eq!(entry_path(7), "builds/7/main.py");
}

#[test]
fn unsupported_deploy_method_fails_without_touching_the_filesystem() {
    let (job, action) = start_build(7, "docker", s("code"));
    assert!(matches!(job.phase, BuildPhase::Done { success: false }));
    match action {
        BuildAction::Record { outcome: BuildOutcome::Failure { log } } => {
            assert_eq!(log, "unsupported deploy method");
        },
        _ => panic!("expected an immediate failure record"),
    }
}

#[test]
fn supported_deploy_method_first_cleans_the_workspace() {
    let (job, action) = start_build(7, "pygbag", s("code"));
    assert!(matches!(job.phase, BuildPhase::Preparing));
    match action {
        BuildAction::CleanWorkspace { path } => assert_eq!(path, "builds/7"),
        _ => panic!("expected the workspace to be cleaned first"),
    }
}

#[test]
fn rerunning_a_build_cleans_the_same_workspace_again() {
    let (_job1, action1) = start_build(7, "pygbag", s("first try"));
    let (_job2, action2) = start_build(7, "pygbag", s("second try"));
    let p1 = match action1 {
        BuildAction::CleanWorkspace { path } => path,
        _ => panic!("expected a clean"),
    };
    let p2 = match action2 {
        BuildAction::CleanWorkspace { path } => path,
        _ => panic!("expected a clean"),
    };
    assert_eq!(p1, p2);
}

#[test]
fn happy_path_writes_runs_and_records_success() {
    let (job, _) = start_build(7, "pygbag", s("import pygame"));

    let (job, action) = step_build(job, BuildEvent::WorkspaceReady);
    assert!(matches!(job.phase, BuildPhase::Writing));
    match action {
        BuildAction::WriteEntryPoint { path, contents } => {
            assert_eq!(path, "builds/7/main.py");
            assert_eq!(contents, "import pygame");
        },
        _ => panic!("expected the entry point to be written"),
    }

    let (job, action) = step_build(job, BuildEvent::EntryPointWritten);
    assert!(matches!(job.phase, BuildPhase::Running));
    match action {
        BuildAction::RunTool { workspace, timeout_secs } => {
            assert_eq!(workspace, "builds/7");
            assert_eq!(timeout_secs, BUILD_TIMEOUT_SECS);
            assert_eq!(timeout_secs, 300);
        },
        _ => panic!("expected the tool to be run"),
    }

    let (job, action) = step_build(
        job,
        BuildEvent::ToolExited { exit_ok: true, output_present: true, log: s("") },
    );
    assert!(matches!(job.phase, BuildPhase::Done { success: true }));
    assert!(matches!(action, BuildAction::Record { outcome: BuildOutcome::Success }));
}

#[test]
fn timeout_terminates_the_tool_and_records_a_marker() {
    let (job, _) = start_build(7, "pygbag", s("code"));
    let (job, _) = step_build(job, BuildEvent::WorkspaceReady);
    let (job, _) = step_build(job, BuildEvent::EntryPointWritten);
    let (job, action) = step_build(job, BuildEvent::ToolTimedOut);
    assert!(matches!(job.phase, BuildPhase::Done { success: false }));
    match action {
        BuildAction::KillToolAndRecord { outcome: BuildOutcome::Failure { log } } => {
            assert!(log.contains("timed out"));
        },
        _ => panic!("expected the tool to be killed and the failure recorded"),
    }
}

#[test]
fn nonzero_exit_records_the_captured_log() {
    let (job, _) = start_build(7, "pygbag", s("code"));
    let (job, _) = step_build(job, BuildEvent::WorkspaceReady);
    let (job, _) = step_build(job, BuildEvent::EntryPointWritten);
    let (job, action) = step_build(
        job,
        BuildEvent::ToolExited {
            exit_ok: false,
            output_present: false,
            log: s("SyntaxError: invalid syntax"),
        },
    );
    assert!(matches!(job.phase, BuildPhase::Done { success: false }));
    match action {
        BuildAction::Record { outcome: BuildOutcome::Failure { log } } => {
            assert_eq!(log, "SyntaxError: invalid syntax");
        },
        _ => panic!("expected the captured log to be recorded"),
    }
}

#[test]
fn zero_exit_without_output_still_fails() {
    let (job, _) = start_build(7, "pygbag", s("code"));
    let (job, _) = step_build(job, BuildEvent::WorkspaceReady);
    let (job, _) = step_build(job, BuildEvent::EntryPointWritten);
    let (job, action) = step_build(
        job,
        BuildEvent::ToolExited { exit_ok: true, output_present: false, log: s("") },
    );
    assert!(matches!(job.phase, BuildPhase::Done { success: false }));
    match action {
        BuildAction::Record { outcome: BuildOutcome::Failure { log } } => {
            assert_eq!(log, "build tool produced no output");
        },
        _ => panic!("expected a failure over the missing output"),
    }
}

#[test]
fn a_done_job_never_moves_again() {
    let (job, _) = start_build(7, "docker", s("code"));
    let (job, action) = step_build(job, BuildEvent::WorkspaceReady);
    assert!(matches!(job.phase, BuildPhase::Done { success: false }));
    assert!(matches!(action, BuildAction::Idle));
    let (job, action) = step_build(job, BuildEvent::ToolTimedOut);
    assert!(matches!(job.phase, BuildPhase::Done { success: false }));
    assert!(matches!(action, BuildAction::Idle));
}

#[test]
fn workspace_failure_fails_the_build_with_the_message() {
    let (job, _) = start_build(7, "pygbag", s("code"));
    let (job, action) = step_build(
        job,
        BuildEvent::WorkspaceFailed { message: s("permission denied") },
    );
    assert!(matches!(job.phase, BuildPhase::Done { success: false }));
    match action {
        BuildAction::Record { outcome: BuildOutcome::Failure { log } } => {
            assert_eq!(log, "permission denied");
        },
        _ => panic!("expected the filesystem message to be recorded"),
    }
}

#[test]
fn create_project_is_guarded_by_submission_ownership() {
    let (students, classes, ledger, sub) = roster_with_submission();
    let mut projects = ProjectStore::new();
    let pid = projects
        .create_project(&students, &classes, &ledger, 7, sub, s("My Game"), s("a game"), s(
            "pygbag",
        ))
        .unwrap();
    assert_eq!(pid, 1);
    assert_eq!(projects.projects[0].status, ProjectStatus::Pending);
    assert_eq!(projects.projects[0].build_log, None);
    assert_eq!(projects.projects[0].views, 0);

    assert_eq!(
        projects.create_project(&students, &classes, &ledger, 8, sub, s("x"), s("y"), s("pygbag")),
        Err(ApiError::Unauthorized)
    );
    assert_eq!(
        projects.create_project(&students, &classes, &ledger, 7, 999, s("x"), s("y"), s("pygbag")),
        Err(ApiError::Unauthorized)
    );
    assert_eq!(projects.projects.len(), 1);
}

#[test]
fn build_outcomes_move_pending_to_a_terminal_status_once() {
    let (students, classes, ledger, sub) = roster_with_submission();
    let mut projects = ProjectStore::new();
    let pid = projects
        .create_project(&students, &classes, &ledger, 7, sub, s("My Game"), s("a game"), s(
            "pygbag",
        ))
        .unwrap();

    projects
        .record_build_outcome(pid, BuildOutcome::Failure { log: s("build timed out") })
        .unwrap();
    assert_eq!(projects.projects[0].status, ProjectStatus::Failed);
    assert_eq!(projects.projects[0].build_log, Some(s("build timed out")));

    assert_eq!(
        projects.record_build_outcome(pid, BuildOutcome::Success),
        Err(ApiError::InvalidState)
    );
    assert_eq!(projects.projects[0].status, ProjectStatus::Failed);

    assert_eq!(
        projects.record_build_outcome(999, BuildOutcome::Success),
        Err(ApiError::NotFound)
    );
}

#[test]
fn retry_reopens_a_failed_project_and_success_clears_the_stale_log() {
    let (students, classes, ledger, sub) = roster_with_submission();
    let mut projects = ProjectStore::new();
    let pid = projects
        .create_project(&students, &classes, &ledger, 7, sub, s("My Game"), s("a game"), s(
            "pygbag",
        ))
        .unwrap();
    projects
        .record_build_outcome(pid, BuildOutcome::Failure { log: s("stale failure") })
        .unwrap();

    projects.retry_build(pid).unwrap();
    assert_eq!(projects.projects[0].status, ProjectStatus::Pending);
    assert_eq!(projects.projects[0].build_log, Some(s("stale failure")));

    projects.record_build_outcome(pid, BuildOutcome::Success).unwrap();
    assert_eq!(projects.projects[0].status, ProjectStatus::Ready);
    assert_eq!(projects.projects[0].build_log, None);

    assert_eq!(projects.retry_build(pid), Err(ApiError::InvalidState));
    assert_eq!(projects.retry_build(999), Err(ApiError::NotFound));
}

#[test]
fn view_counter_increments_by_one() {
    let (students, classes, ledger, sub) = roster_with_submission();
    let mut projects = ProjectStore::new();
    let pid = projects
        .create_project(&students, &classes, &ledger, 7, sub, s("My Game"), s("a game"), s(
            "pygbag",
        ))
        .unwrap();
    assert_eq!(projects.increment_views(pid).unwrap(), 1);
    assert_eq!(projects.increment_views(pid).unwrap(), 2);
    assert_eq!(projects.projects[0].views, 2);
    assert_eq!(projects.increment_views(999), Err(ApiError::NotFound));
}

#[test]
fn find_project_looks_up_by_identifier() {
    let (students, classes, ledger, sub) = roster_with_submission();
    let mut projects = ProjectStore::new();
    let pid = projects
        .create_project(&students, &classes, &ledger, 7, sub, s("My Game"), s("a game"), s(
            "pygbag",
        ))
        .unwrap();
    assert_eq!(projects.find_project(pid).unwrap().title, "My Game");
    assert!(projects.find_project(pid + 1).is_none());
}
