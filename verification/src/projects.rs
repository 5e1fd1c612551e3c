//! Projects derived from submissions, with the small persisted state
//! machine that the build pipeline drives: `Pending -> Ready` on
//! success, `Pending -> Failed` on any error path. A terminal status
//! never changes behind the pipeline's back; re-trying a failed build
//! is an explicit operation that moves the project back to `Pending`.

use vstd::prelude::*;

use crate::ApiError;
use crate::classes::{ClassStore, class_authorized};
use crate::students::StudentStore;
use crate::submissions::SubmissionLedger;

verus! {

/// Where a project's build stands.
#[derive(Clone, Copy, Debug, PartialEq, Eq, Structural)]
pub enum ProjectStatus {
    Pending,
    Ready,
    Failed,
}

/// What a finished build reports back.
pub enum BuildOutcome {
    Success,
    Failure { log: String },
}

/// One project, derived from a submission.
#[derive(Debug)]
pub struct Project {
    pub id: i64,
    pub submission_id: i64,
    pub title: String,
    pub description: String,
    pub deploy_method: String,
    pub status: ProjectStatus,
    pub build_log: Option<String>,
    pub views: i64,
}

/// All projects, with the next identifier to hand out.
#[derive(Debug)]
pub struct ProjectStore {
    pub projects: Vec<Project>,
    pub next_id: i64,
}

/// The account may act on the submission: it exists and its class is
/// owned by a student the account owns.
pub open spec fn submission_authorized(
    students: Seq<crate::students::Student>,
    classes: Seq<crate::classes::ClassRecord>,
    submissions: Seq<crate::submissions::Submission>,
    account_id: i64,
    submission_id: i64,
) -> bool {
    exists|i: int|
        0 <= i < submissions.len() && (#[trigger] submissions[i]).id == submission_id
            && class_authorized(students, classes, account_id, submissions[i].class_id)
}

impl ProjectStore {
    pub open spec fn wf(self) -> bool {
        &&& forall|i: int, j: int|
            0 <= i < j < self.projects@.len() ==> self.projects@[i].id < self.projects@[j].id
        &&& forall|i: int|
            0 <= i < self.projects@.len() ==> 1 <= (#[trigger] self.projects@[i]).id < self.next_id
        &&& self.next_id >= 1
    }

    /// The store starts with no projects.
    pub fn new() -> (s: ProjectStore)
        ensures
            s.projects@ == Seq::<Project>::empty(),
            s.next_id == 1,
            s.wf(),
    {
        ProjectStore { projects: Vec::new(), next_id: 1 }
    }

    /// Index of the project with this identifier, if any.
    fn find_by_id(&self, project_id: i64) -> (r: Option<usize>)
        ensures
            match r {
                Some(i) => i < self.projects@.len() && self.projects@[i as int].id == project_id,
                None => forall|j: int|
                    0 <= j < self.projects@.len() ==> (#[trigger] self.projects@[j]).id
                        != project_id,
            },
    {
        let n = self.projects.len();
        let mut i: usize = 0;
        while i < n
            invariant
                n == self.projects@.len(),
                i <= n,
                forall|j: int| 0 <= j < i ==> (#[trigger] self.projects@[j]).id != project_id,
            decreases n - i,
        {
            if self.projects[i].id == project_id {
                return Some(i);
            }
            i += 1;
        }
        None
    }

    /// The project with this identifier, if any.
    pub fn find_project(&self, project_id: i64) -> (r: Option<&Project>)
        ensures
            match r {
                Some(p) => self.projects@.contains(*p) && p.id == project_id,
                None => forall|j: int|
                    0 <= j < self.projects@.len() ==> (#[trigger] self.projects@[j]).id
                        != project_id,
            },
    {
        match self.find_by_id(project_id) {
            None => None,
            Some(i) => {
                proof {
                    assert(self.projects@.contains(self.projects@[i as int]));
                }
                Some(&self.projects[i])
            },
        }
    }

    /// The guarded insert behind project submission: a project row is
    /// created, as `Pending` with no log and no views, exactly when
    /// the account may act on the source submission. The triggering
    /// request learns only the identifier and `Pending`; the build
    /// itself runs detached.
    pub fn create_project(
        &mut self,
        students: &StudentStore,
        classes: &ClassStore,
        ledger: &SubmissionLedger,
        account_id: i64,
        submission_id: i64,
        title: String,
        description: String,
        deploy_method: String,
    ) -> (r: Result<i64, ApiError>)
        requires
            old(self).wf(),
            students.wf(),
            classes.wf(),
            ledger.wf(),
            old(self).next_id < i64::MAX,
        ensures
            final(self).wf(),
            match r {
                Ok(id) => {
                    &&& submission_authorized(
                        students.students@,
                        classes.classes@,
                        ledger.rows@,
                        account_id,
                        submission_id,
                    )
                    &&& id == old(self).next_id
                    &&& final(self).next_id == old(self).next_id + 1
                    &&& final(self).projects@ == old(self).projects@.push(
                        Project {
                            id: id,
                            submission_id: submission_id,
                            title: title,
                            description: description,
                            deploy_method: deploy_method,
                            status: ProjectStatus::Pending,
                            build_log: None,
                            views: 0,
                        },
                    )
                },
                Err(e) => {
                    &&& e == ApiError::Unauthorized
                    &&& !submission_authorized(
                        students.students@,
                        classes.classes@,
                        ledger.rows@,
                        account_id,
                        submission_id,
                    )
                    &&& *final(self) == *old(self)
                },
            },
    {
        match ledger.find_submission(submission_id) {
            None => {
                proof {
                    if submission_authorized(
                        students.students@,
                        classes.classes@,
                        ledger.rows@,
                        account_id,
                        submission_id,
                    ) {
                        let k = choose|k: int|
                            0 <= k < ledger.rows@.len() && (#[trigger] ledger.rows@[k]).id
                                == submission_id && class_authorized(
                                students.students@,
                                classes.classes@,
                                account_id,
                                ledger.rows@[k].class_id,
                            );
                        assert(false);
                    }
                }
                Err(ApiError::Unauthorized)
            },
            Some(sub) => {
                let ghost w = choose|w: int|
                    0 <= w < ledger.rows@.len() && ledger.rows@[w] == *sub;
                let allowed = match classes.find_class(sub.class_id) {
                    None => false,
                    Some(class) => students.authorize(account_id, class.student_id),
                };
                proof {
                    if allowed {
                        assert(class_authorized(
                            students.students@,
                            classes.classes@,
                            account_id,
                            sub.class_id,
                        ));
                    } else {
                        if class_authorized(
                            students.students@,
                            classes.classes@,
                            account_id,
                            sub.class_id,
                        ) {
                            let k = choose|k: int|
                                0 <= k < classes.classes@.len() && (#[trigger] classes.classes@[k]).id
                                    == sub.class_id && crate::students::authorized(
                                    students.students@,
                                    account_id,
                                    classes.classes@[k].student_id,
                                );
                            assert(false);
                        }
                    }
                }
                if allowed {
                    let id = self.next_id;
                    self.next_id = id + 1;
                    self.projects.push(
                        Project {
                            id,
                            submission_id,
                            title,
                            description,
                            deploy_method,
                            status: ProjectStatus::Pending,
                            build_log: None,
                            views: 0,
                        },
                    );
                    proof {
                        assert(submission_authorized(
                            students.students@,
                            classes.classes@,
                            ledger.rows@,
                            account_id,
                            submission_id,
                        ));
                        let s1 = self.projects@;
                        let n = s1.len() - 1;
                        assert forall|i: int, j: int| 0 <= i < j < s1.len() implies s1[i].id
                            < s1[j].id by {
                            if j < n {
                                assert(old(self).projects@[i].id < old(self).projects@[j].id);
                            } else {
                                assert(old(self).projects@[i].id < old(self).next_id);
                            }
                        }
                    }
                    Ok(id)
                } else {
                    proof {
                        if submission_authorized(
                            students.students@,
                            classes.classes@,
                            ledger.rows@,
                            account_id,
                            submission_id,
                        ) {
                            let k = choose|k: int|
                                0 <= k < ledger.rows@.len() && (#[trigger] ledger.rows@[k]).id
                                    == submission_id && class_authorized(
                                    students.students@,
                                    classes.classes@,
                                    account_id,
                                    ledger.rows@[k].class_id,
                                );
                            if k < w {
                                assert(ledger.rows@[k].id < ledger.rows@[w].id);
                            } else if w < k {
                                assert(ledger.rows@[w].id < ledger.rows@[k].id);
                            }
                            assert(false);
                        }
                    }
                    Err(ApiError::Unauthorized)
                }
            },
        }
    }

    /// Persists what a finished build reported, but only on a project
    /// still `Pending`: success makes it `Ready` and clears any stale
    /// log; failure makes it `Failed` and stores the log. A project
    /// already in a terminal status is left untouched.
    pub fn record_build_outcome(&mut self, project_id: i64, outcome: BuildOutcome) -> (r: Result<
        (),
        ApiError,
    >)
        requires
            old(self).wf(),
        ensures
            final(self).wf(),
            final(self).next_id == old(self).next_id,
            match r {
                Ok(()) => exists|i: int|
                    {
                        &&& 0 <= i < old(self).projects@.len()
                        &&& (#[trigger] old(self).projects@[i]).id == project_id
                        &&& old(self).projects@[i].status == ProjectStatus::Pending
                        &&& final(self).projects@ == old(self).projects@.update(
                            i,
                            final(self).projects@[i],
                        )
                        &&& final(self).projects@[i].id == old(self).projects@[i].id
                        &&& final(self).projects@[i].submission_id == old(
                            self,
                        ).projects@[i].submission_id
                        &&& final(self).projects@[i].title == old(self).projects@[i].title
                        &&& final(self).projects@[i].description == old(
                            self,
                        ).projects@[i].description
                        &&& final(self).projects@[i].deploy_method == old(
                            self,
                        ).projects@[i].deploy_method
                        &&& final(self).projects@[i].views == old(self).projects@[i].views
                        &&& match outcome {
                            BuildOutcome::Success => final(self).projects@[i].status
                                == ProjectStatus::Ready && final(self).projects@[i].build_log
                                is None,
                            BuildOutcome::Failure { log } => final(self).projects@[i].status
                                == ProjectStatus::Failed && final(self).projects@[i].build_log
                                == Some(log),
                        }
                    },
                Err(e) => {
                    &&& *final(self) == *old(self)
                    &&& (e == ApiError::NotFound || e == ApiError::InvalidState)
                    &&& (e == ApiError::NotFound <==> forall|j: int|
                        0 <= j < old(self).projects@.len() ==> (#[trigger] old(
                            self,
                        ).projects@[j]).id != project_id)
                    &&& (e == ApiError::InvalidState ==> exists|i: int|
                        0 <= i < old(self).projects@.len() && (#[trigger] old(
                            self,
                        ).projects@[i]).id == project_id && old(self).projects@[i].status
                            != ProjectStatus::Pending)
                },
            },
    {
        match self.find_by_id(project_id) {
            None => Err(ApiError::NotFound),
            Some(i) => {
                if !matches!(self.projects[i].status, ProjectStatus::Pending) {
                    return Err(ApiError::InvalidState);
                }
                match outcome {
                    BuildOutcome::Success => {
                        self.projects[i].status = ProjectStatus::Ready;
                        self.projects[i].build_log = None;
                    },
                    BuildOutcome::Failure { log } => {
                        self.projects[i].status = ProjectStatus::Failed;
                        self.projects[i].build_log = Some(log);
                    },
                }
                proof {
                    assert(self.projects@ == old(self).projects@.update(
                        i as int,
                        self.projects@[i as int],
                    ));
                }
                Ok(())
            },
        }
    }

    /// Explicitly re-queues a project whose build failed: `Failed`
    /// moves back to `Pending` (the stale log stays readable until
    /// the next outcome); any other status is refused, so a ready
    /// project is never rebuilt by accident and a pending one is not
    /// raced.
    pub fn retry_build(&mut self, project_id: i64) -> (r: Result<(), ApiError>)
        requires
            old(self).wf(),
        ensures
            final(self).wf(),
            final(self).next_id == old(self).next_id,
            match r {
                Ok(()) => exists|i: int|
                    {
                        &&& 0 <= i < old(self).projects@.len()
                        &&& (#[trigger] old(self).projects@[i]).id == project_id
                        &&& old(self).projects@[i].status == ProjectStatus::Failed
                        &&& final(self).projects@ == old(self).projects@.update(
                            i,
                            final(self).projects@[i],
                        )
                        &&& final(self).projects@[i].id == old(self).projects@[i].id
                        &&& final(self).projects@[i].submission_id == old(
                            self,
                        ).projects@[i].submission_id
                        &&& final(self).projects@[i].title == old(self).projects@[i].title
                        &&& final(self).projects@[i].description == old(
                            self,
                        ).projects@[i].description
                        &&& final(self).projects@[i].deploy_method == old(
                            self,
                        ).projects@[i].deploy_method
                        &&& final(self).projects@[i].views == old(self).projects@[i].views
                        &&& final(self).projects@[i].build_log == old(self).projects@[i].build_log
                        &&& final(self).projects@[i].status == ProjectStatus::Pending
                    },
                Err(e) => {
                    &&& *final(self) == *old(self)
                    &&& (e == ApiError::NotFound || e == ApiError::InvalidState)
                    &&& (e == ApiError::NotFound <==> forall|j: int|
                        0 <= j < old(self).projects@.len() ==> (#[trigger] old(
                            self,
                        ).projects@[j]).id != project_id)
                    &&& (e == ApiError::InvalidState ==> exists|i: int|
                        0 <= i < old(self).projects@.len() && (#[trigger] old(
                            self,
                        ).projects@[i]).id == project_id && old(self).projects@[i].status
                            != ProjectStatus::Failed)
                },
            },
    {
        match self.find_by_id(project_id) {
            None => Err(ApiError::NotFound),
            Some(i) => {
                if !matches!(self.projects[i].status, ProjectStatus::Failed) {
                    return Err(ApiError::InvalidState);
                }
                self.projects[i].status = ProjectStatus::Pending;
                proof {
                    assert(self.projects@ == old(self).projects@.update(
                        i as int,
                        self.projects@[i as int],
                    ));
                }
                Ok(())
            },
        }
    }

    /// Counts one more view of the project and returns the new count,
    /// saturating at the top of the counter's range.
    pub fn increment_views(&mut self, project_id: i64) -> (r: Result<i64, ApiError>)
        requires
            old(self).wf(),
        ensures
            final(self).wf(),
            final(self).next_id == old(self).next_id,
            match r {
                Ok(v) => exists|i: int|
                    {
                        &&& 0 <= i < old(self).projects@.len()
                        &&& (#[trigger] old(self).projects@[i]).id == project_id
                        &&& final(self).projects@ == old(self).projects@.update(
                            i,
                            final(self).projects@[i],
                        )
                        &&& final(self).projects@[i].id == old(self).projects@[i].id
                        &&& final(self).projects@[i].submission_id == old(
                            self,
                        ).projects@[i].submission_id
                        &&& final(self).projects@[i].title == old(self).projects@[i].title
                        &&& final(self).projects@[i].description == old(
                            self,
                        ).projects@[i].description
                        &&& final(self).projects@[i].deploy_method == old(
                            self,
                        ).projects@[i].deploy_method
                        &&& final(self).projects@[i].status == old(self).projects@[i].status
                        &&& final(self).projects@[i].build_log == old(self).projects@[i].build_log
                        &&& final(self).projects@[i].views == (
                        if old(self).projects@[i].views < i64::MAX {
                            old(self).projects@[i].views + 1
                        } else {
                            old(self).projects@[i].views as int
                        })
                        &&& v == final(self).projects@[i].views
                    },
                Err(e) => {
                    &&& e == ApiError::NotFound
                    &&& *final(self) == *old(self)
                    &&& forall|j: int|
                        0 <= j < old(self).projects@.len() ==> (#[trigger] old(
                            self,
                        ).projects@[j]).id != project_id
                },
            },
    {
        match self.find_by_id(project_id) {
            None => Err(ApiError::NotFound),
            Some(i) => {
                let v = self.projects[i].views;
                let v2 = if v < i64::MAX {
                    v + 1
                } else {
                    v
                };
                self.projects[i].views = v2;
                proof {
                    assert(self.projects@ == old(self).projects@.update(
                        i as int,
                        self.projects@[i as int],
                    ));
                }
                Ok(v2)
            },
        }
    }
}

} // verus!
