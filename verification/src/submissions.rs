//! The submission ledger: an append-only store of work artifacts, each
//! tied to one class and to the account that submitted it. A row is
//! inserted only together with the ownership check that guards it, and
//! "current" always means the row with the greatest identifier, since
//! identifiers follow creation order and never depend on a clock.

use vstd::prelude::*;

use crate::ApiError;
use crate::classes::{ClassStore, class_authorized};
use crate::students::StudentStore;

verus! {

/// What kind of work a submission carries.
#[derive(Clone, Copy, Debug, PartialEq, Eq, Structural)]
pub enum WorkType {
    Classwork,
    Homework,
    Project,
}

/// One immutable work artifact.
#[derive(Debug)]
pub struct Submission {
    pub id: i64,
    pub class_id: i64,
    pub account_id: i64,
    pub work_type: WorkType,
    pub text: String,
    pub created_at: i64,
}

/// The append-only ledger, with the next identifier to hand out.
#[derive(Debug)]
pub struct SubmissionLedger {
    pub rows: Vec<Submission>,
    pub next_id: i64,
}

/// The row belongs to this class and carries this kind of work.
pub open spec fn submission_matches(s: Submission, class_id: i64, work_type: WorkType) -> bool {
    s.class_id == class_id && s.work_type == work_type
}

impl SubmissionLedger {
    pub open spec fn wf(self) -> bool {
        &&& forall|i: int, j: int|
            0 <= i < j < self.rows@.len() ==> self.rows@[i].id < self.rows@[j].id
        &&& forall|i: int|
            0 <= i < self.rows@.len() ==> 1 <= (#[trigger] self.rows@[i]).id < self.next_id
        &&& self.next_id >= 1
    }

    /// The ledger starts empty.
    pub fn new() -> (s: SubmissionLedger)
        ensures
            s.rows@ == Seq::<Submission>::empty(),
            s.next_id == 1,
            s.wf(),
    {
        SubmissionLedger { rows: Vec::new(), next_id: 1 }
    }

    /// The row with this identifier, if any.
    pub fn find_submission(&self, submission_id: i64) -> (r: Option<&Submission>)
        ensures
            match r {
                Some(s) => self.rows@.contains(*s) && s.id == submission_id,
                None => forall|j: int|
                    0 <= j < self.rows@.len() ==> (#[trigger] self.rows@[j]).id != submission_id,
            },
    {
        let n = self.rows.len();
        let mut i: usize = 0;
        while i < n
            invariant
                n == self.rows@.len(),
                i <= n,
                forall|j: int| 0 <= j < i ==> (#[trigger] self.rows@[j]).id != submission_id,
            decreases n - i,
        {
            if self.rows[i].id == submission_id {
                proof {
                    assert(self.rows@.contains(self.rows@[i as int]));
                }
                return Some(&self.rows[i]);
            }
            i += 1;
        }
        None
    }

    /// The guarded insert: a row is appended exactly when the class
    /// exists and the submitting account belongs to the owning
    /// student's ownership set; otherwise nothing at all is stored,
    /// and the caller cannot tell a missing class from a forbidden
    /// one.
    pub fn submit(
        &mut self,
        students: &StudentStore,
        classes: &ClassStore,
        account_id: i64,
        class_id: i64,
        work_type: WorkType,
        text: String,
        created_at: i64,
    ) -> (r: Result<i64, ApiError>)
        requires
            old(self).wf(),
            students.wf(),
            classes.wf(),
            old(self).next_id < i64::MAX,
        ensures
            final(self).wf(),
            match r {
                Ok(id) => {
                    &&& class_authorized(students.students@, classes.classes@, account_id, class_id)
                    &&& id == old(self).next_id
                    &&& final(self).next_id == old(self).next_id + 1
                    &&& final(self).rows@ == old(self).rows@.push(
                        Submission {
                            id: id,
                            class_id: class_id,
                            account_id: account_id,
                            work_type: work_type,
                            text: text,
                            created_at: created_at,
                        },
                    )
                },
                Err(e) => {
                    &&& e == ApiError::Unauthorized
                    &&& !class_authorized(
                        students.students@,
                        classes.classes@,
                        account_id,
                        class_id,
                    )
                    &&& *final(self) == *old(self)
                },
            },
    {
        match classes.find_class(class_id) {
            None => {
                proof {
                    if class_authorized(students.students@, classes.classes@, account_id, class_id) {
                        let k = choose|k: int|
                            0 <= k < classes.classes@.len() && (#[trigger] classes.classes@[k]).id
                                == class_id && crate::students::authorized(
                                students.students@,
                                account_id,
                                classes.classes@[k].student_id,
                            );
                        assert(false);
                    }
                }
                Err(ApiError::Unauthorized)
            },
            Some(class) => {
                let allowed = students.authorize(account_id, class.student_id);
                if allowed {
                    let id = self.next_id;
                    self.next_id = id + 1;
                    self.rows.push(
                        Submission { id, class_id, account_id, work_type, text, created_at },
                    );
                    proof {
                        let w = choose|w: int|
                            0 <= w < classes.classes@.len() && classes.classes@[w] == *class;
                        assert(class_authorized(
                            students.students@,
                            classes.classes@,
                            account_id,
                            class_id,
                        ));
                        let s1 = self.rows@;
                        let n = s1.len() - 1;
                        assert forall|i: int, j: int| 0 <= i < j < s1.len() implies s1[i].id
                            < s1[j].id by {
                            if j < n {
                                assert(old(self).rows@[i].id < old(self).rows@[j].id);
                            } else {
                                assert(old(self).rows@[i].id < old(self).next_id);
                            }
                        }
                    }
                    Ok(id)
                } else {
                    proof {
                        let w = choose|w: int|
                            0 <= w < classes.classes@.len() && classes.classes@[w] == *class;
                        if class_authorized(
                            students.students@,
                            classes.classes@,
                            account_id,
                            class_id,
                        ) {
                            let k = choose|k: int|
                                0 <= k < classes.classes@.len() && (#[trigger] classes.classes@[k]).id
                                    == class_id && crate::students::authorized(
                                    students.students@,
                                    account_id,
                                    classes.classes@[k].student_id,
                                );
                            if k < w {
                                assert(classes.classes@[k].id < classes.classes@[w].id);
                            } else if w < k {
                                assert(classes.classes@[w].id < classes.classes@[k].id);
                            }
                            assert(false);
                        }
                    }
                    Err(ApiError::Unauthorized)
                }
            },
        }
    }

    /// The current submission for a class and kind of work: the
    /// matching row with the greatest identifier, that is, the most
    /// recently created one, with ties in wall-clock time irrelevant.
    pub fn latest(&self, class_id: i64, work_type: WorkType) -> (r: Option<&Submission>)
        requires
            self.wf(),
        ensures
            match r {
                Some(s) => {
                    &&& self.rows@.contains(*s)
                    &&& submission_matches(*s, class_id, work_type)
                    &&& forall|j: int|
                        0 <= j < self.rows@.len() && submission_matches(
                            #[trigger] self.rows@[j],
                            class_id,
                            work_type,
                        ) ==> self.rows@[j].id <= s.id
                },
                None => forall|j: int|
                    0 <= j < self.rows@.len() ==> !submission_matches(
                        #[trigger] self.rows@[j],
                        class_id,
                        work_type,
                    ),
            },
    {
        let n = self.rows.len();
        let mut i: usize = n;
        while i > 0
            invariant
                self.wf(),
                n == self.rows@.len(),
                i <= n,
                forall|j: int|
                    i <= j < n ==> !submission_matches(
                        #[trigger] self.rows@[j],
                        class_id,
                        work_type,
                    ),
            decreases i,
        {
            i -= 1;
            let row = &self.rows[i];
            if row.class_id == class_id && row.work_type == work_type {
                proof {
                    assert(self.rows@.contains(self.rows@[i as int]));
                    assert forall|j: int|
                        0 <= j < self.rows@.len() && submission_matches(
                            #[trigger] self.rows@[j],
                            class_id,
                            work_type,
                        ) implies self.rows@[j].id <= self.rows@[i as int].id by {
                        if (i as int) < j {
                            assert(!submission_matches(self.rows@[j], class_id, work_type));
                        } else if j < i as int {
                            assert(self.rows@[j].id < self.rows@[i as int].id);
                        }
                    }
                }
                return Some(row);
            }
        }
        None
    }
}

} // verus!
