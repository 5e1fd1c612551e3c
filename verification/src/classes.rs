//! Curriculum classes stored per student, and the guarded reads that
//! join a class to its student's ownership set. Class identifiers grow
//! with creation order, so "most recent" never depends on a clock.

use vstd::prelude::*;

use crate::ApiError;
use crate::students::{Student, StudentStore, authorized};

verus! {

/// Where a class stands in the curriculum: still to be taught, a
/// project assessment, or the completed form of either.
#[derive(Clone, Copy, Debug, PartialEq, Eq, Structural)]
pub enum ClassStatus {
    Upcoming,
    Assessment,
    Completed,
    CompletedAssessment,
}

/// One unit of curriculum belonging to one student, with the teacher's
/// free-text notes for classwork and homework.
#[derive(Debug)]
pub struct ClassRecord {
    pub id: i64,
    pub student_id: i64,
    pub status: ClassStatus,
    pub name: String,
    pub relevance: String,
    pub methods: String,
    pub stretch_methods: String,
    pub skills_tested: String,
    pub description: String,
    pub classwork: Option<String>,
    pub classwork_notes: Option<String>,
    pub homework: Option<String>,
    pub homework_notes: Option<String>,
}

/// All classes, with the next identifier to hand out.
#[derive(Debug)]
pub struct ClassStore {
    pub classes: Vec<ClassRecord>,
    pub next_id: i64,
}

/// The account may act on the class: the class exists and the account
/// belongs to the owning student's ownership set.
pub open spec fn class_authorized(
    students: Seq<Student>,
    classes: Seq<ClassRecord>,
    account_id: i64,
    class_id: i64,
) -> bool {
    exists|i: int|
        0 <= i < classes.len() && (#[trigger] classes[i]).id == class_id && authorized(
            students,
            account_id,
            classes[i].student_id,
        )
}

/// The classes of one student, most recently created first.
pub open spec fn classes_desc(s: Seq<ClassRecord>, student_id: i64) -> Seq<ClassRecord>
    decreases s.len(),
{
    if s.len() == 0 {
        Seq::empty()
    } else {
        classes_desc(s.drop_first(), student_id) + (
        if s.first().student_id == student_id {
            seq![s.first()]
        } else {
            Seq::empty()
        })
    }
}

/// The per-student listing is exact and ordered: it holds classes of
/// that student only, every stored class of the student is in it, and
/// identifiers strictly fall along it, so the most recently created
/// class comes first.
pub proof fn lemma_classes_desc_exact(s: Seq<ClassRecord>, student_id: i64)
    requires
        forall|i: int, j: int| 0 <= i < j < s.len() ==> s[i].id < s[j].id,
    ensures
        forall|a: int|
            0 <= a < classes_desc(s, student_id).len() ==> (#[trigger] classes_desc(
                s,
                student_id,
            )[a]).student_id == student_id && s.contains(classes_desc(s, student_id)[a]),
        forall|j: int|
            0 <= j < s.len() && (#[trigger] s[j]).student_id == student_id ==> classes_desc(
                s,
                student_id,
            ).contains(s[j]),
        forall|a: int, b: int|
            0 <= a < b < classes_desc(s, student_id).len() ==> classes_desc(s, student_id)[a].id
                > classes_desc(s, student_id)[b].id,
    decreases s.len(),
{
    if s.len() > 0 {
        let rest = s.drop_first();
        assert forall|i: int, j: int| 0 <= i < j < rest.len() implies rest[i].id < rest[j].id by {
            assert(s[i + 1].id < s[j + 1].id);
        }
        lemma_classes_desc_exact(rest, student_id);
        let whole = classes_desc(s, student_id);
        let prev = classes_desc(rest, student_id);
        assert forall|a: int| 0 <= a < whole.len() implies (#[trigger] whole[a]).student_id
            == student_id && s.contains(whole[a]) by {
            if a < prev.len() {
                assert(whole[a] == prev[a]);
                assert(rest.contains(prev[a]));
                let k = choose|k: int| 0 <= k < rest.len() && rest[k] == prev[a];
                assert(s[k + 1] == prev[a]);
                assert(s.contains(s[k + 1]));
            } else {
                assert(whole[a] == s.first());
                assert(s.contains(s[0]));
            }
        }
        assert forall|j: int| 0 <= j < s.len() && (#[trigger] s[j]).student_id
            == student_id implies whole.contains(s[j]) by {
            if j == 0 {
                assert(whole[whole.len() - 1] == s[0]);
            } else {
                assert(rest[j - 1] == s[j]);
                assert(prev.contains(rest[j - 1]));
                let a = choose|a: int| 0 <= a < prev.len() && prev[a] == rest[j - 1];
                assert(whole[a] == s[j]);
            }
        }
        assert forall|a: int, b: int| 0 <= a < b < whole.len() implies whole[a].id
            > whole[b].id by {
            if b < prev.len() {
                assert(prev[a].id > prev[b].id);
            } else {
                assert(whole[b] == s.first());
                assert(whole[a] == prev[a]);
                assert(rest.contains(prev[a]));
                let k = choose|k: int| 0 <= k < rest.len() && rest[k] == prev[a];
                assert(s[0].id < s[k + 1].id);
            }
        }
    }
}

impl ClassStore {
    pub open spec fn wf(self) -> bool {
        &&& forall|i: int, j: int|
            0 <= i < j < self.classes@.len() ==> self.classes@[i].id < self.classes@[j].id
        &&& forall|i: int|
            0 <= i < self.classes@.len() ==> 1 <= (#[trigger] self.classes@[i]).id < self.next_id
        &&& self.next_id >= 1
    }

    /// The store starts with no classes.
    pub fn new() -> (s: ClassStore)
        ensures
            s.classes@ == Seq::<ClassRecord>::empty(),
            s.next_id == 1,
            s.wf(),
    {
        ClassStore { classes: Vec::new(), next_id: 1 }
    }

    /// The class with this identifier, if any.
    pub fn find_class(&self, class_id: i64) -> (r: Option<&ClassRecord>)
        ensures
            match r {
                Some(c) => self.classes@.contains(*c) && c.id == class_id,
                None => forall|j: int|
                    0 <= j < self.classes@.len() ==> (#[trigger] self.classes@[j]).id != class_id,
            },
    {
        let n = self.classes.len();
        let mut i: usize = 0;
        while i < n
            invariant
                n == self.classes@.len(),
                i <= n,
                forall|j: int| 0 <= j < i ==> (#[trigger] self.classes@[j]).id != class_id,
            decreases n - i,
        {
            if self.classes[i].id == class_id {
                proof {
                    assert(self.classes@.contains(self.classes@[i as int]));
                }
                return Some(&self.classes[i]);
            }
            i += 1;
        }
        None
    }

    /// The classes of one student, most recently created first (by
    /// identifier, which follows creation order).
    pub fn classes_of(&self, student_id: i64) -> (r: Vec<&ClassRecord>)
        ensures
            r@.map_values(|c: &ClassRecord| *c) == classes_desc(self.classes@, student_id),
    {
        let n = self.classes.len();
        let mut out: Vec<&ClassRecord> = Vec::new();
        let mut i: usize = n;
        while i > 0
            invariant
                n == self.classes@.len(),
                i <= n,
                out@.map_values(|c: &ClassRecord| *c) == classes_desc(
                    self.classes@.skip(i as int),
                    student_id,
                ),
            decreases i,
        {
            i -= 1;
            proof {
                assert(self.classes@.skip(i as int).drop_first() =~= self.classes@.skip(
                    i as int + 1,
                ));
                assert(self.classes@.skip(i as int).first() == self.classes@[i as int]);
            }
            if self.classes[i].student_id == student_id {
                out.push(&self.classes[i]);
                proof {
                    assert(out@.map_values(|c: &ClassRecord| *c) =~= classes_desc(
                        self.classes@.skip(i as int),
                        student_id,
                    ));
                }
            } else {
                proof {
                    assert(out@.map_values(|c: &ClassRecord| *c) =~= classes_desc(
                        self.classes@.skip(i as int),
                        student_id,
                    ));
                }
            }
        }
        proof {
            assert(self.classes@.skip(0) =~= self.classes@);
        }
        out
    }
}

/// The guarded read behind the student page: the student, if the check
/// allows the account to act on it, together with the student's
/// classes, most recently created first. A missing student and a
/// forbidden one fail identically.
pub fn student_with_classes<'a>(
    students: &'a StudentStore,
    classes: &'a ClassStore,
    account_id: i64,
    student_id: i64,
) -> (r: Result<(&'a Student, Vec<&'a ClassRecord>), ApiError>)
    requires
        students.wf(),
        classes.wf(),
    ensures
        match r {
            Ok((st, cl)) => {
                &&& authorized(students.students@, account_id, student_id)
                &&& students.students@.contains(*st)
                &&& st.id == student_id
                &&& st.owners@.contains(account_id)
                &&& cl@.map_values(|c: &ClassRecord| *c) == classes_desc(
                    classes.classes@,
                    student_id,
                )
            },
            Err(e) => {
                &&& e == ApiError::Unauthorized
                &&& !authorized(students.students@, account_id, student_id)
            },
        },
{
    match students.get_student(account_id, student_id) {
        Err(e) => Err(e),
        Ok(st) => {
            let cl = classes.classes_of(student_id);
            Ok((st, cl))
        },
    }
}

} // verus!
