//! Curricula as the text-generation collaborator returns them: a
//! current level, a final goal, an ordered list of classes, and the
//! ordered concepts still to come. Enrolling a student materializes a
//! curriculum as one student row plus one class row per entry.

use vstd::prelude::*;

use crate::ApiError;
use crate::classes::{ClassRecord, ClassStatus, ClassStore};
use crate::students::{Student, StudentStore};

verus! {

/// A generated curriculum for one student.
#[derive(Debug)]
pub struct Curriculum {
    pub current_level: String,
    pub final_goal: String,
    pub classes: Vec<Class>,
    pub future_concepts: Vec<String>,
}

/// One class of a generated curriculum, all fields as free text.
#[derive(Debug)]
pub struct Class {
    pub status: String,
    pub name: String,
    pub relevance: String,
    pub methods: String,
    pub stretch_methods: String,
    pub skills_tested: String,
    pub description: String,
}

/// The recognized status strings and nothing else.
pub open spec fn status_model(s: Seq<char>) -> Option<ClassStatus> {
    if s == "upcoming"@ {
        Some(ClassStatus::Upcoming)
    } else if s == "assessment"@ {
        Some(ClassStatus::Assessment)
    } else if s == "completed"@ {
        Some(ClassStatus::Completed)
    } else if s == "completed_assessment"@ {
        Some(ClassStatus::CompletedAssessment)
    } else {
        None
    }
}

/// Reads a status string; anything but the four recognized statuses is
/// rejected.
pub fn parse_status(s: &str) -> (r: Option<ClassStatus>)
    ensures
        r == status_model(s@),
{
    let owned: String = s.to_owned();
    if owned == String::from_str("upcoming") {
        Some(ClassStatus::Upcoming)
    } else if owned == String::from_str("assessment") {
        Some(ClassStatus::Assessment)
    } else if owned == String::from_str("completed") {
        Some(ClassStatus::Completed)
    } else if owned == String::from_str("completed_assessment") {
        Some(ClassStatus::CompletedAssessment)
    } else {
        None
    }
}

/// The class row that one curriculum entry becomes: fresh identifier,
/// owning student, parsed status, the entry's text fields, and no
/// teacher notes yet.
pub open spec fn class_record_of(c: Class, student_id: i64, id: i64) -> ClassRecord {
    ClassRecord {
        id: id,
        student_id: student_id,
        status: match status_model(c.status@) {
            Some(st) => st,
            None => ClassStatus::Upcoming,
        },
        name: c.name,
        relevance: c.relevance,
        methods: c.methods,
        stretch_methods: c.stretch_methods,
        skills_tested: c.skills_tested,
        description: c.description,
        classwork: None,
        classwork_notes: None,
        homework: None,
        homework_notes: None,
    }
}

/// Enrolls a student from a curriculum: one new student row carrying
/// the curriculum's level, goal and future concepts, plus one class
/// row per curriculum entry, in order, each under a fresh identifier.
/// A single unrecognized status string rejects the whole curriculum
/// and changes nothing. The new student starts with an empty
/// ownership set; access is granted separately.
pub fn enroll_student(
    students: &mut StudentStore,
    classes: &mut ClassStore,
    name: String,
    age: i64,
    curriculum: Curriculum,
) -> (r: Result<i64, ApiError>)
    requires
        old(students).wf(),
        old(classes).wf(),
        old(students).next_id < i64::MAX,
        old(classes).next_id + curriculum.classes@.len() <= i64::MAX,
    ensures
        final(students).wf(),
        final(classes).wf(),
        match r {
            Ok(sid) => {
                &&& forall|k: int|
                    0 <= k < curriculum.classes@.len() ==> status_model(
                        (#[trigger] curriculum.classes@[k]).status@,
                    ) is Some
                &&& sid == old(students).next_id
                &&& final(students).next_id == old(students).next_id + 1
                &&& final(students).students@ == old(students).students@.push(
                    Student {
                        id: sid,
                        name: name,
                        age: age,
                        current_level: curriculum.current_level,
                        final_goal: curriculum.final_goal,
                        future_concepts: curriculum.future_concepts,
                        notes: None,
                        owners: final(students).students@.last().owners,
                    },
                )
                &&& final(students).students@.last().owners@ == Seq::<i64>::empty()
                &&& final(classes).classes@ == old(classes).classes@ + curriculum.classes@.map(
                    |k: int, c: Class| class_record_of(c, sid, (old(classes).next_id + k) as i64),
                )
                &&& final(classes).next_id == old(classes).next_id + curriculum.classes@.len()
            },
            Err(e) => {
                &&& e == ApiError::InvalidStatus
                &&& *final(students) == *old(students)
                &&& *final(classes) == *old(classes)
                &&& exists|k: int|
                    0 <= k < curriculum.classes@.len() && status_model(
                        (#[trigger] curriculum.classes@[k]).status@,
                    ) is None
            },
        },
{
    let class_count = curriculum.classes.len();
    let mut statuses: Vec<ClassStatus> = Vec::new();
    let mut k: usize = 0;
    while k < class_count
        invariant
            *students == *old(students),
            *classes == *old(classes),
            old(students).wf(),
            old(classes).wf(),
            class_count == curriculum.classes@.len(),
            k <= class_count,
            statuses@.len() == k,
            forall|j: int|
                0 <= j < k ==> Some(statuses@[j]) == status_model(
                    (#[trigger] curriculum.classes@[j]).status@,
                ),
        decreases class_count - k,
    {
        match parse_status(curriculum.classes[k].status.as_str()) {
            None => {
                return Err(ApiError::InvalidStatus);
            },
            Some(st) => {
                statuses.push(st);
            },
        }
        k += 1;
    }

    let sid = students.next_id;
    students.next_id = sid + 1;
    students.students.push(
        Student {
            id: sid,
            name,
            age,
            current_level: curriculum.current_level,
            final_goal: curriculum.final_goal,
            future_concepts: curriculum.future_concepts,
            notes: None,
            owners: Vec::new(),
        },
    );
    proof {
        let s1 = students.students@;
        let n = s1.len() - 1;
        assert forall|i: int, j: int| 0 <= i < j < s1.len() implies s1[i].id < s1[j].id by {
            if j < n {
                assert(old(students).students@[i].id < old(students).students@[j].id);
            } else {
                assert(old(students).students@[i].id < old(students).next_id);
            }
        }
        assert(s1.last().owners_wf());
        assert forall|i: int| 0 <= i < s1.len() implies (#[trigger] s1[i]).owners_wf() by {
            if i < n {
                assert(old(students).students@[i].owners_wf());
            }
        }
    }

    let base = classes.next_id;
    let ghost classes0 = classes.classes@;
    let old_len = classes.classes.len();
    let mut k2: usize = 0;
    while k2 < class_count
        invariant
            class_count == curriculum.classes@.len(),
            class_count == statuses@.len(),
            k2 <= class_count,
            base == old(classes).next_id,
            classes0 == old(classes).classes@,
            old_len == classes0.len(),
            classes.next_id == base,
            forall|j: int|
                0 <= j < class_count ==> Some(statuses@[j]) == status_model(
                    (#[trigger] curriculum.classes@[j]).status@,
                ),
            old(classes).wf(),
            1 <= base,
            base + class_count <= i64::MAX,
            classes.classes@.len() == old_len + k2,
            forall|j: int| 0 <= j < old_len ==> classes.classes@[j] == classes0[j],
            forall|j: int|
                0 <= j < k2 ==> classes.classes@[old_len + j] == class_record_of(
                    curriculum.classes@[j],
                    sid,
                    (base + j) as i64,
                ),
        decreases class_count - k2,
    {
        let c = &curriculum.classes[k2];
        let cid = base + (k2 as i64);
        classes.classes.push(
            ClassRecord {
                id: cid,
                student_id: sid,
                status: statuses[k2],
                name: c.name.clone(),
                relevance: c.relevance.clone(),
                methods: c.methods.clone(),
                stretch_methods: c.stretch_methods.clone(),
                skills_tested: c.skills_tested.clone(),
                description: c.description.clone(),
                classwork: None,
                classwork_notes: None,
                homework: None,
                homework_notes: None,
            },
        );
        k2 += 1;
    }
    classes.next_id = base + (class_count as i64);
    proof {
        assert(classes.classes@ =~= old(classes).classes@ + curriculum.classes@.map(
            |k: int, c: Class| class_record_of(c, sid, (old(classes).next_id + k) as i64),
        ));
        assert forall|i: int, j: int| 0 <= i < j < classes.classes@.len() implies classes.classes@[i].id
            < classes.classes@[j].id by {
            if j < old_len {
                assert(classes0[i].id < classes0[j].id);
            } else if i < old_len {
                assert(classes0[i].id < base);
            }
        }
        assert forall|i: int| 0 <= i < classes.classes@.len() implies 1 <= (
        #[trigger] classes.classes@[i]).id < classes.next_id by {
            if i < old_len {
                assert(1 <= classes0[i].id < base);
            }
        }
    }
    Ok(sid)
}

} // verus!
