//! Student profiles and the ownership-based authorization check. Each student carries
//! its own ownership set: the account identifiers allowed to see and
//! manage it. Authorization asks one question, membership in that set, and
//! it is asked against the current state on every check.

use vstd::prelude::*;

use crate::ApiError;

verus! {

/// A learner profile together with its reverse-ownership set.
#[derive(Debug)]
pub struct Student {
    pub id: i64,
    pub name: String,
    pub age: i64,
    pub current_level: String,
    pub final_goal: String,
    pub future_concepts: Vec<String>,
    pub notes: Option<String>,
    pub owners: Vec<i64>,
}

/// Identifier and display name, as listed to an owning account.
#[derive(Debug)]
pub struct StudentInfo {
    pub id: i64,
    pub name: String,
}

/// All students, with the next identifier to hand out.
#[derive(Debug)]
pub struct StudentStore {
    pub students: Vec<Student>,
    pub next_id: i64,
}

/// The account may act on the student: the student exists and the
/// account's id belongs to its ownership set.
pub open spec fn authorized(s: Seq<Student>, account_id: i64, student_id: i64) -> bool {
    exists|i: int|
        0 <= i < s.len() && (#[trigger] s[i]).id == student_id && s[i].owners@.contains(account_id)
}

/// Some student carries this identifier.
pub open spec fn has_student(s: Seq<Student>, student_id: i64) -> bool {
    exists|i: int| 0 <= i < s.len() && (#[trigger] s[i]).id == student_id
}

/// The (id, name) pairs of exactly the students whose ownership set
/// contains the account, in store order.
pub open spec fn owned_model(s: Seq<Student>, account_id: i64) -> Seq<StudentInfo>
    decreases s.len(),
{
    if s.len() == 0 {
        Seq::empty()
    } else {
        owned_model(s.drop_last(), account_id) + (
        if s.last().owners@.contains(account_id) {
            seq![StudentInfo { id: s.last().id, name: s.last().name }]
        } else {
            Seq::empty()
        })
    }
}

impl Student {
    /// The ownership set holds no duplicate account ids.
    pub open spec fn owners_wf(self) -> bool {
        forall|a: int, b: int| 0 <= a < b < self.owners@.len() ==> self.owners@[a] != self.owners@[b]
    }
}

/// Whether the account id is a member of the student's ownership set.
fn owners_contain(st: &Student, account_id: i64) -> (r: bool)
    ensures
        r == st.owners@.contains(account_id),
{
    let m = st.owners.len();
    let mut k: usize = 0;
    while k < m
        invariant
            m == st.owners@.len(),
            k <= m,
            forall|a: int| 0 <= a < k ==> st.owners@[a] != account_id,
        decreases m - k,
    {
        if st.owners[k] == account_id {
            assert(st.owners@.contains(account_id));
            return true;
        }
        k += 1;
    }
    proof {
        if st.owners@.contains(account_id) {
            let a = choose|a: int| 0 <= a < st.owners@.len() && st.owners@[a] == account_id;
            assert(false);
        }
    }
    false
}

impl StudentStore {
    pub open spec fn wf(self) -> bool {
        &&& forall|i: int, j: int|
            0 <= i < j < self.students@.len() ==> self.students@[i].id < self.students@[j].id
        &&& forall|i: int|
            0 <= i < self.students@.len() ==> 1 <= (#[trigger] self.students@[i]).id < self.next_id
        &&& forall|i: int|
            0 <= i < self.students@.len() ==> (#[trigger] self.students@[i]).owners_wf()
        &&& self.next_id >= 1
    }

    /// The store starts with no students.
    pub fn new() -> (s: StudentStore)
        ensures
            s.students@ == Seq::<Student>::empty(),
            s.next_id == 1,
            s.wf(),
    {
        StudentStore { students: Vec::new(), next_id: 1 }
    }

    /// Index of the student with this identifier, if any.
    fn find_by_id(&self, student_id: i64) -> (r: Option<usize>)
        ensures
            match r {
                Some(i) => i < self.students@.len() && self.students@[i as int].id == student_id,
                None => forall|j: int|
                    0 <= j < self.students@.len() ==> (#[trigger] self.students@[j]).id
                        != student_id,
            },
    {
        let n = self.students.len();
        let mut i: usize = 0;
        while i < n
            invariant
                n == self.students@.len(),
                i <= n,
                forall|j: int| 0 <= j < i ==> (#[trigger] self.students@[j]).id != student_id,
            decreases n - i,
        {
            if self.students[i].id == student_id {
                return Some(i);
            }
            i += 1;
        }
        None
    }

    /// Authorization itself: may this account act on this student,
    /// right now? True exactly when the account id is currently a
    /// member of the student's ownership set; nothing is cached.
    pub fn authorize(&self, account_id: i64, student_id: i64) -> (r: bool)
        requires
            self.wf(),
        ensures
            r == authorized(self.students@, account_id, student_id),
    {
        match self.find_by_id(student_id) {
            None => {
                proof {
                    if authorized(self.students@, account_id, student_id) {
                        let k = choose|k: int|
                            0 <= k < self.students@.len() && (#[trigger] self.students@[k]).id
                                == student_id && self.students@[k].owners@.contains(account_id);
                        assert(false);
                    }
                }
                false
            },
            Some(i) => {
                let member = owners_contain(&self.students[i], account_id);
                proof {
                    if member {
                        assert(authorized(self.students@, account_id, student_id));
                    } else if authorized(self.students@, account_id, student_id) {
                        let w = choose|w: int|
                            0 <= w < self.students@.len() && (#[trigger] self.students@[w]).id
                                == student_id && self.students@[w].owners@.contains(account_id);
                        if w < i as int {
                            assert(self.students@[w].id < self.students@[i as int].id);
                        } else if (i as int) < w {
                            assert(self.students@[i as int].id < self.students@[w].id);
                        }
                        assert(false);
                    }
                }
                member
            },
        }
    }

    /// Adds the account to the student's ownership set; already being
    /// a member changes nothing. From the instant this returns, the
    /// check answers true for this pair and is unchanged for every
    /// other account or student.
    pub fn grant_access(&mut self, account_id: i64, student_id: i64) -> (r: Result<(), ApiError>)
        requires
            old(self).wf(),
        ensures
            final(self).wf(),
            final(self).next_id == old(self).next_id,
            match r {
                Ok(()) => {
                    &&& authorized(final(self).students@, account_id, student_id)
                    &&& exists|i: int|
                        {
                            &&& 0 <= i < old(self).students@.len()
                            &&& (#[trigger] old(self).students@[i]).id == student_id
                            &&& final(self).students@ == old(self).students@.update(
                                i,
                                final(self).students@[i],
                            )
                            &&& final(self).students@[i].id == old(self).students@[i].id
                            &&& final(self).students@[i].name == old(self).students@[i].name
                            &&& final(self).students@[i].age == old(self).students@[i].age
                            &&& final(self).students@[i].current_level == old(
                                self,
                            ).students@[i].current_level
                            &&& final(self).students@[i].final_goal == old(
                                self,
                            ).students@[i].final_goal
                            &&& final(self).students@[i].future_concepts == old(
                                self,
                            ).students@[i].future_concepts
                            &&& final(self).students@[i].notes == old(self).students@[i].notes
                            &&& final(self).students@[i].owners@ == (
                            if old(self).students@[i].owners@.contains(account_id) {
                                old(self).students@[i].owners@
                            } else {
                                old(self).students@[i].owners@.push(account_id)
                            })
                        }
                },
                Err(e) => {
                    &&& e == ApiError::NotFound
                    &&& *final(self) == *old(self)
                    &&& !has_student(old(self).students@, student_id)
                },
            },
            forall|b: i64, t: i64|
                !(b == account_id && t == student_id) ==> #[trigger] authorized(
                    final(self).students@,
                    b,
                    t,
                ) == authorized(old(self).students@, b, t),
    {
        let found = self.find_by_id(student_id);
        match found {
            None => {
                proof {
                    if has_student(self.students@, student_id) {
                        let k = choose|k: int|
                            0 <= k < self.students@.len() && (#[trigger] self.students@[k]).id
                                == student_id;
                        assert(false);
                    }
                }
                Err(ApiError::NotFound)
            },
            Some(i) => {
                let member = owners_contain(&self.students[i], account_id);
                if !member {
                    self.students[i].owners.push(account_id);
                    proof {
                        let pre = old(self).students@[i as int].owners@;
                        let post = self.students@[i as int].owners@;
                        assert(post == pre.push(account_id));
                        assert(post[pre.len() as int] == account_id);
                        assert(post.contains(account_id));
                        assert(old(self).students@[i as int].owners_wf());
                        assert forall|a: int, b: int| 0 <= a < b < post.len() implies post[a]
                            != post[b] by {
                            if b < pre.len() {
                                assert(pre[a] != pre[b]);
                            } else {
                                assert(post[b] == account_id);
                                if pre[a] == account_id {
                                    assert(pre.contains(account_id));
                                }
                            }
                        }
                        assert(self.students@[i as int].owners_wf());
                    }
                }
                proof {
                    assert(self.students@ == old(self).students@.update(
                        i as int,
                        self.students@[i as int],
                    ));
                    assert(self.students@[i as int].owners@.contains(account_id));
                    assert(self.students@[i as int].id == student_id);
                    assert(authorized(self.students@, account_id, student_id));
                    let pre = old(self).students@[i as int].owners@;
                    let post = self.students@[i as int].owners@;
                    assert forall|o: i64| o != account_id implies ((#[trigger] post.contains(o))
                        == pre.contains(o)) by {
                        if post.contains(o) {
                            let a = choose|a: int| 0 <= a < post.len() && post[a] == o;
                            assert(a < pre.len());
                            assert(pre[a] == o);
                            assert(pre.contains(o));
                        }
                        if pre.contains(o) {
                            let a = choose|a: int| 0 <= a < pre.len() && pre[a] == o;
                            assert(post[a] == o);
                            assert(post.contains(o));
                        }
                    }
                    assert forall|b: i64, t: i64| !(b == account_id && t == student_id) implies #[trigger] authorized(
                        self.students@,
                        b,
                        t,
                    ) == authorized(old(self).students@, b, t) by {
                        lemma_update_owner_authorized(
                            old(self).students@,
                            self.students@,
                            i as int,
                            account_id,
                            b,
                            t,
                        );
                    }
                }
                Ok(())
            },
        }
    }

    /// Removes the account from the student's ownership set; not being
    /// a member changes nothing. From the instant this returns, the
    /// check answers false for this pair and is unchanged for every
    /// other account or student.
    pub fn revoke_access(&mut self, account_id: i64, student_id: i64) -> (r: Result<(), ApiError>)
        requires
            old(self).wf(),
        ensures
            final(self).wf(),
            final(self).next_id == old(self).next_id,
            match r {
                Ok(()) => {
                    &&& !authorized(final(self).students@, account_id, student_id)
                    &&& exists|i: int|
                        {
                            &&& 0 <= i < old(self).students@.len()
                            &&& (#[trigger] old(self).students@[i]).id == student_id
                            &&& final(self).students@ == old(self).students@.update(
                                i,
                                final(self).students@[i],
                            )
                            &&& final(self).students@[i].id == old(self).students@[i].id
                            &&& final(self).students@[i].name == old(self).students@[i].name
                            &&& final(self).students@[i].age == old(self).students@[i].age
                            &&& final(self).students@[i].current_level == old(
                                self,
                            ).students@[i].current_level
                            &&& final(self).students@[i].final_goal == old(
                                self,
                            ).students@[i].final_goal
                            &&& final(self).students@[i].future_concepts == old(
                                self,
                            ).students@[i].future_concepts
                            &&& final(self).students@[i].notes == old(self).students@[i].notes
                            &&& !final(self).students@[i].owners@.contains(account_id)
                            &&& forall|o: i64|
                                o != account_id ==> ((#[trigger] final(self).students@[i].owners@.contains(
                                    o,
                                )) == old(self).students@[i].owners@.contains(o))
                        }
                },
                Err(e) => {
                    &&& e == ApiError::NotFound
                    &&& *final(self) == *old(self)
                    &&& !has_student(old(self).students@, student_id)
                },
            },
            forall|b: i64, t: i64|
                !(b == account_id && t == student_id) ==> #[trigger] authorized(
                    final(self).students@,
                    b,
                    t,
                ) == authorized(old(self).students@, b, t),
    {
        let found = self.find_by_id(student_id);
        match found {
            None => {
                proof {
                    if has_student(self.students@, student_id) {
                        let k = choose|k: int|
                            0 <= k < self.students@.len() && (#[trigger] self.students@[k]).id
                                == student_id;
                        assert(false);
                    }
                }
                Err(ApiError::NotFound)
            },
            Some(i) => {
                let m = self.students[i].owners.len();
                let ghost owners0 = self.students@[i as int].owners@;
                let mut kept: Vec<i64> = Vec::new();
                let mut k: usize = 0;
                while k < m
                    invariant
                        i < self.students@.len(),
                        self.students@ == old(self).students@,
                        owners0 == self.students@[i as int].owners@,
                        self.students@[i as int].owners_wf(),
                        m == owners0.len(),
                        k <= m,
                        forall|a: int| 0 <= a < kept@.len() ==> kept@[a] != account_id,
                        forall|a: int|
                            0 <= a < kept@.len() ==> exists|c: int|
                                0 <= c < k && owners0[c] == #[trigger] kept@[a],
                        forall|c: int|
                            0 <= c < k && owners0[c] != account_id ==> kept@.contains(
                                #[trigger] owners0[c],
                            ),
                        forall|a: int, b: int| 0 <= a < b < kept@.len() ==> kept@[a] != kept@[b],
                    decreases m - k,
                {
                    let o = self.students[i].owners[k];
                    let ghost kept_before = kept@;
                    if o != account_id {
                        proof {
                            assert forall|a: int| 0 <= a < kept_before.len() implies kept_before[a]
                                != o by {
                                let c = choose|c: int|
                                    0 <= c < k && owners0[c] == #[trigger] kept_before[a];
                                if kept_before[a] == o {
                                    assert(owners0[c] == owners0[k as int]);
                                }
                            }
                        }
                        kept.push(o);
                        proof {
                            assert(kept@ == kept_before.push(o));
                            assert(kept@[kept_before.len() as int] == o);
                            assert forall|c: int| 0 <= c < k + 1 && owners0[c]
                                != account_id implies kept@.contains(#[trigger] owners0[c]) by {
                                if c < k {
                                    assert(kept_before.contains(owners0[c]));
                                    let a = choose|a: int|
                                        0 <= a < kept_before.len() && kept_before[a] == owners0[c];
                                    assert(kept@[a] == owners0[c]);
                                    assert(kept@.contains(owners0[c]));
                                } else {
                                    assert(kept@[kept_before.len() as int] == owners0[c]);
                                    assert(kept@.contains(owners0[c]));
                                }
                            }
                            assert forall|a: int| 0 <= a < kept@.len() implies exists|c: int|
                                0 <= c < k + 1 && owners0[c] == #[trigger] kept@[a] by {
                                if a < kept_before.len() {
                                    let c = choose|c: int|
                                        0 <= c < k && owners0[c] == kept_before[a];
                                    assert(owners0[c] == kept@[a]);
                                } else {
                                    assert(owners0[k as int] == kept@[a]);
                                }
                            }
                        }
                    }
                    k += 1;
                }
                self.students[i].owners = kept;
                proof {
                    let post = self.students@[i as int].owners@;
                    assert(self.students@ == old(self).students@.update(
                        i as int,
                        self.students@[i as int],
                    ));
                    if post.contains(account_id) {
                        let a = choose|a: int| 0 <= a < post.len() && post[a] == account_id;
                        assert(false);
                    }
                    assert forall|o: i64| o != account_id implies ((#[trigger] post.contains(o))
                        == owners0.contains(o)) by {
                        if post.contains(o) {
                            let a = choose|a: int| 0 <= a < post.len() && post[a] == o;
                            let c = choose|c: int| 0 <= c < m && owners0[c] == post[a];
                            assert(owners0.contains(o));
                        }
                        if owners0.contains(o) {
                            let c = choose|c: int| 0 <= c < owners0.len() && owners0[c] == o;
                            assert(post.contains(owners0[c]));
                        }
                    }
                    assert(self.students@[i as int].owners_wf());
                    if authorized(self.students@, account_id, student_id) {
                        let w = choose|w: int|
                            0 <= w < self.students@.len() && (#[trigger] self.students@[w]).id
                                == student_id && self.students@[w].owners@.contains(account_id);
                        if w < i as int {
                            assert(old(self).students@[w].id < old(self).students@[i as int].id);
                        } else if (i as int) < w {
                            assert(old(self).students@[i as int].id < old(self).students@[w].id);
                        }
                        assert(false);
                    }
                    assert forall|b: i64, t: i64| !(b == account_id && t == student_id) implies #[trigger] authorized(
                        self.students@,
                        b,
                        t,
                    ) == authorized(old(self).students@, b, t) by {
                        lemma_update_owner_authorized(
                            old(self).students@,
                            self.students@,
                            i as int,
                            account_id,
                            b,
                            t,
                        );
                    }
                }
                Ok(())
            },
        }
    }

    /// Lists exactly the students whose ownership set contains the
    /// account, as (id, name) pairs, in store order.
    pub fn owned_students(&self, account_id: i64) -> (r: Vec<StudentInfo>)
        ensures
            r@ == owned_model(self.students@, account_id),
    {
        let n = self.students.len();
        let mut out: Vec<StudentInfo> = Vec::new();
        let mut i: usize = 0;
        while i < n
            invariant
                n == self.students@.len(),
                i <= n,
                out@ == owned_model(self.students@.take(i as int), account_id),
            decreases n - i,
        {
            let st = &self.students[i];
            let member = owners_contain(st, account_id);
            proof {
                assert(self.students@.take(i as int + 1).drop_last() =~= self.students@.take(
                    i as int,
                ));
                assert(self.students@.take(i as int + 1).last() == self.students@[i as int]);
            }
            if member {
                out.push(StudentInfo { id: st.id, name: st.name.clone() });
                proof {
                    assert(out@ =~= owned_model(self.students@.take(i as int + 1), account_id));
                }
            } else {
                proof {
                    assert(out@ =~= owned_model(self.students@.take(i as int + 1), account_id));
                }
            }
            i += 1;
        }
        proof {
            assert(self.students@.take(n as int) =~= self.students@);
        }
        out
    }

    /// The guarded read of one student: succeeds exactly when the check
    /// allows the account to act on it, and a missing student fails
    /// the same way as a forbidden one.
    pub fn get_student(&self, account_id: i64, student_id: i64) -> (r: Result<&Student, ApiError>)
        requires
            self.wf(),
        ensures
            match r {
                Ok(st) => {
                    &&& authorized(self.students@, account_id, student_id)
                    &&& self.students@.contains(*st)
                    &&& st.id == student_id
                    &&& st.owners@.contains(account_id)
                },
                Err(e) => {
                    &&& e == ApiError::Unauthorized
                    &&& !authorized(self.students@, account_id, student_id)
                },
            },
    {
        match self.find_by_id(student_id) {
            None => {
                proof {
                    if authorized(self.students@, account_id, student_id) {
                        let k = choose|k: int|
                            0 <= k < self.students@.len() && (#[trigger] self.students@[k]).id
                                == student_id && self.students@[k].owners@.contains(account_id);
                        assert(false);
                    }
                }
                Err(ApiError::Unauthorized)
            },
            Some(i) => {
                let st = &self.students[i];
                let member = owners_contain(st, account_id);
                if member {
                    proof {
                        assert(self.students@.contains(self.students@[i as int]));
                        assert(authorized(self.students@, account_id, student_id));
                    }
                    Ok(st)
                } else {
                    proof {
                        if authorized(self.students@, account_id, student_id) {
                            let w = choose|w: int|
                                0 <= w < self.students@.len() && (#[trigger] self.students@[w]).id
                                    == student_id && self.students@[w].owners@.contains(account_id);
                            if w < i as int {
                                assert(self.students@[w].id < self.students@[i as int].id);
                            } else if (i as int) < w {
                                assert(self.students@[i as int].id < self.students@[w].id);
                            }
                            assert(false);
                        }
                    }
                    Err(ApiError::Unauthorized)
                }
            },
        }
    }
}

/// `info` carries the id and name of some student whose ownership set
/// contains the account.
pub open spec fn owned_entry(s: Seq<Student>, account_id: i64, info: StudentInfo) -> bool {
    exists|j: int|
        0 <= j < s.len() && (#[trigger] s[j]).id == info.id && s[j].name == info.name
            && s[j].owners@.contains(account_id)
}

/// The owned listing is exact: every listed pair is the id and name of
/// some student whose ownership set contains the account, and every
/// such student is listed.
pub proof fn lemma_owned_model_exact(s: Seq<Student>, account_id: i64)
    ensures
        forall|a: int|
            0 <= a < owned_model(s, account_id).len() ==> owned_entry(
                s,
                account_id,
                #[trigger] owned_model(s, account_id)[a],
            ),
        forall|j: int|
            0 <= j < s.len() && (#[trigger] s[j]).owners@.contains(account_id) ==> exists|a: int|
                0 <= a < owned_model(s, account_id).len() && owned_model(s, account_id)[a].id
                    == s[j].id && owned_model(s, account_id)[a].name == s[j].name,
    decreases s.len(),
{
    if s.len() > 0 {
        let rest = s.drop_last();
        lemma_owned_model_exact(rest, account_id);
        let whole = owned_model(s, account_id);
        let prev = owned_model(rest, account_id);
        assert forall|a: int| 0 <= a < owned_model(s, account_id).len() implies owned_entry(
            s,
            account_id,
            #[trigger] owned_model(s, account_id)[a],
        ) by {
            if a < prev.len() {
                assert(whole[a] == prev[a]);
                assert(owned_entry(rest, account_id, prev[a]));
                let j = choose|j: int|
                    0 <= j < rest.len() && (#[trigger] rest[j]).id == prev[a].id && rest[j].name
                        == prev[a].name && rest[j].owners@.contains(account_id);
                assert(rest[j] == s[j]);
                assert(0 <= j < s.len() && s[j].id == whole[a].id && s[j].name == whole[a].name
                    && s[j].owners@.contains(account_id));
            } else {
                let j = s.len() - 1;
                assert(s.last().owners@.contains(account_id));
                assert(whole[a] == StudentInfo { id: s.last().id, name: s.last().name });
                assert(0 <= j < s.len() && s[j].id == whole[a].id && s[j].name == whole[a].name
                    && s[j].owners@.contains(account_id));
            }
        }
        assert forall|j: int| 0 <= j < s.len() && (#[trigger] s[j]).owners@.contains(
            account_id,
        ) implies exists|a: int|
            0 <= a < owned_model(s, account_id).len() && owned_model(s, account_id)[a].id
                == s[j].id && owned_model(s, account_id)[a].name == s[j].name by {
            if j < s.len() - 1 {
                assert(rest[j] == s[j]);
                assert(rest[j].owners@.contains(account_id));
                let a = choose|a: int|
                    0 <= a < prev.len() && prev[a].id == rest[j].id && prev[a].name == rest[j].name;
                assert(whole[a] == prev[a]);
            } else {
                assert(whole[whole.len() - 1].id == s[j].id);
            }
        }
    }
}

/// Changing one student of the store only ever moves the answer for
/// that student and the account whose membership changed.
proof fn lemma_update_owner_authorized(
    pre: Seq<Student>,
    post: Seq<Student>,
    i: int,
    account_id: i64,
    b: i64,
    t: i64,
)
    requires
        0 <= i < pre.len(),
        post == pre.update(i, post[i]),
        post[i].id == pre[i].id,
        forall|o: i64|
            o != account_id ==> ((#[trigger] post[i].owners@.contains(o)) == pre[i].owners@.contains(
                o,
            )),
        !(b == account_id && t == pre[i].id),
    ensures
        authorized(post, b, t) == authorized(pre, b, t),
{
    assert(post.len() == pre.len());
    if authorized(pre, b, t) {
        let k = choose|k: int|
            0 <= k < pre.len() && (#[trigger] pre[k]).id == t && pre[k].owners@.contains(b);
        if k == i {
            assert(post[k].owners@.contains(b));
        } else {
            assert(post[k] == pre[k]);
        }
        assert(authorized(post, b, t));
    }
    if authorized(post, b, t) {
        let k = choose|k: int|
            0 <= k < post.len() && (#[trigger] post[k]).id == t && post[k].owners@.contains(b);
        if k == i {
            assert(pre[k].owners@.contains(b));
        } else {
            assert(post[k] == pre[k]);
        }
        assert(authorized(pre, b, t));
    }
}

} // verus!
