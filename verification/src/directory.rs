use vstd::prelude::*;
use crate::app_error::AppError;
use crate::template_pool::contains_id;

verus! {

/// Every participant starts with this many rerolls.
pub const DEFAULT_REROLLS: i32 = 3;

/// One participant's record: identity, active assignment, reroll budget and
/// append-only seen-history.
pub struct Participant {
    pub id: i32,
    pub name: String,
    pub selected_meme_template_id: Option<i32>,
    pub rerolls_left: i32,
    pub seen_meme_templates: Vec<i32>,
}

impl Participant {
    /// Well-formed: the budget is never negative, the history holds no
    /// duplicates, and an active assignment is always recorded in the
    /// history (it is appended there the moment it is committed).
    pub open spec fn wf(self) -> bool {
        &&& self.rerolls_left >= 0
        &&& forall|a: int, b: int|
            #![trigger self.seen_meme_templates@[a], self.seen_meme_templates@[b]]
            0 <= a < b < self.seen_meme_templates@.len() ==> self.seen_meme_templates@[a]
                != self.seen_meme_templates@[b]
        &&& self.selected_meme_template_id matches Some(t)
            ==> self.seen_meme_templates@.contains(t)
    }
}

/// The two records agree field by field (string and list fields compared by
/// view).
pub open spec fn same_participant(a: Participant, b: Participant) -> bool {
    &&& a.id == b.id
    &&& a.name@ == b.name@
    &&& a.selected_meme_template_id == b.selected_meme_template_id
    &&& a.rerolls_left == b.rerolls_left
    &&& a.seen_meme_templates@ == b.seen_meme_templates@
}

/// Copies a list of ids.
pub fn copy_ids(v: &Vec<i32>) -> (r: Vec<i32>)
    ensures
        r@ == v@,
{
    let n = v.len();
    let mut r: Vec<i32> = Vec::new();
    let mut k: usize = 0;
    while k < n
        invariant
            n == v@.len(),
            k <= n,
            r@ == v@.subrange(0, k as int),
        decreases n - k,
    {
        r.push(v[k]);
        assert(r@ =~= v@.subrange(0, k + 1 as int));
        k = k + 1;
    }
    assert(r@ =~= v@);
    r
}

impl Participant {
    /// A copy that provably keeps every field.
    pub fn duplicate(&self) -> (r: Participant)
        ensures
            same_participant(r, *self),
    {
        Participant {
            id: self.id,
            name: self.name.clone(),
            selected_meme_template_id: self.selected_meme_template_id,
            rerolls_left: self.rerolls_left,
            seen_meme_templates: copy_ids(&self.seen_meme_templates),
        }
    }
}

/// The shared, mutable record of every participant. Ids are handed out
/// sequentially, starting at 1.
pub struct Directory {
    pub participants: Vec<Participant>,
    pub next_id: i32,
}

impl Directory {
    pub open spec fn len(self) -> int {
        self.participants@.len() as int
    }

    /// Well-formed: ids unique and below `next_id`, every record well-formed,
    /// and no template actively assigned to two participants at once.
    pub open spec fn wf(self) -> bool {
        &&& 1 <= self.next_id
        &&& forall|i: int|
            0 <= i < self.len() ==> (#[trigger] self.participants@[i]).wf()
                && 1 <= self.participants@[i].id < self.next_id
        &&& forall|i: int, j: int|
            #![trigger self.participants@[i].id, self.participants@[j].id]
            0 <= i < j < self.len() ==> self.participants@[i].id != self.participants@[j].id
        &&& forall|i: int, j: int|
            #![trigger self.participants@[i].selected_meme_template_id, self.participants@[j].selected_meme_template_id]
            0 <= i < self.len() && 0 <= j < self.len() && i != j
                && self.participants@[i].selected_meme_template_id is Some
                ==> self.participants@[i].selected_meme_template_id
                != self.participants@[j].selected_meme_template_id
    }

    pub open spec fn has_participant(self, id: i32) -> bool {
        exists|i: int| 0 <= i < self.len() && (#[trigger] self.participants@[i]).id == id
    }

    pub open spec fn index_of(self, id: i32) -> int {
        choose|i: int| 0 <= i < self.len() && (#[trigger] self.participants@[i]).id == id
    }

    /// The record with the given id (meaningful when `has_participant(id)`).
    pub open spec fn participant(self, id: i32) -> Participant {
        self.participants@[self.index_of(id)]
    }

    pub open spec fn assigned(self, id: i32) -> Option<i32> {
        self.participant(id).selected_meme_template_id
    }

    pub open spec fn rerolls(self, id: i32) -> i32 {
        self.participant(id).rerolls_left
    }

    pub open spec fn seen(self, id: i32) -> Seq<i32> {
        self.participant(id).seen_meme_templates@
    }

    /// Some participant other than `pid` holds `t` as active assignment.
    pub open spec fn template_in_use_by_other(self, pid: i32, t: i32) -> bool {
        exists|i: int|
            0 <= i < self.len() && (#[trigger] self.participants@[i]).id != pid
                && self.participants@[i].selected_meme_template_id == Some(t)
    }

    /// With unique ids, any entry that carries `id` is the entry at
    /// `index_of(id)`.
    pub proof fn lemma_index_unique(self, id: i32, i: int)
        requires
            self.wf(),
            0 <= i < self.len(),
            self.participants@[i].id == id,
        ensures
            self.has_participant(id),
            self.index_of(id) == i,
    {
        assert(self.has_participant(id));
    }

    pub fn new() -> (r: Directory)
        ensures
            r.wf(),
            r.len() == 0,
            r.next_id == 1,
    {
        Directory { participants: Vec::new(), next_id: 1 }
    }

    /// The index of the record with this id, if one exists.
    pub fn find_index(&self, id: i32) -> (r: Option<usize>)
        requires
            self.wf(),
        ensures
            r matches Some(i) ==> i < self.len() && self.participants@[i as int].id == id
                && self.index_of(id) == i && self.has_participant(id),
            r is None ==> !self.has_participant(id),
    {
        let n = self.participants.len();
        let mut k: usize = 0;
        while k < n
            invariant
                n == self.len(),
                k <= n,
                self.wf(),
                forall|i: int| 0 <= i < k ==> (#[trigger] self.participants@[i]).id != id,
            decreases n - k,
        {
            if self.participants[k].id == id {
                proof {
                    self.lemma_index_unique(id, k as int);
                }
                return Some(k);
            }
            k = k + 1;
        }
        assert(!self.has_participant(id));
        None
    }

    /// Creates a fresh participant: unique id, null assignment, default
    /// reroll budget, empty history.
    pub fn create(&mut self, display_name: String) -> (id: i32)
        requires
            old(self).wf(),
            old(self).next_id < i32::MAX,
        ensures
            final(self).wf(),
            id == old(self).next_id,
            !old(self).has_participant(id),
            final(self).has_participant(id),
            final(self).next_id == old(self).next_id + 1,
            final(self).participants@.len() == old(self).participants@.len() + 1,
            forall|k: int|
                0 <= k < old(self).len() ==> final(self).participants@[k] == old(
                    self,
                ).participants@[k],
            final(self).participants@[old(self).len()].id == id,
            final(self).participants@[old(self).len()].name@ == display_name@,
            final(self).participants@[old(self).len()].selected_meme_template_id is None,
            final(self).participants@[old(self).len()].rerolls_left == DEFAULT_REROLLS,
            final(self).participants@[old(self).len()].seen_meme_templates@.len() == 0,
            final(self).index_of(id) == old(self).len(),
    {
        let id = self.next_id;
        let p = Participant {
            id,
            name: display_name,
            selected_meme_template_id: None,
            rerolls_left: DEFAULT_REROLLS,
            seen_meme_templates: Vec::new(),
        };
        self.participants.push(p);
        self.next_id = self.next_id + 1;
        proof {
            assert(self.participants@[old(self).len()].id == id);
            assert(!old(self).has_participant(id));
            assert(self.wf());
            self.lemma_index_unique(id, old(self).len());
        }
        id
    }

    /// The record with this id; `NotFound` exactly when no such participant
    /// exists.
    pub fn get(&self, id: i32) -> (r: Result<Participant, AppError>)
        requires
            self.wf(),
        ensures
            r is Ok <==> self.has_participant(id),
            r matches Ok(p) ==> same_participant(p, self.participant(id)),
            r matches Err(e) ==> e == AppError::NotFound,
    {
        match self.find_index(id) {
            Some(i) => Ok(self.participants[i].duplicate()),
            None => Err(AppError::NotFound),
        }
    }
}

/// Nothing changed but (possibly) the record at `idx`.
pub open spec fn others_unchanged(pre: Directory, post: Directory, idx: int) -> bool {
    &&& post.participants@.len() == pre.participants@.len()
    &&& post.next_id == pre.next_id
    &&& forall|k: int|
        0 <= k < pre.len() && k != idx ==> post.participants@[k] == pre.participants@[k]
}

/// The committed state after `commit_assignment(pid, tid)` succeeds: the
/// assignment is set and, in the same transaction, appended to the history.
pub open spec fn commit_post(pre: Directory, post: Directory, pid: i32, tid: i32) -> bool {
    let idx = pre.index_of(pid);
    let p0 = pre.participants@[idx];
    let p1 = post.participants@[idx];
    &&& others_unchanged(pre, post, idx)
    &&& p1.id == p0.id
    &&& p1.name == p0.name
    &&& p1.rerolls_left == p0.rerolls_left
    &&& p1.selected_meme_template_id == Some(tid)
    &&& p1.seen_meme_templates@ == p0.seen_meme_templates@.push(tid)
}

/// The state after `evict_current_to_history(pid)` succeeds: the assignment
/// is cleared; the history keeps it (it was recorded there at commit time).
pub open spec fn evict_post(pre: Directory, post: Directory, pid: i32) -> bool {
    let idx = pre.index_of(pid);
    let p0 = pre.participants@[idx];
    let p1 = post.participants@[idx];
    &&& others_unchanged(pre, post, idx)
    &&& p1.id == p0.id
    &&& p1.name == p0.name
    &&& p1.rerolls_left == p0.rerolls_left
    &&& p1.selected_meme_template_id is None
    &&& p1.seen_meme_templates@ == p0.seen_meme_templates@
}

/// The state after `decrement_reroll(pid)` succeeds: exactly one unit of
/// budget is consumed, nothing else moves.
pub open spec fn decrement_post(pre: Directory, post: Directory, pid: i32) -> bool {
    let idx = pre.index_of(pid);
    let p0 = pre.participants@[idx];
    let p1 = post.participants@[idx];
    &&& others_unchanged(pre, post, idx)
    &&& p1.id == p0.id
    &&& p1.name == p0.name
    &&& p1.rerolls_left == p0.rerolls_left - 1
    &&& p1.selected_meme_template_id == p0.selected_meme_template_id
    &&& p1.seen_meme_templates@ == p0.seen_meme_templates@
}

/// The state after `set_rerolls(n, pid)` succeeds.
pub open spec fn set_rerolls_post(pre: Directory, post: Directory, pid: i32, n: i32) -> bool {
    let idx = pre.index_of(pid);
    let p0 = pre.participants@[idx];
    let p1 = post.participants@[idx];
    &&& others_unchanged(pre, post, idx)
    &&& p1.id == p0.id
    &&& p1.name == p0.name
    &&& p1.rerolls_left == n
    &&& p1.selected_meme_template_id == p0.selected_meme_template_id
    &&& p1.seen_meme_templates@ == p0.seen_meme_templates@
}

impl Directory {
    /// Atomically sets the assignment and appends it to the seen-history.
    /// Fails `DuplicateHistoryEntry` (changing nothing) when the template is
    /// already in this participant's history: an integrity guard, never
    /// silently absorbed. The caller guarantees no other participant holds
    /// the template, which is what keeps assignments exclusive.
    pub fn commit_assignment(&mut self, id: i32, template_id: i32) -> (r: Result<(), AppError>)
        requires
            old(self).wf(),
            !old(self).template_in_use_by_other(id, template_id),
        ensures
            final(self).wf(),
            r is Ok <==> old(self).has_participant(id) && !old(self).seen(id).contains(
                template_id,
            ),
            !old(self).has_participant(id) ==> r == Err::<(), AppError>(AppError::NotFound)
                && *final(self) == *old(self),
            old(self).has_participant(id) && old(self).seen(id).contains(template_id) ==> r
                == Err::<(), AppError>(AppError::DuplicateHistoryEntry) && *final(self) == *old(
                self,
            ),
            r is Ok ==> commit_post(*old(self), *final(self), id, template_id),
    {
        let idx = match self.find_index(id) {
            Some(i) => i,
            None => {
                return Err(AppError::NotFound);
            },
        };
        if contains_id(&self.participants[idx].seen_meme_templates, template_id) {
            return Err(AppError::DuplicateHistoryEntry);
        }
        let mut p = self.participants.remove(idx);
        p.selected_meme_template_id = Some(template_id);
        p.seen_meme_templates.push(template_id);
        let ghost p1 = p;
        self.participants.insert(idx, p);
        proof {
            assert(self.participants@ =~= old(self).participants@.update(idx as int, p1));
            let pre = *old(self);
            let p0 = pre.participants@[idx as int];
            assert(p0.wf());
            assert(p1.seen_meme_templates@ == p0.seen_meme_templates@.push(template_id));
            assert(p1.seen_meme_templates@[p0.seen_meme_templates@.len() as int] == template_id);
            assert(p1.seen_meme_templates@.contains(template_id));
            assert forall|a: int, b: int|
                #![trigger p1.seen_meme_templates@[a], p1.seen_meme_templates@[b]]
                0 <= a < b < p1.seen_meme_templates@.len() implies p1.seen_meme_templates@[a]
                != p1.seen_meme_templates@[b] by {
                if b == p0.seen_meme_templates@.len() {
                    assert(p1.seen_meme_templates@[a] == p0.seen_meme_templates@[a]);
                    assert(p0.seen_meme_templates@[a] != template_id);
                }
            }
            assert(p1.wf());
            assert forall|i: int, j: int|
                0 <= i < self.len() && 0 <= j < self.len() && i != j
                    && self.participants@[i].selected_meme_template_id is Some implies #[trigger] self.participants@[i].selected_meme_template_id
                != #[trigger] self.participants@[j].selected_meme_template_id by {
                if i == idx {
                    assert(pre.participants@[j].id != id);
                    assert(pre.participants@[j].selected_meme_template_id != Some(template_id));
                } else if j == idx {
                    assert(pre.participants@[i].id != id);
                    assert(pre.participants@[i].selected_meme_template_id != Some(template_id));
                } else {
                    assert(pre.participants@[i].selected_meme_template_id is Some
                        ==> pre.participants@[i].selected_meme_template_id
                        != pre.participants@[j].selected_meme_template_id);
                }
            }
            assert(self.wf());
        }
        Ok(())
    }

    /// Atomically moves the current assignment (if any) into the history and
    /// clears the assignment. The history is unchanged as a set: the
    /// assignment was appended to it when it was committed.
    pub fn evict_current_to_history(&mut self, id: i32) -> (r: Result<(), AppError>)
        requires
            old(self).wf(),
        ensures
            final(self).wf(),
            r is Ok <==> old(self).has_participant(id),
            r is Err ==> r == Err::<(), AppError>(AppError::NotFound) && *final(self) == *old(
                self,
            ),
            r is Ok ==> evict_post(*old(self), *final(self), id),
    {
        let idx = match self.find_index(id) {
            Some(i) => i,
            None => {
                return Err(AppError::NotFound);
            },
        };
        proof {
            assert(old(self).participants@[idx as int].wf());
        }
        let mut p = self.participants.remove(idx);
        match p.selected_meme_template_id {
            Some(t) => {
                if !contains_id(&p.seen_meme_templates, t) {
                    // unreachable under wf: a committed assignment is always
                    // already in the history
                    p.seen_meme_templates.push(t);
                }
                p.selected_meme_template_id = None;
            },
            None => {},
        }
        let ghost p1 = p;
        self.participants.insert(idx, p);
        proof {
            assert(self.participants@ =~= old(self).participants@.update(idx as int, p1));
            assert(self.wf());
        }
        Ok(())
    }

    /// Atomically consumes one reroll; fails `QuotaExhausted` (changing
    /// nothing) when the budget is already zero.
    pub fn decrement_reroll(&mut self, id: i32) -> (r: Result<(), AppError>)
        requires
            old(self).wf(),
        ensures
            final(self).wf(),
            r is Ok <==> old(self).has_participant(id) && old(self).rerolls(id) > 0,
            !old(self).has_participant(id) ==> r == Err::<(), AppError>(AppError::NotFound)
                && *final(self) == *old(self),
            old(self).has_participant(id) && old(self).rerolls(id) == 0 ==> r == Err::<
                (),
                AppError,
            >(AppError::QuotaExhausted) && *final(self) == *old(self),
            r is Ok ==> decrement_post(*old(self), *final(self), id),
    {
        let idx = match self.find_index(id) {
            Some(i) => i,
            None => {
                return Err(AppError::NotFound);
            },
        };
        if self.participants[idx].rerolls_left == 0 {
            return Err(AppError::QuotaExhausted);
        }
        let mut p = self.participants.remove(idx);
        p.rerolls_left = p.rerolls_left - 1;
        let ghost p1 = p;
        self.participants.insert(idx, p);
        proof {
            assert(self.participants@ =~= old(self).participants@.update(idx as int, p1));
            assert(self.wf());
        }
        Ok(())
    }

    /// Overwrites the reroll budget; a directory primitive for the engine.
    pub fn set_rerolls(&mut self, new_no_of_rerolls: i32, id: i32) -> (r: Result<(), AppError>)
        requires
            old(self).wf(),
            new_no_of_rerolls >= 0,
        ensures
            final(self).wf(),
            r is Ok <==> old(self).has_participant(id),
            r is Err ==> r == Err::<(), AppError>(AppError::NotFound) && *final(self) == *old(
                self,
            ),
            r is Ok ==> set_rerolls_post(*old(self), *final(self), id, new_no_of_rerolls),
    {
        let idx = match self.find_index(id) {
            Some(i) => i,
            None => {
                return Err(AppError::NotFound);
            },
        };
        let mut p = self.participants.remove(idx);
        p.rerolls_left = new_no_of_rerolls;
        let ghost p1 = p;
        self.participants.insert(idx, p);
        proof {
            assert(self.participants@ =~= old(self).participants@.update(idx as int, p1));
            assert(self.wf());
        }
        Ok(())
    }
}

} // verus!
