use vstd::prelude::*;
use crate::app_error::AppError;
use crate::dto::meme_template::{same_template, MemeTemplate};
use crate::randomness::random_entropy;

verus! {

/// The fixed set of allocatable templates. Read-mostly: it is filled once at
/// seed time and never shrinks.
pub struct TemplatePool {
    pub templates: Vec<MemeTemplate>,
    pub next_id: i32,
}

impl TemplatePool {
    pub open spec fn len(self) -> int {
        self.templates@.len() as int
    }

    /// Well-formed: ids are unique and below the next id to hand out.
    pub open spec fn wf(self) -> bool {
        &&& 1 <= self.next_id
        &&& forall|i: int|
            0 <= i < self.len() ==> 1 <= (#[trigger] self.templates@[i]).id < self.next_id
        &&& forall|i: int, j: int|
            #![trigger self.templates@[i].id, self.templates@[j].id]
            0 <= i < j < self.len() ==> self.templates@[i].id != self.templates@[j].id
    }

    /// Some template in the pool carries this id.
    pub open spec fn has(self, id: i32) -> bool {
        exists|i: int| 0 <= i < self.len() && (#[trigger] self.templates@[i]).id == id
    }

    pub open spec fn index_of(self, id: i32) -> int {
        choose|i: int| 0 <= i < self.len() && (#[trigger] self.templates@[i]).id == id
    }

    /// The pool entry with the given id (meaningful when `has(id)`).
    pub open spec fn template(self, id: i32) -> MemeTemplate {
        self.templates@[self.index_of(id)]
    }

    /// With unique ids, any entry that carries `id` is the entry at
    /// `index_of(id)`.
    pub proof fn lemma_index_unique(self, id: i32, i: int)
        requires
            self.wf(),
            0 <= i < self.len(),
            self.templates@[i].id == id,
        ensures
            self.has(id),
            self.index_of(id) == i,
    {
        assert(self.has(id));
    }

    pub fn new() -> (r: TemplatePool)
        ensures
            r.wf(),
            r.len() == 0,
            r.next_id == 1,
    {
        TemplatePool { templates: Vec::new(), next_id: 1 }
    }

    /// Seeds one template; its fresh id is returned.
    pub fn add_template(&mut self, uri: String) -> (id: i32)
        requires
            old(self).wf(),
            old(self).next_id < i32::MAX,
        ensures
            final(self).wf(),
            id == old(self).next_id,
            !old(self).has(id),
            final(self).next_id == old(self).next_id + 1,
            final(self).templates@.len() == old(self).templates@.len() + 1,
            forall|i: int|
                0 <= i < old(self).len() ==> final(self).templates@[i] == old(
                    self,
                ).templates@[i],
            final(self).templates@[old(self).len()].id == id,
            final(self).templates@[old(self).len()].uri@ == uri@,
            final(self).has(id),
    {
        let id = self.next_id;
        self.templates.push(MemeTemplate { id, uri });
        self.next_id = self.next_id + 1;
        assert(self.templates@[old(self).len()].id == id);
        assert(self.has(id));
        assert(!old(self).has(id));
        id
    }

    pub fn pool_len(&self) -> (n: usize)
        ensures
            n == self.len(),
    {
        self.templates.len()
    }

    /// The template with this id, if the pool holds one.
    pub fn get(&self, id: i32) -> (r: Option<MemeTemplate>)
        requires
            self.wf(),
        ensures
            r is Some <==> self.has(id),
            r matches Some(t) ==> same_template(t, self.template(id)),
    {
        let n = self.templates.len();
        let mut k: usize = 0;
        while k < n
            invariant
                n == self.len(),
                k <= n,
                self.wf(),
                forall|i: int| 0 <= i < k ==> (#[trigger] self.templates@[i]).id != id,
            decreases n - k,
        {
            if self.templates[k].id == id {
                proof {
                    self.lemma_index_unique(id, k as int);
                }
                return Some(self.templates[k].duplicate());
            }
            k = k + 1;
        }
        assert(!self.has(id));
        None
    }

    /// A uniform choice over the whole pool; fails exactly when the pool is
    /// empty.
    pub fn pick_random(&self) -> (r: Result<MemeTemplate, AppError>)
        requires
            self.wf(),
        ensures
            r is Ok <==> self.len() > 0,
            r matches Err(e) ==> e == AppError::PoolEmpty,
            r matches Ok(t) ==> self.has(t.id) && same_template(t, self.template(t.id)),
    {
        let n = self.templates.len();
        if n == 0 {
            return Err(AppError::PoolEmpty);
        }
        let e = random_entropy();
        let k = (e as usize) % n;
        proof {
            self.lemma_index_unique(self.templates@[k as int].id, k as int);
        }
        Ok(self.templates[k].duplicate())
    }

    /// A uniform choice over the templates whose ids are not excluded; fails
    /// exactly when the exclusion covers the whole pool.
    pub fn pick_excluding(&self, excluded: &Vec<i32>) -> (r: Result<MemeTemplate, AppError>)
        requires
            self.wf(),
        ensures
            r is Ok <==> exists|i: int|
                0 <= i < self.len() && !excluded@.contains((#[trigger] self.templates@[i]).id),
            r matches Err(e) ==> e == AppError::NotAvailable,
            r matches Ok(t) ==> {
                &&& self.has(t.id)
                &&& same_template(t, self.template(t.id))
                &&& !excluded@.contains(t.id)
            },
    {
        let n = self.templates.len();
        let mut eligible: Vec<usize> = Vec::new();
        let mut k: usize = 0;
        while k < n
            invariant
                n == self.len(),
                k <= n,
                self.wf(),
                forall|j: int|
                    0 <= j < eligible@.len() ==> (#[trigger] eligible@[j]) < n
                        && !excluded@.contains(self.templates@[eligible@[j] as int].id),
                forall|i: int|
                    0 <= i < k && !excluded@.contains((#[trigger] self.templates@[i]).id)
                        ==> eligible@.contains(i as usize),
            decreases n - k,
        {
            let ghost pre_eligible = eligible@;
            if !contains_id(excluded, self.templates[k].id) {
                eligible.push(k);
            }
            proof {
                assert forall|i: int|
                    0 <= i < k as int + 1 && !excluded@.contains(
                        (#[trigger] self.templates@[i]).id,
                    ) implies eligible@.contains(i as usize) by {
                    if i < k as int {
                        let j = choose|j: int|
                            0 <= j < pre_eligible.len() && pre_eligible[j] == i as usize;
                        assert(eligible@[j] == i as usize);
                    } else {
                        assert(eligible@[eligible@.len() - 1] == k);
                    }
                }
            }
            k = k + 1;
        }
        if eligible.len() == 0 {
            assert forall|i: int| 0 <= i < self.len() implies excluded@.contains(
                (#[trigger] self.templates@[i]).id,
            ) by {
                if !excluded@.contains(self.templates@[i].id) {
                    assert(eligible@.contains(i as usize));
                }
            }
            return Err(AppError::NotAvailable);
        }
        let e = random_entropy();
        let j = (e as usize) % eligible.len();
        let idx = eligible[j];
        proof {
            self.lemma_index_unique(self.templates@[idx as int].id, idx as int);
        }
        Ok(self.templates[idx].duplicate())
    }
}

/// Whether the id occurs in the list.
pub fn contains_id(v: &Vec<i32>, x: i32) -> (b: bool)
    ensures
        b == v@.contains(x),
{
    let n = v.len();
    let mut k: usize = 0;
    while k < n
        invariant
            n == v@.len(),
            k <= n,
            forall|i: int| 0 <= i < k ==> v@[i] != x,
        decreases n - k,
    {
        if v[k] == x {
            return true;
        }
        k = k + 1;
    }
    assert(!v@.contains(x));
    false
}

} // verus!
