use vstd::prelude::*;
use crate::app_error::AppError;
use crate::directory::{commit_post, others_unchanged, Directory};
use crate::dto::meme_template::{same_template, MemeTemplate};
use crate::dto::player::Player;
use crate::template_pool::TemplatePool;
use crate::templates::lobby::{lobby_players, PlayerHTMLInfo};

verus! {

/// The allocation engine: the template pool and the participant directory,
/// with the operations that keep assignments exclusive and novel.
pub struct PlayerManager {
    pub pool: TemplatePool,
    pub directory: Directory,
}

impl PlayerManager {
    /// Well-formed: both components are, and every active assignment refers
    /// to a template the pool really holds.
    pub open spec fn wf(self) -> bool {
        &&& self.pool.wf()
        &&& self.directory.wf()
        &&& forall|i: int|
            0 <= i < self.directory.len()
                ==> ((#[trigger] self.directory.participants@[i]).selected_meme_template_id
                matches Some(t) ==> self.pool.has(t))
    }

    /// The template may be handed to this participant: the pool holds it, no
    /// other participant holds it now, and this participant has never seen
    /// it.
    pub open spec fn eligible(self, pid: i32, t: i32) -> bool {
        &&& self.pool.has(t)
        &&& !self.directory.template_in_use_by_other(pid, t)
        &&& !self.directory.seen(pid).contains(t)
    }

    /// Every template in the pool is either held by another participant or
    /// already seen by this one: no allocation can succeed.
    pub open spec fn exhausted_for(self, pid: i32) -> bool {
        forall|i: int|
            0 <= i < self.pool.len() ==> !self.eligible(
                pid,
                (#[trigger] self.pool.templates@[i]).id,
            )
    }

    pub fn new(pool: TemplatePool, directory: Directory) -> (r: PlayerManager)
        ensures
            r.pool == pool,
            r.directory == directory,
    {
        PlayerManager { pool, directory }
    }

    /// The exclusion set for one allocation attempt: every template held by
    /// any other participant, united with everything this participant has
    /// seen, read from one consistent snapshot of the directory.
    pub fn exclusion_list(&self, pid: i32) -> (r: Vec<i32>)
        requires
            self.wf(),
            self.directory.has_participant(pid),
        ensures
            forall|t: i32|
                #[trigger] r@.contains(t) <==> (self.directory.template_in_use_by_other(pid, t)
                    || self.directory.seen(pid).contains(t)),
    {
        let n = self.directory.participants.len();
        let mut r: Vec<i32> = Vec::new();
        let mut own: Option<usize> = None;
        let mut k: usize = 0;
        while k < n
            invariant
                n == self.directory.len(),
                k <= n,
                self.wf(),
                self.directory.has_participant(pid),
                forall|j: int|
                    0 <= j < r@.len() ==> self.directory.template_in_use_by_other(
                        pid,
                        #[trigger] r@[j],
                    ),
                forall|i: int|
                    0 <= i < k ==> (((#[trigger] self.directory.participants@[i]).id != pid
                        && self.directory.participants@[i].selected_meme_template_id is Some)
                        ==> r@.contains(
                        self.directory.participants@[i].selected_meme_template_id->0,
                    )),
                own matches Some(o) ==> o < n && self.directory.participants@[o as int].id == pid,
                own is None ==> forall|i: int|
                    0 <= i < k ==> (#[trigger] self.directory.participants@[i]).id != pid,
            decreases n - k,
        {
            let p = &self.directory.participants[k];
            if p.id == pid {
                own = Some(k);
            } else {
                match p.selected_meme_template_id {
                    Some(t) => {
                        let ghost pre_r = r@;
                        r.push(t);
                        proof {
                            assert(r@[r@.len() - 1] == t);
                            assert(self.directory.template_in_use_by_other(pid, t));
                            assert forall|i: int|
                                0 <= i < k as int + 1 && ((
                                #[trigger] self.directory.participants@[i]).id != pid
                                    && self.directory.participants@[i].selected_meme_template_id
                                    is Some) implies r@.contains(
                                self.directory.participants@[i].selected_meme_template_id->0,
                            ) by {
                                if i < k as int {
                                    let t0 =
                                        self.directory.participants@[i].selected_meme_template_id->0;
                                    assert(pre_r.contains(t0));
                                    let j = choose|j: int| 0 <= j < pre_r.len() && pre_r[j] == t0;
                                    assert(r@[j] == t0);
                                } else {
                                    assert(r@[r@.len() - 1] == t);
                                }
                            }
                        }
                    },
                    None => {},
                }
            }
            k = k + 1;
        }
        let own_idx = match own {
            Some(o) => o,
            None => {
                proof {
                    assert(!self.directory.has_participant(pid));
                }
                return r;  // unreachable: the participant exists
            },
        };
        proof {
            self.directory.lemma_index_unique(pid, own_idx as int);
        }
        let ghost assignments_only = r@;
        let seen = &self.directory.participants[own_idx].seen_meme_templates;
        let m = seen.len();
        let mut k2: usize = 0;
        while k2 < m
            invariant
                m == seen@.len(),
                k2 <= m,
                r@ == assignments_only + seen@.subrange(0, k2 as int),
            decreases m - k2,
        {
            r.push(seen[k2]);
            proof {
                assert(r@ =~= assignments_only + seen@.subrange(0, k2 as int + 1));
            }
            k2 = k2 + 1;
        }
        proof {
            assert(r@ =~= assignments_only + seen@);
            assert(seen@ == self.directory.seen(pid));
            assert forall|t: i32| #[trigger]
                r@.contains(t) implies (self.directory.template_in_use_by_other(pid, t)
                || self.directory.seen(pid).contains(t)) by {
                let j = choose|j: int| 0 <= j < r@.len() && r@[j] == t;
                if j < assignments_only.len() {
                    assert(assignments_only[j] == t);
                } else {
                    assert(seen@[j - assignments_only.len()] == t);
                }
            }
            assert forall|t: i32|
                (self.directory.template_in_use_by_other(pid, t) || self.directory.seen(
                    pid,
                ).contains(t)) implies #[trigger] r@.contains(t) by {
                if self.directory.template_in_use_by_other(pid, t) {
                    let i = choose|i: int|
                        0 <= i < self.directory.len() && (
                        #[trigger] self.directory.participants@[i]).id != pid
                            && self.directory.participants@[i].selected_meme_template_id == Some(
                            t,
                        );
                    assert(assignments_only.contains(t));
                    let j = choose|j: int|
                        0 <= j < assignments_only.len() && assignments_only[j] == t;
                    assert(r@[j] == t);
                } else {
                    let j = choose|j: int|
                        0 <= j < seen@.len() && self.directory.seen(pid)[j] == t;
                    assert(r@[assignments_only.len() + j] == t);
                }
            }
        }
        r
    }

    /// The id of a uniformly chosen template this participant may receive:
    /// `None` exactly when exclusivity and novelty rule every template out.
    pub fn select_new_meme_template(&self, player_id: i32) -> (r: Result<Option<i32>, AppError>)
        requires
            self.wf(),
        ensures
            r is Ok <==> self.directory.has_participant(player_id),
            r matches Err(e) ==> e == AppError::NotFound,
            r matches Ok(o) ==> {
                &&& (o is None <==> self.exhausted_for(player_id))
                &&& (o matches Some(t) ==> self.eligible(player_id, t))
            },
    {
        match self.directory.find_index(player_id) {
            None => Err(AppError::NotFound),
            Some(_) => {
                let excluded = self.exclusion_list(player_id);
                match self.pool.pick_excluding(&excluded) {
                    Ok(t) => {
                        proof {
                            let i = self.pool.index_of(t.id);
                            assert(self.pool.templates@[i].id == t.id);
                            assert(self.eligible(player_id, t.id));
                            assert(!self.exhausted_for(player_id));
                        }
                        Ok(Some(t.id))
                    },
                    Err(_) => {
                        proof {
                            assert forall|i: int| 0 <= i < self.pool.len() implies !self.eligible(
                                player_id,
                                (#[trigger] self.pool.templates@[i]).id,
                            ) by {
                                assert(excluded@.contains(self.pool.templates@[i].id));
                            }
                        }
                        Ok(None)
                    },
                }
            },
        }
    }
}

/// The engine after a fresh assignment of `t` to `pid`: `t` was eligible
/// beforehand, the pool is untouched, and the directory committed it.
pub open spec fn assign_post(pre: PlayerManager, post: PlayerManager, pid: i32, t: i32) -> bool {
    &&& pre.eligible(pid, t)
    &&& post.pool == pre.pool
    &&& commit_post(pre.directory, post.directory, pid, t)
}

/// What `pick_meme_template` guarantees: `NotFound` for an unknown id,
/// `PoolExhausted` exactly when no template is eligible, and otherwise a
/// committed fresh assignment — all failures leave the state untouched.
pub open spec fn pick_post(
    pre: PlayerManager,
    post: PlayerManager,
    pid: i32,
    r: Result<i32, AppError>,
) -> bool {
    &&& (!pre.directory.has_participant(pid) ==> r == Err::<i32, AppError>(AppError::NotFound)
        && post == pre)
    &&& (pre.directory.has_participant(pid) ==> (if pre.exhausted_for(pid) {
        r == Err::<i32, AppError>(AppError::PoolExhausted) && post == pre
    } else {
        r matches Ok(t) && assign_post(pre, post, pid, t)
    }))
}

impl PlayerManager {
    /// Steps two to four of an allocation: computes the exclusion set, picks
    /// an eligible template, and commits it as this participant's
    /// assignment, appending it to the seen-history in the same transaction.
    pub fn pick_meme_template(&mut self, player_id: i32) -> (r: Result<i32, AppError>)
        requires
            old(self).wf(),
        ensures
            final(self).wf(),
            pick_post(*old(self), *final(self), player_id, r),
    {
        let selected = match self.select_new_meme_template(player_id) {
            Ok(o) => o,
            Err(e) => {
                return Err(e);
            },
        };
        let new_id = match selected {
            Some(t) => t,
            None => {
                return Err(AppError::PoolExhausted);
            },
        };
        let ghost pre = *self;
        match self.directory.commit_assignment(player_id, new_id) {
            Ok(()) => {
                proof {
                    lemma_commit_keeps_wf(pre, *self, player_id, new_id);
                }
                Ok(new_id)
            },
            Err(e) => Err(e),  // unreachable: the pick was eligible
        }
    }
}

/// What `ensure_assigned` guarantees. For a participant who already holds a
/// template the call changes nothing and returns that template. Otherwise a
/// fresh eligible template is committed; `PoolExhausted` is surfaced, with
/// the state untouched, exactly when none is eligible.
pub open spec fn ensure_assigned_post(
    pre: PlayerManager,
    post: PlayerManager,
    pid: i32,
    r: Result<MemeTemplate, AppError>,
) -> bool {
    &&& (!pre.directory.has_participant(pid) ==> r == Err::<MemeTemplate, AppError>(
        AppError::NotFound,
    ) && post == pre)
    &&& (pre.directory.has_participant(pid) ==> (if pre.directory.assigned(pid) is Some {
        &&& post == pre
        &&& r matches Ok(tm)
        &&& Some(tm.id) == pre.directory.assigned(pid)
        &&& same_template(tm, pre.pool.template(tm.id))
    } else if pre.exhausted_for(pid) {
        r == Err::<MemeTemplate, AppError>(AppError::PoolExhausted) && post == pre
    } else {
        &&& r matches Ok(tm)
        &&& same_template(tm, pre.pool.template(tm.id))
        &&& assign_post(pre, post, pid, tm.id)
    }))
}

impl PlayerManager {
    /// The participant's current template, allocating one first if none is
    /// held: idempotent while no reroll intervenes.
    pub fn ensure_assigned(&mut self, participant_id: i32) -> (r: Result<MemeTemplate, AppError>)
        requires
            old(self).wf(),
        ensures
            final(self).wf(),
            ensure_assigned_post(*old(self), *final(self), participant_id, r),
    {
        let idx = match self.directory.find_index(participant_id) {
            Some(i) => i,
            None => {
                return Err(AppError::NotFound);
            },
        };
        let current = self.directory.participants[idx].selected_meme_template_id;
        match current {
            Some(t) => {
                proof {
                    assert(self.directory.index_of(participant_id) == idx);
                    assert(self.pool.has(t));
                }
                match self.pool.get(t) {
                    Some(tm) => {
                        proof {
                            assert(self.pool.template(t).id == t);
                        }
                        Ok(tm)
                    },
                    None => Err(AppError::NotFound),  // unreachable: assignments stay in the pool
                }
            },
            None => {
                let ghost pre = *self;
                let new_id = match self.pick_meme_template(participant_id) {
                    Ok(t) => t,
                    Err(e) => {
                        return Err(e);
                    },
                };
                proof {
                    assert(pre.pool.template(new_id).id == new_id);
                }
                match self.pool.get(new_id) {
                    Some(tm) => Ok(tm),
                    None => Err(AppError::NotFound),  // unreachable: the pick came from the pool
                }
            },
        }
    }

    /// What the presentation layer calls to show the current assignment:
    /// invokes `ensure_assigned` and has exactly its contract.
    pub fn view_current_assignment(&mut self, participant_id: i32) -> (r: Result<
        MemeTemplate,
        AppError,
    >)
        requires
            old(self).wf(),
        ensures
            final(self).wf(),
            ensure_assigned_post(*old(self), *final(self), participant_id, r),
    {
        self.ensure_assigned(participant_id)
    }
}

/// The directory after a successful reroll: exactly one unit of budget is
/// consumed and a fresh assignment is committed, appended to the history.
pub open spec fn reroll_commit_post(pre: Directory, post: Directory, pid: i32, t: i32) -> bool {
    let idx = pre.index_of(pid);
    let p0 = pre.participants@[idx];
    let p1 = post.participants@[idx];
    &&& others_unchanged(pre, post, idx)
    &&& p1.id == p0.id
    &&& p1.name == p0.name
    &&& p1.rerolls_left == p0.rerolls_left - 1
    &&& p1.selected_meme_template_id == Some(t)
    &&& p1.seen_meme_templates@ == p0.seen_meme_templates@.push(t)
}

/// What `reroll_meme_template` guarantees. `QuotaExhausted` exactly at
/// budget zero and `PoolExhausted` exactly when no template is eligible,
/// both leaving the state untouched — a failed reroll never consumes quota.
/// On success the budget drops by one and a never-seen template, never the
/// discarded one, is committed.
pub open spec fn reroll_post(
    pre: PlayerManager,
    post: PlayerManager,
    pid: i32,
    r: Result<MemeTemplate, AppError>,
) -> bool {
    &&& (!pre.directory.has_participant(pid) ==> r == Err::<MemeTemplate, AppError>(
        AppError::NotFound,
    ) && post == pre)
    &&& (pre.directory.has_participant(pid) ==> (if pre.directory.rerolls(pid) == 0 {
        r == Err::<MemeTemplate, AppError>(AppError::QuotaExhausted) && post == pre
    } else if pre.exhausted_for(pid) {
        r == Err::<MemeTemplate, AppError>(AppError::PoolExhausted) && post == pre
    } else {
        &&& r matches Ok(tm)
        &&& pre.eligible(pid, tm.id)
        &&& same_template(tm, pre.pool.template(tm.id))
        &&& post.pool == pre.pool
        &&& reroll_commit_post(pre.directory, post.directory, pid, tm.id)
        &&& (pre.directory.assigned(pid) matches Some(s) ==> tm.id != s)
    }))
}

impl PlayerManager {
    /// A reroll is allowed only while some budget remains.
    pub fn can_reroll(&self, no_of_remaining_rerolls: i32) -> (b: bool)
        ensures
            b == (no_of_remaining_rerolls > 0),
    {
        no_of_remaining_rerolls > 0
    }

    /// Discards the current assignment and draws a fresh one, consuming one
    /// reroll; refused outright at budget zero, and rolled back wholesale
    /// when no template is eligible.
    pub fn reroll_meme_template(&mut self, player_id: i32) -> (r: Result<MemeTemplate, AppError>)
        requires
            old(self).wf(),
        ensures
            final(self).wf(),
            reroll_post(*old(self), *final(self), player_id, r),
    {
        let idx = match self.directory.find_index(player_id) {
            Some(i) => i,
            None => {
                return Err(AppError::NotFound);
            },
        };
        proof {
            assert(self.directory.participants@[idx as int].wf());
        }
        let no_of_remaining_rerolls = self.directory.participants[idx].rerolls_left;
        if !self.can_reroll(no_of_remaining_rerolls) {
            return Err(AppError::QuotaExhausted);
        }
        // pick before touching anything, so that a failed pick leaves the
        // state — the budget included — untouched
        let picked = match self.select_new_meme_template(player_id) {
            Ok(o) => match o {
                Some(t) => t,
                None => {
                    return Err(AppError::PoolExhausted);
                },
            },
            Err(e) => {
                return Err(e);  // unreachable: the participant exists
            },
        };
        let ghost s0 = *self;
        match self.directory.decrement_reroll(player_id) {
            Ok(()) => {},
            Err(e) => {
                return Err(e);  // unreachable: the budget was just checked
            },
        }
        let ghost s1 = *self;
        proof {
            s1.directory.lemma_index_unique(player_id, idx as int);
        }
        match self.directory.evict_current_to_history(player_id) {
            Ok(()) => {},
            Err(e) => {
                return Err(e);  // unreachable: the participant exists
            },
        }
        let ghost s2 = *self;
        proof {
            s2.directory.lemma_index_unique(player_id, idx as int);
            assert forall|i: int|
                0 <= i < s2.directory.len() && i != idx implies s2.directory.participants@[i]
                == s0.directory.participants@[i] by {}
            assert(!s2.directory.template_in_use_by_other(player_id, picked)) by {
                if s2.directory.template_in_use_by_other(player_id, picked) {
                    let i = choose|i: int|
                        0 <= i < s2.directory.len() && (
                        #[trigger] s2.directory.participants@[i]).id != player_id
                            && s2.directory.participants@[i].selected_meme_template_id == Some(
                            picked,
                        );
                    assert(s2.directory.participants@[i] == s0.directory.participants@[i]);
                    assert(s0.directory.template_in_use_by_other(player_id, picked));
                }
            }
            assert(s2.wf()) by {
                assert forall|i: int|
                    0 <= i < s2.directory.len() && (
                    #[trigger] s2.directory.participants@[i]).selected_meme_template_id
                        is Some implies s2.pool.has(
                    s2.directory.participants@[i].selected_meme_template_id->0,
                ) by {
                    if i != idx {
                        assert(s2.directory.participants@[i] == s0.directory.participants@[i]);
                    }
                }
            }
            assert(s2.directory.seen(player_id) == s0.directory.seen(player_id));
        }
        match self.directory.commit_assignment(player_id, picked) {
            Ok(()) => {},
            Err(e) => {
                return Err(e);  // unreachable: the pick was eligible
            },
        }
        proof {
            lemma_commit_keeps_wf(s2, *self, player_id, picked);
            self.directory.lemma_index_unique(player_id, idx as int);
            assert(s0.pool.template(picked).id == picked);
            assert forall|i: int|
                0 <= i < s0.directory.len() && i != idx implies self.directory.participants@[i]
                == s0.directory.participants@[i] by {}
        }
        match self.pool.get(picked) {
            Some(tm) => Ok(tm),
            None => Err(AppError::NotFound),  // unreachable: the pick came from the pool
        }
    }
}

impl PlayerManager {
    /// What the presentation layer calls to discard and redraw: invokes the
    /// reroll and has exactly its contract.
    pub fn submit_reroll(&mut self, participant_id: i32) -> (r: Result<MemeTemplate, AppError>)
        requires
            old(self).wf(),
        ensures
            final(self).wf(),
            reroll_post(*old(self), *final(self), participant_id, r),
    {
        self.reroll_meme_template(participant_id)
    }

    /// Signs a guest in: a fresh participant with a unique id, no
    /// assignment, the default reroll budget and an empty history.
    pub fn sign_in_as_guest(&mut self, name: String) -> (id: i32)
        requires
            old(self).wf(),
            old(self).directory.next_id < i32::MAX,
        ensures
            final(self).wf(),
            final(self).pool == old(self).pool,
            id == old(self).directory.next_id,
            !old(self).directory.has_participant(id),
            final(self).directory.has_participant(id),
            final(self).directory.next_id == old(self).directory.next_id + 1,
            final(self).directory.participants@.len() == old(self).directory.participants@.len()
                + 1,
            forall|k: int|
                0 <= k < old(self).directory.len() ==> final(self).directory.participants@[k]
                    == old(self).directory.participants@[k],
            final(self).directory.participant(id).name@ == name@,
            final(self).directory.assigned(id) is None,
            final(self).directory.rerolls(id) == crate::directory::DEFAULT_REROLLS,
            final(self).directory.seen(id).len() == 0,
    {
        let ghost pre = *self;
        let id = self.directory.create(name);
        proof {
            assert forall|i: int|
                0 <= i < self.directory.len() && (
                #[trigger] self.directory.participants@[i]).selected_meme_template_id
                    is Some implies self.pool.has(
                self.directory.participants@[i].selected_meme_template_id->0,
            ) by {
                if i < pre.directory.len() {
                    assert(self.directory.participants@[i] == pre.directory.participants@[i]);
                }
            }
        }
        id
    }

    /// A read-only snapshot of every player, without their histories.
    pub fn get_players_in_lobby(&self) -> (r: Vec<Player>)
        ensures
            r@.len() == self.directory.len(),
            forall|i: int|
                0 <= i < self.directory.len() ==> {
                    let p = self.directory.participants@[i];
                    &&& (#[trigger] r@[i]).id == p.id
                    &&& r@[i].name@ == p.name@
                    &&& r@[i].selected_meme_template_id == p.selected_meme_template_id
                    &&& r@[i].rerolls_left == p.rerolls_left
                },
    {
        let n = self.directory.participants.len();
        let mut r: Vec<Player> = Vec::new();
        let mut k: usize = 0;
        while k < n
            invariant
                n == self.directory.len(),
                k <= n,
                r@.len() == k,
                forall|i: int|
                    0 <= i < k ==> {
                        let p = self.directory.participants@[i];
                        &&& (#[trigger] r@[i]).id == p.id
                        &&& r@[i].name@ == p.name@
                        &&& r@[i].selected_meme_template_id == p.selected_meme_template_id
                        &&& r@[i].rerolls_left == p.rerolls_left
                    },
            decreases n - k,
        {
            let p = &self.directory.participants[k];
            r.push(
                Player {
                    id: p.id,
                    name: p.name.clone(),
                    selected_meme_template_id: p.selected_meme_template_id,
                    rerolls_left: p.rerolls_left,
                },
            );
            k = k + 1;
        }
        r
    }

    /// A read-only snapshot for the lobby page: each player's display name,
    /// in directory order, marked when it is the viewer — no side effects.
    pub fn list_active_participants(&self, self_id: i32) -> (r: Vec<PlayerHTMLInfo>)
        ensures
            r@.len() == self.directory.len(),
            forall|i: int|
                0 <= i < self.directory.len() ==> (#[trigger] r@[i]).spec_name()
                    == self.directory.participants@[i].name@ && r@[i].spec_is_logged_in_user() == (
                self.directory.participants@[i].id == self_id),
    {
        let players = self.get_players_in_lobby();
        lobby_players(&players, self_id)
    }

    /// The record behind an id; `NotFound` exactly when no participant
    /// carries it.
    pub fn get_player_by_id(&self, id: i32) -> (r: Result<Player, AppError>)
        requires
            self.wf(),
        ensures
            r is Ok <==> self.directory.has_participant(id),
            r matches Ok(p) ==> {
                let q = self.directory.participant(id);
                &&& p.id == q.id
                &&& p.name@ == q.name@
                &&& p.selected_meme_template_id == q.selected_meme_template_id
                &&& p.rerolls_left == q.rerolls_left
            },
            r matches Err(e) ==> e == AppError::NotFound,
    {
        match self.directory.find_index(id) {
            Some(i) => {
                let p = &self.directory.participants[i];
                Ok(
                    Player {
                        id: p.id,
                        name: p.name.clone(),
                        selected_meme_template_id: p.selected_meme_template_id,
                        rerolls_left: p.rerolls_left,
                    },
                )
            },
            None => Err(AppError::NotFound),
        }
    }

    /// The template behind an id, if the pool holds one.
    pub fn get_meme_template(&self, meme_template_id: i32) -> (r: Option<MemeTemplate>)
        requires
            self.wf(),
        ensures
            r is Some <==> self.pool.has(meme_template_id),
            r matches Some(t) ==> same_template(t, self.pool.template(meme_template_id)),
    {
        self.pool.get(meme_template_id)
    }

    /// The participant's current assignment, which may be null.
    pub fn get_meme_template_id_for_player(&self, user_id: i32) -> (r: Result<
        Option<i32>,
        AppError,
    >)
        requires
            self.wf(),
        ensures
            r is Ok <==> self.directory.has_participant(user_id),
            r matches Ok(o) ==> o == self.directory.assigned(user_id),
            r matches Err(e) ==> e == AppError::NotFound,
    {
        match self.directory.find_index(user_id) {
            Some(i) => Ok(self.directory.participants[i].selected_meme_template_id),
            None => Err(AppError::NotFound),
        }
    }

    /// The participant's remaining reroll budget.
    pub fn get_remaining_rerolls(&self, player_id: i32) -> (r: Result<i32, AppError>)
        requires
            self.wf(),
        ensures
            r is Ok <==> self.directory.has_participant(player_id),
            r matches Ok(n) ==> n == self.directory.rerolls(player_id),
            r matches Err(e) ==> e == AppError::NotFound,
    {
        match self.directory.find_index(player_id) {
            Some(i) => Ok(self.directory.participants[i].rerolls_left),
            None => Err(AppError::NotFound),
        }
    }

    /// Overwrites the participant's reroll budget.
    pub fn set_rerolls_left(&mut self, new_no_of_rerolls: i32, player_id: i32) -> (r: Result<
        (),
        AppError,
    >)
        requires
            old(self).wf(),
            new_no_of_rerolls >= 0,
        ensures
            final(self).wf(),
            final(self).pool == old(self).pool,
            r is Ok <==> old(self).directory.has_participant(player_id),
            r is Err ==> r == Err::<(), AppError>(AppError::NotFound) && *final(self) == *old(
                self,
            ),
            r is Ok ==> crate::directory::set_rerolls_post(
                old(self).directory,
                final(self).directory,
                player_id,
                new_no_of_rerolls,
            ),
    {
        let ghost pre = *self;
        let r = self.directory.set_rerolls(new_no_of_rerolls, player_id);
        proof {
            if r is Ok {
                let idx = pre.directory.index_of(player_id);
                assert forall|i: int|
                    0 <= i < self.directory.len() && (
                    #[trigger] self.directory.participants@[i]).selected_meme_template_id
                        is Some implies self.pool.has(
                    self.directory.participants@[i].selected_meme_template_id->0,
                ) by {
                    if i != idx {
                        assert(self.directory.participants@[i] == pre.directory.participants@[i]);
                    } else {
                        assert(self.directory.participants@[i].selected_meme_template_id
                            == pre.directory.participants@[i].selected_meme_template_id);
                    }
                }
            }
        }
        r
    }
}

/// A committed eligible assignment preserves the engine's well-formedness.
proof fn lemma_commit_keeps_wf(pre: PlayerManager, post: PlayerManager, pid: i32, t: i32)
    requires
        pre.wf(),
        pre.directory.has_participant(pid),
        pre.pool.has(t),
        post.pool == pre.pool,
        post.directory.wf(),
        commit_post(pre.directory, post.directory, pid, t),
    ensures
        post.wf(),
{
    let idx = pre.directory.index_of(pid);
    assert forall|i: int|
        0 <= i < post.directory.len() && (
        #[trigger] post.directory.participants@[i]).selected_meme_template_id is Some implies post.pool.has(
        post.directory.participants@[i].selected_meme_template_id->0,
    ) by {
        if i != idx {
            assert(post.directory.participants@[i] == pre.directory.participants@[i]);
        }
    }
}

proof fn lemma_prefix_reflexive(s: Seq<i32>)
    ensures
        s.is_prefix_of(s),
{
    assert(s =~= s.subrange(0, s.len() as int));
}

proof fn lemma_prefix_push(s: Seq<i32>, x: i32)
    ensures
        s.is_prefix_of(s.push(x)),
{
    assert(s =~= s.push(x).subrange(0, s.len() as int));
}

/// Law (exclusivity): in any well-formed state, two distinct participants
/// never hold the same active assignment.
pub proof fn lemma_exclusive_assignments(m: PlayerManager, p: i32, q: i32)
    requires
        m.wf(),
        p != q,
        m.directory.has_participant(p),
        m.directory.has_participant(q),
        m.directory.assigned(p) is Some,
    ensures
        m.directory.assigned(p) != m.directory.assigned(q),
{
    let i = m.directory.index_of(p);
    let j = m.directory.index_of(q);
    assert(m.directory.participants@[i].id == p);
    assert(m.directory.participants@[j].id == q);
    assert(m.directory.participants@[i].selected_meme_template_id
        != m.directory.participants@[j].selected_meme_template_id);
}

/// Law (novelty, allocation): a template committed by `ensure_assigned` was
/// not in the participant's seen-history when the allocation began, and is
/// the participant's active assignment afterwards.
pub proof fn lemma_novelty_ensure_assigned(
    pre: PlayerManager,
    post: PlayerManager,
    pid: i32,
    r: Result<MemeTemplate, AppError>,
)
    requires
        pre.wf(),
        post.wf(),
        ensure_assigned_post(pre, post, pid, r),
        pre.directory.has_participant(pid),
        pre.directory.assigned(pid) is None,
        r is Ok,
    ensures
        !pre.directory.seen(pid).contains(r->Ok_0.id),
        post.directory.has_participant(pid),
        post.directory.assigned(pid) == Some(r->Ok_0.id),
{
    let idx = pre.directory.index_of(pid);
    assert(pre.directory.participants@[idx].id == pid);
    assert(post.directory.participants@[idx].id == pid);
    post.directory.lemma_index_unique(pid, idx);
}

/// Law (novelty, reroll): a template committed by a successful reroll was
/// never in the participant's seen-history, and in particular is not the
/// template just discarded.
pub proof fn lemma_novelty_reroll(
    pre: PlayerManager,
    post: PlayerManager,
    pid: i32,
    r: Result<MemeTemplate, AppError>,
)
    requires
        pre.wf(),
        post.wf(),
        reroll_post(pre, post, pid, r),
        pre.directory.has_participant(pid),
        r is Ok,
    ensures
        !pre.directory.seen(pid).contains(r->Ok_0.id),
        post.directory.has_participant(pid),
        post.directory.assigned(pid) == Some(r->Ok_0.id),
        pre.directory.assigned(pid) matches Some(s) ==> r->Ok_0.id != s,
{
    let idx = pre.directory.index_of(pid);
    assert(pre.directory.participants@[idx].id == pid);
    assert(post.directory.participants@[idx].id == pid);
    post.directory.lemma_index_unique(pid, idx);
}

/// Law (monotone history, allocation): `ensure_assigned` never shrinks any
/// participant's seen-history — the history before the call is a prefix of
/// the history after it, for every participant.
pub proof fn lemma_history_monotone_ensure_assigned(
    pre: PlayerManager,
    post: PlayerManager,
    pid: i32,
    r: Result<MemeTemplate, AppError>,
    q: i32,
)
    requires
        pre.wf(),
        post.wf(),
        ensure_assigned_post(pre, post, pid, r),
        pre.directory.has_participant(q),
    ensures
        post.directory.has_participant(q),
        pre.directory.seen(q).is_prefix_of(post.directory.seen(q)),
{
    let iq = pre.directory.index_of(q);
    assert(pre.directory.participants@[iq].id == q);
    if pre.directory.has_participant(pid) && pre.directory.assigned(pid) is None
        && !pre.exhausted_for(pid) {
        let idx = pre.directory.index_of(pid);
        assert(post.directory.participants@[iq].id == q);
        post.directory.lemma_index_unique(q, iq);
        if iq == idx {
            lemma_prefix_push(pre.directory.seen(q), r->Ok_0.id);
        } else {
            lemma_prefix_reflexive(pre.directory.seen(q));
        }
    } else {
        assert(post == pre);
        lemma_prefix_reflexive(pre.directory.seen(q));
    }
}

/// Law (monotone history, reroll): a reroll never shrinks any participant's
/// seen-history either — failed rerolls change nothing, and a successful
/// one only appends.
pub proof fn lemma_history_monotone_reroll(
    pre: PlayerManager,
    post: PlayerManager,
    pid: i32,
    r: Result<MemeTemplate, AppError>,
    q: i32,
)
    requires
        pre.wf(),
        post.wf(),
        reroll_post(pre, post, pid, r),
        pre.directory.has_participant(q),
    ensures
        post.directory.has_participant(q),
        pre.directory.seen(q).is_prefix_of(post.directory.seen(q)),
{
    let iq = pre.directory.index_of(q);
    assert(pre.directory.participants@[iq].id == q);
    if pre.directory.has_participant(pid) && pre.directory.rerolls(pid) != 0
        && !pre.exhausted_for(pid) {
        let idx = pre.directory.index_of(pid);
        assert(post.directory.participants@[iq].id == q);
        post.directory.lemma_index_unique(q, iq);
        if iq == idx {
            lemma_prefix_push(pre.directory.seen(q), r->Ok_0.id);
        } else {
            lemma_prefix_reflexive(pre.directory.seen(q));
        }
    } else {
        assert(post == pre);
        lemma_prefix_reflexive(pre.directory.seen(q));
    }
}

/// Law (quota floor): a reroll at budget zero always fails `QuotaExhausted`
/// without mutating anything, and no reroll ever drives the budget below
/// zero.
pub proof fn lemma_quota_floor(
    pre: PlayerManager,
    post: PlayerManager,
    pid: i32,
    r: Result<MemeTemplate, AppError>,
)
    requires
        pre.wf(),
        post.wf(),
        reroll_post(pre, post, pid, r),
        pre.directory.has_participant(pid),
    ensures
        pre.directory.rerolls(pid) == 0 ==> r == Err::<MemeTemplate, AppError>(
            AppError::QuotaExhausted,
        ) && post == pre,
        post.directory.has_participant(pid),
        post.directory.rerolls(pid) >= 0,
{
    let idx = pre.directory.index_of(pid);
    assert(pre.directory.participants@[idx].id == pid);
    if pre.directory.rerolls(pid) != 0 && !pre.exhausted_for(pid) {
        assert(post.directory.participants@[idx].id == pid);
        post.directory.lemma_index_unique(pid, idx);
        assert(post.directory.participants@[idx].wf());
    } else {
        assert(post == pre);
    }
}

/// Law (idempotent view): two consecutive `view_current_assignment` calls
/// with no intervening reroll return the same template, and the second call
/// changes nothing.
pub proof fn lemma_view_idempotent(
    s0: PlayerManager,
    s1: PlayerManager,
    s2: PlayerManager,
    pid: i32,
    r1: Result<MemeTemplate, AppError>,
    r2: Result<MemeTemplate, AppError>,
)
    requires
        s0.wf(),
        s1.wf(),
        ensure_assigned_post(s0, s1, pid, r1),
        r1 is Ok,
        ensure_assigned_post(s1, s2, pid, r2),
    ensures
        r2 is Ok,
        s2 == s1,
        r2->Ok_0.id == r1->Ok_0.id,
        same_template(r1->Ok_0, r2->Ok_0),
{
    assert(s0.directory.has_participant(pid));
    let idx = s0.directory.index_of(pid);
    assert(s0.directory.participants@[idx].id == pid);
    if s0.directory.assigned(pid) is Some {
        assert(s1 == s0);
        assert(s1.directory.assigned(pid) == Some(r1->Ok_0.id));
    } else {
        assert(s1.directory.participants@[idx].id == pid);
        s1.directory.lemma_index_unique(pid, idx);
        assert(s1.directory.assigned(pid) == Some(r1->Ok_0.id));
        assert(s1.pool == s0.pool);
    }
    assert(s1.directory.has_participant(pid));
    assert(s1.directory.assigned(pid) is Some);
}

} // verus!
