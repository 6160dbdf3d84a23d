use vstd::prelude::*;
use crate::task::{Task, TaskModel};

verus! {

/// The mathematical state of the repository: the current tasks in insertion
/// order, and the counter from which the next identifier will be drawn.
pub struct RepoModel {
    pub tasks: Seq<TaskModel>,
    pub next_id: nat,
}

/// Whether some task in `ts` carries the identifier `id`.
pub open spec fn has_id(ts: Seq<TaskModel>, id: nat) -> bool {
    exists|i: int| 0 <= i < ts.len() && ts[i].id == id
}

/// The position of the task carrying `id`; meaningful only when `has_id`
/// holds, and then unique whenever the identifiers are pairwise distinct.
pub open spec fn id_index(ts: Seq<TaskModel>, id: nat) -> int {
    choose|i: int| 0 <= i < ts.len() && ts[i].id == id
}

impl RepoModel {
    /// The repository invariant: the counter starts at one and exceeds every
    /// identifier ever issued, and the live identifiers are pairwise distinct.
    pub open spec fn wf(self) -> bool {
        &&& self.next_id >= 1
        &&& forall|i: int| 0 <= i < self.tasks.len() ==> (#[trigger] self.tasks[i].id) < self.next_id
        &&& forall|i: int, j: int|
            0 <= i < j < self.tasks.len() ==> #[trigger] self.tasks[i].id != #[trigger] self.tasks[j].id
    }

    /// The identifier that the next successful `create` will issue.
    pub open spec fn next_issued_id(self) -> nat {
        self.next_id
    }
}

/// The one failure the repository can signal: no task carries the given id.
#[derive(Clone, Copy, Debug, PartialEq, Eq, Structural)]
pub enum RepoError {
    NotFound,
}

/// The task repository: an ordered collection of tasks plus the counter for
/// the next identifier. The two are one state object, so a single exclusive
/// guard around the whole repository serializes every operation.
pub struct TaskRepo {
    tasks: Vec<Task>,
    next_id: usize,
}

impl View for TaskRepo {
    type V = RepoModel;

    closed spec fn view(&self) -> RepoModel {
        RepoModel { tasks: self.tasks@.map_values(|t: Task| t@), next_id: self.next_id as nat }
    }
}

impl TaskRepo {
    /// The invariant of the executable repository, stated on its model.
    pub open spec fn wf(&self) -> bool {
        self@.wf()
    }

    /// A fresh repository: no tasks, counter at one.
    pub fn new() -> (r: TaskRepo)
        ensures
            r.wf(),
            r@.tasks.len() == 0,
            r@.next_id == 1,
    {
        TaskRepo { tasks: Vec::new(), next_id: 1 }
    }

    /// Whether a `create` may still be performed: the identifier counter has
    /// not exhausted the machine word.
    pub fn can_create(&self) -> (b: bool)
        ensures
            b == (self@.next_id < usize::MAX),
    {
        self.next_id < usize::MAX
    }

    /// Create: appends a task with the given title under a fresh identifier
    /// and advances the counter. Never fails; the title is not validated.
    pub fn create(&mut self, title: String) -> (t: Task)
        requires
            old(self).wf(),
            old(self)@.next_id < usize::MAX,
        ensures
            final(self).wf(),
            t@.id == old(self)@.next_issued_id(),
            t@.title == title@,
            final(self)@.tasks == old(self)@.tasks.push(t@),
            final(self)@.next_id == old(self)@.next_id + 1,
    {
        let t = Task { id: self.next_id, title };
        let ret = t.clone();
        self.tasks.push(t);
        self.next_id = self.next_id + 1;
        proof {
            assert(self@.tasks =~= old(self)@.tasks.push(ret@));
            assert forall|i: int| 0 <= i < self@.tasks.len() implies (#[trigger] self@.tasks[i].id)
                < self@.next_id by {
                if i < old(self)@.tasks.len() {
                    assert(self@.tasks[i] == old(self)@.tasks[i]);
                }
            }
        }
        ret
    }

    /// Update: replaces the title of the task carrying `id` in place, leaving
    /// its position unchanged, and returns a copy of the updated task;
    /// signals `NotFound`, leaving the state untouched, exactly when no task
    /// carries `id`.
    pub fn update(&mut self, id: usize, new_title: String) -> (r: Result<Task, RepoError>)
        requires
            old(self).wf(),
        ensures
            final(self).wf(),
            final(self)@.next_id == old(self)@.next_id,
            match r {
                Ok(t) => {
                    &&& has_id(old(self)@.tasks, id as nat)
                    &&& t@ == (TaskModel { id: id as nat, title: new_title@ })
                    &&& final(self)@.tasks == old(self)@.tasks.update(
                        id_index(old(self)@.tasks, id as nat),
                        t@,
                    )
                },
                Err(e) => {
                    &&& e == RepoError::NotFound
                    &&& !has_id(old(self)@.tasks, id as nat)
                    &&& final(self)@.tasks == old(self)@.tasks
                },
            },
    {
        let n = self.tasks.len();
        let mut j: usize = 0;
        while j < n
            invariant
                old(self).wf(),
                *self == *old(self),
                n == self.tasks.len(),
                j <= n,
                forall|k: int| 0 <= k < j ==> (#[trigger] self@.tasks[k].id) != id as nat,
            decreases n - j,
        {
            if self.tasks[j].id == id {
                let t = Task { id, title: new_title };
                let ret = t.clone();
                self.tasks[j] = t;
                proof {
                    let m0 = old(self)@;
                    assert(m0.tasks[j as int].id == id as nat);
                    assert(has_id(m0.tasks, id as nat));
                    lemma_id_index_unique(m0.tasks, j as int);
                    assert(self@.tasks =~= m0.tasks.update(j as int, ret@));
                    lemma_update_same_id_wf(m0, j as int, ret@);
                }
                return Ok(ret);
            }
            j = j + 1;
        }
        proof {
            assert(!has_id(self@.tasks, id as nat));
        }
        Err(RepoError::NotFound)
    }

    /// Delete: removes the task carrying `id` from the sequence without
    /// reordering the survivors; signals `NotFound`, leaving the state
    /// untouched, exactly when no task carries `id`. The identifier counter
    /// is never decremented, so a deleted identifier is never reissued.
    pub fn delete(&mut self, id: usize) -> (r: Result<(), RepoError>)
        requires
            old(self).wf(),
        ensures
            final(self).wf(),
            final(self)@.next_id == old(self)@.next_id,
            match r {
                Ok(u) => {
                    &&& has_id(old(self)@.tasks, id as nat)
                    &&& final(self)@.tasks == old(self)@.tasks.remove(
                        id_index(old(self)@.tasks, id as nat),
                    )
                },
                Err(e) => {
                    &&& e == RepoError::NotFound
                    &&& !has_id(old(self)@.tasks, id as nat)
                    &&& final(self)@.tasks == old(self)@.tasks
                },
            },
    {
        let n = self.tasks.len();
        let mut j: usize = 0;
        while j < n
            invariant
                old(self).wf(),
                *self == *old(self),
                n == self.tasks.len(),
                j <= n,
                forall|k: int| 0 <= k < j ==> (#[trigger] self@.tasks[k].id) != id as nat,
            decreases n - j,
        {
            if self.tasks[j].id == id {
                self.tasks.remove(j);
                proof {
                    let m0 = old(self)@;
                    assert(m0.tasks[j as int].id == id as nat);
                    assert(has_id(m0.tasks, id as nat));
                    lemma_id_index_unique(m0.tasks, j as int);
                    assert(self@.tasks =~= m0.tasks.remove(j as int));
                    lemma_remove_wf(m0, j as int);
                }
                return Ok(());
            }
            j = j + 1;
        }
        proof {
            assert(!has_id(self@.tasks, id as nat));
        }
        Err(RepoError::NotFound)
    }

    /// List: a snapshot copy of the current tasks, in insertion order.
    /// Mutating the result does not affect the repository. Never fails.
    pub fn list(&self) -> (r: Vec<Task>)
        ensures
            r@.len() == self@.tasks.len(),
            forall|i: int| 0 <= i < r@.len() ==> (#[trigger] r@[i])@ == self@.tasks[i],
    {
        let mut out: Vec<Task> = Vec::new();
        let mut i: usize = 0;
        while i < self.tasks.len()
            invariant
                i <= self.tasks.len(),
                out@.len() == i,
                forall|k: int| 0 <= k < i ==> (#[trigger] out@[k])@ == self@.tasks[k],
            decreases self.tasks.len() - i,
        {
            out.push(self.tasks[i].clone());
            i = i + 1;
        }
        out
    }
}

/// Uniqueness: in every well-formed repository state — and every operation
/// ensures well-formedness, so in particular after any sequence of `create`
/// calls — the task identifiers are pairwise distinct.
pub proof fn lemma_ids_unique(m: RepoModel)
    requires
        m.wf(),
    ensures
        forall|i: int, j: int|
            0 <= i < m.tasks.len() && 0 <= j < m.tasks.len() && i != j
                ==> #[trigger] m.tasks[i].id != #[trigger] m.tasks[j].id,
{
}

/// Monotonicity: identifiers are issued in strictly increasing order.
/// A `create` at state `earlier` issues `earlier.next_issued_id()` and leaves
/// the counter at `earlier.next_id + 1`; no operation ever decreases the
/// counter, so any state `later` at which the next `create` runs satisfies
/// the premise, and that `create` issues a strictly larger identifier.
pub proof fn lemma_ids_monotonic(earlier: RepoModel, later: RepoModel)
    requires
        later.next_id >= earlier.next_id + 1,
    ensures
        later.next_issued_id() > earlier.next_issued_id(),
{
}

/// Id non-reuse: deleting a task never causes its identifier to be reissued.
/// The deleted identifier lies below the counter, and no operation ever
/// decreases the counter, so every `create` in any later state `later`
/// issues an identifier strictly above it.
pub proof fn lemma_deleted_id_not_reissued(m: RepoModel, i: int, later: RepoModel)
    requires
        m.wf(),
        0 <= i < m.tasks.len(),
        later.next_id >= m.next_id,
    ensures
        later.next_issued_id() > m.tasks[i].id,
{
}

/// Order preservation, update half: replacing the task at position `i` by
/// one carrying the same identifier keeps the length, keeps every identifier
/// at its position, and leaves every other task untouched.
pub proof fn lemma_update_preserves_order(ts: Seq<TaskModel>, i: int, t: TaskModel)
    requires
        0 <= i < ts.len(),
        t.id == ts[i].id,
    ensures
        ts.update(i, t).len() == ts.len(),
        forall|k: int| 0 <= k < ts.len() ==> #[trigger] ts.update(i, t)[k].id == ts[k].id,
        forall|k: int| 0 <= k < ts.len() && k != i ==> #[trigger] ts.update(i, t)[k] == ts[k],
        ts.update(i, t)[i] == t,
{
}

/// Order preservation, delete half: removing the task at position `i`
/// removes exactly one slot and shifts nothing but the tail, so the
/// survivors keep their relative order.
pub proof fn lemma_delete_preserves_order(ts: Seq<TaskModel>, i: int)
    requires
        0 <= i < ts.len(),
    ensures
        ts.remove(i).len() == ts.len() - 1,
        forall|k: int| 0 <= k < i ==> #[trigger] ts.remove(i)[k] == ts[k],
        forall|k: int| i <= k < ts.len() - 1 ==> #[trigger] ts.remove(i)[k] == ts[k + 1],
{
}

/// Idempotent failure: after a successful delete of the task at position
/// `i`, its identifier is gone, so a second `delete` of the same identifier
/// must signal `NotFound` (by the `delete` contract, which returns an error
/// exactly when the identifier is absent).
pub proof fn lemma_delete_then_not_found(m: RepoModel, i: int)
    requires
        m.wf(),
        0 <= i < m.tasks.len(),
    ensures
        !has_id(m.tasks.remove(i), m.tasks[i].id),
{
    let id = m.tasks[i].id;
    let ts = m.tasks.remove(i);
    assert forall|k: int| 0 <= k < ts.len() implies (#[trigger] ts[k].id) != id by {
        if k < i {
            assert(ts[k] == m.tasks[k]);
        } else {
            assert(ts[k] == m.tasks[k + 1]);
        }
    }
}

/// Round-trip: after a `create` with some title on a well-formed state, the
/// listed sequence holds the new task, carrying that title and the issued
/// identifier, at the last position — and at no other position, so exactly
/// one task carries the issued identifier. Older tasks are untouched.
pub proof fn lemma_create_round_trip(m: RepoModel, title: Seq<char>)
    requires
        m.wf(),
    ensures
        ({
            let t = TaskModel { id: m.next_issued_id(), title: title };
            let ts = m.tasks.push(t);
            &&& ts.len() == m.tasks.len() + 1
            &&& ts[ts.len() - 1] == t
            &&& forall|k: int| 0 <= k < m.tasks.len() ==> #[trigger] ts[k] == m.tasks[k]
            &&& forall|k: int| 0 <= k < ts.len() && #[trigger] ts[k].id == t.id ==> k == ts.len() - 1
        }),
{
    let t = TaskModel { id: m.next_issued_id(), title: title };
    let ts = m.tasks.push(t);
    assert forall|k: int| 0 <= k < ts.len() && #[trigger] ts[k].id == t.id implies k == ts.len()
        - 1 by {
        if k < m.tasks.len() {
            assert(ts[k] == m.tasks[k]);
            assert(m.tasks[k].id < m.next_id);
        }
    }
}

/// In a sequence of pairwise-distinct identifiers, the position of the task
/// carrying `ts[j].id` is `j` itself.
pub proof fn lemma_id_index_unique(ts: Seq<TaskModel>, j: int)
    requires
        0 <= j < ts.len(),
        forall|i1: int, i2: int|
            0 <= i1 < i2 < ts.len() ==> #[trigger] ts[i1].id != #[trigger] ts[i2].id,
    ensures
        has_id(ts, ts[j].id),
        id_index(ts, ts[j].id) == j,
{
    let id = ts[j].id;
    assert(has_id(ts, id));
    let i = id_index(ts, id);
    assert(0 <= i < ts.len() && ts[i].id == id) by {
        assert(exists|k: int| 0 <= k < ts.len() && ts[k].id == id);
    }
    if i < j {
        assert(ts[i].id != ts[j].id);
    } else if j < i {
        assert(ts[j].id != ts[i].id);
    }
}

/// Replacing the task at `j` by one carrying the same identifier preserves
/// the repository invariant: every identifier stays in place.
pub proof fn lemma_update_same_id_wf(m: RepoModel, j: int, t: TaskModel)
    requires
        m.wf(),
        0 <= j < m.tasks.len(),
        t.id == m.tasks[j].id,
    ensures
        (RepoModel { tasks: m.tasks.update(j, t), next_id: m.next_id }).wf(),
{
    let ts = m.tasks.update(j, t);
    assert forall|i: int| 0 <= i < ts.len() implies (#[trigger] ts[i].id) == m.tasks[i].id by {}
}

/// Removing the task at `j` preserves the repository invariant: the
/// surviving identifiers are a subset of the old ones, kept in order.
pub proof fn lemma_remove_wf(m: RepoModel, j: int)
    requires
        m.wf(),
        0 <= j < m.tasks.len(),
    ensures
        (RepoModel { tasks: m.tasks.remove(j), next_id: m.next_id }).wf(),
{
    let ts = m.tasks.remove(j);
    assert forall|i: int| 0 <= i < ts.len() implies (#[trigger] ts[i].id) < m.next_id by {
        if i < j {
            assert(ts[i] == m.tasks[i]);
        } else {
            assert(ts[i] == m.tasks[i + 1]);
        }
    }
    assert forall|i1: int, i2: int| 0 <= i1 < i2 < ts.len() implies (#[trigger] ts[i1].id)
        != (#[trigger] ts[i2].id) by {
        let o1: int = if i1 < j { i1 } else { i1 + 1 };
        let o2: int = if i2 < j { i2 } else { i2 + 1 };
        assert(ts[i1] == m.tasks[o1]);
        assert(ts[i2] == m.tasks[o2]);
    }
}

} // verus!
