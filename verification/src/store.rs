use vstd::prelude::*;
use crate::task::{Task, TaskView, task_id};

verus! {

/// The tasks table together with the id counter the store assigns ids from.
pub struct TaskStore {
    pub tasks: Vec<Task>,
    pub next_id: i32,
}

/// Mathematical image of a [`TaskStore`]: the rows in insertion order and the
/// value the next assigned id will take.
#[verifier::ext_equal]
pub ghost struct StoreView {
    pub tasks: Seq<TaskView>,
    pub next_id: int,
}

/// The views of a sequence of tasks, in order.
pub open spec fn task_views(ts: Seq<Task>) -> Seq<TaskView> {
    ts.map_values(|t: Task| t@)
}

impl View for TaskStore {
    type V = StoreView;

    open spec fn view(&self) -> StoreView {
        StoreView { tasks: task_views(self.tasks@), next_id: self.next_id as int }
    }
}

/// Well-formedness of the store: the counter is a positive `i32`, every row
/// carries an id below the counter, and ids grow strictly with insertion
/// order (which also makes them unique).
pub open spec fn store_wf(s: StoreView) -> bool {
    &&& 1 <= s.next_id <= i32::MAX as int
    &&& forall|i: int|
        0 <= i < s.tasks.len() ==> (#[trigger] s.tasks[i]).id is Some && 1 <= task_id(s.tasks[i])
            < s.next_id
    &&& forall|i: int, j: int|
        0 <= i < j < s.tasks.len() ==> task_id(#[trigger] s.tasks[i]) < task_id(
            #[trigger] s.tasks[j],
        )
}

/// The row the store adds for a create call received in state `s`.
pub open spec fn created_task(
    s: StoreView,
    title: Seq<char>,
    description: Seq<char>,
    completed: bool,
) -> TaskView {
    TaskView { id: Some(s.next_id), title, description, completed }
}

/// Effect of a create on the table: the new row is appended and the counter
/// advances by one.
pub open spec fn spec_create(
    s: StoreView,
    title: Seq<char>,
    description: Seq<char>,
    completed: bool,
) -> StoreView {
    StoreView {
        tasks: s.tasks.push(created_task(s, title, description, completed)),
        next_id: s.next_id + 1,
    }
}

/// Holds of the rows a delete of `id` leaves behind.
pub open spec fn keeps(id: int) -> spec_fn(TaskView) -> bool {
    |t: TaskView| t.id != Some(id)
}

/// Effect of a delete on the table: every row carrying `id` goes, the rest
/// stay in their order, and the counter does not move.
pub open spec fn spec_delete(s: StoreView, id: int) -> StoreView {
    StoreView { tasks: s.tasks.filter(keeps(id)), next_id: s.next_id }
}

/// Whether some row of `tasks` carries `id`.
pub open spec fn has_task_with_id(tasks: Seq<TaskView>, id: int) -> bool {
    exists|i: int| 0 <= i < tasks.len() && tasks[i].id == Some(id)
}

impl TaskStore {
    /// Well-formedness, stated on the view.
    pub open spec fn wf(&self) -> bool {
        store_wf(self@)
    }

    /// An empty store; the first assigned id will be 1.
    pub fn new() -> (s: TaskStore)
        ensures
            s.wf(),
            s@.tasks.len() == 0,
            s@.next_id == 1,
    {
        TaskStore { tasks: Vec::new(), next_id: 1 }
    }

    /// Whether the store can still assign a fresh id.
    pub fn can_insert(&self) -> (b: bool)
        ensures
            b == (self@.next_id < i32::MAX as int),
    {
        self.next_id < i32::MAX
    }

    /// Inserts a new row built from the given fields. The store assigns the
    /// id: the returned task carries `Some(next_id)`, strictly greater than
    /// the id of every row already present.
    pub fn insert(&mut self, title: String, description: String, completed: bool) -> (t: Task)
        requires
            old(self).wf(),
            old(self)@.next_id < i32::MAX as int,
        ensures
            final(self).wf(),
            final(self)@ == spec_create(old(self)@, title@, description@, completed),
            t@ == created_task(old(self)@, title@, description@, completed),
            forall|i: int|
                0 <= i < old(self)@.tasks.len() ==> task_id(#[trigger] old(self)@.tasks[i])
                    < task_id(t@),
    {
        let id = self.next_id;
        let t = Task { id: Some(id), title, description, completed };
        let result = t.duplicate();
        self.tasks.push(t);
        self.next_id = id + 1;
        proof {
            assert(self@.tasks =~= old(self)@.tasks.push(result@));
            assert(self@ =~= spec_create(old(self)@, result@.title, result@.description, result@.completed));
            assert forall|i: int, j: int| 0 <= i < j < self@.tasks.len() implies task_id(
                self@.tasks[i],
            ) < task_id(self@.tasks[j]) by {
                if j < self@.tasks.len() - 1 {
                    assert(task_id(old(self)@.tasks[i]) < task_id(old(self)@.tasks[j]));
                } else {
                    assert(self@.tasks[i] == old(self)@.tasks[i]);
                }
            }
        }
        result
    }

    /// A copy of every row, in store order.
    pub fn list(&self) -> (r: Vec<Task>)
        ensures
            task_views(r@) == self@.tasks,
    {
        let mut out: Vec<Task> = Vec::new();
        let mut i: usize = 0;
        while i < self.tasks.len()
            invariant
                i <= self.tasks.len(),
                out@.len() == i,
                task_views(out@) == self@.tasks.take(i as int),
            decreases self.tasks.len() - i,
        {
            let t: &Task = &self.tasks[i];
            let ghost prev = out@;
            out.push(t.duplicate());
            proof {
                assert forall|k: int| 0 <= k < out@.len() implies task_views(out@)[k]
                    == self@.tasks.take(i as int + 1)[k] by {
                    if k < i as int {
                        assert(out@[k] == prev[k]);
                        assert(task_views(prev)[k] == self@.tasks.take(i as int)[k]);
                    } else {
                        assert(out@[k]@ == self.tasks@[i as int]@);
                    }
                }
                assert(task_views(out@) =~= self@.tasks.take(i as int + 1));
            }
            i += 1;
        }
        proof {
            assert(self@.tasks.take(self.tasks@.len() as int) =~= self@.tasks);
        }
        out
    }

    /// Removes every row carrying `id` (at most one in a well-formed store)
    /// and reports whether any row did.
    pub fn remove_by_id(&mut self, id: i32) -> (removed: bool)
        requires
            old(self).wf(),
        ensures
            final(self).wf(),
            final(self)@ == spec_delete(old(self)@, id as int),
            removed == has_task_with_id(old(self)@.tasks, id as int),
    {
        let ghost gid: int = id as int;
        let ghost orig: Seq<TaskView> = old(self)@.tasks;
        let mut kept: Vec<Task> = Vec::new();
        let mut removed: bool = false;
        let mut i: usize = 0;
        while i < self.tasks.len()
            invariant
                *self == *old(self),
                i <= self.tasks.len(),
                gid == id as int,
                orig == self@.tasks,
                task_views(kept@) == orig.take(i as int).filter(keeps(gid)),
                removed == has_task_with_id(orig.take(i as int), gid),
            decreases self.tasks.len() - i,
        {
            let ghost prefix = orig.take(i as int);
            let ghost prefix1 = orig.take(i as int + 1);
            let t: &Task = &self.tasks[i];
            let hit: bool = t.has_id(id);
            proof {
                assert(orig.len() == self.tasks@.len());
                assert(prefix1.len() == i as int + 1);
                assert(orig[i as int] == t@);
                assert(prefix1[i as int] == orig[i as int]);
                assert(prefix1.drop_last() =~= prefix);
                assert(prefix1.last() == orig[i as int]);
            }
            if hit {
                removed = true;
                proof {
                    reveal(Seq::filter);
                    assert(t@.id == Some(gid));
                    assert(prefix1[i as int].id == Some(gid));
                    assert(has_task_with_id(prefix1, gid));
                    assert(!(keeps(gid)(prefix1.last())));
                    assert(prefix1.filter(keeps(gid)) == prefix.filter(keeps(gid)));
                }
            } else {
                let ghost prevk = kept@;
                kept.push(t.duplicate());
                proof {
                    reveal(Seq::filter);
                    assert(t@.id != Some(gid));
                    assert(prevk.len() == prefix.filter(keeps(gid)).len());
                    assert(keeps(gid)(prefix1.last()));
                    assert(prefix1.filter(keeps(gid)) == prefix.filter(keeps(gid)).push(
                        orig[i as int],
                    ));
                    assert forall|k: int| 0 <= k < kept@.len() implies task_views(kept@)[k]
                        == prefix1.filter(keeps(gid))[k] by {
                        if k < prevk.len() {
                            assert(kept@[k] == prevk[k]);
                            assert(task_views(prevk)[k] == prefix.filter(keeps(gid))[k]);
                        } else {
                            assert(kept@[k]@ == self.tasks@[i as int]@);
                        }
                    }
                    assert(task_views(kept@) =~= prefix1.filter(keeps(gid)));
                    if has_task_with_id(prefix1, gid) {
                        let w = choose|k: int|
                            0 <= k < prefix1.len() && prefix1[k].id == Some(gid);
                        assert(w < i as int);
                        assert(prefix[w].id == Some(gid));
                        assert(has_task_with_id(prefix, gid));
                    }
                    if has_task_with_id(prefix, gid) {
                        let w = choose|k: int| 0 <= k < prefix.len() && prefix[k].id == Some(gid);
                        assert(prefix1[w].id == Some(gid));
                        assert(has_task_with_id(prefix1, gid));
                    }
                }
            }
            i += 1;
        }
        proof {
            assert(orig.take(orig.len() as int) =~= orig);
        }
        self.tasks = kept;
        proof {
            lemma_filter_keeps_wf(orig, old(self)@.next_id, gid);
            assert(self@ =~= spec_delete(old(self)@, gid));
        }
        removed
    }
}

/// A delete preserves well-formedness: the surviving rows keep their ids,
/// their order, and their bound by the unchanged counter.
pub proof fn lemma_filter_keeps_wf(tasks: Seq<TaskView>, next_id: int, id: int)
    requires
        store_wf(StoreView { tasks, next_id }),
    ensures
        store_wf(StoreView { tasks: tasks.filter(keeps(id)), next_id }),
    decreases tasks.len(),
{
    reveal(Seq::filter);
    let f = tasks.filter(keeps(id));
    if tasks.len() > 0 {
        let prefix = tasks.drop_last();
        let last = tasks.last();
        assert forall|i: int| 0 <= i < prefix.len() implies (#[trigger] prefix[i]).id is Some && 1
            <= task_id(prefix[i]) < next_id by {
            assert(prefix[i] == tasks[i]);
        }
        assert forall|i: int, j: int| 0 <= i < j < prefix.len() implies task_id(
            #[trigger] prefix[i],
        ) < task_id(#[trigger] prefix[j]) by {
            assert(prefix[i] == tasks[i]);
            assert(prefix[j] == tasks[j]);
        }
        lemma_filter_keeps_wf(prefix, next_id, id);
        let fp = prefix.filter(keeps(id));
        assert forall|k: int| 0 <= k < fp.len() implies task_id(#[trigger] fp[k]) < task_id(
            last,
        ) by {
            assert(fp.contains(fp[k]));
            prefix.lemma_filter_contains_rev(keeps(id), fp[k]);
            let j = choose|j: int| 0 <= j < prefix.len() && prefix[j] == fp[k];
            assert(prefix[j] == tasks[j]);
            assert(task_id(tasks[j]) < task_id(tasks[tasks.len() - 1]));
        }
        if keeps(id)(last) {
            assert(f == fp.push(last));
            assert forall|i: int| 0 <= i < f.len() implies (#[trigger] f[i]).id is Some && 1
                <= task_id(f[i]) < next_id by {
                if i < fp.len() {
                    assert(f[i] == fp[i]);
                } else {
                    assert(f[i] == last);
                    assert(last == tasks[tasks.len() - 1]);
                }
            }
            assert forall|i: int, j: int| 0 <= i < j < f.len() implies task_id(
                #[trigger] f[i],
            ) < task_id(#[trigger] f[j]) by {
                assert(f[i] == fp[i]);
                if j < fp.len() {
                    assert(f[j] == fp[j]);
                } else {
                    assert(f[j] == last);
                }
            }
        } else {
            assert(f == fp);
        }
    }
}

} // verus!
