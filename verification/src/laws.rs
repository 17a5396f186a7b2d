use vstd::prelude::*;
use crate::store::{
    created_task, has_task_with_id, keeps, spec_create, spec_delete, store_wf, StoreView,
};
use crate::task::{task_id, TaskView};

verus! {

/// Law: a create performed in state `s` returns the counter's value as the
/// new id, and that id is strictly greater than the id of every row already
/// stored.
pub proof fn lemma_created_id_fresh(
    s: StoreView,
    title: Seq<char>,
    description: Seq<char>,
    completed: bool,
)
    requires
        store_wf(s),
        s.next_id < i32::MAX as int,
    ensures
        created_task(s, title, description, completed).id == Some(s.next_id),
        forall|i: int|
            0 <= i < s.tasks.len() ==> task_id(#[trigger] s.tasks[i]) < task_id(
                created_task(s, title, description, completed),
            ),
{
}

/// Law: after a create, the table holds the created row in last position and
/// no other row carries its id.
pub proof fn lemma_create_appears_once(
    s: StoreView,
    title: Seq<char>,
    description: Seq<char>,
    completed: bool,
)
    requires
        store_wf(s),
        s.next_id < i32::MAX as int,
    ensures
        ({
            let s1 = spec_create(s, title, description, completed);
            let t = created_task(s, title, description, completed);
            &&& s1.tasks.len() == s.tasks.len() + 1
            &&& s1.tasks.last() == t
            &&& forall|i: int| 0 <= i < s1.tasks.len() - 1 ==> (#[trigger] s1.tasks[i]).id != t.id
        }),
{
    let s1 = spec_create(s, title, description, completed);
    let t = created_task(s, title, description, completed);
    assert forall|i: int| 0 <= i < s1.tasks.len() - 1 implies (#[trigger] s1.tasks[i]).id
        != t.id by {
        assert(s1.tasks[i] == s.tasks[i]);
        assert(task_id(s.tasks[i]) < s.next_id);
    }
}

/// Law: no row of a delete's result carries the deleted id.
pub proof fn lemma_delete_leaves_no_id(s: StoreView, id: int)
    ensures
        !has_task_with_id(spec_delete(s, id).tasks, id),
{
    let f = s.tasks.filter(keeps(id));
    if has_task_with_id(f, id) {
        let w = choose|k: int| 0 <= k < f.len() && f[k].id == Some(id);
        s.tasks.lemma_filter_pred(keeps(id), w);
        assert(keeps(id)(f[w]));
        assert(false);
    }
}

/// A delete whose id no row carries leaves the table unchanged.
proof fn lemma_filter_all_kept(tasks: Seq<TaskView>, id: int)
    requires
        forall|i: int| 0 <= i < tasks.len() ==> (#[trigger] tasks[i]).id != Some(id),
    ensures
        tasks.filter(keeps(id)) == tasks,
    decreases tasks.len(),
{
    reveal(Seq::filter);
    if tasks.len() > 0 {
        let prefix = tasks.drop_last();
        assert forall|i: int| 0 <= i < prefix.len() implies (#[trigger] prefix[i]).id
            != Some(id) by {
            assert(prefix[i] == tasks[i]);
        }
        lemma_filter_all_kept(prefix, id);
        assert(keeps(id)(tasks.last()));
        assert(prefix.push(tasks.last()) =~= tasks);
    }
}

/// Law: deleting the id a create returned removes exactly the created row.
/// No row with that id survives, and the table returns to what it held
/// before the create (the id counter stays advanced: ids are never reused).
pub proof fn lemma_create_then_delete_restores(
    s: StoreView,
    title: Seq<char>,
    description: Seq<char>,
    completed: bool,
)
    requires
        store_wf(s),
        s.next_id < i32::MAX as int,
    ensures
        ({
            let s1 = spec_create(s, title, description, completed);
            let s2 = spec_delete(s1, s.next_id);
            &&& !has_task_with_id(s2.tasks, s.next_id)
            &&& s2.tasks == s.tasks
            &&& s2.next_id == s.next_id + 1
        }),
{
    let s1 = spec_create(s, title, description, completed);
    let t = created_task(s, title, description, completed);
    lemma_delete_leaves_no_id(s1, s.next_id);
    assert forall|i: int| 0 <= i < s.tasks.len() implies (#[trigger] s.tasks[i]).id
        != Some(s.next_id) by {
        assert(task_id(s.tasks[i]) < s.next_id);
    }
    lemma_filter_all_kept(s.tasks, s.next_id);
    reveal(Seq::filter);
    assert(s1.tasks.drop_last() =~= s.tasks);
    assert(!keeps(s.next_id)(t));
    assert(s1.tasks.filter(keeps(s.next_id)) == s.tasks);
}

/// Law: two distinct rows of a well-formed table never carry the same id, so
/// every create observed by a caller got an id of its own.
pub proof fn lemma_ids_unique(s: StoreView, i: int, j: int)
    requires
        store_wf(s),
        0 <= i < s.tasks.len(),
        0 <= j < s.tasks.len(),
        i != j,
    ensures
        s.tasks[i].id != s.tasks[j].id,
{
    if i < j {
        assert(task_id(s.tasks[i]) < task_id(s.tasks[j]));
    } else {
        assert(task_id(s.tasks[j]) < task_id(s.tasks[i]));
    }
}

} // verus!
