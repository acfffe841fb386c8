//! The store: the tasks in the order in which they were added, and the id that
//! the next task will get.

use crate::models::task::{Task, TaskView};
use vstd::prelude::*;

verus! {

/// The tasks of a sequence as mathematical values, in the same order.
pub open spec fn views(tasks: Seq<Task>) -> Seq<TaskView> {
    tasks.map_values(|t: Task| t@)
}

/// Holds of the tasks whose id is not `id`.
pub open spec fn other_than(id: nat) -> spec_fn(TaskView) -> bool {
    |t: TaskView| t.id != id
}

/// A store as a mathematical value.
pub struct ListView {
    pub next_id: nat,
    pub tasks: Seq<TaskView>,
}

impl ListView {
    /// The store before anything was added.
    pub open spec fn empty() -> ListView {
        ListView { next_id: 1, tasks: Seq::empty() }
    }

    /// Whether some task has the id `id`.
    pub open spec fn has_id(self, id: nat) -> bool {
        exists|i: int| 0 <= i < self.tasks.len() && (#[trigger] self.tasks[i]).id == id
    }

    /// Whether the task at `i` has the id `id` and none before it has.
    pub open spec fn is_first(self, id: nat, i: int) -> bool {
        &&& 0 <= i < self.tasks.len()
        &&& self.tasks[i].id == id
        &&& forall|j: int| 0 <= j < i ==> (#[trigger] self.tasks[j]).id != id
    }

    /// Where the first task with the id `id` stands, if there is one.
    pub open spec fn position(self, id: nat) -> int {
        choose|i: int| self.is_first(id, i)
    }

    /// No two tasks share an id, and every id was handed out before `next_id`.
    pub open spec fn wf(self) -> bool {
        &&& forall|i: int| 0 <= i < self.tasks.len() ==> (#[trigger] self.tasks[i]).id
            < self.next_id
        &&& distinct_ids(self.tasks)
    }

    /// The store after `task` was appended and the next id moved on by one.
    pub open spec fn with_task(self, task: TaskView) -> ListView {
        ListView { next_id: self.next_id + 1, tasks: self.tasks.push(task) }
    }

    /// The store without the tasks whose id is `id`; the others keep their
    /// order.
    pub open spec fn without(self, id: nat) -> ListView {
        ListView { next_id: self.next_id, tasks: self.tasks.filter(other_than(id)) }
    }

    /// The store with `task` in place of the task at `i`.
    pub open spec fn with_replaced(self, i: int, task: TaskView) -> ListView {
        ListView { next_id: self.next_id, tasks: self.tasks.update(i, task) }
    }

    /// Where a task with the id `id` exists, `position` is the first of them.
    pub proof fn lemma_position(self, id: nat)
        requires
            self.has_id(id),
        ensures
            self.is_first(id, self.position(id)),
    {
        let i = choose|i: int| 0 <= i < self.tasks.len() && (#[trigger] self.tasks[i]).id == id;
        self.lemma_first_up_to(id, i);
    }

    /// Among the tasks up to one with the id `id`, one is the first with it.
    proof fn lemma_first_up_to(self, id: nat, i: int)
        requires
            0 <= i < self.tasks.len(),
            self.tasks[i].id == id,
        ensures
            exists|k: int| self.is_first(id, k),
        decreases i,
    {
        if exists|j: int| 0 <= j < i && (#[trigger] self.tasks[j]).id == id {
            let j = choose|j: int| 0 <= j < i && (#[trigger] self.tasks[j]).id == id;
            self.lemma_first_up_to(id, j);
        } else {
            assert(self.is_first(id, i));
        }
    }

    /// Taking out an id that no task has leaves every task in place.
    pub proof fn lemma_without_absent(self, id: nat)
        requires
            !self.has_id(id),
        ensures
            self.without(id) == self,
    {
        lemma_filter_keeps_all(self.tasks, other_than(id));
    }

    /// After an id was taken out, no task has it.
    pub proof fn lemma_without_has_no(self, id: nat)
        ensures
            !self.without(id).has_id(id),
    {
        let rest = self.without(id).tasks;
        assert forall|i: int| 0 <= i < rest.len() implies (#[trigger] rest[i]).id != id by {
            self.tasks.lemma_filter_pred(other_than(id), i);
        }
    }

    /// Taking tasks out keeps the store well formed.
    pub proof fn lemma_without_keeps_wf(self, id: nat)
        requires
            self.wf(),
        ensures
            self.without(id).wf(),
    {
        lemma_filter_keeps_distinct(self.tasks, other_than(id));
        let rest = self.without(id).tasks;
        assert forall|i: int| 0 <= i < rest.len() implies (#[trigger] rest[i]).id
            < self.next_id by {
            assert(rest.contains(rest[i]));
            self.tasks.lemma_filter_contains_rev(other_than(id), rest[i]);
            let k = choose|k: int| 0 <= k < self.tasks.len() && self.tasks[k] == rest[i];
            assert(self.tasks[k].id < self.next_id);
        }
    }

    /// Appending a task with the id `next_id` keeps the store well formed.
    pub proof fn lemma_with_task_keeps_wf(self, task: TaskView)
        requires
            self.wf(),
            task.id == self.next_id,
        ensures
            self.with_task(task).wf(),
    {
        let after = self.with_task(task).tasks;
        assert forall|i: int, j: int| 0 <= i < j < after.len() implies (#[trigger] after[i]).id
            != (#[trigger] after[j]).id by {
            assert(after[i] == self.tasks[i]);
            if j < self.tasks.len() {
                assert(after[j] == self.tasks[j]);
            }
        }
        assert forall|i: int| 0 <= i < after.len() implies (#[trigger] after[i]).id
            < self.next_id + 1 by {
            if i < self.tasks.len() {
                assert(after[i] == self.tasks[i]);
            }
        }
    }

    /// Putting a task in the place of one with the same id keeps the store well
    /// formed.
    pub proof fn lemma_with_replaced_keeps_wf(self, i: int, task: TaskView)
        requires
            self.wf(),
            0 <= i < self.tasks.len(),
            task.id == self.tasks[i].id,
        ensures
            self.with_replaced(i, task).wf(),
    {
        let after = self.with_replaced(i, task).tasks;
        assert forall|a: int, b: int| 0 <= a < b < after.len() implies (#[trigger] after[a]).id
            != (#[trigger] after[b]).id by {
            assert(after[a].id == self.tasks[a].id);
            assert(after[b].id == self.tasks[b].id);
        }
        assert forall|a: int| 0 <= a < after.len() implies (#[trigger] after[a]).id
            < self.next_id by {
            assert(after[a].id == self.tasks[a].id);
        }
    }

    /// The first task with an id is found at one place only.
    pub proof fn lemma_first_is_position(self, id: nat, i: int)
        requires
            self.is_first(id, i),
        ensures
            self.position(id) == i,
            self.has_id(id),
    {
        let p = self.position(id);
        assert(self.is_first(id, p));
        if p < i {
            assert(self.tasks[p].id != id);
        } else if i < p {
            assert(self.tasks[i].id != id);
        }
    }
}

/// Filtering one task more keeps it or drops it, and changes nothing before it.
pub proof fn lemma_filter_next(tasks: Seq<TaskView>, k: int, keep: spec_fn(TaskView) -> bool)
    requires
        0 <= k < tasks.len(),
    ensures
        tasks.take(k + 1).filter(keep) == if keep(tasks[k]) {
            tasks.take(k).filter(keep).push(tasks[k])
        } else {
            tasks.take(k).filter(keep)
        },
{
    reveal(Seq::filter);
    assert(tasks.take(k + 1).drop_last() =~= tasks.take(k));
}

/// Whether no two tasks of the sequence share an id.
pub open spec fn distinct_ids(tasks: Seq<TaskView>) -> bool {
    forall|i: int, j: int|
        0 <= i < j < tasks.len() ==> (#[trigger] tasks[i]).id != (#[trigger] tasks[j]).id
}

/// Filtering tasks whose ids differ leaves tasks whose ids differ.
pub proof fn lemma_filter_keeps_distinct(tasks: Seq<TaskView>, keep: spec_fn(TaskView) -> bool)
    requires
        distinct_ids(tasks),
    ensures
        distinct_ids(tasks.filter(keep)),
    decreases tasks.len(),
{
    reveal(Seq::filter);
    if tasks.len() > 0 {
        let front = tasks.drop_last();
        assert forall|i: int, j: int| 0 <= i < j < front.len() implies (#[trigger] front[i]).id
            != (#[trigger] front[j]).id by {
            assert(front[i] == tasks[i] && front[j] == tasks[j]);
        }
        lemma_filter_keeps_distinct(front, keep);
        let kept = front.filter(keep);
        if keep(tasks.last()) {
            let all = kept.push(tasks.last());
            assert forall|i: int, j: int| 0 <= i < j < all.len() implies (#[trigger] all[i]).id
                != (#[trigger] all[j]).id by {
                if j < kept.len() {
                    assert(all[i] == kept[i] && all[j] == kept[j]);
                } else {
                    assert(kept.contains(kept[i]));
                    front.lemma_filter_contains_rev(keep, kept[i]);
                    let k = choose|k: int| 0 <= k < front.len() && front[k] == kept[i];
                    assert(tasks[k] == kept[i]);
                    assert(tasks[k].id != tasks[tasks.len() - 1].id);
                }
            }
        }
    }
}

/// A filter that every task passes keeps the whole sequence.
pub proof fn lemma_filter_keeps_all(tasks: Seq<TaskView>, keep: spec_fn(TaskView) -> bool)
    requires
        forall|i: int| 0 <= i < tasks.len() ==> keep(#[trigger] tasks[i]),
    ensures
        tasks.filter(keep) == tasks,
    decreases tasks.len(),
{
    reveal(Seq::filter);
    if tasks.len() > 0 {
        lemma_filter_keeps_all(tasks.drop_last(), keep);
        assert(tasks.drop_last().push(tasks.last()) =~= tasks);
    }
}

/// The store of tasks.
#[derive(Clone, Debug)]
pub struct List {
    /// The id that the next task gets. It only grows: the id of a deleted task
    /// is not given out again.
    pub next_id: usize,
    /// The tasks, oldest first.
    pub list: Vec<Task>,
}

impl View for List {
    type V = ListView;

    open spec fn view(&self) -> ListView {
        ListView { next_id: self.next_id as nat, tasks: views(self.list@) }
    }
}

impl List {
    /// The empty store, whose first task will get the id 1.
    pub fn new() -> (store: List)
        ensures
            store@ == ListView::empty(),
            store@.wf(),
    {
        let store = List { next_id: 1, list: Vec::new() };
        assert(store@.tasks =~= Seq::<TaskView>::empty());
        store
    }

    /// Where the first task with the id `id` stands.
    pub fn find(&self, id: usize) -> (found: Option<usize>)
        ensures
            found matches Some(i) ==> self@.is_first(id as nat, i as int),
            found is None ==> !self@.has_id(id as nat),
    {
        let mut i: usize = 0;
        while i < self.list.len()
            invariant
                i <= self.list.len(),
                forall|j: int| 0 <= j < i ==> (#[trigger] self@.tasks[j]).id != id,
            decreases self.list.len() - i,
        {
            if self.list[i].id == id {
                return Some(i);
            }
            i += 1;
        }
        None
    }

    /// The first task with the id `id`, to be changed in place.
    pub fn find_mut(&mut self, id: usize) -> (found: Option<&mut Task>)
        ensures
            match found {
                Some(task) => {
                    let i = old(self)@.position(id as nat);
                    &&& old(self)@.is_first(id as nat, i)
                    &&& *task == old(self).list@[i]
                    &&& final(self).list@ == old(self).list@.update(i, *final(task))
                    &&& final(self).next_id == old(self).next_id
                },
                None => !old(self)@.has_id(id as nat) && *final(self) == *old(self),
            },
    {
        match self.find(id) {
            Some(i) => {
                proof {
                    self@.lemma_first_is_position(id as nat, i as int);
                }
                Some(&mut self.list[i])
            },
            None => None,
        }
    }

    /// Takes out the tasks with the id `id` and says whether there was one. The
    /// other tasks keep their order, and `next_id` stays.
    pub fn remove(&mut self, id: usize) -> (removed: bool)
        ensures
            final(self)@ == old(self)@.without(id as nat),
            removed == old(self)@.has_id(id as nat),
            removed == (final(self).list.len() != old(self).list.len()),
    {
        let ghost before = self@.tasks;
        let ghost keep = other_than(id as nat);
        let ghost mut k: int = 0;
        let mut removed: bool = false;
        let mut i: usize = 0;
        proof {
            reveal(Seq::filter);
            assert(before.take(0).filter(keep) =~= Seq::<TaskView>::empty());
            assert(self@.tasks.take(0) =~= Seq::<TaskView>::empty());
            assert(self@.tasks.skip(0) =~= before.skip(0));
        }
        while i < self.list.len()
            invariant
                self.next_id == old(self).next_id,
                before == old(self)@.tasks,
                keep == other_than(id as nat),
                0 <= i <= k <= before.len(),
                self.list.len() - i == before.len() - k,
                self@.tasks.skip(i as int) == before.skip(k),
                self@.tasks.take(i as int) == before.take(k).filter(keep),
                removed == (i < k),
                removed == exists|j: int| 0 <= j < k && (#[trigger] before[j]).id == id,
            decreases self.list.len() - i,
        {
            let ghost now = self@.tasks;
            proof {
                assert(now[i as int] == now.skip(i as int)[0]);
                assert(before[k] == before.skip(k)[0]);
                lemma_filter_next(before, k, keep);
            }
            if self.list[i].id == id {
                self.list.remove(i);
                proof {
                    assert(self@.tasks =~= now.remove(i as int));
                    let tail = self@.tasks.skip(i as int);
                    let rest = before.skip(k + 1);
                    assert forall|j: int| 0 <= j < rest.len() implies #[trigger] tail[j]
                        == rest[j] by {
                        assert(now.skip(i as int)[j + 1] == before.skip(k)[j + 1]);
                    }
                    assert(tail =~= rest);
                    assert(self@.tasks.take(i as int) =~= now.take(i as int));
                    assert(before[k].id == id);
                    k = k + 1;
                }
                removed = true;
            } else {
                proof {
                    let tail = self@.tasks.skip(i + 1);
                    let rest = before.skip(k + 1);
                    assert forall|j: int| 0 <= j < rest.len() implies #[trigger] tail[j]
                        == rest[j] by {
                        assert(now.skip(i as int)[j + 1] == before.skip(k)[j + 1]);
                    }
                    assert(tail =~= rest);
                    assert(self@.tasks.take(i + 1) =~= now.take(i as int).push(now[i as int]));
                    if removed {
                        let found = choose|j: int| 0 <= j < k && (#[trigger] before[j]).id == id;
                        assert(0 <= found < k + 1 && before[found].id == id);
                    }
                    k = k + 1;
                }
                i += 1;
            }
        }
        proof {
            assert(self@.tasks.take(i as int) =~= self@.tasks);
            assert(before.take(k) =~= before);
        }
        removed
    }
}

} // verus!
