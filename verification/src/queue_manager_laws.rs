//! Properties of the saved queue that span several operations.
use vstd::prelude::*;
use vstd::multiset::Multiset;
use vstd::seq_lib::lemma_multiset_commutative;
use crate::models::{lemma_task_position, task_id_differs, task_position, Task, TaskStatus};
use crate::queue_manager::{
    does_not_wait, progress_cleared, reordered_queue, reset_for_exit, take_by_ids, waits,
};

verus! {

broadcast use vstd::seq_lib::group_to_multiset_ensures, vstd::multiset::group_multiset_axioms;

proof fn lemma_split_by_waiting(s: Seq<Task>)
    ensures
        s.filter(|t: Task| does_not_wait(t)).to_multiset().add(
            s.filter(|t: Task| waits(t)).to_multiset(),
        ) == s.to_multiset(),
    decreases s.len(),
{
    reveal(Seq::filter);
    if s.len() == 0 {
        assert(s.filter(|t: Task| does_not_wait(t)) =~= Seq::<Task>::empty());
        assert(s.filter(|t: Task| waits(t)) =~= Seq::<Task>::empty());
        assert(s.to_multiset() =~= Multiset::empty());
    } else {
        lemma_split_by_waiting(s.drop_last());
        assert(s.drop_last().push(s.last()) =~= s);
    }
}

proof fn lemma_take_by_ids_multiset(remaining: Seq<Task>, ids: Seq<String>)
    ensures
        take_by_ids(remaining, ids).0.to_multiset().add(take_by_ids(remaining, ids).1.to_multiset())
            == remaining.to_multiset(),
    decreases ids.len(),
{
    if ids.len() == 0 {
        assert(Seq::<Task>::empty().to_multiset() =~= Multiset::empty());
    } else {
        lemma_task_position(remaining, ids[0]@);
        match task_position(remaining, ids[0]@) {
            Some(p) => {
                let rest = take_by_ids(remaining.remove(p), ids.drop_first());
                lemma_take_by_ids_multiset(remaining.remove(p), ids.drop_first());
                lemma_multiset_commutative(seq![remaining[p]], rest.0);
                assert(seq![remaining[p]] =~= Seq::<Task>::empty().push(remaining[p]));
                assert(Seq::<Task>::empty().to_multiset() =~= Multiset::empty());
                let single = seq![remaining[p]].to_multiset();
                assert(single =~= Multiset::empty().insert(remaining[p]));
                assert(remaining.remove(p).to_multiset() == remaining.to_multiset().remove(remaining[p]));
                assert(remaining.to_multiset().contains(remaining[p]));
                assert(single.add(rest.0.to_multiset()).add(rest.1.to_multiset()) =~= single.add(
                    rest.0.to_multiset().add(rest.1.to_multiset()),
                ));
                assert(single.add(remaining.to_multiset().remove(remaining[p]))
                    =~= remaining.to_multiset());
            },
            None => {
                lemma_take_by_ids_multiset(remaining, ids.drop_first());
            },
        }
    }
}

/// Reordering the saved queue neither adds, drops nor duplicates a task: after
/// `QueueManager::reorder_tasks` the queue holds the same tasks, each as often
/// as before.
pub proof fn law_saved_reorder_is_a_permutation(tasks: Seq<Task>, ids: Seq<String>)
    ensures
        reordered_queue(tasks, ids).to_multiset() == tasks.to_multiset(),
        reordered_queue(tasks, ids).len() == tasks.len(),
{
    let w = tasks.filter(|t: Task| waits(t));
    let nw = tasks.filter(|t: Task| does_not_wait(t));
    let taken = take_by_ids(w, ids);
    lemma_split_by_waiting(tasks);
    lemma_take_by_ids_multiset(w, ids);
    lemma_multiset_commutative(nw + taken.0, taken.1);
    lemma_multiset_commutative(nw, taken.0);
    assert(reordered_queue(tasks, ids).to_multiset() =~= tasks.to_multiset());
    reordered_queue(tasks, ids).to_multiset_ensures();
    tasks.to_multiset_ensures();
}

/// Adding a task whose id is not queued and removing it again by id gives the
/// saved queue back as it was.
pub proof fn law_saved_remove_undoes_add(tasks: Seq<Task>, task: Task)
    requires
        forall|j: int| 0 <= j < tasks.len() ==> tasks[j].id@ != task.id@,
        task.status == TaskStatus::Waiting,
    ensures
        task_position(tasks.push(task), task.id@) == Some(tasks.len() as int),
        tasks.push(task).filter(task_id_differs(task.id@)) == tasks,
{
    let s = tasks.push(task);
    lemma_task_position(s, task.id@);
    assert(crate::models::first_task_with_id(s, task.id@, tasks.len() as int)) by {
        assert forall|j: int| 0 <= j < tasks.len() implies s[j].id@ != task.id@ by {
            assert(s[j] == tasks[j]);
        }
    }
    reveal(Seq::filter);
    assert(s.drop_last() =~= tasks);
    assert(tasks.filter(task_id_differs(task.id@)) =~= tasks) by {
        lemma_filter_all(tasks, task.id@);
    }
}

proof fn lemma_filter_all(tasks: Seq<Task>, id: Seq<char>)
    requires
        forall|j: int| 0 <= j < tasks.len() ==> tasks[j].id@ != id,
    ensures
        tasks.filter(task_id_differs(id)) == tasks,
    decreases tasks.len(),
{
    reveal(Seq::filter);
    if tasks.len() > 0 {
        lemma_filter_all(tasks.drop_last(), id);
        assert(tasks.drop_last().push(tasks.last()) =~= tasks);
    } else {
        assert(tasks.filter(task_id_differs(id)) =~= tasks);
    }
}

/// After `QueueManager::prepare_for_exit` no saved task is downloading: each
/// downloading task waits again with no progress, the others are unchanged.
pub proof fn law_saved_exit_leaves_nothing_downloading(before: Seq<Task>, after: Seq<Task>)
    requires
        reset_for_exit(before, after),
    ensures
        forall|i: int| 0 <= i < after.len() ==> #[trigger] after[i].status != TaskStatus::Downloading,
        after.len() == before.len(),
{
    assert forall|i: int| 0 <= i < after.len() implies #[trigger] after[i].status
        != TaskStatus::Downloading by {
        if before[i].status == TaskStatus::Downloading {
            assert(progress_cleared(
                before[i],
                after[i],
                TaskStatus::Waiting,
                before[i].retry_count,
                before[i].error_message,
            ));
        }
    }
}

} // verus!
