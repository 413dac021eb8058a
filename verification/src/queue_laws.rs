//! Properties of the queue that span several operations.
use vstd::prelude::*;
use vstd::multiset::Multiset;
use vstd::seq_lib::lemma_multiset_commutative;
use crate::queue::{
    has_id, id_differs, ids_unique, is_not_waiting_task, is_terminal_task, is_waiting_task,
    lemma_position_of_facts, lemma_position_of_first, pending_after_push, pick_by_ids, position_of,
    reordered, reset_downloading, terminal_pred,
};
use crate::task::{Task, TaskStatus};

verus! {

broadcast use vstd::seq_lib::group_to_multiset_ensures, vstd::multiset::group_multiset_axioms;

proof fn lemma_partition_multiset(s: Seq<Task>)
    ensures
        s.filter(|t: Task| is_not_waiting_task(t)).to_multiset().add(
            s.filter(|t: Task| is_waiting_task(t)).to_multiset(),
        ) == s.to_multiset(),
    decreases s.len(),
{
    reveal(Seq::filter);
    if s.len() == 0 {
        assert(s.filter(|t: Task| is_not_waiting_task(t)) =~= Seq::<Task>::empty());
        assert(s.filter(|t: Task| is_waiting_task(t)) =~= Seq::<Task>::empty());
        assert(s.to_multiset() =~= Multiset::empty());
    } else {
        lemma_partition_multiset(s.drop_last());
        assert(s.drop_last().push(s.last()) =~= s);
    }
}

proof fn lemma_pick_multiset(remaining: Seq<Task>, ids: Seq<String>)
    ensures
        pick_by_ids(remaining, ids).0.to_multiset().add(pick_by_ids(remaining, ids).1.to_multiset())
            == remaining.to_multiset(),
    decreases ids.len(),
{
    if ids.len() == 0 {
        assert(Seq::<Task>::empty().to_multiset() =~= Multiset::empty());
    } else {
        lemma_position_of_facts(remaining, ids[0]@);
        match position_of(remaining, ids[0]@) {
            Some(p) => {
                let rest = pick_by_ids(remaining.remove(p), ids.drop_first());
                lemma_pick_multiset(remaining.remove(p), ids.drop_first());
                lemma_multiset_commutative(seq![remaining[p]], rest.0);
                assert(seq![remaining[p]] =~= Seq::<Task>::empty().push(remaining[p]));
                assert(Seq::<Task>::empty().to_multiset() =~= Multiset::empty());
                let single = seq![remaining[p]].to_multiset();
                assert(single =~= Multiset::empty().insert(remaining[p]));
                assert(remaining.remove(p).to_multiset() == remaining.to_multiset().remove(remaining[p]));
                assert(remaining.to_multiset().contains(remaining[p]));
                assert(pick_by_ids(remaining, ids).0 == seq![remaining[p]] + rest.0);
                assert(pick_by_ids(remaining, ids).1 == rest.1);
                assert(single.add(rest.0.to_multiset()).add(rest.1.to_multiset()) =~= single.add(
                    rest.0.to_multiset().add(rest.1.to_multiset()),
                ));
                assert(single.add(remaining.to_multiset().remove(remaining[p]))
                    =~= remaining.to_multiset());
            },
            None => {
                lemma_pick_multiset(remaining, ids.drop_first());
            },
        }
    }
}

/// Reordering the waiting tasks neither adds, drops nor duplicates a task: the
/// queue after [`QueueAggregate::reorder_waiting_tasks`] holds the same tasks,
/// each as often as before.
pub proof fn law_reorder_is_a_permutation(tasks: Seq<Task>, ids: Seq<String>)
    ensures
        reordered(tasks, ids).to_multiset() == tasks.to_multiset(),
        reordered(tasks, ids).len() == tasks.len(),
{
    let w = tasks.filter(|t: Task| is_waiting_task(t));
    let nw = tasks.filter(|t: Task| is_not_waiting_task(t));
    let picked = pick_by_ids(w, ids);
    lemma_partition_multiset(tasks);
    lemma_pick_multiset(w, ids);
    lemma_multiset_commutative(nw + picked.0, picked.1);
    lemma_multiset_commutative(nw, picked.0);
    assert(reordered(tasks, ids).to_multiset() =~= tasks.to_multiset());
    reordered(tasks, ids).to_multiset_ensures();
    tasks.to_multiset_ensures();
}

/// Adding a task whose id is not queued and removing it again by id gives the
/// queue back as it was: [`QueueAggregate::remove_task`] finds the added task at
/// the end of the queue, where [`QueueAggregate::add_task`] put it.
pub proof fn law_remove_undoes_add(tasks: Seq<Task>, task: Task)
    requires
        !has_id(tasks, task.id@),
    ensures
        position_of(tasks.push(task), task.id@) == Some(tasks.len() as int),
        tasks.push(task).remove(tasks.len() as int) == tasks,
{
    let s = tasks.push(task);
    assert forall|j: int| 0 <= j < tasks.len() implies s[j].id@ != task.id@ by {
        assert(s[j] == tasks[j]);
    }
    lemma_position_of_first(s, task.id@, tasks.len() as int);
    assert(s.remove(tasks.len() as int) =~= tasks);
}

/// Stopping a download and retrying the task brings it back to waiting with no
/// error, every other field as it was before the stop: the retry finds the
/// stopped task where the stop left it.
pub proof fn law_retry_after_stop_restores_waiting(tasks: Seq<Task>, id: Seq<char>, m: String)
    requires
        position_of(tasks, id) is Some,
        tasks[position_of(tasks, id)->0].status is Downloading,
    ensures
        ({
            let p = position_of(tasks, id)->0;
            let stopped = Task {
                status: TaskStatus::Cancelled,
                error_message: Some(m),
                ..tasks[p]
            };
            let after_stop = tasks.update(p, stopped);
            &&& position_of(after_stop, id) == Some(p)
            &&& after_stop[p].status is Cancelled
            &&& (Task { status: TaskStatus::Waiting, error_message: None, ..after_stop[p] })
                == (Task { status: TaskStatus::Waiting, error_message: None, ..tasks[p] })
        }),
{
    let p = position_of(tasks, id)->0;
    lemma_position_of_facts(tasks, id);
    let stopped = Task { status: TaskStatus::Cancelled, error_message: Some(m), ..tasks[p] };
    let after_stop = tasks.update(p, stopped);
    assert forall|j: int| 0 <= j < p implies after_stop[j].id@ != id by {
        assert(after_stop[j] == tasks[j]);
    }
    lemma_position_of_first(after_stop, id, p);
}

proof fn lemma_filter_keeps_ids_unique(s: Seq<Task>, pred: spec_fn(Task) -> bool)
    requires
        ids_unique(s),
    ensures
        ids_unique(s.filter(pred)),
        forall|k: int|
            0 <= k < s.filter(pred).len() ==> exists|j: int|
                0 <= j < s.len() && s[j] == #[trigger] s.filter(pred)[k],
    decreases s.len(),
{
    reveal(Seq::filter);
    if s.len() > 0 {
        let d = s.drop_last();
        assert(ids_unique(d)) by {
            assert forall|i: int, j: int| 0 <= i < j < d.len() implies #[trigger] d[i].id@
                != #[trigger] d[j].id@ by {
                assert(d[i] == s[i] && d[j] == s[j]);
            }
        }
        lemma_filter_keeps_ids_unique(d, pred);
        let f = d.filter(pred);
        if pred(s.last()) {
            let g = f.push(s.last());
            assert forall|k: int| 0 <= k < g.len() implies exists|j: int|
                0 <= j < s.len() && s[j] == #[trigger] g[k] by {
                if k < f.len() {
                    let j = choose|j: int| 0 <= j < d.len() && d[j] == #[trigger] f[k];
                    assert(s[j] == g[k]);
                } else {
                    assert(s[s.len() - 1] == g[k]);
                }
            }
            assert forall|i: int, j: int| 0 <= i < j < g.len() implies #[trigger] g[i].id@
                != #[trigger] g[j].id@ by {
                if j == f.len() {
                    let a = choose|a: int| 0 <= a < d.len() && d[a] == #[trigger] f[i];
                    assert(s[a] == g[i]);
                    assert(s[s.len() - 1] == g[j]);
                } else {
                    assert(g[i] == f[i] && g[j] == f[j]);
                }
            }
        } else {
            assert forall|k: int| 0 <= k < f.len() implies exists|j: int|
                0 <= j < s.len() && s[j] == #[trigger] f[k] by {
                let j = choose|j: int| 0 <= j < d.len() && d[j] == #[trigger] f[k];
                assert(s[j] == f[k]);
            }
        }
    }
}

/// The pending history never holds two tasks with the same id once it starts
/// without: offering a task, clearing an id and keeping only finished tasks all
/// keep the ids distinct.
pub proof fn law_pending_history_ids_stay_unique(pending: Seq<Task>, task: Task, id: Seq<char>)
    requires
        ids_unique(pending),
    ensures
        ids_unique(pending_after_push(pending, task)),
        ids_unique(pending.filter(id_differs(id))),
        ids_unique(pending.filter(terminal_pred())),
{
    lemma_filter_keeps_ids_unique(pending, id_differs(id));
    lemma_filter_keeps_ids_unique(pending, terminal_pred());
    if !has_id(pending, task.id@) {
        let g = pending.push(task);
        assert forall|i: int, j: int| 0 <= i < j < g.len() implies #[trigger] g[i].id@
            != #[trigger] g[j].id@ by {
            assert(g[i] == pending[i]);
            if j < pending.len() {
                assert(g[j] == pending[j]);
            }
        }
    }
}

/// A staged task is pending for history afterwards, whether or not a task with
/// its id was pending already.
pub proof fn law_staged_task_is_pending(pending: Seq<Task>, task: Task)
    ensures
        has_id(pending_after_push(pending, task), task.id@),
{
    if !has_id(pending, task.id@) {
        let g = pending.push(task);
        assert(g[pending.len() as int] == task);
    }
}

/// After [`QueueAggregate::prepare_for_exit`] no task is downloading, and doing
/// it a second time changes nothing.
pub proof fn law_exit_leaves_nothing_downloading(tasks: Seq<Task>)
    ensures
        forall|i: int|
            0 <= i < reset_downloading(tasks).len() ==> !(#[trigger] reset_downloading(tasks)[i].status is Downloading),
        reset_downloading(reset_downloading(tasks)) == reset_downloading(tasks),
{
    assert(reset_downloading(reset_downloading(tasks)) =~= reset_downloading(tasks));
}

/// After [`QueueAggregate::normalize_after_restart`] only completed and failed
/// tasks are pending for history.
pub proof fn law_restart_keeps_only_finished_pending(pending: Seq<Task>)
    ensures
        forall|i: int|
            0 <= i < pending.filter(terminal_pred()).len() ==> is_terminal_task(
                #[trigger] pending.filter(terminal_pred())[i],
            ),
{
    assert forall|i: int|
        0 <= i < pending.filter(terminal_pred()).len() implies is_terminal_task(
        #[trigger] pending.filter(terminal_pred())[i],
    ) by {
        pending.lemma_filter_pred(terminal_pred(), i);
    }
}

} // verus!
