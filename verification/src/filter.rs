//! The filter engine: derives the visible subset of a project's tasks from a
//! hide-completed flag and a case-insensitive substring query, pairing every
//! visible task with its original index so that later mutations address the
//! unfiltered list.

use vstd::prelude::*;

use crate::domain::{Task, TaskView};
use crate::text::{contains_chars, contains_seq, lower_of, lowercase, str_to_chars, trim_chars, trim_spec};

verus! {

/// A task is visible when it is not hidden as completed and it matches the
/// search text: a blank (trimmed-empty) search matches everything, any other
/// search matches case-insensitively as a substring.
pub open spec fn include_task(t: TaskView, hide_completed: bool, search: Seq<char>) -> bool {
    (!hide_completed || !t.done) && (trim_spec(search).len() == 0 || contains_seq(
        lower_of(t.name),
        lower_of(search),
    ))
}

/// The visible `(original index, task)` pairs among the first `n` tasks, in
/// original order.
pub open spec fn filter_upto(
    tasks: Seq<TaskView>,
    hide_completed: bool,
    search: Seq<char>,
    n: int,
) -> Seq<(int, TaskView)>
    decreases n,
{
    if n <= 0 {
        Seq::empty()
    } else if include_task(tasks[n - 1], hide_completed, search) {
        filter_upto(tasks, hide_completed, search, n - 1).push((n - 1, tasks[n - 1]))
    } else {
        filter_upto(tasks, hide_completed, search, n - 1)
    }
}

/// The visible `(original index, task)` pairs of the whole task list, in
/// original order.
pub open spec fn filter_view(
    tasks: Seq<TaskView>,
    hide_completed: bool,
    search: Seq<char>,
) -> Seq<(int, TaskView)> {
    filter_upto(tasks, hide_completed, search, tasks.len() as int)
}

/// The model of a filtered pair vector.
pub open spec fn pairs_view(r: Seq<(usize, Task)>) -> Seq<(int, TaskView)> {
    r.map_values(|p: (usize, Task)| (p.0 as int, p.1@))
}

/// Computes the visible tasks of `tasks` under the given filter, each paired
/// with its original index. The input is never mutated and indices are never
/// renumbered.
pub fn filter_tasks(tasks: &Vec<Task>, hide_completed: bool, search: &str) -> (r: Vec<
    (usize, Task),
>)
    ensures
        pairs_view(r@) == filter_view(tasks@.map_values(|t: Task| t@), hide_completed, search@),
{
    let ghost tviews = tasks@.map_values(|t: Task| t@);
    let search_chars = str_to_chars(search);
    let search_trimmed = trim_chars(&search_chars);
    let blank = search_trimmed.len() == 0;
    let needle_string = lowercase(search);
    let needle = str_to_chars(needle_string.as_str());
    let mut r: Vec<(usize, Task)> = Vec::new();
    let mut i: usize = 0;
    while i < tasks.len()
        invariant
            i <= tasks@.len(),
            tviews == tasks@.map_values(|t: Task| t@),
            blank == (trim_spec(search@).len() == 0),
            needle@ == lower_of(search@),
            pairs_view(r@) == filter_upto(tviews, hide_completed, search@, i as int),
        decreases tasks@.len() - i,
    {
        let t = &tasks[i];
        let visible = (!hide_completed || !t.done) && (blank || {
            let hay_string = lowercase(t.name.as_str());
            let hay = str_to_chars(hay_string.as_str());
            contains_chars(&hay, &needle)
        });
        if visible {
            proof {
                assert(include_task(tviews[i as int], hide_completed, search@));
            }
            r.push((i, t.clone()));
            proof {
                assert(pairs_view(r@) =~= filter_upto(tviews, hide_completed, search@, i + 1));
            }
        } else {
            proof {
                assert(!include_task(tviews[i as int], hide_completed, search@));
            }
        }
        i = i + 1;
    }
    r
}

/// Filter correctness: a task is in the filtered result exactly when the
/// inclusion predicate holds of it, every yielded pair carries the task at
/// its original index, and the included tasks keep their original relative
/// order (the yielded indices are strictly increasing).
pub proof fn lemma_filter_correct(tasks: Seq<TaskView>, hide_completed: bool, search: Seq<char>)
    ensures
        forall|k: int|
            #![trigger filter_view(tasks, hide_completed, search)[k]]
            0 <= k < filter_view(tasks, hide_completed, search).len() ==> {
                let p = filter_view(tasks, hide_completed, search)[k];
                0 <= p.0 < tasks.len() && p.1 == tasks[p.0] && include_task(
                    tasks[p.0],
                    hide_completed,
                    search,
                )
            },
        forall|i: int|
            #![trigger include_task(tasks[i], hide_completed, search)]
            0 <= i < tasks.len() && include_task(tasks[i], hide_completed, search)
                ==> filter_view(tasks, hide_completed, search).contains((i, tasks[i])),
        forall|k1: int, k2: int|
            #![trigger filter_view(tasks, hide_completed, search)[k1], filter_view(tasks, hide_completed, search)[k2]]
            0 <= k1 < k2 < filter_view(tasks, hide_completed, search).len() ==> filter_view(
                tasks,
                hide_completed,
                search,
            )[k1].0 < filter_view(tasks, hide_completed, search)[k2].0,
{
    lemma_filter_upto_correct(tasks, hide_completed, search, tasks.len() as int);
}

proof fn lemma_filter_upto_correct(
    tasks: Seq<TaskView>,
    hide_completed: bool,
    search: Seq<char>,
    n: int,
)
    requires
        n <= tasks.len(),
    ensures
        forall|k: int|
            #![trigger filter_upto(tasks, hide_completed, search, n)[k]]
            0 <= k < filter_upto(tasks, hide_completed, search, n).len() ==> {
                let p = filter_upto(tasks, hide_completed, search, n)[k];
                0 <= p.0 < n && p.1 == tasks[p.0] && include_task(
                    tasks[p.0],
                    hide_completed,
                    search,
                )
            },
        forall|i: int|
            #![trigger include_task(tasks[i], hide_completed, search)]
            0 <= i < n && include_task(tasks[i], hide_completed, search) ==> filter_upto(
                tasks,
                hide_completed,
                search,
                n,
            ).contains((i, tasks[i])),
        forall|k1: int, k2: int|
            #![trigger filter_upto(tasks, hide_completed, search, n)[k1], filter_upto(tasks, hide_completed, search, n)[k2]]
            0 <= k1 < k2 < filter_upto(tasks, hide_completed, search, n).len() ==> filter_upto(
                tasks,
                hide_completed,
                search,
                n,
            )[k1].0 < filter_upto(tasks, hide_completed, search, n)[k2].0,
    decreases n,
{
    if n > 0 {
        lemma_filter_upto_correct(tasks, hide_completed, search, n - 1);
        let prev = filter_upto(tasks, hide_completed, search, n - 1);
        let cur = filter_upto(tasks, hide_completed, search, n);
        assert forall|i: int|
            0 <= i < n && include_task(tasks[i], hide_completed, search) implies cur.contains(
            (i, tasks[i]),
        ) by {
            if i < n - 1 {
                assert(prev.contains((i, tasks[i])));
                let k = choose|k: int| 0 <= k < prev.len() && prev[k] == (i, tasks[i]);
                assert(cur[k] == (i, tasks[i]));
            } else {
                assert(cur[cur.len() - 1] == (i, tasks[i]));
            }
        }
    }
}

} // verus!
