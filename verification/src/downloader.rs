//! The bounded downloader: a state machine that hands out download tasks
//! with at most `limit` of them in flight at once, and accounts for every
//! task it has handed out. The caller performs the actual fetches and feeds
//! each terminal outcome back; a single task's failure is recorded and never
//! blocks or cancels its siblings.
//!
//! The machine owns the accounting; the set of in-flight task indices, the
//! concurrency bound, and the one-result-per-task bookkeeping are all stated
//! in its invariant.

use vstd::prelude::*;

use crate::errors::FetchError;
use crate::types::DownloadTask;

verus! {

/// The terminal record of one task: which task it was and how it ended.
#[derive(Debug)]
pub struct DownloadResult {
    pub task_index: usize,
    pub task: DownloadTask,
    pub outcome: Result<(), FetchError>,
}

/// Whether `rs` holds a result for task index `k`.
pub open spec fn result_for(rs: Seq<DownloadResult>, k: usize) -> bool {
    exists|j: int| 0 <= j < rs.len() && (#[trigger] rs[j]).task_index == k
}

/// Whether `rs` holds a result for task index `k` that carries `tasks[k]`
/// itself.
pub open spec fn has_result_for(rs: Seq<DownloadResult>, tasks: Seq<DownloadTask>, k: int) -> bool {
    exists|j: int|
        0 <= j < rs.len() && (#[trigger] rs[j]).task_index == k && rs[j].task == tasks[k]
}

/// Executes a fixed list of download tasks under a concurrency bound.
#[derive(Debug)]
pub struct BoundedDownloader {
    tasks: Vec<DownloadTask>,
    limit: usize,
    started: usize,
    pending: Vec<usize>,
    results: Vec<DownloadResult>,
}

impl BoundedDownloader {
    /// The fixed task list this run was created with.
    pub closed spec fn task_list(self) -> Seq<DownloadTask> {
        self.tasks@
    }

    /// The concurrency limit this run was created with.
    pub closed spec fn spec_limit(self) -> int {
        self.limit as int
    }

    /// How many tasks have been handed out so far; tasks are handed out in
    /// order, so these are exactly the indices below this count.
    pub closed spec fn started_count(self) -> int {
        self.started as int
    }

    /// The indices of the tasks handed out but not yet completed.
    pub closed spec fn in_flight(self) -> Seq<usize> {
        self.pending@
    }

    /// The results recorded so far, in completion order.
    pub closed spec fn results_list(self) -> Seq<DownloadResult> {
        self.results@
    }

    /// Task index `k` has either a recorded result or is still in flight.
    pub open spec fn accounted(self, k: usize) -> bool {
        self.in_flight().contains(k) || result_for(self.results_list(), k)
    }

    /// The machine's invariant: the concurrency bound holds, in-flight
    /// indices are distinct started tasks, each result belongs to exactly
    /// one started task that is no longer in flight, and every started task
    /// is accounted for.
    pub closed spec fn inv(self) -> bool {
        &&& 1 <= self.limit
        &&& self.started <= self.tasks@.len()
        &&& self.pending@.len() <= self.limit
        &&& self.pending@.no_duplicates()
        &&& forall|i: int|
            0 <= i < self.pending@.len() ==> (#[trigger] self.pending@[i]) < self.started
        &&& forall|j: int|
            0 <= j < self.results@.len() ==> (#[trigger] self.results@[j]).task_index
                < self.started && self.results@[j].task == self.tasks@[self.results@[j].task_index as int]
        &&& forall|j: int|
            0 <= j < self.results@.len() ==> !self.pending@.contains(
                (#[trigger] self.results@[j]).task_index,
            )
        &&& self.results@.map_values(|r: DownloadResult| r.task_index).no_duplicates()
        &&& self.pending@.len() + self.results@.len() == self.started
        &&& forall|k: usize| k < self.started ==> #[trigger] self.accounted(k)
    }

    /// Whether another task can be handed out right now: one remains and a
    /// concurrency slot is free.
    pub open spec fn can_start(self) -> bool {
        self.started_count() < self.task_list().len() && self.in_flight().len() < self.spec_limit()
    }

    /// A fresh run over `tasks` with concurrency bound `limit`.
    pub fn new(tasks: Vec<DownloadTask>, limit: usize) -> (r: BoundedDownloader)
        requires
            limit >= 1,
        ensures
            r.inv(),
            r.task_list() == tasks@,
            r.spec_limit() == limit,
            r.started_count() == 0,
            r.in_flight() == Seq::<usize>::empty(),
            r.results_list() == Seq::<DownloadResult>::empty(),
    {
        BoundedDownloader {
            tasks,
            limit,
            started: 0,
            pending: Vec::new(),
            results: Vec::new(),
        }
    }

    /// Hands out the next task if one remains and a concurrency slot is
    /// free; otherwise nothing changes and nothing is handed out.
    pub fn next_task(&mut self) -> (r: Option<(usize, DownloadTask)>)
        requires
            old(self).inv(),
        ensures
            final(self).inv(),
            final(self).task_list() == old(self).task_list(),
            final(self).spec_limit() == old(self).spec_limit(),
            final(self).results_list() == old(self).results_list(),
            old(self).can_start() ==> {
                &&& r matches Some(p)
                &&& p.0 == old(self).started_count()
                &&& p.1 == old(self).task_list()[old(self).started_count()]
                &&& final(self).started_count() == old(self).started_count() + 1
                &&& final(self).in_flight() == old(self).in_flight().push(p.0)
            },
            !old(self).can_start() ==> {
                &&& r is None
                &&& final(self).started_count() == old(self).started_count()
                &&& final(self).in_flight() == old(self).in_flight()
            },
    {
        if self.started < self.tasks.len() && self.pending.len() < self.limit {
            let i = self.started;
            self.pending.push(i);
            self.started = self.started + 1;
            let t = self.tasks[i].duplicate();
            proof {
                assert(self.pending@.no_duplicates()) by {
                    assert(forall|j: int|
                        0 <= j < old(self).pending@.len() ==> (#[trigger] self.pending@[j])
                            == old(self).pending@[j]);
                }
                assert forall|k: usize| k < self.started implies #[trigger] self.accounted(
                    k,
                ) by {
                    if k < old(self).started {
                        assert(old(self).accounted(k));
                        if old(self).in_flight().contains(k) {
                            let j = choose|j: int|
                                0 <= j < old(self).pending@.len() && old(self).pending@[j] == k;
                            assert(self.pending@[j] == k);
                        }
                    } else {
                        assert(self.pending@[old(self).pending@.len() as int] == k);
                    }
                }
            }
            Some((i, t))
        } else {
            None
        }
    }

    /// Records the terminal outcome of the in-flight task `task_index`.
    /// The task leaves the in-flight set and gains its one result; nothing
    /// else changes, so sibling tasks are unaffected.
    pub fn complete(&mut self, task_index: usize, outcome: Result<(), FetchError>)
        requires
            old(self).inv(),
            old(self).in_flight().contains(task_index),
        ensures
            final(self).inv(),
            final(self).task_list() == old(self).task_list(),
            final(self).spec_limit() == old(self).spec_limit(),
            final(self).started_count() == old(self).started_count(),
            final(self).results_list() == old(self).results_list().push(
                DownloadResult {
                    task_index,
                    task: old(self).task_list()[task_index as int],
                    outcome,
                },
            ),
            final(self).in_flight().to_set() == old(self).in_flight().to_set().remove(task_index),
            final(self).in_flight().len() == old(self).in_flight().len() - 1,
    {
        let ghost old_pending = self.pending@;
        let mut pos: usize = 0;
        while pos < self.pending.len() && self.pending[pos] != task_index
            invariant
                pos <= self.pending@.len(),
                self.pending@ == old_pending,
                forall|j: int| 0 <= j < pos ==> (#[trigger] self.pending@[j]) != task_index,
            decreases self.pending@.len() - pos,
        {
            pos = pos + 1;
        }
        proof {
            if pos == self.pending@.len() {
                let j = choose|j: int|
                    0 <= j < old_pending.len() && (#[trigger] old_pending[j]) == task_index;
                assert(false);
            }
        }
        self.pending.remove(pos);
        let t = self.tasks[task_index].duplicate();
        self.results.push(DownloadResult { task_index, task: t, outcome });
        proof {
            let p0 = old_pending;
            let p1 = self.pending@;
            lemma_remove_keeps_distinct(p0, pos as int);
            assert(p1 == p0.remove(pos as int));
            p0.remove_ensures(pos as int);
            assert forall|x: usize| p1.contains(x) implies p0.contains(x) && x != task_index by {
                let j = choose|j: int| 0 <= j < p1.len() && (#[trigger] p1[j]) == x;
                if j < pos {
                    assert(p0[j] == x);
                } else {
                    assert(p0[j + 1] == x);
                }
                if x == task_index {
                    let j0 = if j < pos {
                        j
                    } else {
                        j + 1
                    };
                    assert(p0[j0] == p0[pos as int]);
                    assert(j0 != pos);
                }
            }
            assert forall|x: usize| p0.contains(x) && x != task_index implies p1.contains(x) by {
                let j = choose|j: int| 0 <= j < p0.len() && (#[trigger] p0[j]) == x;
                if j < pos {
                    assert(p1[j] == x);
                } else {
                    assert(j > pos);
                    assert(p1[j - 1] == x);
                }
            }
            assert(p1.to_set() =~= p0.to_set().remove(task_index));
            assert(self.results@.map_values(|r: DownloadResult| r.task_index).no_duplicates()) by {
                let m0 = old(self).results@.map_values(|r: DownloadResult| r.task_index);
                let m1 = self.results@.map_values(|r: DownloadResult| r.task_index);
                assert(m1 =~= m0.push(task_index));
                assert(!m0.contains(task_index)) by {
                    if m0.contains(task_index) {
                        let j = choose|j: int| 0 <= j < m0.len() && (#[trigger] m0[j]) == task_index;
                        assert(old(self).results@[j].task_index == task_index);
                    }
                }
            }
            assert forall|k: usize| k < self.started implies #[trigger] self.accounted(k) by {
                assert(old(self).accounted(k));
                if k == task_index {
                    assert(self.results@[old(self).results@.len() as int].task_index == k);
                } else if old(self).pending@.contains(k) {
                    assert(p1.contains(k));
                } else {
                    let j = choose|j: int|
                        0 <= j < old(self).results@.len()
                            && (#[trigger] old(self).results@[j]).task_index == k;
                    assert(self.results@[j].task_index == k);
                }
            }
            assert forall|j: int|
                0 <= j < self.results@.len() implies !self.pending@.contains(
                (#[trigger] self.results@[j]).task_index,
            ) by {
                if j < old(self).results@.len() {
                    assert(!p0.contains(self.results@[j].task_index));
                }
            }
        }
    }

    /// Whether every task has been handed out and completed.
    pub fn done(&self) -> (r: bool)
        ensures
            r == (self.in_flight().len() == 0 && self.started_count() == self.task_list().len()),
    {
        self.pending.len() == 0 && self.started == self.tasks.len()
    }

    /// How many tasks are currently in flight.
    pub fn in_flight_count(&self) -> (r: usize)
        ensures
            r == self.in_flight().len(),
    {
        self.pending.len()
    }

    /// The results recorded so far.
    pub fn results(&self) -> (r: &Vec<DownloadResult>)
        ensures
            r@ == self.results_list(),
    {
        &self.results
    }

    /// How many tasks this run was created with.
    pub fn task_count(&self) -> (r: usize)
        ensures
            r == self.task_list().len(),
    {
        self.tasks.len()
    }
}

/// Removing one element of a duplicate-free sequence leaves it
/// duplicate-free.
proof fn lemma_remove_keeps_distinct(s: Seq<usize>, pos: int)
    requires
        0 <= pos < s.len(),
        s.no_duplicates(),
    ensures
        s.remove(pos).no_duplicates(),
{
    s.remove_ensures(pos);
    assert forall|i: int, j: int|
        0 <= i < s.remove(pos).len() && 0 <= j < s.remove(pos).len() && i != j implies s.remove(
        pos,
    )[i] != s.remove(pos)[j] by {
        let i0 = if i < pos {
            i
        } else {
            i + 1
        };
        let j0 = if j < pos {
            j
        } else {
            j + 1
        };
        assert(s.remove(pos)[i] == s[i0]);
        assert(s.remove(pos)[j] == s[j0]);
    }
}

/// At most `limit` tasks are ever simultaneously in flight: however the
/// machine has been driven, the set of handed-out-but-unfinished tasks never
/// exceeds the concurrency bound it was created with.
pub proof fn lemma_concurrency_bound(d: &BoundedDownloader)
    requires
        d.inv(),
    ensures
        d.in_flight().len() <= d.spec_limit(),
{
}

/// Once a run is finished — every task handed out and none in flight — every
/// task of the list has a recorded result naming it: no task is silently
/// dropped, and each result carries the task it belongs to.
pub proof fn lemma_every_task_accounted(d: &BoundedDownloader)
    requires
        d.inv(),
        d.in_flight().len() == 0,
        d.started_count() == d.task_list().len(),
    ensures
        d.results_list().len() == d.task_list().len(),
        forall|k: int|
            0 <= k < d.task_list().len() ==> #[trigger] has_result_for(
                d.results_list(),
                d.task_list(),
                k,
            ),
{
    assert forall|k: int| 0 <= k < d.task_list().len() implies #[trigger] has_result_for(
        d.results_list(),
        d.task_list(),
        k,
    ) by {
        let ku = k as usize;
        assert(d.accounted(ku));
        assert(d.in_flight().len() == 0);
        if d.in_flight().contains(ku) {
            let j = choose|j: int|
                0 <= j < d.in_flight().len() && (#[trigger] d.in_flight()[j]) == ku;
            assert(false);
        }
        let j = choose|j: int|
            0 <= j < d.results_list().len() && (#[trigger] d.results_list()[j]).task_index == ku;
        assert(d.results_list()[j].task_index == k);
        assert(d.results_list()[j].task == d.task_list()[k]);
    }
}

} // verus!
