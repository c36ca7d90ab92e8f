//! The cooperative executor: a FIFO ready-queue of task units. One sweep
//! resumes exactly the tasks that were queued when it began, each exactly
//! once, re-queueing at the tail those that are not yet finished — so no
//! ready task is resumed twice before every other ready task has had its
//! turn.

use std::collections::VecDeque;

use vstd::prelude::*;

use crate::shell::{lemma_grows_trans, lemma_push0, out_grows};
use crate::task::{Resources, Task, TaskPoll};

verus! {

broadcast use {
    vstd::std_specs::vec::group_vec_axioms,
    vstd::std_specs::vecdeque::group_vec_dequeue_axioms,
    vstd::seq::group_seq_axioms,
};

/// A resumption count, one higher (counting stops at the top of the
/// range).
pub open spec fn sat_inc64(n: u64) -> u64 {
    if n < u64::MAX {
        (n + 1) as u64
    } else {
        n
    }
}

/// Whether `t` is one of the tasks of `q`, resumed once more.
pub open spec fn resumed_from(t: Task, q: Seq<Task>) -> bool {
    exists|i: int|
        0 <= i < q.len() && t.id == q[i].id && t.resumes == sat_inc64(#[trigger] q[i].resumes)
}

/// The executor: its ready-queue of task units.
pub struct Executor {
    pub task_queue: VecDeque<Task>,
}

impl Executor {
    /// An executor with nothing to run.
    pub fn new() -> (r: Executor)
        ensures
            r.task_queue@ == Seq::<Task>::empty(),
    {
        let r = Executor { task_queue: VecDeque::new() };
        proof {
            assert(r.task_queue@ =~= Seq::<Task>::empty());
        }
        r
    }

    /// Enqueues a task unit at the tail of the ready-queue.
    pub fn spawn(&mut self, task: Task)
        ensures
            final(self).task_queue@ == old(self).task_queue@.push(task),
    {
        self.task_queue.push_back(task);
    }

    /// One sweep: resumes each task that was queued at its start exactly
    /// once, in queue order; a task that reports `Pending` returns to the
    /// tail, one that reports `Ready` is dropped. Every task left in the
    /// queue afterwards is one of the starting tasks with its resumption
    /// count one higher — none was resumed twice.
    pub fn run_ready_tasks(&mut self, res: &mut Resources)
        requires
            old(res).wf(),
        ensures
            final(res).wf(),
            final(res).now == old(res).now,
            out_grows(old(res).console@, final(res).console@),
            final(self).task_queue@.len() <= old(self).task_queue@.len(),
            forall|j: int|
                0 <= j < final(self).task_queue@.len() ==> #[trigger] resumed_from(
                    final(self).task_queue@[j],
                    old(self).task_queue@,
                ),
    {
        let ghost q0 = self.task_queue@;
        let n = self.task_queue.len();
        let mut k: usize = 0;
        proof {
            lemma_push0(old(res).console@, res.console@);
            assert(self.task_queue@.subrange(0, n as int) =~= q0.skip(0));
        }
        while k < n
            invariant
                n == q0.len(),
                k <= n,
                res.wf(),
                res.now == old(res).now,
                out_grows(old(res).console@, res.console@),
                n - k <= self.task_queue@.len() <= n,
                self.task_queue@.subrange(0, (n - k) as int) == q0.skip(k as int),
                forall|j: int|
                    n - k <= j < self.task_queue@.len() ==> #[trigger] resumed_from(
                        self.task_queue@[j],
                        q0,
                    ),
            decreases n - k,
        {
            let ghost qpre = self.task_queue@;
            let mut task = match self.task_queue.pop_front() {
                Some(t) => t,
                None => vstd::pervasive::unreached(),
            };
            proof {
                assert(qpre.subrange(0, (n - k) as int)[0] == q0.skip(k as int)[0]);
                assert(task == q0[k as int]);
                assert(self.task_queue@ =~= qpre.drop_first());
            }
            if task.resumes < u64::MAX {
                task.resumes = task.resumes + 1;
            }
            let ghost c_pre = res.console@;
            let poll = task.state.step(res);
            proof {
                lemma_grows_trans(old(res).console@, c_pre, res.console@);
            }
            let ghost q_mid = self.task_queue@;
            match poll {
                TaskPoll::Pending => {
                    self.task_queue.push_back(task);
                },
                TaskPoll::Ready => {
                },
            }
            proof {
                assert forall|i: int| 0 <= i < n - k - 1 implies self.task_queue@[i] == q0[k + 1
                    + i] by {
                    assert(self.task_queue@[i] == q_mid[i]);
                    assert(q_mid[i] == qpre[i + 1]);
                    assert(qpre.subrange(0, (n - k) as int)[i + 1] == qpre[i + 1]);
                    assert(q0.skip(k as int)[i + 1] == q0[k + 1 + i]);
                }
                assert(self.task_queue@.subrange(0, (n - (k + 1)) as int) =~= q0.skip(k + 1));
                assert forall|j: int|
                    n - (k + 1) <= j < self.task_queue@.len() implies #[trigger] resumed_from(
                        self.task_queue@[j],
                        q0,
                    ) by {
                    if j < q_mid.len() {
                        assert(self.task_queue@[j] == q_mid[j]);
                        assert(q_mid[j] == qpre[j + 1]);
                        assert(resumed_from(qpre[j + 1], q0));
                    } else {
                        assert(self.task_queue@[j] == task);
                        assert(task.id == q0[k as int].id);
                        assert(task.resumes == sat_inc64(q0[k as int].resumes));
                    }
                }
            }
            k += 1;
        }
    }
}

} // verus!
