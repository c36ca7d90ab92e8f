//! Task units: uniquely identified, independently suspendable pieces of
//! work. Each holds an explicit resumable state machine; resuming it does
//! one unit of visible work and reports whether the task is finished.

use vstd::prelude::*;

use crate::auth::AuthManager;
use crate::bridge::{spec_pop, EventBridge};
use crate::fs::RamFileSystem;
use crate::rtc::RtcTime;
use crate::shell::{
    out_added, out_grows, shell_model, shell_step_effect, sys_model, ConsoleOp, OpModel, ShellTask,
};
use crate::strutil::{dec_digit, dec_str, two_digits, u64_to_string};

verus! {

broadcast use {vstd::std_specs::vec::group_vec_axioms, vstd::seq::group_seq_axioms};

/// A task's identity.
#[derive(Debug, Clone, Copy, PartialEq, Eq, Structural)]
pub struct TaskId(pub u64);

impl TaskId {
    /// The id with the given number.
    pub fn new(n: u64) -> (r: TaskId)
        ensures
            r.0 == n,
    {
        TaskId(n)
    }
}

/// What a resumption reports: finished, or not yet.
#[derive(Debug, Clone, Copy, PartialEq, Eq, Structural)]
pub enum TaskPoll {
    Ready,
    Pending,
}

/// The minimal suspension point: the first resumption reports `Pending`,
/// the second reports `Ready`.
pub struct YieldNow {
    pub yielded: bool,
}

impl YieldNow {
    /// One resumption.
    pub fn poll(&mut self) -> (r: TaskPoll)
        ensures
            !old(self).yielded ==> r == TaskPoll::Pending && final(self).yielded,
            old(self).yielded ==> r == TaskPoll::Ready && final(self).yielded,
    {
        if self.yielded {
            TaskPoll::Ready
        } else {
            self.yielded = true;
            TaskPoll::Pending
        }
    }
}

/// A fresh suspension point.
pub fn yield_now() -> (r: YieldNow)
    ensures
        !r.yielded,
{
    YieldNow { yielded: false }
}

/// Everything the tasks share: the event bridge, the filesystem, the
/// credential store, the console, and the last clock reading handed in
/// from outside.
pub struct Resources {
    pub bridge: EventBridge,
    pub fs: RamFileSystem,
    pub auth: AuthManager,
    pub console: Vec<ConsoleOp>,
    pub now: RtcTime,
}

impl Resources {
    /// Invariant: each shared structure is well-formed.
    pub open spec fn wf(self) -> bool {
        &&& self.bridge.wf()
        &&& self.fs.wf()
        &&& self.auth.wf()
    }
}

/// The clock face: hours, minutes and seconds, two digits each.
pub open spec fn clock_chars(t: RtcTime) -> Seq<char> {
    seq![dec_digit(((t.hours / 10) % 10) as nat), dec_digit((t.hours % 10) as nat)] + ":"@ + seq![
        dec_digit(((t.minutes / 10) % 10) as nat),
        dec_digit((t.minutes % 10) as nat),
    ] + ":"@ + seq![dec_digit(((t.seconds / 10) % 10) as nat), dec_digit((t.seconds % 10) as nat)]
}

/// The clock display task: redraws the clock when the second changes.
pub struct ClockTask {
    pub last_second: u8,
}

impl ClockTask {
    /// A fresh clock task that will draw at its first resumption.
    pub fn new() -> (r: ClockTask)
        ensures
            r.last_second == 255,
    {
        ClockTask { last_second: 255 }
    }

    /// One resumption: redraw if the second changed since last time.
    pub fn step(&mut self, now: RtcTime, out: &mut Vec<ConsoleOp>)
        ensures
            out_grows(old(out)@, final(out)@),
            now.seconds != old(self).last_second ==> final(self).last_second == now.seconds
                && out_added(old(out)@, final(out)@) == seq![OpModel::Clock(clock_chars(now))],
            now.seconds == old(self).last_second ==> *final(self) == *old(self) && final(out)@
                == old(out)@,
    {
        let ghost out0 = out@;
        if now.seconds != self.last_second {
            let mut t = two_digits(now.hours);
            t.append(":");
            let m = two_digits(now.minutes);
            t.append(m.as_str());
            t.append(":");
            let s = two_digits(now.seconds);
            t.append(s.as_str());
            out.push(ConsoleOp::Clock(t));
            self.last_second = now.seconds;
            proof {
                crate::shell::lemma_push1(out0, out@, out@[out0.len() as int]);
            }
        } else {
            proof {
                crate::shell::lemma_push0(out0, out@);
            }
        }
    }
}

/// The background counter task: counts resumptions and reports every
/// millionth one.
pub struct CounterTask {
    pub count: u64,
}

impl CounterTask {
    /// A fresh counter.
    pub fn new() -> (r: CounterTask)
        ensures
            r.count == 0,
    {
        CounterTask { count: 0 }
    }

    /// One resumption: count (wrapping), and report on each millionth.
    pub fn step(&mut self, out: &mut Vec<ConsoleOp>)
        ensures
            out_grows(old(out)@, final(out)@),
            final(self).count == (if old(self).count == u64::MAX {
                0u64
            } else {
                (old(self).count + 1) as u64
            }),
            final(self).count % 1000000 == 0 ==> out_added(old(out)@, final(out)@) == seq![
                OpModel::Line("[TASK] Counter: "@ + dec_str(final(self).count as nat)),
            ],
            final(self).count % 1000000 != 0 ==> final(out)@ == old(out)@,
    {
        let ghost out0 = out@;
        if self.count == u64::MAX {
            self.count = 0;
        } else {
            self.count = self.count + 1;
        }
        if self.count % 1000000 == 0 {
            let mut msg = String::from_str("[TASK] Counter: ");
            let n = u64_to_string(self.count);
            msg.append(n.as_str());
            out.push(ConsoleOp::Line(msg));
            proof {
                crate::shell::lemma_push1(out0, out@, out@[out0.len() as int]);
            }
        } else {
            proof {
                crate::shell::lemma_push0(out0, out@);
            }
        }
    }
}

/// The resumable computation a task carries.
pub enum TaskState {
    Shell(ShellTask),
    Clock(ClockTask),
    Counter(CounterTask),
    YieldOnce(YieldNow),
}

impl TaskState {
    /// One resumption of the computation against the shared resources:
    /// each kind of task does its own one unit of visible work; only a
    /// spent suspension point reports `Ready`.
    pub fn step(&mut self, res: &mut Resources) -> (r: TaskPoll)
        requires
            old(res).wf(),
        ensures
            final(res).wf(),
            final(res).now == old(res).now,
            final(res).bridge.cap() == old(res).bridge.cap(),
            out_grows(old(res).console@, final(res).console@),
            match *old(self) {
                TaskState::Shell(s0) => *final(self) matches TaskState::Shell(s1) && r
                    == TaskPoll::Pending && final(res).bridge.view() == spec_pop(
                    old(res).bridge.view(),
                ).0 && shell_step_effect(
                    shell_model(s0),
                    spec_pop(old(res).bridge.view()).1,
                    sys_model(old(res).fs, old(res).auth),
                    shell_model(s1),
                    sys_model(final(res).fs, final(res).auth),
                    out_added(old(res).console@, final(res).console@),
                ),
                TaskState::Clock(c0) => *final(self) matches TaskState::Clock(c1) && r
                    == TaskPoll::Pending && final(res).bridge == old(res).bridge && final(res).fs
                    == old(res).fs && final(res).auth == old(res).auth && (old(
                    res,
                ).now.seconds != c0.last_second ==> c1.last_second == old(res).now.seconds
                    && out_added(old(res).console@, final(res).console@) == seq![
                    OpModel::Clock(clock_chars(old(res).now)),
                ]) && (old(res).now.seconds == c0.last_second ==> c1 == c0 && final(res).console@
                    == old(res).console@),
                TaskState::Counter(c0) => *final(self) matches TaskState::Counter(c1) && r
                    == TaskPoll::Pending && final(res).bridge == old(res).bridge && final(res).fs
                    == old(res).fs && final(res).auth == old(res).auth && c1.count == (if c0.count == u64::MAX {
                    0u64
                } else {
                    (c0.count + 1) as u64
                }),
                TaskState::YieldOnce(y0) => final(res).bridge == old(res).bridge && final(res).fs
                    == old(res).fs && final(res).auth == old(res).auth && final(res).console@
                    == old(res).console@ && (y0.yielded ==> r == TaskPoll::Ready) && (!y0.yielded
                    ==> r == TaskPoll::Pending && (*final(self) matches TaskState::YieldOnce(y1)
                    && y1.yielded)),
            },
    {
        match self {
            TaskState::Shell(s) => {
                s.step(&mut res.bridge, &mut res.fs, &mut res.auth, &mut res.console);
                TaskPoll::Pending
            },
            TaskState::Clock(c) => {
                c.step(res.now, &mut res.console);
                TaskPoll::Pending
            },
            TaskState::Counter(c) => {
                c.step(&mut res.console);
                TaskPoll::Pending
            },
            TaskState::YieldOnce(y) => {
                let r = y.poll();
                proof {
                    crate::shell::lemma_push0(old(res).console@, res.console@);
                }
                r
            },
        }
    }
}

/// A task unit: its identity, its computation, and how often the executor
/// has resumed it.
pub struct Task {
    pub id: TaskId,
    pub state: TaskState,
    pub resumes: u64,
}

impl Task {
    /// A fresh task around a computation, never yet resumed.
    pub fn new(id: TaskId, state: TaskState) -> (r: Task)
        ensures
            r.id == id,
            r.state == state,
            r.resumes == 0,
    {
        Task { id, state, resumes: 0 }
    }
}

} // verus!
