//! The scheduler: a round-robin process queue whose front is the current
//! process, and the selection step that wakes due sleepers and receivers
//! and picks the next runnable process.

use crate::ipc::ServerList;
use crate::process::{Process, ProcessState};
use crate::time::TimeSpan;
use vstd::prelude::*;

verus! {

/// The process queue.  The front is the process that ran last.
pub struct ProcessList {
    pub processes: Vec<Process>,
}

/// What one scheduling step decided: enter the process now at the front,
/// or wait for an interrupt because nothing is runnable.
#[derive(Clone, Copy, PartialEq, Eq, Structural, Debug)]
pub enum ScheduleDecision {
    Run { pid: usize },
    Idle,
}

/// Whether a state lets the scheduler pick the process this round: Ready
/// and interrupt handling run as they are; Running is re-queued as Ready;
/// a sleeper whose wake time has passed is woken.
pub open spec fn spec_runnable(s: ProcessState, now: TimeSpan) -> bool {
    match s {
        ProcessState::Ready => true,
        ProcessState::Running => true,
        ProcessState::HandlingInterrupt { .. } => true,
        ProcessState::Sleeping { until } => now.spec_total_nanos() >= until.spec_total_nanos(),
        _ => false,
    }
}

/// The state transitions one scheduling step may apply to a process.
pub open spec fn spec_step_transition(pre: ProcessState, post: ProcessState, now: TimeSpan) -> bool {
    ||| post == pre
    ||| (pre is Running && post is Ready)
    ||| (pre matches ProcessState::Sleeping { until } && now.spec_total_nanos()
        >= until.spec_total_nanos() && post is Ready)
    ||| (pre is WaitUntilMessageReceived && post is Ready)
    ||| (pre is WaitUntilMessageReceived && post is Running)
    ||| (spec_runnable(pre, now) && post is Running)
}

impl ProcessList {
    /// Whether some queued process has this pid.
    pub open spec fn spec_has_pid(self, pid: usize) -> bool {
        exists|i: int| 0 <= i < self.processes@.len() && self.processes@[i].pid == pid
    }

    /// The index of the process with this pid.
    pub open spec fn spec_index_of_pid(self, pid: usize) -> int {
        choose|i: int| 0 <= i < self.processes@.len() && self.processes@[i].pid == pid
    }

    /// Queue invariant: every process well formed, pids unique.
    pub open spec fn wf(self) -> bool {
        &&& forall|i: int| 0 <= i < self.processes@.len() ==> (#[trigger] self.processes@[i]).wf()
        &&& forall|i: int, j: int|
            #![trigger self.processes@[i].pid, self.processes@[j].pid]
            0 <= i < j < self.processes@.len() ==> self.processes@[i].pid
                != self.processes@[j].pid
    }

    /// An empty queue.
    pub fn new() -> (r: ProcessList)
        ensures
            r.wf(),
            r.processes@.len() == 0,
    {
        ProcessList { processes: Vec::new() }
    }

    /// Append a process at the back of the queue.
    pub fn push(&mut self, process: Process)
        requires
            old(self).wf(),
            process.wf(),
            !old(self).spec_has_pid(process.pid),
        ensures
            final(self).wf(),
            final(self).processes@ == old(self).processes@.push(process),
    {
        self.processes.push(process);
        proof {
            assert forall|i: int, j: int|
                #![trigger self.processes@[i].pid, self.processes@[j].pid]
                0 <= i < j < self.processes@.len() implies self.processes@[i].pid
                != self.processes@[j].pid by {
                if j == self.processes@.len() - 1 {
                    assert(self.processes@[i] == old(self).processes@[i]);
                }
            }
        }
    }

    /// The process at the front of the queue: the one that ran last.
    pub fn current(&mut self) -> (r: Option<&mut Process>)
        requires
            old(self).wf(),
        ensures
            r is None ==> old(self).processes@.len() == 0 && *final(self) == *old(self),
            r matches Some(p) ==> old(self).processes@.len() > 0 && *p == old(self).processes@[0]
                && final(self).processes@ == old(self).processes@.update(0, *final(p)),
    {
        if self.processes.len() == 0 {
            None
        } else {
            Some(&mut self.processes[0])
        }
    }

    /// The process with the given pid, if queued.
    pub fn find_by_pid(&mut self, pid: usize) -> (r: Option<&mut Process>)
        requires
            old(self).wf(),
        ensures
            r is None ==> !old(self).spec_has_pid(pid) && *final(self) == *old(self),
            r matches Some(p) ==> old(self).spec_has_pid(pid) && {
                let i = old(self).spec_index_of_pid(pid);
                &&& *p == old(self).processes@[i]
                &&& final(self).processes@ == old(self).processes@.update(i, *final(p))
            },
    {
        let n = self.processes.len();
        let mut i: usize = 0;
        while i < n
            invariant
                i <= n,
                n == self.processes@.len(),
                *self == *old(self),
                old(self).wf(),
                forall|j: int| 0 <= j < i ==> #[trigger] self.processes@[j].pid != pid,
            decreases n - i,
        {
            if self.processes[i].pid == pid {
                proof {
                    let ci = old(self).spec_index_of_pid(pid);
                    assert(0 <= ci < old(self).processes@.len() && old(self).processes@[ci].pid
                        == pid);
                    if ci < i as int {
                        assert(old(self).processes@[ci].pid != old(self).processes@[
                            i as int].pid);
                    } else if ci > i as int {
                        assert(old(self).processes@[i as int].pid != old(self).processes@[
                            ci].pid);
                    }
                }
                return Some(&mut self.processes[i]);
            }
            i = i + 1;
        }
        None
    }

    /// The position of the process with the given pid.
    pub fn find_pid_position(&self, pid: usize) -> (r: Option<usize>)
        requires
            self.wf(),
        ensures
            r is None ==> !self.spec_has_pid(pid),
            r matches Some(i) ==> i < self.processes@.len() && self.processes@[i as int].pid
                == pid,
    {
        let n = self.processes.len();
        let mut i: usize = 0;
        while i < n
            invariant
                i <= n,
                n == self.processes@.len(),
                forall|j: int| 0 <= j < i ==> #[trigger] self.processes@[j].pid != pid,
            decreases n - i,
        {
            if self.processes[i].pid == pid {
                return Some(i);
            }
            i = i + 1;
        }
        None
    }

    /// Rotate the queue left once: the front goes to the back.  The next
    /// process moves to the front; cyclic order is preserved.
    pub fn next(&mut self)
        requires
            old(self).wf(),
            old(self).processes@.len() > 0,
        ensures
            final(self).wf(),
            final(self).processes@ == old(self).processes@.drop_first().push(
                old(self).processes@[0],
            ),
    {
        let p = self.processes.remove(0);
        self.processes.push(p);
        proof {
            let pre = old(self).processes@;
            assert(self.processes@ =~= pre.drop_first().push(pre[0]));
            assert forall|i: int, j: int|
                #![trigger self.processes@[i].pid, self.processes@[j].pid]
                0 <= i < j < self.processes@.len() implies self.processes@[i].pid
                != self.processes@[j].pid by {
                let si = if i < pre.len() - 1 {
                    i + 1
                } else {
                    0
                };
                let sj = if j < pre.len() - 1 {
                    j + 1
                } else {
                    0
                };
                assert(self.processes@[i] == pre[si]);
                assert(self.processes@[j] == pre[sj]);
                if si < sj {
                    assert(pre[si].pid != pre[sj].pid);
                } else {
                    assert(pre[sj].pid != pre[si].pid);
                }
            }
        }
    }

    /// Remove the current process from the queue.  Any parent blocked
    /// waiting for this process's exit becomes Ready: after the removal the
    /// first such waiter, if one is queued, is runnable again.
    pub fn remove_current(&mut self) -> (r: Option<Process>)
        requires
            old(self).wf(),
        ensures
            final(self).wf(),
            r is None ==> old(self).processes@.len() == 0 && *final(self) == *old(self),
            r matches Some(p) ==> {
                let rest = old(self).processes@.drop_first();
                &&& p == old(self).processes@[0]
                &&& final(self).processes@.len() == rest.len()
                &&& forall|i: int|
                    0 <= i < rest.len() ==> #[trigger] final(self).processes@[i].pid == rest[i].pid
                        && final(self).processes@[i].page_table == rest[i].page_table && final(self).processes@[i].trap_frame == rest[i].trap_frame
                &&& forall|i: int|
                    0 <= i < rest.len() ==> #[trigger] final(self).processes@[i].state == if (
                    rest[i].state matches ProcessState::ChildExited { child_pid } && child_pid
                        == p.pid && (forall|j: int|
                        0 <= j < i
                            ==> !(#[trigger] rest[j].state matches ProcessState::ChildExited {
                            child_pid: c,
                        } && c == p.pid))) {
                        ProcessState::Ready
                    } else {
                        rest[i].state
                    }
            },
    {
        if self.processes.len() == 0 {
            return None;
        }
        let removed = self.processes.remove(0);
        let ghost rest = old(self).processes@.drop_first();
        proof {
            assert(self.processes@ =~= rest);
        }
        let n = self.processes.len();
        let mut i: usize = 0;
        while i < n
            invariant
                i <= n,
                n == self.processes@.len(),
                old(self).processes@.len() == n + 1,
                self.processes@ == rest,
                rest == old(self).processes@.drop_first(),
                old(self).wf(),
                removed == old(self).processes@[0],
                forall|j: int|
                    0 <= j < i
                        ==> !(#[trigger] rest[j].state matches ProcessState::ChildExited {
                        child_pid: c,
                    } && c == removed.pid),
            decreases n - i,
        {
            let is_waiting_parent = match &self.processes[i].state {
                ProcessState::ChildExited { child_pid } => *child_pid == removed.pid,
                _ => false,
            };
            if is_waiting_parent {
                let p = &mut self.processes[i];
                p.state = ProcessState::Ready;
                proof {
                    assert(self.processes@[i as int].pid == rest[i as int].pid);
                    assert(self.processes@[i as int].page_table == rest[i as int].page_table);
                    assert(self.processes@[i as int].trap_frame == rest[i as int].trap_frame);
                    assert(self.processes@[i as int].state is Ready);
                    assert(self.processes@ =~= rest.update(
                        i as int,
                        self.processes@[i as int],
                    ));
                    assert forall|k: int, l: int|
                        #![trigger self.processes@[k].pid, self.processes@[l].pid]
                        0 <= k < l < self.processes@.len() implies self.processes@[k].pid
                        != self.processes@[l].pid by {
                        assert(0 <= k < rest.len() && 0 <= l < rest.len());
                        assert(rest.len() + 1 == old(self).processes@.len());
                        assert(rest[k] == old(self).processes@[k + 1]);
                        assert(rest[l] == old(self).processes@[l + 1]);
                        assert(self.processes@[k].pid == rest[k].pid);
                        assert(self.processes@[l].pid == rest[l].pid);
                        assert(old(self).processes@[k + 1].pid != old(self).processes@[l
                            + 1].pid);
                    }
                }
                return Some(removed);
            }
            i = i + 1;
        }
        Some(removed)
    }
}


/// Each element of `b` is an element of `a` with the same identity and an
/// allowed one-step state transition, and the other way round.
pub open spec fn spec_step_related(a: Seq<Process>, b: Seq<Process>, now: TimeSpan) -> bool {
    &&& a.len() == b.len()
    &&& forall|i: int|
        0 <= i < b.len() ==> exists|j: int|
            0 <= j < a.len() && (#[trigger] b[i]).pid == a[j].pid && b[i].page_table
                == a[j].page_table && b[i].trap_frame == a[j].trap_frame && spec_step_transition(
                a[j].state,
                b[i].state,
                now,
            )
    &&& forall|j: int|
        0 <= j < a.len() ==> exists|i: int|
            0 <= i < b.len() && (#[trigger] a[j]).pid == b[i].pid && a[j].page_table
                == b[i].page_table && a[j].trap_frame == b[i].trap_frame && spec_step_transition(
                a[j].state,
                b[i].state,
                now,
            )
}


/// Index-wise preservation of identity plus an allowed transition gives the
/// step relation.
proof fn lemma_step_related_pointwise(a: Seq<Process>, b: Seq<Process>, now: TimeSpan)
    requires
        a.len() == b.len(),
        forall|i: int|
            0 <= i < a.len() ==> (#[trigger] b[i]).pid == a[i].pid && b[i].page_table
                == a[i].page_table && b[i].trap_frame == a[i].trap_frame && spec_step_transition(
                a[i].state,
                b[i].state,
                now,
            ),
    ensures
        spec_step_related(a, b, now),
{
    assert forall|i: int| 0 <= i < b.len() implies exists|j: int|
        0 <= j < a.len() && (#[trigger] b[i]).pid == a[j].pid && b[i].page_table
            == a[j].page_table && b[i].trap_frame == a[j].trap_frame && spec_step_transition(
            a[j].state,
            b[i].state,
            now,
        ) by {
        assert(b[i].pid == a[i].pid && b[i].page_table == a[i].page_table && b[i].trap_frame
            == a[i].trap_frame && spec_step_transition(a[i].state, b[i].state, now));
    }
    assert forall|j: int| 0 <= j < a.len() implies exists|i: int|
        0 <= i < b.len() && (#[trigger] a[j]).pid == b[i].pid && a[j].page_table
            == b[i].page_table && a[j].trap_frame == b[i].trap_frame && spec_step_transition(
            a[j].state,
            b[i].state,
            now,
        ) by {
        assert(a[j].pid == b[j].pid && a[j].page_table == b[j].page_table && a[j].trap_frame
            == b[j].trap_frame && spec_step_transition(a[j].state, b[j].state, now));
    }
}

/// The chain from a process's state at the start of the round to its state
/// when it is entered is one allowed step: through the front re-queue, a
/// possible wake, and the final Running mark.
proof fn lemma_front_transition(
    s0: ProcessState,
    s1: ProcessState,
    s2: ProcessState,
    sf: ProcessState,
    now: TimeSpan,
)
    requires
        s1 == s0 || (s0 is Running && s1 is Ready),
        s2 == s1 || ((s1 is WaitUntilMessageReceived || (s1 matches ProcessState::Sleeping {
            until,
        } && now.spec_total_nanos() >= until.spec_total_nanos())) && s2 is Ready),
        s2 is Ready || s2 is HandlingInterrupt,
        sf == s2 || (!(s2 is HandlingInterrupt) && sf is Running),
    ensures
        spec_step_transition(s0, sf, now),
{
}

/// The chosen offset witnesses the round-robin claim: everything strictly
/// between the old front and the chosen process in scan order was not
/// runnable when the round began.
proof fn lemma_round_robin_witness(
    p0: Seq<Process>,
    p1: Seq<Process>,
    fin: Seq<Process>,
    chosen: int,
    steps: int,
    now: TimeSpan,
)
    requires
        p0.len() == p1.len(),
        p0.len() == fin.len(),
        p0.len() > 0,
        1 <= chosen <= p0.len(),
        steps == chosen % (p0.len() as int),
        forall|i: int| 1 <= i < p0.len() ==> #[trigger] p1[i] == p0[i],
        forall|e: int|
            #![trigger p1[e]]
            1 <= e < chosen && e < p0.len() ==> !spec_runnable(p1[e].state, now),
        fin[0].pid == p0[steps].pid,
    ensures
        exists|d: int|
            #![trigger p0[d]]
            1 <= d <= p0.len() && fin[0].pid == (if d < p0.len() {
                p0[d].pid
            } else {
                p0[0].pid
            }) && (forall|e: int| 1 <= e < d ==> !spec_runnable((#[trigger] p0[e]).state, now)),
{
    let n = p0.len() as int;
    assert forall|e: int| 1 <= e < chosen implies !spec_runnable(
        (#[trigger] p0[e]).state,
        now,
    ) by {
        assert(e < p0.len());
        assert(!spec_runnable(p1[e].state, now));
        assert(p1[e] == p0[e]);
    }
    if chosen < n {
        vstd::arithmetic::div_mod::lemma_small_mod(chosen as nat, n as nat);
        assert(fin[0].pid == p0[chosen].pid);
    } else {
        assert(chosen % n == 0) by {
            vstd::arithmetic::div_mod::lemma_mod_self_0(n);
        }
        assert(fin[0].pid == p0[0].pid);
    }
    assert(1 <= chosen <= p0.len() && fin[0].pid == (if chosen < p0.len() {
        p0[chosen].pid
    } else {
        p0[0].pid
    }) && (forall|e: int| 1 <= e < chosen ==> !spec_runnable((#[trigger] p0[e]).state, now)));
}

/// Rotating an index-wise related queue and then replacing the front's
/// state with another allowed transition keeps the step relation.
proof fn lemma_step_related_rotation(
    p0: Seq<Process>,
    p2: Seq<Process>,
    fin: Seq<Process>,
    steps: int,
    now: TimeSpan,
)
    requires
        p0.len() == p2.len() == fin.len(),
        p0.len() > 0,
        0 <= steps < p0.len(),
        forall|i: int|
            0 <= i < p0.len() ==> (#[trigger] p2[i]).pid == p0[i].pid && p2[i].page_table
                == p0[i].page_table && p2[i].trap_frame == p0[i].trap_frame
                && spec_step_transition(p0[i].state, p2[i].state, now),
        forall|i: int|
            1 <= i < p0.len() ==> #[trigger] fin[i] == p2[(i + steps) % (p0.len() as int)],
        fin[0].pid == p2[steps].pid && fin[0].page_table == p2[steps].page_table
            && fin[0].trap_frame == p2[steps].trap_frame,
        spec_step_transition(p0[steps].state, fin[0].state, now),
    ensures
        spec_step_related(p0, fin, now),
{
    let n = p0.len() as int;
    assert forall|i: int| 0 <= i < n implies exists|j: int|
        0 <= j < n && (#[trigger] fin[i]).pid == p0[j].pid && fin[i].page_table
            == p0[j].page_table && fin[i].trap_frame == p0[j].trap_frame && spec_step_transition(
            p0[j].state,
            fin[i].state,
            now,
        ) by {
        let j = (i + steps) % n;
        assert(0 <= j < n);
        if i == 0 {
            vstd::arithmetic::div_mod::lemma_small_mod(steps as nat, n as nat);
            assert(j == steps);
            assert(fin[0].pid == p0[j].pid && fin[0].page_table == p0[j].page_table
                && fin[0].trap_frame == p0[j].trap_frame && spec_step_transition(
                p0[j].state,
                fin[0].state,
                now,
            ));
        } else {
            assert(fin[i] == p2[j]);
            assert(fin[i].pid == p0[j].pid && fin[i].page_table == p0[j].page_table
                && fin[i].trap_frame == p0[j].trap_frame && spec_step_transition(
                p0[j].state,
                fin[i].state,
                now,
            ));
        }
    }
    assert forall|j: int| 0 <= j < n implies exists|i: int|
        0 <= i < n && (#[trigger] p0[j]).pid == fin[i].pid && p0[j].page_table
            == fin[i].page_table && p0[j].trap_frame == fin[i].trap_frame
            && spec_step_transition(p0[j].state, fin[i].state, now) by {
        let i = if j >= steps {
            j - steps
        } else {
            j + n - steps
        };
        assert(0 <= i < n);
        assert((i + steps) % n == j) by (nonlinear_arith)
            requires
                0 <= j < n,
                0 <= steps < n,
                i == if j >= steps {
                    j - steps
                } else {
                    j + n - steps
                },
        ;
        if i == 0 {
            vstd::arithmetic::div_mod::lemma_small_mod(steps as nat, n as nat);
            assert(j == steps);
            assert(p0[j].pid == fin[0].pid && p0[j].page_table == fin[0].page_table
                && p0[j].trap_frame == fin[0].trap_frame && spec_step_transition(
                p0[j].state,
                fin[0].state,
                now,
            ));
        } else {
            assert(fin[i] == p2[j]);
            assert(p0[j].pid == fin[i].pid && p0[j].page_table == fin[i].page_table
                && p0[j].trap_frame == fin[i].trap_frame && spec_step_transition(
                p0[j].state,
                fin[i].state,
                now,
            ));
        }
    }
}

impl ProcessList {
    /// No process behind the front is marked Running: only the process the
    /// scheduler last entered can carry that state.
    pub open spec fn spec_running_only_at_front(self) -> bool {
        forall|i: int|
            1 <= i < self.processes@.len() ==> !((#[trigger] self.processes@[i]).state is Running)
    }

    /// Scan one full lap, starting behind the front, for the next runnable
    /// process: wake sleepers whose time has come the moment they are
    /// inspected, and wake a blocked receiver whenever a sender waiting on
    /// it is inspected and the receiver's mailbox has filled.  Returns the
    /// offset of the found process (its index is the offset modulo the
    /// length), or 0 when the whole lap found nothing runnable.
    #[verifier::rlimit(100)]
    fn scan_for_runnable(&mut self, servers: &ServerList, now: &TimeSpan) -> (chosen: usize)
        requires
            old(self).wf(),
            servers.wf(),
            now.wf(),
            old(self).processes@.len() > 0,
            forall|i: int|
                0 <= i < old(self).processes@.len() ==> !((#[trigger] old(self).processes@[i]).state is Running),
        ensures
            final(self).wf(),
            final(self).processes@.len() == old(self).processes@.len(),
            forall|i: int|
                0 <= i < old(self).processes@.len() ==> #[trigger] final(self).processes@[i].pid == old(self).processes@[i].pid && final(self).processes@[i].page_table == old(self).processes@[i].page_table && final(self).processes@[i].trap_frame == old(self).processes@[i].trap_frame,
            forall|i: int|
                0 <= i < old(self).processes@.len() ==> (#[trigger] final(self).processes@[i].state == old(self).processes@[i].state || ((old(self).processes@[i].state is WaitUntilMessageReceived || (old(self).processes@[i].state matches ProcessState::Sleeping { until } && now.spec_total_nanos() >= until.spec_total_nanos())) && final(self).processes@[i].state is Ready)),
            chosen == 0 ==> forall|i: int|
                0 <= i < old(self).processes@.len() ==> !spec_runnable(
                    (#[trigger] old(self).processes@[i]).state,
                    *now,
                ),
            chosen != 0 ==> forall|e: int|
                #![trigger old(self).processes@[e]]
                1 <= e < chosen && e < old(self).processes@.len() ==> !spec_runnable(
                    old(self).processes@[e].state,
                    *now,
                ),
            chosen != 0 ==> chosen <= old(self).processes@.len() && (final(self).processes@[(chosen as int) % (old(self).processes@.len() as int)].state is Ready || final(self).processes@[(chosen as int) % (old(self).processes@.len() as int)].state
                is HandlingInterrupt),
            forall|i: int|
                0 <= i < old(self).processes@.len() ==> !((#[trigger] final(self).processes@[i]).state is Running),
    {
        let n = self.processes.len();
        let ghost p1 = self.processes@;
        let mut d: usize = 0;
        let mut chosen: usize = 0;
        while d < n && chosen == 0
            invariant
                n == self.processes@.len(),
                n == p1.len(),
                n > 0,
                d <= n,
                self.wf(),
                servers.wf(),
                now.wf(),
                p1 == old(self).processes@,
                old(self).wf(),
                chosen == 0 || (1 <= chosen <= n && chosen <= d),
                forall|i: int|
                    0 <= i < n ==> #[trigger] self.processes@[i].pid == p1[i].pid
                        && self.processes@[i].page_table == p1[i].page_table
                        && self.processes@[i].trap_frame == p1[i].trap_frame,
                forall|i: int|
                    0 <= i < n ==> (#[trigger] self.processes@[i].state == p1[i].state || ((
                    p1[i].state is WaitUntilMessageReceived || (
                    p1[i].state matches ProcessState::Sleeping { until }
                        && now.spec_total_nanos() >= until.spec_total_nanos()))
                        && self.processes@[i].state is Ready)),
                forall|i: int|
                    0 <= i < n ==> !((#[trigger] self.processes@[i]).state is Running),
                chosen == 0 ==> forall|e: int|
                    #![trigger p1[e]]
                    1 <= e <= d && e < n ==> !spec_runnable(p1[e].state, *now),
                chosen == 0 && d == n ==> !spec_runnable(p1[0].state, *now),
                chosen != 0 ==> forall|e: int|
                    #![trigger p1[e]]
                    1 <= e < chosen && e < n ==> !spec_runnable(p1[e].state, *now),
                chosen != 0 ==> (self.processes@[(chosen % n) as int].state is Ready
                    || self.processes@[(chosen % n) as int].state is HandlingInterrupt),
            decreases n - d,
        {
            let offset = d + 1;
            let idx = offset % n;
            proof {
                if offset < n {
                    vstd::arithmetic::div_mod::lemma_small_mod(offset as nat, n as nat);
                } else {
                    vstd::arithmetic::div_mod::lemma_mod_self_0(n as int);
                }
            }
            let state_kind: usize = match &self.processes[idx].state {
                ProcessState::Ready => 0,
                ProcessState::HandlingInterrupt { .. } => 1,
                ProcessState::Sleeping { .. } => 2,
                ProcessState::MessageSent { .. } => 3,
                _ => 4,
            };
            let ghost entry = self.processes@;
            if state_kind == 0 || state_kind == 1 {
                chosen = offset;
            } else if state_kind == 2 {
                if self.wake_due_sleeper(idx, now) {
                    chosen = offset;
                }
            } else if state_kind == 3 {
                let receiver_sid = match &self.processes[idx].state {
                    ProcessState::MessageSent { receiver_sid } => *receiver_sid,
                    _ => 0,
                };
                self.wake_waiting_receiver(servers, receiver_sid);
            }
            proof {
                assert forall|i: int|
                    0 <= i < n implies #[trigger] self.processes@[i].pid == p1[i].pid
                    && self.processes@[i].page_table == p1[i].page_table
                    && self.processes@[i].trap_frame == p1[i].trap_frame by {
                    assert(self.processes@[i].pid == entry[i].pid);
                    assert(self.processes@[i].page_table == entry[i].page_table);
                    assert(self.processes@[i].trap_frame == entry[i].trap_frame);
                }
            }
            d = d + 1;
        }
        proof {
            if chosen == 0 {
                assert forall|i: int| 0 <= i < n implies !spec_runnable(
                    (#[trigger] p1[i]).state,
                    *now,
                ) by {
                    if i == 0 {
                        assert(!spec_runnable(p1[0].state, *now));
                    }
                }
            }
        }
        chosen
    }

    /// Wake the process owning the server `receiver_sid` if that server's
    /// mailbox has filled while the process sleeps waiting for mail.
    fn wake_waiting_receiver(&mut self, servers: &ServerList, receiver_sid: u64)
        requires
            old(self).wf(),
            servers.wf(),
        ensures
            final(self).wf(),
            final(self).processes@.len() == old(self).processes@.len(),
            forall|i: int|
                0 <= i < old(self).processes@.len() ==> #[trigger] final(self).processes@[i].pid
                    == old(self).processes@[i].pid && final(self).processes@[i].page_table == old(self).processes@[i].page_table && final(self).processes@[i].trap_frame == old(self).processes@[i].trap_frame,
            forall|i: int|
                0 <= i < old(self).processes@.len() ==> (#[trigger] final(self).processes@[i].state == old(self).processes@[i].state || (old(self).processes@[i].state is WaitUntilMessageReceived && final(self).processes@[i].state is Ready)),
    {
        let n = self.processes.len();
        match servers.server_info(receiver_sid) {
            Some(info) => {
                if info.1 {
                    match self.find_pid_position(info.0) {
                        Some(rpos) => {
                            let waiting = match &self.processes[rpos].state {
                                ProcessState::WaitUntilMessageReceived => true,
                                _ => false,
                            };
                            if waiting {
                                let ghost prev = self.processes@;
                                let p = &mut self.processes[rpos];
                                p.state = ProcessState::Ready;
                                proof {
                                    assert(self.processes@[rpos as int].pid == prev[
                                        rpos as int].pid);
                                    assert(self.processes@[rpos as int].page_table == prev[
                                        rpos as int].page_table);
                                    assert(self.processes@[rpos as int].trap_frame == prev[
                                        rpos as int].trap_frame);
                                    assert forall|i2: int|
                                        0 <= i2 < n && i2 != rpos implies #[trigger] self.processes@[
                                    i2] == prev[i2] by {}
                                    assert forall|a: int, b: int|
                                        #![trigger self.processes@[a].pid, self.processes@[b].pid]
                                        0 <= a < b < n implies self.processes@[a].pid
                                        != self.processes@[b].pid by {
                                        assert(self.processes@[a].pid == prev[a].pid);
                                        assert(self.processes@[b].pid == prev[b].pid);
                                    }
                                }
                            }
                        },
                        None => {},
                    }
                }
            },
            None => {},
        }
    }

    /// Wake the sleeper at `idx` if its time has come.  Says whether it was
    /// woken; nothing else changes either way.
    fn wake_due_sleeper(&mut self, idx: usize, now: &TimeSpan) -> (woken: bool)
        requires
            old(self).wf(),
            now.wf(),
            idx < old(self).processes@.len(),
        ensures
            final(self).wf(),
            final(self).processes@.len() == old(self).processes@.len(),
            woken <==> (old(self).processes@[idx as int].state matches ProcessState::Sleeping {
                until,
            } && now.spec_total_nanos() >= until.spec_total_nanos()),
            !woken ==> *final(self) == *old(self),
            woken ==> final(self).processes@[idx as int].state is Ready && (forall|i: int|
                0 <= i < old(self).processes@.len() && i != idx ==> #[trigger] final(self).processes@[i] == old(self).processes@[i]),
            final(self).processes@[idx as int].pid == old(self).processes@[idx as int].pid,
            final(self).processes@[idx as int].page_table == old(self).processes@[
                idx as int].page_table,
            final(self).processes@[idx as int].trap_frame == old(self).processes@[
                idx as int].trap_frame,
    {
        let due = match &self.processes[idx].state {
            ProcessState::Sleeping { until } => now.is_at_least(until),
            _ => false,
        };
        if due {
            let ghost prev = self.processes@;
            let p = &mut self.processes[idx];
            p.state = ProcessState::Ready;
            proof {
                assert(self.processes@[idx as int].pid == prev[idx as int].pid);
                assert(self.processes@[idx as int].page_table == prev[idx as int].page_table);
                assert(self.processes@[idx as int].trap_frame == prev[idx as int].trap_frame);
                assert forall|i2: int|
                    0 <= i2 < prev.len() && i2 != idx implies #[trigger] self.processes@[i2]
                    == prev[i2] by {}
                assert forall|a: int, b: int|
                    #![trigger self.processes@[a].pid, self.processes@[b].pid]
                    0 <= a < b < self.processes@.len() implies self.processes@[a].pid
                    != self.processes@[b].pid by {
                    assert(self.processes@[a].pid == prev[a].pid);
                    assert(self.processes@[b].pid == prev[b].pid);
                }
            }
        }
        due
    }

    /// Re-queue the front process: a Running front becomes Ready, anything
    /// else keeps its state.
    fn requeue_front(&mut self)
        requires
            old(self).wf(),
            old(self).spec_running_only_at_front(),
            old(self).processes@.len() > 0,
        ensures
            final(self).wf(),
            final(self).processes@.len() == old(self).processes@.len(),
            forall|i: int|
                1 <= i < old(self).processes@.len() ==> #[trigger] final(self).processes@[i]
                    == old(self).processes@[i],
            final(self).processes@[0].pid == old(self).processes@[0].pid,
            final(self).processes@[0].page_table == old(self).processes@[0].page_table,
            final(self).processes@[0].trap_frame == old(self).processes@[0].trap_frame,
            old(self).processes@[0].state is Running ==> final(self).processes@[0].state
                is Ready,
            !(old(self).processes@[0].state is Running) ==> final(self).processes@[0] == old(self).processes@[0],
            forall|i: int|
                0 <= i < old(self).processes@.len() ==> !((#[trigger] final(self).processes@[i]).state is Running),
    {
        let front_running = match &self.processes[0].state {
            ProcessState::Running => true,
            _ => false,
        };
        if front_running {
            let ghost prev = self.processes@;
            let front = &mut self.processes[0];
            front.state = ProcessState::Ready;
            proof {
                assert(self.processes@[0].pid == prev[0].pid);
                assert(self.processes@[0].page_table == prev[0].page_table);
                assert(self.processes@[0].trap_frame == prev[0].trap_frame);
                assert forall|i2: int|
                    1 <= i2 < prev.len() implies #[trigger] self.processes@[i2] == prev[i2] by {}
                assert forall|a: int, b: int|
                    #![trigger self.processes@[a].pid, self.processes@[b].pid]
                    0 <= a < b < self.processes@.len() implies self.processes@[a].pid
                    != self.processes@[b].pid by {
                    assert(self.processes@[a].pid == prev[a].pid);
                    assert(self.processes@[b].pid == prev[b].pid);
                }
            }
        }
    }

    /// Enter the front process: mark it Running, unless it is inside its
    /// interrupt handler, which keeps its state.
    fn mark_front_running(&mut self)
        requires
            old(self).wf(),
            old(self).processes@.len() > 0,
            forall|i: int|
                0 <= i < old(self).processes@.len() ==> !((#[trigger] old(self).processes@[i]).state is Running),
        ensures
            final(self).wf(),
            final(self).spec_running_only_at_front(),
            final(self).processes@.len() == old(self).processes@.len(),
            forall|i: int|
                1 <= i < old(self).processes@.len() ==> #[trigger] final(self).processes@[i]
                    == old(self).processes@[i],
            final(self).processes@[0].pid == old(self).processes@[0].pid,
            final(self).processes@[0].page_table == old(self).processes@[0].page_table,
            final(self).processes@[0].trap_frame == old(self).processes@[0].trap_frame,
            old(self).processes@[0].state is HandlingInterrupt ==> final(self).processes@[0]
                == old(self).processes@[0],
            !(old(self).processes@[0].state is HandlingInterrupt) ==> final(self).processes@[0].state is Running,
    {
        let is_handling = match &self.processes[0].state {
            ProcessState::HandlingInterrupt { .. } => true,
            _ => false,
        };
        if !is_handling {
            let ghost prev = self.processes@;
            let front = &mut self.processes[0];
            front.state = ProcessState::Running;
            proof {
                assert(self.processes@[0].pid == prev[0].pid);
                assert(self.processes@[0].page_table == prev[0].page_table);
                assert(self.processes@[0].trap_frame == prev[0].trap_frame);
                assert forall|i2: int|
                    1 <= i2 < prev.len() implies #[trigger] self.processes@[i2] == prev[i2] by {}
                assert forall|a: int, b: int|
                    #![trigger self.processes@[a].pid, self.processes@[b].pid]
                    0 <= a < b < self.processes@.len() implies self.processes@[a].pid
                    != self.processes@[b].pid by {
                    assert(self.processes@[a].pid == prev[a].pid);
                    assert(self.processes@[b].pid == prev[b].pid);
                }
            }
        }
    }

    /// Rotate the queue left `steps` times: the element at index `steps`
    /// comes to the front and cyclic order is preserved.
    pub(crate) fn rotate_forward(&mut self, steps: usize)
        requires
            old(self).wf(),
            old(self).processes@.len() > 0,
            steps < old(self).processes@.len(),
        ensures
            final(self).wf(),
            final(self).processes@.len() == old(self).processes@.len(),
            forall|i: int|
                0 <= i < old(self).processes@.len() ==> #[trigger] final(self).processes@[i]
                    == old(self).processes@[(i + steps) % (old(self).processes@.len() as int)],
    {
        let n = self.processes.len();
        let ghost p2 = self.processes@;
        proof {
            assert forall|i: int| 0 <= i < n implies #[trigger] self.processes@[i] == p2[(i
                + 0) % (n as int)] by {
                vstd::arithmetic::div_mod::lemma_small_mod(i as nat, n as nat);
            }
        }
        let mut s: usize = 0;
        while s < steps
            invariant
                s <= steps,
                steps < n,
                n == p2.len(),
                n == self.processes@.len(),
                self.wf(),
                p2 == old(self).processes@,
                forall|i: int|
                    0 <= i < n ==> #[trigger] self.processes@[i] == p2[(i + s) % (n as int)],
            decreases steps - s,
        {
            self.next();
            proof {
                assert forall|i: int|
                    0 <= i < n implies #[trigger] self.processes@[i] == p2[(i + s + 1) % (
                n as int)] by {
                    if i < n - 1 {
                        assert(self.processes@[i] == p2[(i + 1 + s) % (n as int)]);
                    } else {
                        assert(self.processes@[i] == p2[(s as int) % (n as int)]);
                        assert((i + s + 1) % (n as int) == (s as int) % (n as int))
                            by (nonlinear_arith)
                            requires
                                i == n as int - 1,
                                n as int > 0,
                                0 <= s as int,
                        ;
                    }
                }
            }
            s = s + 1;
        }
        proof {
            assert forall|i: int| 0 <= i < n implies #[trigger] self.processes@[i] == p2[(i
                + steps) % (n as int)] by {
                assert(self.processes@[i] == p2[(i + s) % (n as int)]);
            }
        }
    }

    /// One scheduling round.  The just-ran process at the front is re-queued
    /// as Ready; the queue is scanned one full lap for the next runnable
    /// process, waking due sleepers and receivers whose mailbox has filled;
    /// the chosen process rotates to the front and is marked Running
    /// (interrupt handlers keep their state).  If any process was runnable
    /// when the round began the round picks one; only when none was does it
    /// say Idle, so the hart waits for an interrupt instead of spinning.
    #[verifier::rlimit(100)]
    pub fn schedule_step(&mut self, servers: &ServerList, now: &TimeSpan) -> (r: ScheduleDecision)
        requires
            old(self).wf(),
            old(self).spec_running_only_at_front(),
            servers.wf(),
            now.wf(),
        ensures
            final(self).wf(),
            final(self).spec_running_only_at_front(),
            spec_step_related(old(self).processes@, final(self).processes@, *now),
            (exists|i: int|
                0 <= i < old(self).processes@.len() && spec_runnable(
                    (#[trigger] old(self).processes@[i]).state,
                    *now,
                )) ==> r is Run,
            r matches ScheduleDecision::Run { pid } ==> final(self).processes@.len() > 0
                && final(self).processes@[0].pid == pid && (final(self).processes@[0].state
                is Running || final(self).processes@[0].state is HandlingInterrupt),
            r is Run ==> exists|d: int|
                #![trigger old(self).processes@[d]]
                1 <= d <= old(self).processes@.len() && final(self).processes@[0].pid == (if d
                    < old(self).processes@.len() {
                    old(self).processes@[d].pid
                } else {
                    old(self).processes@[0].pid
                }) && (forall|e: int|
                    1 <= e < d ==> !spec_runnable(
                        (#[trigger] old(self).processes@[e]).state,
                        *now,
                    )),
    {
        let n = self.processes.len();
        if n == 0 {
            return ScheduleDecision::Idle;
        }
        let ghost p0 = self.processes@;
        // Re-queue the process that just ran.
        self.requeue_front();
        let ghost p1 = self.processes@;
        proof {
            assert forall|i: int| 0 <= i < n implies #[trigger] p1[i].pid == p0[i].pid
                && p1[i].page_table == p0[i].page_table && p1[i].trap_frame == p0[i].trap_frame
                && spec_step_transition(p0[i].state, p1[i].state, *now) by {
                if i > 0 {
                    assert(p1[i] == p0[i]);
                }
            }
        }
        let chosen = self.scan_for_runnable(servers, now);
        let ghost p2 = self.processes@;
        proof {
            assert forall|i: int| 0 <= i < n implies spec_step_transition(
                (#[trigger] p0[i]).state,
                p2[i].state,
                *now,
            ) by {
                assert(p2[i].state == p1[i].state || ((p1[i].state is WaitUntilMessageReceived
                    || (p1[i].state matches ProcessState::Sleeping { until }
                    && now.spec_total_nanos() >= until.spec_total_nanos())) && p2[i].state
                    is Ready));
            }
        }
        if chosen == 0 {
            proof {
                assert forall|i: int| 0 <= i < n implies !spec_runnable(
                    (#[trigger] p0[i]).state,
                    *now,
                ) by {
                    assert(!spec_runnable(p1[i].state, *now));
                    if i == 0 && p0[0].state is Running {
                        assert(spec_runnable(p1[0].state, *now));
                    }
                }
                lemma_step_related_pointwise(p0, p2, *now);
            }
            return ScheduleDecision::Idle;
        }
        // Bring the chosen process to the front and enter it.
        let steps = chosen % n;
        self.rotate_forward(steps);
        let ghost p3 = self.processes@;
        proof {
            assert forall|i: int| 0 <= i < n implies !((#[trigger] p3[i]).state is Running) by {
                assert(p3[i] == p2[(i + steps) % (n as int)]);
            }
        }
        self.mark_front_running();
        let pid = self.processes[0].pid;
        proof {
            let fin = self.processes@;
            vstd::arithmetic::div_mod::lemma_small_mod(steps as nat, n as nat);
            assert(p3[0] == p2[steps as int]);
            assert(fin[0].pid == p1[steps as int].pid);
            lemma_round_robin_witness(p0, p1, fin, chosen as int, steps as int, *now);
            assert(fin[0].state is Running || fin[0].state is HandlingInterrupt);
            assert(spec_step_transition(p0[steps as int].state, fin[0].state, *now)) by {
                lemma_front_transition(
                    p0[steps as int].state,
                    p1[steps as int].state,
                    p2[steps as int].state,
                    fin[0].state,
                    *now,
                );
            }
            assert forall|i: int| 1 <= i < n implies #[trigger] fin[i] == p2[(i + steps) % (
            n as int)] by {
                assert(fin[i] == p3[i]);
            }
            lemma_step_related_rotation(p0, p2, fin, steps as int, *now);
        }
        ScheduleDecision::Run { pid }
    }
}
} // verus!
