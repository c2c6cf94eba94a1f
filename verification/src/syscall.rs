//! The system-call layer: the call numbers of the ABI, the kernel state
//! they act on, and one handler per call, dispatched on the a7 register.
//!
//! Arguments and results travel in a0..=a6 of the calling process's trap
//! frame.  Protocol violations kill the caller; resource exhaustion is
//! reported by a sentinel so the caller may recover.

use crate::allocator::Allocator;
use crate::ipc::{Message, MessageData, ServerList, NO_VALUE};
use crate::memory::{spec_pages_needed, PAGE_SIZE};
use crate::plic::InterruptTable;
use crate::process::{Process, ProcessState};
use crate::pte::EntryAttributes;
use crate::scheduler::ProcessList;
use crate::table::{Table, MAX_VADDR};
use crate::time::TimeSpan;
use crate::trapframe::{Registers, REGISTER_COUNT};
use vstd::prelude::*;

verus! {

/// The calls of the ABI, in the order of their numbers 0 through 13.
#[derive(Clone, Copy, PartialEq, Eq, Structural, Debug)]
pub enum SystemCall {
    Exit,
    Sleep,
    SleepUntilMessageReceived,
    IdentityMap,
    SendMessage,
    ReceiveMessage,
    RegisterServer,
    Spawn,
    Allocate,
    Deallocate,
    DurationSinceBootup,
    RegisterInterruptHandler,
    CompleteInterrupt,
    TransferMemory,
}

/// A rejected call number.
#[derive(Clone, Copy, PartialEq, Eq, Structural, Debug)]
pub enum SystemCallError {
    Invalid(u64),
}

/// The call a request number names, if any.
pub open spec fn spec_system_call(v: u64) -> Option<SystemCall> {
    match v {
        0 => Some(SystemCall::Exit),
        1 => Some(SystemCall::Sleep),
        2 => Some(SystemCall::SleepUntilMessageReceived),
        3 => Some(SystemCall::IdentityMap),
        4 => Some(SystemCall::SendMessage),
        5 => Some(SystemCall::ReceiveMessage),
        6 => Some(SystemCall::RegisterServer),
        7 => Some(SystemCall::Spawn),
        8 => Some(SystemCall::Allocate),
        9 => Some(SystemCall::Deallocate),
        10 => Some(SystemCall::DurationSinceBootup),
        11 => Some(SystemCall::RegisterInterruptHandler),
        12 => Some(SystemCall::CompleteInterrupt),
        13 => Some(SystemCall::TransferMemory),
        _ => None,
    }
}

impl SystemCall {
    /// Decode a request number; an undefined number is the error.
    pub fn try_from(value: u64) -> (r: Result<SystemCall, SystemCallError>)
        ensures
            r == (match spec_system_call(value) {
                Some(c) => Ok::<SystemCall, SystemCallError>(c),
                None => Err::<SystemCall, SystemCallError>(SystemCallError::Invalid(value)),
            }),
    {
        match value {
            0u64 => Ok(SystemCall::Exit),
            1u64 => Ok(SystemCall::Sleep),
            2u64 => Ok(SystemCall::SleepUntilMessageReceived),
            3u64 => Ok(SystemCall::IdentityMap),
            4u64 => Ok(SystemCall::SendMessage),
            5u64 => Ok(SystemCall::ReceiveMessage),
            6u64 => Ok(SystemCall::RegisterServer),
            7u64 => Ok(SystemCall::Spawn),
            8u64 => Ok(SystemCall::Allocate),
            9u64 => Ok(SystemCall::Deallocate),
            10u64 => Ok(SystemCall::DurationSinceBootup),
            11u64 => Ok(SystemCall::RegisterInterruptHandler),
            12u64 => Ok(SystemCall::CompleteInterrupt),
            13u64 => Ok(SystemCall::TransferMemory),
            _ => Err(SystemCallError::Invalid(value)),
        }
    }

    /// The request number of this call.
    pub fn raw_value(&self) -> (r: u64)
        ensures
            spec_system_call(r) == Some(*self),
    {
        match self {
            SystemCall::Exit => 0,
            SystemCall::Sleep => 1,
            SystemCall::SleepUntilMessageReceived => 2,
            SystemCall::IdentityMap => 3,
            SystemCall::SendMessage => 4,
            SystemCall::ReceiveMessage => 5,
            SystemCall::RegisterServer => 6,
            SystemCall::Spawn => 7,
            SystemCall::Allocate => 8,
            SystemCall::Deallocate => 9,
            SystemCall::DurationSinceBootup => 10,
            SystemCall::RegisterInterruptHandler => 11,
            SystemCall::CompleteInterrupt => 12,
            SystemCall::TransferMemory => 13,
        }
    }
}

/// What handling one trap or call did, for the embedder to act on.
#[derive(Clone, Copy, PartialEq, Eq, Structural, Debug)]
pub enum SyscallOutcome {
    /// Handled; the caller continues.
    Completed,
    /// The caller exited of its own accord.
    Exited,
    /// The caller violated the protocol and was killed.
    Killed,
    /// An interrupt handler finished: acknowledge this id to the
    /// controller.
    CompletedInterrupt { interrupt_id: u32 },
    /// A condition the kernel cannot continue from.
    Fatal,
    /// No process was current.
    NoProcess,
}

/// Whether a handler's saved stack pointer fails to denote a one-page run
/// of the heap that the allocator can take back: the page below it must lie
/// in the heap, page-aligned, with its recorded run inside the page count.
pub open spec fn spec_bad_handler_stack(sp: u64, a: Allocator) -> bool {
    ||| sp < 4096
    ||| sp - 4096 < a.base_addr
    ||| ((sp - 4096 - a.base_addr) as int) % 4096 != 0
    ||| ((sp - 4096 - a.base_addr) as int) / 4096 >= crate::memory::TOTAL_PAGES
    ||| ((sp - 4096 - a.base_addr) as int) / 4096 + a.pages@[((sp - 4096 - a.base_addr) as int)
        / 4096] > crate::memory::TOTAL_PAGES
}

/// The kernel-resident state the system-call layer multiplexes: the process
/// queue, the server registry, the frame allocator, the user interrupt
/// routing table, the kernel's own root page table, and the pid counter.
pub struct Kernel {
    pub processes: ProcessList,
    pub servers: ServerList,
    pub allocator: Allocator,
    pub handlers: InterruptTable,
    pub root_table: Table,
    pub next_pid: usize,
    pub trampoline_addr: u64,
    pub user_enter_addr: u64,
}

impl Kernel {
    /// The kernel invariant: every component well formed, the allocator
    /// live, every queued pid below the counter, and the shared code pages
    /// inside the address space.
    pub open spec fn wf(self) -> bool {
        &&& self.processes.wf()
        &&& self.processes.spec_running_only_at_front()
        &&& self.servers.wf()
        &&& self.allocator.wf()
        &&& self.allocator.active
        &&& self.allocator.base_addr >= 4096
        &&& self.handlers.wf()
        &&& self.root_table.wf()
        &&& self.next_pid >= 1
        &&& forall|i: int|
            0 <= i < self.processes.processes@.len() ==> (#[trigger] self.processes.processes@[i]).pid
                < self.next_pid
        &&& self.trampoline_addr % 4096 == 0
        &&& self.trampoline_addr < MAX_VADDR
        &&& self.user_enter_addr + 2 * PAGE_SIZE < MAX_VADDR
    }

    /// Whether a process is current.
    pub open spec fn spec_has_current(self) -> bool {
        self.processes.processes@.len() > 0
    }

    /// The current process: the front of the queue.
    pub open spec fn spec_current(self) -> Process {
        self.processes.processes@[0]
    }

    /// One register of the current process's saved file.
    pub open spec fn spec_reg(self, reg: Registers) -> u64 {
        self.spec_current().trap_frame.registers@[reg.spec_index()]
    }

    /// Read an argument register of the current process.
    fn reg(&self, reg: Registers) -> (r: u64)
        requires
            self.wf(),
            self.spec_has_current(),
        ensures
            r == self.spec_reg(reg),
    {
        self.processes.processes[0].trap_frame.get(reg)
    }

    /// Write a result register of the current process.  Nothing else
    /// changes.
    fn set_reg(&mut self, reg: Registers, value: u64)
        requires
            old(self).wf(),
            old(self).spec_has_current(),
        ensures
            final(self).wf(),
            *final(self) == (Kernel {
                processes: final(self).processes,
                ..*old(self)
            }),
            final(self).processes.processes@ == old(self).processes.processes@.update(
                0,
                final(self).processes.processes@[0],
            ),
            final(self).spec_current() == (Process {
                trap_frame: final(self).spec_current().trap_frame,
                ..old(self).spec_current()
            }),
            final(self).spec_current().trap_frame.kernel_satp == old(self).spec_current().trap_frame.kernel_satp,
            final(self).spec_current().trap_frame.kernel_trap_vector == old(self).spec_current().trap_frame.kernel_trap_vector,
            final(self).spec_current().trap_frame.kernel_stack_pointer == old(self).spec_current().trap_frame.kernel_stack_pointer,
            final(self).spec_current().trap_frame.registers@ == old(self).spec_current().trap_frame.registers@.update(reg.spec_index(), value),
    {
        let ghost pre = *self;
        let p = &mut self.processes.processes[0];
        p.trap_frame.set(reg, value);
        proof {
            assert(self.processes.processes@[0].pid == pre.processes.processes@[0].pid);
            assert(self.processes.processes@[0].state == pre.processes.processes@[0].state);
            assert forall|i: int|
                0 <= i < self.processes.processes@.len() && i != 0 implies #[trigger] self.processes.processes@[i]
                == pre.processes.processes@[i] by {}
            assert(self.processes.wf()) by {
                assert forall|i: int, j: int|
                    #![trigger self.processes.processes@[i].pid, self.processes.processes@[j].pid]
                    0 <= i < j < self.processes.processes@.len() implies self.processes.processes@[
                i].pid != self.processes.processes@[j].pid by {
                    assert(self.processes.processes@[i].pid == pre.processes.processes@[i].pid);
                    assert(self.processes.processes@[j].pid == pre.processes.processes@[j].pid);
                }
            }
        }
    }

    /// Set the current process's state.  Nothing else changes.
    fn set_current_state(&mut self, state: ProcessState)
        requires
            old(self).wf(),
            old(self).spec_has_current(),
            state.wf(),
            !(state is Running) || old(self).spec_current().state is Running,
        ensures
            final(self).wf(),
            *final(self) == (Kernel {
                processes: final(self).processes,
                ..*old(self)
            }),
            final(self).processes.processes@ == old(self).processes.processes@.update(
                0,
                final(self).processes.processes@[0],
            ),
            final(self).spec_current() == (Process {
                state,
                ..old(self).spec_current()
            }),
    {
        let ghost pre = *self;
        let p = &mut self.processes.processes[0];
        p.state = state;
        proof {
            assert forall|i: int|
                0 <= i < self.processes.processes@.len() && i != 0 implies #[trigger] self.processes.processes@[i]
                == pre.processes.processes@[i] by {}
            assert(self.processes.wf()) by {
                assert forall|i: int, j: int|
                    #![trigger self.processes.processes@[i].pid, self.processes.processes@[j].pid]
                    0 <= i < j < self.processes.processes@.len() implies self.processes.processes@[
                i].pid != self.processes.processes@[j].pid by {
                    assert(self.processes.processes@[i].pid == pre.processes.processes@[i].pid);
                    assert(self.processes.processes@[j].pid == pre.processes.processes@[j].pid);
                }
            }
        }
    }

    /// Put the caller to sleep: the wake time is the current time plus the
    /// span in a0 (seconds) and a1 (nanoseconds); if the sum leaves the
    /// representable range the caller sleeps to the end of it.
    pub fn sys_sleep(&mut self, now: &TimeSpan) -> (r: SyscallOutcome)
        requires
            old(self).wf(),
            old(self).spec_has_current(),
            now.wf(),
        ensures
            final(self).wf(),
            r is Completed,
            final(self).spec_current().state matches ProcessState::Sleeping { until } && (old(self).spec_reg(Registers::A0) + 4 < u64::MAX && now.secs + old(self).spec_reg(
                Registers::A0,
            ) + 5 < u64::MAX ==> until.spec_total_nanos() == now.spec_total_nanos() + old(self).spec_reg(Registers::A0) * 1_000_000_000 + (old(self).spec_reg(
                Registers::A1,
            ) as u32)),
    {
        let secs = self.reg(Registers::A0);
        let nanos = self.reg(Registers::A1) as u32;
        let until = if secs <= u64::MAX - 5 {
            let span = TimeSpan::new(secs, nanos);
            match now.checked_add(&span) {
                Some(t) => t,
                None => TimeSpan { secs: u64::MAX, nanos: 0 },
            }
        } else {
            TimeSpan { secs: u64::MAX, nanos: 0 }
        };
        self.set_current_state(ProcessState::Sleeping { until });
        SyscallOutcome::Completed
    }

    /// Block the caller until a message arrives for its server.
    pub fn sys_sleep_until_message_received(&mut self) -> (r: SyscallOutcome)
        requires
            old(self).wf(),
            old(self).spec_has_current(),
        ensures
            final(self).wf(),
            r is Completed,
            final(self).spec_current().state is WaitUntilMessageReceived,
            final(self).spec_current().pid == old(self).spec_current().pid,
    {
        self.set_current_state(ProcessState::WaitUntilMessageReceived);
        SyscallOutcome::Completed
    }

    /// Report the time since boot: seconds in a0, the nanoseconds below a
    /// second in a1.
    pub fn sys_duration_since_bootup(&mut self, now: &TimeSpan) -> (r: SyscallOutcome)
        requires
            old(self).wf(),
            old(self).spec_has_current(),
            now.wf(),
        ensures
            final(self).wf(),
            r is Completed,
            final(self).spec_reg(Registers::A0) == now.secs,
            final(self).spec_reg(Registers::A1) == now.nanos,
    {
        let secs = now.as_secs();
        let nanos = now.subsec_nanos();
        self.set_reg(Registers::A0, secs);
        self.set_reg(Registers::A1, nanos as u64);
        SyscallOutcome::Completed
    }

    /// Register the caller as a server.  a0 carries the requested public
    /// name, 0 meaning an automatic identity.  The assigned identity lands
    /// in a0, or the sentinel on a collision.
    pub fn sys_register_server(&mut self) -> (r: SyscallOutcome)
        requires
            old(self).wf(),
            old(self).spec_has_current(),
        ensures
            final(self).wf(),
            r is Completed,
            final(self).spec_reg(Registers::A0) == NO_VALUE <==> (old(self).servers.spec_has_pid(old(self).spec_current().pid) || (old(self).spec_reg(
                Registers::A0,
            ) != 0 && (old(self).spec_reg(Registers::A0) == NO_VALUE
                || old(self).servers.spec_has_sid(old(self).spec_reg(Registers::A0)))) || (old(self).spec_reg(Registers::A0) == 0 && old(self).servers.spec_auto_exhausted())),
            final(self).spec_reg(Registers::A0) != NO_VALUE ==> ServerList::spec_registered(
                old(self).servers,
                final(self).servers,
                old(self).spec_current().pid,
                final(self).spec_reg(Registers::A0),
            ),
    {
        let public_name = self.reg(Registers::A0);
        let pid = self.processes.processes[0].pid;
        let requested = if public_name != 0 {
            Some(public_name)
        } else {
            None
        };
        let sid = self.servers.register(pid, requested);
        match sid {
            Some(s) => {
                self.set_reg(Registers::A0, s);
                proof {
                    assert(s != NO_VALUE);
                }
            },
            None => {
                self.set_reg(Registers::A0, NO_VALUE);
            },
        }
        SyscallOutcome::Completed
    }

    /// Allocate a0 bytes of physical memory for the caller: the run is
    /// identity-mapped into the caller's address space user-readable and
    /// writable, and its base lands in a0.  On exhaustion a0 becomes 0 and
    /// the caller may recover.
    pub fn sys_allocate(&mut self) -> (r: SyscallOutcome)
        requires
            old(self).wf(),
            old(self).spec_has_current(),
        ensures
            final(self).wf(),
            r is Completed,
            final(self).spec_reg(Registers::A0) == 0 || (final(self).spec_reg(Registers::A0) % 4096
                == 0 && (forall|v: u64|
                final(self).spec_reg(Registers::A0) <= v < final(self).spec_reg(Registers::A0)
                    + old(self).spec_reg(Registers::A0) ==> #[trigger] final(self).spec_current().page_table.spec_physical_addr(v) == Some(v))),
            final(self).spec_reg(Registers::A0) == 0 <==> ({
                let size = old(self).spec_reg(Registers::A0);
                size == 0 || size > (usize::MAX - PAGE_SIZE) as u64 || !(exists|i: int|
                    Allocator::spec_fit_at(
                        old(self).allocator.pages@,
                        i,
                        spec_pages_needed(size as int),
                    ))
            }),
            final(self).spec_reg(Registers::A0) != 0 ==> (forall|w: int|
                final(self).spec_reg(Registers::A0) / 4096 <= w < final(self).spec_reg(
                    Registers::A0,
                ) / 4096 + spec_pages_needed(old(self).spec_reg(Registers::A0) as int)
                    ==> #[trigger] final(self).spec_current().page_table.spec_page_at(w) == Some(
                    ((w * 4096) as u64, EntryAttributes::UserReadWrite.spec_flags()),
                )),
    {
        let size64 = self.reg(Registers::A0);
        if size64 > (usize::MAX - PAGE_SIZE) as u64 || size64 == 0 {
            // No run of that size can exist; report exhaustion.
            self.set_reg(Registers::A0, 0);
            return SyscallOutcome::Completed;
        }
        let size = size64 as usize;
        let ghost a0 = self.allocator;
        let ptr = self.allocator.allocate(size);
        match ptr {
            Some(base) => {
                proof {
                    crate::allocator::lemma_allocator_address_range(
                        a0,
                        self.allocator,
                        base,
                        size as int,
                    );
                    vstd::arithmetic::div_mod::lemma_fundamental_div_mod(
                        size as int + 4095,
                        4096,
                    );
                }
                proof {
                    vstd::arithmetic::div_mod::lemma_hoist_over_denominator(
                        size as int - 1,
                        base as int / 4096,
                        4096,
                    );
                    vstd::arithmetic::div_mod::lemma_hoist_over_denominator(
                        size as int - 1,
                        1,
                        4096,
                    );
                    vstd::arithmetic::div_mod::lemma_div_multiples_vanish(
                        base as int / 4096,
                        4096,
                    );
                    assert((base + size - 1) as int / 4096 == base as int / 4096
                        + spec_pages_needed(size as int) - 1);
                }
                let ghost pre = *self;
                let p = &mut self.processes.processes[0];
                p.page_table.identity_map(base, base + (size - 1) as u64, EntryAttributes::UserReadWrite);
                proof {
                    assert forall|i: int|
                        0 <= i < self.processes.processes@.len() && i != 0 implies #[trigger] self
                        .processes.processes@[i] == pre.processes.processes@[i] by {}
                    assert(self.processes.processes@[0].pid == pre.processes.processes@[0].pid);
                    assert(self.processes.processes@[0].state == pre.processes.processes@[0].state);
                    assert(self.processes.wf()) by {
                        assert forall|i: int, j: int|
                            #![trigger self.processes.processes@[i].pid, self.processes.processes@[j].pid]
                            0 <= i < j < self.processes.processes@.len() implies self.processes.processes@[
                        i].pid != self.processes.processes@[j].pid by {
                            assert(self.processes.processes@[i].pid == pre.processes.processes@[
                                i].pid);
                            assert(self.processes.processes@[j].pid == pre.processes.processes@[
                                j].pid);
                        }
                    }
                }
                self.set_reg(Registers::A0, base);
            },
            None => {
                self.set_reg(Registers::A0, 0);
            },
        }
        SyscallOutcome::Completed
    }

    /// What removing the current process for good leaves behind: the
    /// process gone from the queue, its server and queued messages purged,
    /// and the parts of the kernel a death does not touch unchanged.
    pub open spec fn spec_terminated(pre: Kernel, post: Kernel) -> bool {
        &&& post.processes.processes@.len() + 1 == pre.processes.processes@.len()
        &&& !post.processes.spec_has_pid(pre.spec_current().pid)
        &&& !post.servers.spec_has_pid(pre.spec_current().pid)
        &&& post.allocator == pre.allocator
        &&& post.root_table == pre.root_table
        &&& post.next_pid == pre.next_pid
        &&& post.trampoline_addr == pre.trampoline_addr
        &&& post.user_enter_addr == pre.user_enter_addr
    }

    /// Remove the current process for good: take it off the queue (waking a
    /// parent blocked on its exit), drop its server and every message it
    /// sent from all mailboxes, and release its interrupt handler slot.
    /// Returns its pid.
    pub fn terminate_current(&mut self) -> (r: usize)
        requires
            old(self).wf(),
            old(self).spec_has_current(),
        ensures
            final(self).wf(),
            r == old(self).spec_current().pid,
            Self::spec_terminated(*old(self), *final(self)),
            final(self).processes.processes@.len() + 1 == old(self).processes.processes@.len(),
            !final(self).processes.spec_has_pid(r),
            !final(self).servers.spec_has_pid(r),
            forall|i: int, j: int|
                0 <= i < final(self).servers.servers@.len() && 0 <= j < final(self).servers.servers@[i].messages@.len() ==> #[trigger] final(self).servers.servers@[i].messages@[j].sender_pid != r,
            final(self).allocator == old(self).allocator,
            final(self).root_table == old(self).root_table,
            final(self).next_pid == old(self).next_pid,
            final(self).trampoline_addr == old(self).trampoline_addr,
            final(self).user_enter_addr == old(self).user_enter_addr,
            forall|i: int|
                0 <= i < final(self).processes.processes@.len() ==> {
                    let rest = old(self).processes.processes@.drop_first();
                    #[trigger] final(self).processes.processes@[i].state == if (
                    rest[i].state matches ProcessState::ChildExited { child_pid } && child_pid == r
                        && (forall|j: int|
                        0 <= j < i
                            ==> !(#[trigger] rest[j].state matches ProcessState::ChildExited {
                            child_pid: c,
                        } && c == r))) {
                        ProcessState::Ready
                    } else {
                        rest[i].state
                    }
                },
    {
        let ghost pre = *self;
        let removed = match self.processes.remove_current() {
            Some(p) => p,
            None => {
                proof {
                    assert(false);
                }
                return 0;
            },
        };
        let pid = removed.pid;
        self.servers.remove_by_pid(pid);
        self.handlers.try_remove_user(pid);
        proof {
            let rest = pre.processes.processes@.drop_first();
            assert forall|i: int|
                0 <= i < self.processes.processes@.len() implies !((
            #[trigger] self.processes.processes@[i]).state is Running) by {
                assert(!(rest[i].state is Running)) by {
                    assert(!(pre.processes.processes@[i + 1].state is Running));
                }
            }
            assert forall|i: int|
                0 <= i < self.processes.processes@.len() implies (
            #[trigger] self.processes.processes@[i]).pid < self.next_pid by {
                assert(self.processes.processes@[i].pid == rest[i].pid);
                assert(pre.processes.processes@[i + 1].pid < pre.next_pid);
            }
            assert(!self.processes.spec_has_pid(pid)) by {
                if self.processes.spec_has_pid(pid) {
                    let w = choose|w: int|
                        0 <= w < self.processes.processes@.len()
                            && self.processes.processes@[w].pid == pid;
                    assert(self.processes.processes@[w].pid == rest[w].pid);
                    assert(pre.processes.processes@[0].pid != pre.processes.processes@[w
                        + 1].pid);
                }
            }
        }
        pid
    }

    /// The caller exits: it is removed, its resources of record are purged,
    /// and a parent blocked on its exit becomes Ready.
    pub fn sys_exit(&mut self) -> (r: SyscallOutcome)
        requires
            old(self).wf(),
            old(self).spec_has_current(),
        ensures
            final(self).wf(),
            r is Exited,
            Self::spec_terminated(*old(self), *final(self)),
            final(self).processes.processes@.len() + 1 == old(self).processes.processes@.len(),
            !final(self).processes.spec_has_pid(old(self).spec_current().pid),
            !final(self).servers.spec_has_pid(old(self).spec_current().pid),
            forall|i: int, j: int|
                0 <= i < final(self).servers.servers@.len() && 0 <= j < final(self).servers.servers@[i].messages@.len() ==> #[trigger] final(self).servers.servers@[i].messages@[j].sender_pid != old(self).spec_current().pid,
            forall|i: int|
                0 <= i < final(self).processes.processes@.len() ==> {
                    let rest = old(self).processes.processes@.drop_first();
                    #[trigger] final(self).processes.processes@[i].state == if (
                    rest[i].state matches ProcessState::ChildExited { child_pid } && child_pid
                        == old(self).spec_current().pid && (forall|j: int|
                        0 <= j < i
                            ==> !(#[trigger] rest[j].state matches ProcessState::ChildExited {
                            child_pid: c,
                        } && c == old(self).spec_current().pid))) {
                        ProcessState::Ready
                    } else {
                        rest[i].state
                    }
                },
    {
        self.terminate_current();
        SyscallOutcome::Exited
    }

    /// Wake the process `pid` if it is blocked waiting for a message.
    fn wake_if_waiting(&mut self, pid: usize)
        requires
            old(self).wf(),
        ensures
            final(self).wf(),
            *final(self) == (Kernel { processes: final(self).processes, ..*old(self) }),
            final(self).processes.processes@.len() == old(self).processes.processes@.len(),
            forall|i: int|
                #![trigger final(self).processes.processes@[i]]
                0 <= i < old(self).processes.processes@.len() ==> {
                    let pre = old(self).processes.processes@[i];
                    let post = final(self).processes.processes@[i];
                    post.pid == pre.pid && post.page_table == pre.page_table && post.trap_frame
                        == pre.trap_frame && (post.state == pre.state || (pre.pid == pid
                        && pre.state is WaitUntilMessageReceived && post.state is Ready))
                },
            forall|i: int|
                0 <= i < old(self).processes.processes@.len() && old(self).processes.processes@[i].pid == pid && old(self).processes.processes@[i].state
                    is WaitUntilMessageReceived ==> (#[trigger] final(self).processes.processes@[i]).state is Ready,
    {
        let ghost pre_k = *self;
        match self.processes.find_by_pid(pid) {
            Some(p) => {
                let waiting = match &p.state {
                    ProcessState::WaitUntilMessageReceived => true,
                    _ => false,
                };
                if waiting {
                    p.state = ProcessState::Ready;
                }
                proof {
                    let i = pre_k.processes.spec_index_of_pid(pid);
                    assert(self.processes.processes@.len()
                        == pre_k.processes.processes@.len());
                    assert forall|k: int|
                        0 <= k < self.processes.processes@.len() && k != i implies #[trigger] self
                        .processes.processes@[k] == pre_k.processes.processes@[k] by {}
                    assert(self.processes.processes@[i].pid
                        == pre_k.processes.processes@[i].pid);
                    assert(self.processes.wf()) by {
                        assert forall|a: int, b: int|
                            #![trigger self.processes.processes@[a].pid, self.processes.processes@[b].pid]
                            0 <= a < b < self.processes.processes@.len() implies self.processes.processes@[
                        a].pid != self.processes.processes@[b].pid by {
                            assert(self.processes.processes@[a].pid
                                == pre_k.processes.processes@[a].pid);
                            assert(self.processes.processes@[b].pid
                                == pre_k.processes.processes@[b].pid);
                        }
                    }
                    assert forall|k: int|
                        0 <= k < self.processes.processes@.len() implies (
                    #[trigger] self.processes.processes@[k]).pid < self.next_pid by {
                        assert(self.processes.processes@[k].pid
                            == pre_k.processes.processes@[k].pid);
                    }
                    assert forall|k: int|
                        1 <= k < self.processes.processes@.len() implies !((
                    #[trigger] self.processes.processes@[k]).state is Running) by {
                        assert(self.processes.processes@[k].state
                            == pre_k.processes.processes@[k].state || self.processes.processes@[
                        k].state is Ready);
                    }
                }
            },
            None => {},
        }
    }

    /// Spawn a new process from the ELF image the caller handed over.  The
    /// child is queued Ready and its pid lands in a0; with a2 nonzero the
    /// caller blocks until the child exits.  A rejected image or exhausted
    /// memory leaves the sentinel in a0.
    pub fn sys_spawn(&mut self, image: &[u8]) -> (r: SyscallOutcome)
        requires
            old(self).wf(),
            old(self).spec_has_current(),
            old(self).next_pid < usize::MAX,
        ensures
            final(self).wf(),
            r is Completed,
            final(self).spec_reg(Registers::A0) == NO_VALUE ==> final(self).processes.processes@.len() == old(self).processes.processes@.len() && final(self).next_pid == old(self).next_pid,
            crate::elf::loader::spec_image_ok(image@) && final(self).spec_reg(Registers::A0)
                == NO_VALUE ==> !(exists|i: int|
                Allocator::spec_fit_at(
                    final(self).allocator.pages@,
                    i,
                    spec_pages_needed(crate::process::STACK_SIZE as int),
                )),
            final(self).spec_reg(Registers::A0) != NO_VALUE ==> {
                &&& final(self).processes.processes@.len() == old(self).processes.processes@.len() + 1
                &&& final(self).processes.processes@.last().pid == old(self).next_pid
                &&& final(self).processes.processes@.last().state is Ready
                &&& final(self).next_pid == old(self).next_pid + 1
                &&& final(self).spec_reg(Registers::A0) == old(self).next_pid
                &&& (old(self).spec_reg(Registers::A2) != 0 ==> (final(self).spec_current().state matches ProcessState::ChildExited { child_pid } && child_pid
                    == old(self).next_pid))
            },
    {
        let blocking = self.reg(Registers::A2) != 0;
        let pid = self.next_pid;
        let trampoline = self.trampoline_addr;
        let user_enter = self.user_enter_addr;
        let created = Process::new(image, pid, &mut self.allocator, trampoline, user_enter);
        match created {
            Ok(child) => {
                if blocking {
                    self.set_current_state(ProcessState::ChildExited { child_pid: pid });
                }
                proof {
                    assert(!self.processes.spec_has_pid(pid)) by {
                        if self.processes.spec_has_pid(pid) {
                            let w = choose|w: int|
                                0 <= w < self.processes.processes@.len()
                                    && self.processes.processes@[w].pid == pid;
                            assert(self.processes.processes@[w].pid < self.next_pid);
                        }
                    }
                }
                self.processes.push(child);
                self.next_pid = pid + 1;
                self.set_reg(Registers::A0, pid as u64);
                proof {
                    assert(pid as u64 != NO_VALUE);
                }
                SyscallOutcome::Completed
            },
            Err(_) => {
                self.set_reg(Registers::A0, NO_VALUE);
                SyscallOutcome::Completed
            },
        }
    }


    /// Send a message.  a0 names the receiving server, a1 the identifier,
    /// a2..=a6 the payload.  The caller must own a server and the receiver
    /// must exist, else the caller is killed.  The message lands at the
    /// back of the receiver's mailbox stamped with the caller's identity;
    /// unless the caller is inside an interrupt handler it blocks until the
    /// message is consumed; a receiver asleep waiting for mail is woken.
    pub fn sys_send_message(&mut self) -> (r: SyscallOutcome)
        requires
            old(self).wf(),
            old(self).spec_has_current(),
        ensures
            final(self).wf(),
            r is Killed || r is Completed,
            r is Killed <==> (!old(self).servers.spec_has_pid(old(self).spec_current().pid)
                || !old(self).servers.spec_has_sid(old(self).spec_reg(Registers::A0))),
            r is Completed ==> {
                let sid = old(self).spec_reg(Registers::A0);
                let i = old(self).servers.spec_index_of_sid(sid);
                let rpid = old(self).servers.servers@[i].process_id;
                let plen = old(self).processes.processes@.len();
                let sender = old(self).servers.servers@[old(self).servers.spec_index_of_pid(
                    old(self).spec_current().pid,
                )];
                &&& final(self).servers.servers@[i].messages@ == old(self).servers.servers@[i].messages@.push(
                    Message {
                        identifier: old(self).spec_reg(Registers::A1),
                        sender_pid: old(self).spec_current().pid,
                        sender_sid: sender.server_id,
                        data: MessageData {
                            data: [
                                old(self).spec_reg(Registers::A2),
                                old(self).spec_reg(Registers::A3),
                                old(self).spec_reg(Registers::A4),
                                old(self).spec_reg(Registers::A5),
                                old(self).spec_reg(Registers::A6),
                            ],
                        },
                    },
                )
                &&& (old(self).spec_current().state is HandlingInterrupt ==> final(self).spec_current().state == old(self).spec_current().state)
                &&& (!(old(self).spec_current().state is HandlingInterrupt) ==> (final(self).spec_current().state matches ProcessState::MessageSent { receiver_sid }
                    && receiver_sid == sid))
                &&& final(self).servers.servers@.len() == old(self).servers.servers@.len()
                &&& (forall|j: int|
                    0 <= j < old(self).servers.servers@.len() && j != i ==> #[trigger] final(self).servers.servers@[j] == old(self).servers.servers@[j])
                &&& final(self).servers.servers@[i].process_id == rpid
                &&& final(self).servers.servers@[i].server_id == old(self).servers.servers@[i].server_id
                &&& final(self).servers.next_server_id == old(self).servers.next_server_id
                &&& final(self).allocator == old(self).allocator
                &&& final(self).root_table == old(self).root_table
                &&& final(self).handlers == old(self).handlers
                &&& final(self).next_pid == old(self).next_pid
                &&& final(self).processes.processes@.len() == plen
                &&& (forall|k: int|
                    0 <= k < plen ==> #[trigger] final(self).processes.processes@[k].pid == old(self).processes.processes@[k].pid && final(self).processes.processes@[k].page_table
                        == old(self).processes.processes@[k].page_table && final(self).processes.processes@[k].trap_frame == old(self).processes.processes@[k].trap_frame)
                &&& (forall|k: int|
                    1 <= k < plen ==> (#[trigger] final(self).processes.processes@[k].state
                        == old(self).processes.processes@[k].state || (old(self).processes.processes@[k].pid == rpid && old(self).processes.processes@[k].state
                        is WaitUntilMessageReceived && final(self).processes.processes@[k].state
                        is Ready)))
                &&& (forall|k: int|
                    1 <= k < plen && old(self).processes.processes@[k].pid == rpid && old(self).processes.processes@[k].state is WaitUntilMessageReceived
                        ==> (#[trigger] final(self).processes.processes@[k]).state is Ready)
            },
    {
        let sid = self.reg(Registers::A0);
        let identifier = self.reg(Registers::A1);
        let data = MessageData::new(
            [
                self.reg(Registers::A2),
                self.reg(Registers::A3),
                self.reg(Registers::A4),
                self.reg(Registers::A5),
                self.reg(Registers::A6),
            ],
        );
        let pid = self.processes.processes[0].pid;
        let ghost k0 = *self;
        let curr_sid = match self.servers.get_by_pid(pid) {
            Some(s) => s.server_id,
            None => {
                self.terminate_current();
                return SyscallOutcome::Killed;
            },
        };
        proof {
            assert(self.servers.servers@ =~= k0.servers.servers@);
        }
        let receiver_pid = match self.servers.get_by_sid(sid) {
            Some(receiver) => {
                let rpid = receiver.process_id;
                receiver.send_message(Message::new(pid, curr_sid, identifier, data));
                rpid
            },
            None => {
                self.terminate_current();
                return SyscallOutcome::Killed;
            },
        };
        proof {
            let i = k0.servers.spec_index_of_sid(sid);
            assert(self.servers.wf()) by {
                assert forall|a: int, b: int|
                    #![trigger self.servers.servers@[a].process_id, self.servers.servers@[b].process_id]
                    #![trigger self.servers.servers@[a].server_id, self.servers.servers@[b].server_id]
                    0 <= a < b < self.servers.servers@.len() implies self.servers.servers@[
                a].process_id != self.servers.servers@[b].process_id && self.servers.servers@[
                a].server_id != self.servers.servers@[b].server_id by {
                    assert(self.servers.servers@[a].process_id
                        == k0.servers.servers@[a].process_id && self.servers.servers@[a].server_id
                        == k0.servers.servers@[a].server_id);
                    assert(self.servers.servers@[b].process_id
                        == k0.servers.servers@[b].process_id && self.servers.servers@[b].server_id
                        == k0.servers.servers@[b].server_id);
                }
            }
        }
        let is_handling = match &self.processes.processes[0].state {
            ProcessState::HandlingInterrupt { .. } => true,
            _ => false,
        };
        if !is_handling {
            self.set_current_state(ProcessState::MessageSent { receiver_sid: sid });
        }
        self.wake_if_waiting(receiver_pid);
        SyscallOutcome::Completed
    }

    /// Receive a message: the front of the caller's mailbox is popped and
    /// its identifier, sender identity and payload land in a0..=a6; an
    /// empty mailbox leaves the sentinel in a0.  The sender of the consumed
    /// message, if still blocked on this server, becomes Ready.  A caller
    /// that owns no server is killed.
    pub fn sys_receive_message(&mut self) -> (r: SyscallOutcome)
        requires
            old(self).wf(),
            old(self).spec_has_current(),
        ensures
            final(self).wf(),
            r is Killed || r is Completed,
            r is Killed <==> !old(self).servers.spec_has_pid(old(self).spec_current().pid),
            r is Completed ==> {
                let i = old(self).servers.spec_index_of_pid(old(self).spec_current().pid);
                let q = old(self).servers.servers@[i].messages@;
                let own_sid = old(self).servers.servers@[i].server_id;
                let plen = old(self).processes.processes@.len();
                &&& (q.len() == 0 ==> final(self).spec_reg(Registers::A0) == NO_VALUE && final(self).servers.servers@[i].messages@ == q)
                &&& (q.len() > 0 ==> final(self).spec_reg(Registers::A0) == q[0].identifier
                    && final(self).spec_reg(Registers::A1) == q[0].sender_sid && final(self).spec_reg(Registers::A2) == q[0].data.data@[0] && final(self).spec_reg(
                    Registers::A3,
                ) == q[0].data.data@[1] && final(self).spec_reg(Registers::A4)
                    == q[0].data.data@[2] && final(self).spec_reg(Registers::A5)
                    == q[0].data.data@[3] && final(self).spec_reg(Registers::A6)
                    == q[0].data.data@[4] && final(self).servers.servers@[i].messages@
                    == q.drop_first())
                &&& final(self).servers.servers@.len() == old(self).servers.servers@.len()
                &&& (forall|j: int|
                    0 <= j < old(self).servers.servers@.len() && j != i ==> #[trigger] final(self).servers.servers@[j] == old(self).servers.servers@[j])
                &&& final(self).servers.servers@[i].process_id == old(self).servers.servers@[i].process_id
                &&& final(self).servers.servers@[i].server_id == own_sid
                &&& final(self).servers.next_server_id == old(self).servers.next_server_id
                &&& final(self).allocator == old(self).allocator
                &&& final(self).root_table == old(self).root_table
                &&& final(self).handlers == old(self).handlers
                &&& final(self).next_pid == old(self).next_pid
                &&& final(self).processes.processes@.len() == plen
                &&& (forall|k: int|
                    0 <= k < plen ==> #[trigger] final(self).processes.processes@[k].pid == old(self).processes.processes@[k].pid && final(self).processes.processes@[k].page_table
                        == old(self).processes.processes@[k].page_table)
                &&& (forall|k: int|
                    1 <= k < plen ==> #[trigger] final(self).processes.processes@[k].trap_frame
                        == old(self).processes.processes@[k].trap_frame)
                &&& (forall|k: int|
                    1 <= k < plen ==> (#[trigger] final(self).processes.processes@[k].state
                        == old(self).processes.processes@[k].state || (q.len() > 0 && old(self).processes.processes@[k].pid == q[0].sender_pid && (old(self).processes.processes@[k].state matches ProcessState::MessageSent {
                        receiver_sid,
                    } && receiver_sid == own_sid) && final(self).processes.processes@[k].state
                        is Ready)))
                &&& (forall|k: int|
                    1 <= k < plen && q.len() > 0 && old(self).processes.processes@[k].pid
                        == q[0].sender_pid && (old(self).processes.processes@[k].state
                        matches ProcessState::MessageSent { receiver_sid } && receiver_sid
                        == own_sid) ==> (#[trigger] final(self).processes.processes@[k]).state
                        is Ready)
            },
    {
        let pid = self.processes.processes[0].pid;
        let ghost k0 = *self;
        let popped = match self.servers.get_by_pid(pid) {
            Some(server) => {
                let sid = server.server_id;
                let m = server.receive_message();
                (m, sid)
            },
            None => {
                self.terminate_current();
                return SyscallOutcome::Killed;
            },
        };
        proof {
            let i = k0.servers.spec_index_of_pid(pid);
            assert(self.servers.wf()) by {
                assert forall|a: int, b: int|
                    #![trigger self.servers.servers@[a].process_id, self.servers.servers@[b].process_id]
                    #![trigger self.servers.servers@[a].server_id, self.servers.servers@[b].server_id]
                    0 <= a < b < self.servers.servers@.len() implies self.servers.servers@[
                a].process_id != self.servers.servers@[b].process_id && self.servers.servers@[
                a].server_id != self.servers.servers@[b].server_id by {
                    assert(self.servers.servers@[a].process_id
                        == k0.servers.servers@[a].process_id && self.servers.servers@[a].server_id
                        == k0.servers.servers@[a].server_id);
                    assert(self.servers.servers@[b].process_id
                        == k0.servers.servers@[b].process_id && self.servers.servers@[b].server_id
                        == k0.servers.servers@[b].server_id);
                }
            }
        }
        match popped.0 {
            Some(msg) => {
                self.set_reg(Registers::A0, msg.identifier);
                self.set_reg(Registers::A1, msg.sender_sid);
                self.set_reg(Registers::A2, msg.data.data[0]);
                self.set_reg(Registers::A3, msg.data.data[1]);
                self.set_reg(Registers::A4, msg.data.data[2]);
                self.set_reg(Registers::A5, msg.data.data[3]);
                self.set_reg(Registers::A6, msg.data.data[4]);
                self.wake_sender_if_blocked(msg.sender_pid, popped.1);
            },
            None => {
                self.set_reg(Registers::A0, NO_VALUE);
            },
        }
        SyscallOutcome::Completed
    }

    /// Wake the process `pid` if it is blocked on having sent to the server
    /// with identity `sid`.
    fn wake_sender_if_blocked(&mut self, pid: usize, sid: u64)
        requires
            old(self).wf(),
        ensures
            final(self).wf(),
            *final(self) == (Kernel { processes: final(self).processes, ..*old(self) }),
            final(self).processes.processes@.len() == old(self).processes.processes@.len(),
            forall|i: int|
                #![trigger final(self).processes.processes@[i]]
                0 <= i < old(self).processes.processes@.len() ==> {
                    let pre = old(self).processes.processes@[i];
                    let post = final(self).processes.processes@[i];
                    post.pid == pre.pid && post.page_table == pre.page_table && post.trap_frame
                        == pre.trap_frame && (post.state == pre.state || (pre.pid == pid && (
                    pre.state matches ProcessState::MessageSent { receiver_sid } && receiver_sid
                        == sid) && post.state is Ready))
                },
            forall|i: int|
                0 <= i < old(self).processes.processes@.len() && old(self).processes.processes@[i].pid == pid && (old(self).processes.processes@[i].state
                    matches ProcessState::MessageSent { receiver_sid } && receiver_sid == sid)
                    ==> (#[trigger] final(self).processes.processes@[i]).state is Ready,
    {
        let ghost pre_k = *self;
        match self.processes.find_by_pid(pid) {
            Some(p) => {
                let blocked = match &p.state {
                    ProcessState::MessageSent { receiver_sid } => *receiver_sid == sid,
                    _ => false,
                };
                if blocked {
                    p.state = ProcessState::Ready;
                }
                proof {
                    let i = pre_k.processes.spec_index_of_pid(pid);
                    assert(self.processes.processes@.len()
                        == pre_k.processes.processes@.len());
                    assert forall|k: int|
                        0 <= k < self.processes.processes@.len() && k != i implies #[trigger] self
                        .processes.processes@[k] == pre_k.processes.processes@[k] by {}
                    assert(self.processes.processes@[i].pid
                        == pre_k.processes.processes@[i].pid);
                    assert(self.processes.wf()) by {
                        assert forall|a: int, b: int|
                            #![trigger self.processes.processes@[a].pid, self.processes.processes@[b].pid]
                            0 <= a < b < self.processes.processes@.len() implies self.processes.processes@[
                        a].pid != self.processes.processes@[b].pid by {
                            assert(self.processes.processes@[a].pid
                                == pre_k.processes.processes@[a].pid);
                            assert(self.processes.processes@[b].pid
                                == pre_k.processes.processes@[b].pid);
                        }
                    }
                    assert forall|k: int|
                        0 <= k < self.processes.processes@.len() implies (
                    #[trigger] self.processes.processes@[k]).pid < self.next_pid by {
                        assert(self.processes.processes@[k].pid
                            == pre_k.processes.processes@[k].pid);
                    }
                    assert forall|k: int|
                        1 <= k < self.processes.processes@.len() implies !((
                    #[trigger] self.processes.processes@[k]).state is Running) by {
                        assert(self.processes.processes@[k].state
                            == pre_k.processes.processes@[k].state || self.processes.processes@[
                        k].state is Ready);
                    }
                }
            },
            None => {},
        }
    }

    /// Identity-map a range for the caller.  a0 and a1 carry the inclusive
    /// virtual range, which must be page-aligned and resolvable through the
    /// kernel's own table; the resolved physical range is mapped into the
    /// caller's address space user-readable and writable.  Violations kill
    /// the caller.
    pub fn sys_identity_map(&mut self) -> (r: SyscallOutcome)
        requires
            old(self).wf(),
            old(self).spec_has_current(),
        ensures
            final(self).wf(),
            r is Killed || r is Completed,
            r is Killed ==> Self::spec_terminated(*old(self), *final(self)),
            r is Killed <==> ({
                let a0 = old(self).spec_reg(Registers::A0);
                let a1 = old(self).spec_reg(Registers::A1);
                let t = old(self).root_table;
                a0 % 4096 != 0 || a1 % 4096 != 0 || t.spec_physical_addr(a0) is None
                    || t.spec_physical_addr(a1) is None || !(t.spec_physical_addr(a0)->0
                    <= t.spec_physical_addr(a1)->0 < MAX_VADDR)
            }),
            r is Completed ==> {
                let ps = old(self).root_table.spec_physical_addr(
                    old(self).spec_reg(Registers::A0),
                )->0;
                let pe = old(self).root_table.spec_physical_addr(
                    old(self).spec_reg(Registers::A1),
                )->0;
                &&& old(self).spec_reg(Registers::A0) % 4096 == 0
                &&& old(self).spec_reg(Registers::A1) % 4096 == 0
                &&& old(self).root_table.spec_physical_addr(old(self).spec_reg(Registers::A0))
                    is Some
                &&& old(self).root_table.spec_physical_addr(old(self).spec_reg(Registers::A1))
                    is Some
                &&& ps <= pe < MAX_VADDR
                &&& forall|v: u64|
                    ps <= v <= pe ==> #[trigger] final(self).spec_current().page_table.spec_physical_addr(v) == Some(v)
            },
    {
        let start = self.reg(Registers::A0);
        let end = self.reg(Registers::A1);
        if start % 4096 != 0 || end % 4096 != 0 {
            self.terminate_current();
            return SyscallOutcome::Killed;
        }
        let ps = match self.root_table.physical_addr(start) {
            Some(p) => p,
            None => {
                self.terminate_current();
                return SyscallOutcome::Killed;
            },
        };
        let pe = match self.root_table.physical_addr(end) {
            Some(p) => p,
            None => {
                self.terminate_current();
                return SyscallOutcome::Killed;
            },
        };
        if ps > pe || pe >= MAX_VADDR {
            self.terminate_current();
            return SyscallOutcome::Killed;
        }
        let ghost pre = *self;
        let p = &mut self.processes.processes[0];
        p.page_table.identity_map(ps, pe, EntryAttributes::UserReadWrite);
        proof {
            self.lemma_front_table_update(pre);
        }
        SyscallOutcome::Completed
    }

    /// The queue invariant survives a page-table change of the front
    /// process.
    proof fn lemma_front_table_update(self, pre: Kernel)
        requires
            pre.wf(),
            pre.spec_has_current(),
            self.processes.processes@.len() == pre.processes.processes@.len(),
            forall|i: int|
                1 <= i < self.processes.processes@.len() ==> #[trigger] self.processes.processes@[i]
                    == pre.processes.processes@[i],
            self.processes.processes@[0].pid == pre.processes.processes@[0].pid,
            self.processes.processes@[0].state.wf(),
            self.processes.processes@[0].trap_frame.wf(),
            self.processes.processes@[0].page_table.wf(),
            self.servers == pre.servers,
            self.allocator.wf(),
            self.allocator.active,
            self.allocator.base_addr == pre.allocator.base_addr,
            self.handlers == pre.handlers,
            self.root_table == pre.root_table,
            self.next_pid == pre.next_pid,
            self.trampoline_addr == pre.trampoline_addr,
            self.user_enter_addr == pre.user_enter_addr,
        ensures
            self.wf(),
    {
        assert forall|i: int|
            0 <= i < self.processes.processes@.len() implies (
        #[trigger] self.processes.processes@[i]).wf() by {
            if i != 0 {
                assert(self.processes.processes@[i] == pre.processes.processes@[i]);
            }
        }
        assert forall|a: int, b: int|
            #![trigger self.processes.processes@[a].pid, self.processes.processes@[b].pid]
            0 <= a < b < self.processes.processes@.len() implies self.processes.processes@[a].pid
            != self.processes.processes@[b].pid by {
            assert(self.processes.processes@[a].pid == pre.processes.processes@[a].pid);
            assert(self.processes.processes@[b].pid == pre.processes.processes@[b].pid);
        }
        assert forall|i: int|
            0 <= i < self.processes.processes@.len() implies (
        #[trigger] self.processes.processes@[i]).pid < self.next_pid by {
            assert(self.processes.processes@[i].pid == pre.processes.processes@[i].pid);
        }
        assert forall|i: int|
            1 <= i < self.processes.processes@.len() implies !((
        #[trigger] self.processes.processes@[i]).state is Running) by {
            assert(self.processes.processes@[i] == pre.processes.processes@[i]);
        }
    }

    /// The queue invariant survives giving the front process a new
    /// well-formed, non-Running state.
    proof fn lemma_front_state_set(self, pre: Kernel)
        requires
            pre.wf(),
            pre.spec_has_current(),
            self.processes.processes@.len() == pre.processes.processes@.len(),
            forall|i: int|
                1 <= i < self.processes.processes@.len() ==> #[trigger] self.processes.processes@[i]
                    == pre.processes.processes@[i],
            self.processes.processes@[0].pid == pre.processes.processes@[0].pid,
            self.processes.processes@[0].page_table == pre.processes.processes@[0].page_table,
            self.processes.processes@[0].trap_frame == pre.processes.processes@[0].trap_frame,
            self.processes.processes@[0].state.wf(),
            !(self.processes.processes@[0].state is Running),
            self.servers == pre.servers,
            self.allocator == pre.allocator,
            self.handlers == pre.handlers,
            self.root_table == pre.root_table,
            self.next_pid == pre.next_pid,
            self.trampoline_addr == pre.trampoline_addr,
            self.user_enter_addr == pre.user_enter_addr,
        ensures
            self.wf(),
    {
        assert forall|i: int|
            0 <= i < self.processes.processes@.len() implies (
        #[trigger] self.processes.processes@[i]).wf() by {
            if i != 0 {
                assert(self.processes.processes@[i] == pre.processes.processes@[i]);
            }
        }
        assert forall|a: int, b: int|
            #![trigger self.processes.processes@[a].pid, self.processes.processes@[b].pid]
            0 <= a < b < self.processes.processes@.len() implies self.processes.processes@[a].pid
            != self.processes.processes@[b].pid by {
            assert(self.processes.processes@[a].pid == pre.processes.processes@[a].pid);
            assert(self.processes.processes@[b].pid == pre.processes.processes@[b].pid);
        }
        assert forall|i: int|
            0 <= i < self.processes.processes@.len() implies (
        #[trigger] self.processes.processes@[i]).pid < self.next_pid by {
            assert(self.processes.processes@[i].pid == pre.processes.processes@[i].pid);
        }
        assert forall|i: int|
            1 <= i < self.processes.processes@.len() implies !((
        #[trigger] self.processes.processes@[i]).state is Running) by {
            assert(self.processes.processes@[i] == pre.processes.processes@[i]);
        }
    }

    /// Free a run the caller obtained from Allocate: a0 carries the base.
    /// The address is resolved through the caller's table, the run's pages
    /// are unmapped from the caller, and the frames return to the
    /// allocator.  An address that does not resolve to an allocator run of
    /// the caller's heap kills the caller.
    pub fn sys_deallocate(&mut self) -> (r: SyscallOutcome)
        requires
            old(self).wf(),
            old(self).spec_has_current(),
        ensures
            final(self).wf(),
            r is Killed || r is Completed,
            r is Killed ==> Self::spec_terminated(*old(self), *final(self)),
            r is Killed <==> ({
                let ptr = old(self).spec_reg(Registers::A0);
                let pa_opt = old(self).spec_current().page_table.spec_physical_addr(ptr);
                let base = old(self).allocator.base_addr;
                let id = ((pa_opt->0 - base) as int) / 4096;
                pa_opt is None || pa_opt->0 < base || ((pa_opt->0 - base) as int) % 4096 != 0
                    || id >= crate::memory::TOTAL_PAGES || id + old(self).allocator.pages@[id]
                    > crate::memory::TOTAL_PAGES || ptr > u64::MAX - (old(self).allocator.pages@[id] as int * 4096)
            }),
            r is Completed ==> ({
                let ptr = old(self).spec_reg(Registers::A0);
                let pa = old(self).spec_current().page_table.spec_physical_addr(ptr)->0;
                let base = old(self).allocator.base_addr;
                let id = ((pa - base) as int) / 4096;
                let stride = old(self).allocator.pages@[id] as int;
                &&& (forall|k: int|
                    0 <= k < crate::memory::TOTAL_PAGES ==> #[trigger] final(self).allocator.pages@[k] == if id <= k < id + stride {
                        0usize
                    } else {
                        old(self).allocator.pages@[k]
                    })
                &&& (forall|k: int|
                    0 <= k < stride ==> #[trigger] final(self).spec_current().page_table.spec_page_at(
                        crate::pte::spec_vpn((ptr + k * 4096) as u64),
                    ) is None)
            }),
    {
        let ptr = self.reg(Registers::A0);
        let pa = match self.processes.processes[0].page_table.physical_addr(ptr) {
            Some(p) => p,
            None => {
                self.terminate_current();
                return SyscallOutcome::Killed;
            },
        };
        let base = self.allocator.base_addr;
        if pa < base || (pa - base) % 4096 != 0 || (pa - base) / 4096 >= crate::memory::TOTAL_PAGES
            as u64 {
            self.terminate_current();
            return SyscallOutcome::Killed;
        }
        let stride = self.allocator.size_of(pa) / PAGE_SIZE;
        proof {
            vstd::arithmetic::div_mod::lemma_div_multiples_vanish(
                self.allocator.pages@[((pa - base) / 4096) as int] as int,
                4096,
            );
        }
        if (pa - base) / 4096 + stride as u64 > crate::memory::TOTAL_PAGES as u64 || ptr > u64::MAX
            - (stride as u64) * 4096 {
            self.terminate_current();
            return SyscallOutcome::Killed;
        }
        // Unmap the run's pages from the caller, then clear the run.
        let ghost pre = *self;
        let p = &mut self.processes.processes[0];
        let ghost t0 = p.page_table;
        let mut i: u64 = 0;
        while i < stride as u64
            invariant
                p.page_table.wf(),
                ptr + (stride as u64) * 4096 <= u64::MAX,
                i <= stride as u64,
                p.pid == pre.processes.processes@[0].pid,
                p.state == pre.processes.processes@[0].state,
                p.trap_frame == pre.processes.processes@[0].trap_frame,
                forall|k: int|
                    0 <= k < i ==> #[trigger] p.page_table.spec_page_at(
                        crate::pte::spec_vpn((ptr + k * 4096) as u64),
                    ) is None,
                forall|w: int|
                    0 <= w < crate::table::VPN_SPACE && (forall|k: int|
                        0 <= k < i ==> crate::pte::spec_vpn(#[trigger] ((ptr + k * 4096) as u64))
                            != w) ==> #[trigger] p.page_table.spec_page_at(w) == t0.spec_page_at(
                        w,
                    ),
            decreases stride as u64 - i,
        {
            proof {
                vstd::arithmetic::mul::lemma_mul_inequality(
                    i as int + 1,
                    stride as int,
                    4096,
                );
                vstd::arithmetic::mul::lemma_mul_is_distributive_add_other_way(
                    4096,
                    i as int,
                    1,
                );
            }
            let ghost tmid = p.page_table;
            p.page_table.unmap(ptr + i * 4096);
            proof {
                assert forall|k: int|
                    0 <= k < i + 1 implies #[trigger] p.page_table.spec_page_at(
                    crate::pte::spec_vpn((ptr + k * 4096) as u64),
                ) is None by {
                    let w = crate::pte::spec_vpn((ptr + k * 4096) as u64);
                    assert(0 <= w < crate::table::VPN_SPACE);
                    if k < i {
                        if w != crate::pte::spec_vpn((ptr + i as int * 4096) as u64) {
                            assert(p.page_table.spec_page_at(w) == tmid.spec_page_at(w));
                        }
                    }
                }
                assert forall|w: int|
                    0 <= w < crate::table::VPN_SPACE && (forall|k: int|
                        0 <= k < i + 1 ==> crate::pte::spec_vpn(
                            #[trigger] ((ptr + k * 4096) as u64),
                        ) != w) implies #[trigger] p.page_table.spec_page_at(w)
                    == t0.spec_page_at(w) by {
                    assert(crate::pte::spec_vpn((ptr + i as int * 4096) as u64) != w);
                    assert(p.page_table.spec_page_at(w) == tmid.spec_page_at(w));
                    assert(tmid.spec_page_at(w) == t0.spec_page_at(w));
                }
            }
            i = i + 1;
        }
        proof {
            self.lemma_front_table_update(pre);
        }
        self.allocator.deallocate(pa);
        SyscallOutcome::Completed
    }

    /// Move a page-aligned range of the caller's memory to the server named
    /// in a0: the pages are unmapped from the caller and identity-mapped
    /// into the recipient, which becomes responsible for freeing them.  a1
    /// and a2 carry the virtual range, whose start and end must be aligned
    /// and resolvable through the caller's table; violations and an unknown
    /// server kill the caller.
    pub fn sys_transfer_memory(&mut self) -> (r: SyscallOutcome)
        requires
            old(self).wf(),
            old(self).spec_has_current(),
        ensures
            final(self).wf(),
            r is Killed || r is Completed,
            r is Killed ==> Self::spec_terminated(*old(self), *final(self)),
            r is Killed <==> ({
                let a1 = old(self).spec_reg(Registers::A1);
                let a2 = old(self).spec_reg(Registers::A2);
                let t = old(self).spec_current().page_table;
                let known = old(self).servers.spec_has_sid(old(self).spec_reg(Registers::A0));
                a1 % 4096 != 0 || a2 % 4096 != 0 || (a2 <= a1 && !known) || (a2 > a1 && (
                t.spec_physical_addr(a1) is None || t.spec_physical_addr((a2 - 4096) as u64)
                    is None || t.spec_physical_addr((a2 - 4096) as u64)->0 > MAX_VADDR - 4096
                    || t.spec_physical_addr(a1)->0 >= t.spec_physical_addr(
                    (a2 - 4096) as u64,
                )->0 + 4096 || !known))
            }),
            r is Completed && old(self).spec_reg(Registers::A2) > old(self).spec_reg(
                Registers::A1,
            ) ==> ({
                let a0 = old(self).spec_reg(Registers::A0);
                let t = old(self).spec_current().page_table;
                let ps = t.spec_physical_addr(old(self).spec_reg(Registers::A1))->0;
                let pe = t.spec_physical_addr((old(self).spec_reg(Registers::A2) - 4096) as u64)->0
                    + 4096;
                let rpid = old(self).servers.servers@[old(self).servers.spec_index_of_sid(
                    a0,
                )].process_id;
                &&& (rpid != old(self).spec_current().pid ==> (forall|k: int|
                    0 <= k < (pe - ps) / 4096 ==> #[trigger] final(self).spec_current().page_table.spec_page_at(
                        crate::pte::spec_vpn((ps + k * 4096) as u64),
                    ) is None))
                &&& (old(self).processes.spec_has_pid(rpid) && rpid != old(self).spec_current().pid
                    ==> (forall|v: u64|
                    ps <= v < pe ==> #[trigger] final(self).processes.processes@[old(self).processes.spec_index_of_pid(rpid)].page_table.spec_physical_addr(v) == Some(
                        v,
                    )))
            }),
    {
        let sid = self.reg(Registers::A0);
        let start = self.reg(Registers::A1);
        let end = self.reg(Registers::A2);
        if start % 4096 != 0 || end % 4096 != 0 {
            self.terminate_current();
            return SyscallOutcome::Killed;
        }
        if end <= start {
            // Nothing to move; the recipient must still exist.
            match self.servers.get_by_sid(sid) {
                Some(_) => {
                    return SyscallOutcome::Completed;
                },
                None => {
                    self.terminate_current();
                    return SyscallOutcome::Killed;
                },
            }
        }
        let ps = match self.processes.processes[0].page_table.physical_addr(start) {
            Some(p) => p,
            None => {
                self.terminate_current();
                return SyscallOutcome::Killed;
            },
        };
        // The end is exclusive: the last page of the range anchors the
        // physical end.
        let pe = match self.processes.processes[0].page_table.physical_addr(end - 4096) {
            Some(p) => {
                if p > MAX_VADDR - 4096 {
                    self.terminate_current();
                    return SyscallOutcome::Killed;
                }
                p + 4096
            },
            None => {
                self.terminate_current();
                return SyscallOutcome::Killed;
            },
        };
        if ps >= pe {
            self.terminate_current();
            return SyscallOutcome::Killed;
        }
        // Withdraw the range from the caller, page by page.
        let pages: u64 = (pe - ps) / 4096;
        proof {
            vstd::arithmetic::div_mod::lemma_fundamental_div_mod(ps as int, 4096);
            vstd::arithmetic::div_mod::lemma_fundamental_div_mod(pe as int, 4096);
            assert(pe - ps == 4096 * (pe as int / 4096 - ps as int / 4096));
            vstd::arithmetic::div_mod::lemma_div_multiples_vanish(
                pe as int / 4096 - ps as int / 4096,
                4096,
            );
            assert(pages * 4096 == pe - ps);
        }
        let ghost pre = *self;
        let p = &mut self.processes.processes[0];
        let mut k: u64 = 0;
        while k < pages
            invariant
                p.page_table.wf(),
                k <= pages,
                ps + pages * 4096 == pe,
                pe <= MAX_VADDR,
                p.pid == pre.processes.processes@[0].pid,
                p.state == pre.processes.processes@[0].state,
                p.trap_frame == pre.processes.processes@[0].trap_frame,
                forall|j: int|
                    0 <= j < k ==> #[trigger] p.page_table.spec_page_at(
                        crate::pte::spec_vpn((ps + j * 4096) as u64),
                    ) is None,
            decreases pages - k,
        {
            proof {
                vstd::arithmetic::mul::lemma_mul_inequality(
                    k as int + 1,
                    pages as int,
                    4096,
                );
                vstd::arithmetic::mul::lemma_mul_is_distributive_add_other_way(
                    4096,
                    k as int,
                    1,
                );
            }
            let ghost tmid = p.page_table;
            p.page_table.unmap(ps + k * 4096);
            proof {
                assert forall|j: int|
                    0 <= j < k + 1 implies #[trigger] p.page_table.spec_page_at(
                    crate::pte::spec_vpn((ps + j * 4096) as u64),
                ) is None by {
                    let w = crate::pte::spec_vpn((ps + j * 4096) as u64);
                    assert(0 <= w < crate::table::VPN_SPACE);
                    if j < k {
                        if w != crate::pte::spec_vpn((ps + k as int * 4096) as u64) {
                            assert(p.page_table.spec_page_at(w) == tmid.spec_page_at(w));
                        }
                    }
                }
            }
            k = k + 1;
        }
        proof {
            self.lemma_front_table_update(pre);
        }
        // Hand it to the recipient.
        let receiver_pid = match self.servers.get_by_sid(sid) {
            Some(server) => server.process_id,
            None => {
                proof {
                    assert(self.servers.servers@ =~= pre.servers.servers@);
                }
                self.terminate_current();
                return SyscallOutcome::Killed;
            },
        };
        proof {
            assert(self.servers.servers@ =~= pre.servers.servers@);
            assert(self.wf()) by {
                assert forall|a: int, b: int|
                    #![trigger self.servers.servers@[a].process_id, self.servers.servers@[b].process_id]
                    #![trigger self.servers.servers@[a].server_id, self.servers.servers@[b].server_id]
                    0 <= a < b < self.servers.servers@.len() implies self.servers.servers@[
                a].process_id != self.servers.servers@[b].process_id && self.servers.servers@[
                a].server_id != self.servers.servers@[b].server_id by {
                    assert(self.servers.servers@[a].process_id
                        == pre.servers.servers@[a].process_id && self.servers.servers@[
                    a].server_id == pre.servers.servers@[a].server_id);
                    assert(self.servers.servers@[b].process_id
                        == pre.servers.servers@[b].process_id && self.servers.servers@[
                    b].server_id == pre.servers.servers@[b].server_id);
                }
            }
        }
        if ps < pe {
            let ghost mid = *self;
            match self.processes.find_by_pid(receiver_pid) {
                Some(receiver) => {
                    receiver.page_table.identity_map(
                        ps,
                        pe - 1,
                        EntryAttributes::UserReadWrite,
                    );
                    proof {
                        let i = mid.processes.spec_index_of_pid(receiver_pid);
                        assert(self.processes.processes@.len()
                            == mid.processes.processes@.len());
                        assert forall|k: int|
                            0 <= k < self.processes.processes@.len() && k != i implies #[trigger] self
                            .processes.processes@[k] == mid.processes.processes@[k] by {}
                        assert(self.processes.processes@[i].pid
                            == mid.processes.processes@[i].pid);
                        assert(self.processes.processes@[i].state
                            == mid.processes.processes@[i].state);
                        assert(self.wf()) by {
                            assert forall|a: int, b: int|
                                #![trigger self.processes.processes@[a].pid, self.processes.processes@[b].pid]
                                0 <= a < b < self.processes.processes@.len() implies self.processes.processes@[
                            a].pid != self.processes.processes@[b].pid by {
                                assert(self.processes.processes@[a].pid
                                    == mid.processes.processes@[a].pid);
                                assert(self.processes.processes@[b].pid
                                    == mid.processes.processes@[b].pid);
                            }
                            assert forall|k: int|
                                0 <= k < self.processes.processes@.len() implies (
                            #[trigger] self.processes.processes@[k]).pid < self.next_pid by {
                                assert(self.processes.processes@[k].pid
                                    == mid.processes.processes@[k].pid);
                            }
                            assert forall|k: int|
                                1 <= k < self.processes.processes@.len() implies !((
                            #[trigger] self.processes.processes@[k]).state is Running) by {
                                assert(self.processes.processes@[k].state
                                    == mid.processes.processes@[k].state);
                            }
                        }
                    }
                },
                None => {},
            }
        }
        SyscallOutcome::Completed
    }

    /// Register the caller's handler for an external interrupt source: a0
    /// carries the source id, a1 the handler address.  A source that is out
    /// of range or already claimed is a condition this kernel treats as
    /// fatal.
    pub fn sys_register_interrupt_handler(&mut self) -> (r: SyscallOutcome)
        requires
            old(self).wf(),
            old(self).spec_has_current(),
        ensures
            final(self).wf(),
            r is Completed <==> (old(self).spec_reg(Registers::A0)
                < crate::plic::MAX_HANDLERS as u64 && old(self).handlers.handlers@[old(self).spec_reg(Registers::A0) as int] is None),
            r is Completed ==> final(self).handlers.handlers@ == old(self).handlers.handlers@.update(
                old(self).spec_reg(Registers::A0) as int,
                Some(
                    crate::plic::UserHandler {
                        pid: old(self).spec_current().pid,
                        handler_ptr: old(self).spec_reg(Registers::A1),
                    },
                ),
            ),
            r is Completed || r is Fatal,
    {
        let interrupt = self.reg(Registers::A0);
        let handler = self.reg(Registers::A1);
        if interrupt >= crate::plic::MAX_HANDLERS as u64 {
            return SyscallOutcome::Fatal;
        }
        let pid = self.processes.processes[0].pid;
        let added = self.handlers.add_user(interrupt as u16, pid, handler);
        if added {
            SyscallOutcome::Completed
        } else {
            SyscallOutcome::Fatal
        }
    }

    /// Finish the caller's interrupt handler: the one-page handler stack is
    /// unmapped and freed, the stashed register file and state from before
    /// the interrupt are restored exactly, and the interrupt id is handed
    /// back for acknowledgement.  A caller not inside a handler is killed;
    /// a handler stack the allocator does not recognise is fatal.
    pub fn sys_complete_interrupt(&mut self) -> (r: SyscallOutcome)
        requires
            old(self).wf(),
            old(self).spec_has_current(),
        ensures
            final(self).wf(),
            r is Killed || r is Fatal || r is CompletedInterrupt,
            !(old(self).spec_current().state is HandlingInterrupt) <==> r is Killed,
            r is Killed ==> Self::spec_terminated(*old(self), *final(self)),
            r is Fatal <==> (old(self).spec_current().state is HandlingInterrupt
                && spec_bad_handler_stack(
                old(self).spec_reg(Registers::StackPointer),
                old(self).allocator,
            )),
            r is Fatal ==> *final(self) == *old(self),
            r matches SyscallOutcome::CompletedInterrupt { interrupt_id } ==> (old(self).spec_current().state matches ProcessState::HandlingInterrupt {
                old_state,
                old_registers,
                interrupt_id: saved_id,
            } && interrupt_id == saved_id && final(self).spec_current().state == *old_state
                && final(self).spec_current().trap_frame.registers@ == old_registers@),
            r is CompletedInterrupt ==> ({
                let sp = old(self).spec_reg(Registers::StackPointer);
                let base = old(self).allocator.base_addr;
                let id = ((sp - 4096 - base) as int) / 4096;
                let run = old(self).allocator.pages@[id] as int;
                &&& final(self).spec_current().page_table.spec_page_at(
                    crate::pte::spec_vpn((sp - 4096) as u64),
                ) is None
                &&& (forall|j: int|
                    0 <= j < crate::memory::TOTAL_PAGES ==> #[trigger] final(self).allocator.pages@[j] == if id <= j < id + run {
                        0usize
                    } else {
                        old(self).allocator.pages@[j]
                    })
            }),
    {
        let stashed = match &self.processes.processes[0].state {
            ProcessState::HandlingInterrupt { .. } => true,
            _ => false,
        };
        if !stashed {
            self.terminate_current();
            return SyscallOutcome::Killed;
        }
        let sp = self.reg(Registers::StackPointer);
        let base = self.allocator.base_addr;
        if sp < 4096 || sp - 4096 < base || (sp - 4096 - base) % 4096 != 0 || (sp - 4096 - base)
            / 4096 >= crate::memory::TOTAL_PAGES as u64 {
            return SyscallOutcome::Fatal;
        }
        let stack_base = sp - 4096;
        let id = (stack_base - base) / 4096;
        let run = self.allocator.pages[id as usize];
        if id + run as u64 > crate::memory::TOTAL_PAGES as u64 {
            return SyscallOutcome::Fatal;
        }
        let ghost pre = *self;
        let p = &mut self.processes.processes[0];
        p.page_table.unmap(stack_base);
        let mut taken = ProcessState::Ready;
        core::mem::swap(&mut taken, &mut p.state);
        let (old_state, old_registers, interrupt_id) = match taken {
            ProcessState::HandlingInterrupt { old_state, old_registers, interrupt_id } => (
                old_state,
                old_registers,
                interrupt_id,
            ),
            _ => {
                proof {
                    assert(false);
                }
                return SyscallOutcome::Fatal;
            },
        };
        p.trap_frame.save_user_registers(&old_registers);
        p.state = *old_state;
        proof {
            self.lemma_front_table_update(pre);
        }
        self.allocator.deallocate(stack_base);
        SyscallOutcome::CompletedInterrupt { interrupt_id }
    }

    /// Deliver an external interrupt to the user handler registered for it:
    /// the previously running process is re-queued, the target rotates to
    /// the front, its state and register file are stashed, its registers
    /// are cleared except the address-space register, and it continues on a
    /// fresh one-page stack at its handler.  A target already inside a
    /// handler drops the interrupt (false); so does a missing target or an
    /// exhausted allocator.
    pub fn deliver_user_interrupt(&mut self, interrupt_id: u32, handler_ptr: u64, pid: usize) -> (r:
        bool)
        requires
            old(self).wf(),
        ensures
            final(self).wf(),
            r <==> (old(self).processes.spec_has_pid(pid) && !(old(self).processes.processes@[old(self).processes.spec_index_of_pid(pid)].state is HandlingInterrupt) && (exists|
                i: int,
            |
                Allocator::spec_fit_at(old(self).allocator.pages@, i, 1))),
            r ==> final(self).spec_has_current() && final(self).spec_current().pid == pid && (
            final(self).spec_current().state matches ProcessState::HandlingInterrupt {
                interrupt_id: saved,
                ..
            } && saved == interrupt_id && final(self).spec_reg(Registers::ProgramCounter)
                == handler_ptr),
            r ==> ({
                let ti = old(self).processes.spec_index_of_pid(pid);
                let tgt = old(self).processes.processes@[ti];
                &&& (final(self).spec_current().state
                    matches ProcessState::HandlingInterrupt { old_state, old_registers, .. }
                    && old_registers@ == tgt.trap_frame.registers@ && *old_state == (if ti == 0
                    && tgt.state is Running {
                    ProcessState::Ready
                } else {
                    tgt.state
                }))
                &&& final(self).spec_reg(Registers::Satp) == tgt.trap_frame.registers@[0]
                &&& (forall|j: int|
                    3 <= j < REGISTER_COUNT ==> #[trigger] final(self).spec_current().trap_frame.registers@[j] == 0)
                &&& final(self).spec_reg(Registers::StackPointer) % 4096 == 0
                &&& (forall|v: u64|
                    final(self).spec_reg(Registers::StackPointer) - 4096 <= v < final(self).spec_reg(Registers::StackPointer) ==> #[trigger] final(self).spec_current().page_table.spec_physical_addr(v) == Some(v))
            }),
    {
        // Re-queue whoever was running.
        if self.processes.processes.len() > 0 {
            let front_running = match &self.processes.processes[0].state {
                ProcessState::Running => true,
                _ => false,
            };
            if front_running {
                self.set_current_state(ProcessState::Ready);
            }
        }
        let ghost k0 = *self;
        // Bring the target to the front.
        let pos = match self.processes.find_pid_position(pid) {
            Some(p) => p,
            None => {
                proof {
                    assert forall|w: int|
                        0 <= w < self.processes.processes@.len() implies #[trigger] self.processes.processes@[
                    w].pid == old(self).processes.processes@[w].pid by {}
                    if old(self).processes.spec_has_pid(pid) {
                        let w = old(self).processes.spec_index_of_pid(pid);
                        assert(self.processes.processes@[w].pid == pid);
                        assert(self.processes.spec_has_pid(pid));
                    }
                }
                return false;
            },
        };
        proof {
            let ti = old(self).processes.spec_index_of_pid(pid);
            assert(old(self).processes.spec_has_pid(pid)) by {
                assert(old(self).processes.processes@[pos as int].pid == pid);
            }
            assert(0 <= ti < old(self).processes.processes@.len() && old(self).processes.processes@[ti].pid == pid);
            if ti < pos as int {
                assert(old(self).processes.processes@[ti].pid != old(self).processes.processes@[pos as int].pid);
            } else if ti > pos as int {
                assert(old(self).processes.processes@[pos as int].pid != old(self).processes.processes@[ti].pid);
            }
            assert(ti == pos as int);
        }
        let ghost k1 = *self;
        self.processes.rotate_forward(pos);
        proof {
            vstd::arithmetic::div_mod::lemma_small_mod(
                pos as nat,
                k1.processes.processes@.len() as nat,
            );
            assert(self.processes.processes@[0] == k1.processes.processes@[pos as int]);
            assert(self.wf()) by {
                assert forall|i: int|
                    0 <= i < self.processes.processes@.len() implies (
                #[trigger] self.processes.processes@[i]).pid < self.next_pid by {
                    let j = (i + pos) % (self.processes.processes@.len() as int);
                    assert(self.processes.processes@[i] == k1.processes.processes@[j]);
                }
                assert forall|i: int|
                    1 <= i < self.processes.processes@.len() implies !((
                #[trigger] self.processes.processes@[i]).state is Running) by {
                    let j = (i + pos) % (self.processes.processes@.len() as int);
                    assert(self.processes.processes@[i] == k1.processes.processes@[j]);
                }
            }
        }
        let already_handling = match &self.processes.processes[0].state {
            ProcessState::HandlingInterrupt { .. } => true,
            _ => false,
        };
        proof {
            assert(k0.processes.processes@[pos as int].pid == old(self).processes.processes@[
                pos as int].pid);
            assert(k0.processes.processes@[pos as int].state is HandlingInterrupt <==> old(self).processes.processes@[pos as int].state is HandlingInterrupt);
        }
        if already_handling {
            return false;
        }
        proof {
            assert(self.allocator == old(self).allocator);
        }
        // Stash the interrupted register file.
        let saved_registers = clone_registers(&self.processes.processes[0].trap_frame.registers);
        let satp = self.reg(Registers::Satp);
        // A fresh register file: everything zero but the address space.
        let mut file: Vec<u64> = new_register_file();
        file.set(0, satp);
        let ghost pre = *self;
        let p = &mut self.processes.processes[0];
        p.trap_frame.save_user_registers(&file);
        proof {
            self.lemma_front_table_update(pre);
        }
        // A one-page stack of its own for the handler.
        let ghost pre2 = *self;
        let p2 = &mut self.processes.processes[0];
        let top = match Process::map_user_stack(&mut p2.page_table, &mut self.allocator, PAGE_SIZE) {
            Some(t) => t,
            None => {
                proof {
                    self.lemma_front_table_update(pre2);
                    assert(crate::memory::spec_pages_needed(PAGE_SIZE as int) == 1);
                    if exists|i: int|
                        Allocator::spec_fit_at(old(self).allocator.pages@, i, 1) {
                        let w = choose|i: int|
                            Allocator::spec_fit_at(old(self).allocator.pages@, i, 1);
                        assert(Allocator::spec_fit_at(
                            old(self).allocator.pages@,
                            w,
                            crate::memory::spec_pages_needed(PAGE_SIZE as int),
                        ));
                        assert(false);
                    }
                }
                return false;
            },
        };
        proof {
            self.lemma_front_table_update(pre2);
        }
        self.set_reg(Registers::StackPointer, top);
        self.set_reg(Registers::ProgramCounter, handler_ptr);
        let ghost pre3 = *self;
        let mut saved_state = ProcessState::Ready;
        {
            let p = &mut self.processes.processes[0];
            core::mem::swap(&mut saved_state, &mut p.state);
        }
        proof {
            self.lemma_front_state_set(pre3);
        }
        self.set_current_state(
            ProcessState::HandlingInterrupt {
                old_state: Box::new(saved_state),
                old_registers: saved_registers,
                interrupt_id,
            },
        );
        true
    }

    /// Dispatch an environment call from the current process: the saved
    /// program counter steps past the `ecall`, a7 names the call, and the
    /// matching handler runs.  An undefined number, like any other protocol
    /// violation, kills the caller.  For Spawn the embedder passes the
    /// bytes the caller's a0/a1 point at; the argument is ignored
    /// otherwise.
    pub fn handle_syscall(&mut self, now: &TimeSpan, spawn_image: &[u8]) -> (r: SyscallOutcome)
        requires
            old(self).wf(),
            now.wf(),
            old(self).next_pid < usize::MAX,
        ensures
            final(self).wf(),
            r is NoProcess <==> old(self).processes.processes@.len() == 0,
            r is NoProcess ==> *final(self) == *old(self),
            old(self).spec_has_current() ==> ({
                let pc = old(self).spec_reg(Registers::ProgramCounter);
                let a7 = old(self).spec_reg(Registers::A7);
                &&& (pc > u64::MAX - 4 ==> r is Killed && Self::spec_terminated(
                    *old(self),
                    *final(self),
                ))
                &&& (pc <= u64::MAX - 4 && spec_system_call(a7) is None ==> r is Killed
                    && Self::spec_terminated(*old(self), *final(self)))
                &&& (pc <= u64::MAX - 4 ==> match spec_system_call(a7) {
                    Some(SystemCall::Exit) => r is Exited && Self::spec_terminated(
                        *old(self),
                        *final(self),
                    ),
                    Some(SystemCall::Sleep) => r is Completed && final(self).spec_current().state
                        is Sleeping,
                    Some(SystemCall::SleepUntilMessageReceived) => r is Completed && final(self).spec_current().state is WaitUntilMessageReceived,
                    Some(SystemCall::DurationSinceBootup) => r is Completed && final(self).spec_reg(Registers::A0) == now.secs && final(self).spec_reg(Registers::A1)
                        == now.nanos,
                    Some(SystemCall::RegisterServer) => r is Completed,
                    Some(SystemCall::Spawn) => r is Completed,
                    Some(SystemCall::Allocate) => r is Completed,
                    Some(SystemCall::SendMessage) => (r is Killed || r is Completed) && (r
                        is Killed <==> (!old(self).servers.spec_has_pid(
                        old(self).spec_current().pid,
                    ) || !old(self).servers.spec_has_sid(old(self).spec_reg(Registers::A0)))),
                    Some(SystemCall::ReceiveMessage) => (r is Killed || r is Completed) && (r
                        is Killed <==> !old(self).servers.spec_has_pid(
                        old(self).spec_current().pid,
                    )),
                    Some(SystemCall::IdentityMap) => r is Killed || r is Completed,
                    Some(SystemCall::Deallocate) => r is Killed || r is Completed,
                    Some(SystemCall::TransferMemory) => r is Killed || r is Completed,
                    Some(SystemCall::RegisterInterruptHandler) => r is Completed || r is Fatal,
                    Some(SystemCall::CompleteInterrupt) => (r is Killed <==> !(old(self).spec_current().state is HandlingInterrupt)) && (r is Killed || r is Fatal
                        || r is CompletedInterrupt),
                    None => r is Killed,
                })
            }),
    {
        if self.processes.processes.len() == 0 {
            return SyscallOutcome::NoProcess;
        }
        let pc = self.reg(Registers::ProgramCounter);
        if pc > u64::MAX - 4 {
            self.terminate_current();
            return SyscallOutcome::Killed;
        }
        self.set_reg(Registers::ProgramCounter, pc + 4);
        proof {
            assert(self.allocator == old(self).allocator);
            assert(self.root_table == old(self).root_table);
            assert(self.next_pid == old(self).next_pid);
            assert(self.trampoline_addr == old(self).trampoline_addr);
            assert(self.user_enter_addr == old(self).user_enter_addr);
            assert(self.servers == old(self).servers);
            assert(self.handlers == old(self).handlers);
            assert(self.processes.processes@.len() == old(self).processes.processes@.len());
            assert(self.spec_current().pid == old(self).spec_current().pid);
            assert(self.spec_current().state == old(self).spec_current().state);
            assert(self.spec_reg(Registers::A0) == old(self).spec_reg(Registers::A0));
            assert(self.spec_reg(Registers::A7) == old(self).spec_reg(Registers::A7));
        }
        let number = self.reg(Registers::A7);
        let call = match SystemCall::try_from(number) {
            Ok(c) => c,
            Err(_) => {
                self.terminate_current();
                return SyscallOutcome::Killed;
            },
        };
        match call {
            SystemCall::Exit => self.sys_exit(),
            SystemCall::Sleep => self.sys_sleep(now),
            SystemCall::SleepUntilMessageReceived => self.sys_sleep_until_message_received(),
            SystemCall::IdentityMap => self.sys_identity_map(),
            SystemCall::SendMessage => self.sys_send_message(),
            SystemCall::ReceiveMessage => self.sys_receive_message(),
            SystemCall::RegisterServer => self.sys_register_server(),
            SystemCall::Spawn => self.sys_spawn(spawn_image),
            SystemCall::Allocate => self.sys_allocate(),
            SystemCall::Deallocate => self.sys_deallocate(),
            SystemCall::DurationSinceBootup => self.sys_duration_since_bootup(now),
            SystemCall::RegisterInterruptHandler => self.sys_register_interrupt_handler(),
            SystemCall::CompleteInterrupt => self.sys_complete_interrupt(),
            SystemCall::TransferMemory => self.sys_transfer_memory(),
        }
    }
}

/// A fresh 31-slot register file, all zeros.
fn new_register_file() -> (r: Vec<u64>)
    ensures
        r@.len() == REGISTER_COUNT,
        forall|i: int| 0 <= i < REGISTER_COUNT ==> r@[i] == 0,
{
    let mut r: Vec<u64> = Vec::new();
    let mut i: usize = 0;
    while i < REGISTER_COUNT
        invariant
            i <= REGISTER_COUNT,
            r@.len() == i,
            forall|j: int| 0 <= j < i ==> r@[j] == 0,
        decreases REGISTER_COUNT - i,
    {
        r.push(0);
        i = i + 1;
    }
    r
}

/// A copy of a saved register file.
fn clone_registers(regs: &Vec<u64>) -> (r: Vec<u64>)
    ensures
        r@ == regs@,
{
    let mut r: Vec<u64> = Vec::new();
    let mut i: usize = 0;
    while i < regs.len()
        invariant
            i <= regs@.len(),
            r@.len() == i,
            forall|j: int| 0 <= j < i ==> r@[j] == regs@[j],
        decreases regs@.len() - i,
    {
        let v = regs[i];
        r.push(v);
        i = i + 1;
    }
    proof {
        assert(r@ =~= regs@);
    }
    r
}

} // verus!
