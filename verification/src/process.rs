//! The process abstraction: an address space, a trap frame, a kernel stack,
//! a lifecycle state, and a process identifier.

use crate::allocator::Allocator;
use crate::elf::loader::load_elf;
use crate::elf::ElfError;
use crate::memory::PAGE_SIZE;
use crate::pte::EntryAttributes;
use crate::table::{Table, MAX_VADDR};
use crate::time::TimeSpan;
use crate::trapframe::{Registers, TrapFrame, REGISTER_COUNT};
use vstd::prelude::*;

verus! {

/// Bytes in each of the user stack and the kernel trap stack: 40 pages.
pub const STACK_SIZE: usize = 163840;

/// The fixed high virtual address every process's trap frame is mapped at:
/// the last page of the address space.
pub const TRAPFRAME_ADDR: u64 = 0xffff_ffff_ffff_f000;

/// The lifecycle state of a process.
pub enum ProcessState {
    /// Executing on the hart.
    Running,
    /// Runnable, waiting its turn.
    Ready,
    /// Blocked until a message arrives at the process's server.
    WaitUntilMessageReceived,
    /// Blocked until the time since boot reaches `until`.
    Sleeping { until: TimeSpan },
    /// Blocked until the child with this pid exits.
    ChildExited { child_pid: usize },
    /// Blocked until the server with this identity consumes the message.
    MessageSent { receiver_sid: u64 },
    /// Running its registered interrupt handler; the state and register
    /// file from before the interrupt are stashed for the restore.
    HandlingInterrupt {
        old_state: Box<ProcessState>,
        old_registers: Vec<u64>,
        interrupt_id: u32,
    },
}

impl ProcessState {
    /// Whether the state is internally consistent: a stashed register file
    /// has full width and interrupts do not nest.
    pub open spec fn wf(self) -> bool
        decreases self,
    {
        match self {
            ProcessState::HandlingInterrupt { old_state, old_registers, .. } => {
                &&& !(*old_state is HandlingInterrupt)
                &&& old_state.wf()
                &&& old_registers@.len() == REGISTER_COUNT
                &&& (*old_state matches ProcessState::Sleeping { until } ==> until.wf())
            },
            ProcessState::Sleeping { until } => until.wf(),
            _ => true,
        }
    }
}

/// A process: its lifecycle state, identifier, owned root page table, and
/// owned trap frame.
pub struct Process {
    pub state: ProcessState,
    pub pid: usize,
    pub page_table: Table,
    pub trap_frame: TrapFrame,
}

impl Process {
    /// Whether the process's parts are well formed.
    pub open spec fn wf(self) -> bool {
        &&& self.page_table.wf()
        &&& self.trap_frame.wf()
        &&& self.state.wf()
    }

    /// Allocate a user stack of `size` bytes (whole pages) and map it
    /// identity, user-readable and writable, into `page_table`.  Returns
    /// the address one past the stack's top, or `None` when no frames are
    /// left.
    pub fn map_user_stack(page_table: &mut Table, allocator: &mut Allocator, size: usize) -> (r:
        Option<u64>)
        requires
            old(page_table).wf(),
            old(allocator).wf(),
            old(allocator).active,
            0 < size <= STACK_SIZE,
            size % PAGE_SIZE == 0,
        ensures
            final(page_table).wf(),
            final(allocator).wf(),
            final(allocator).active,
            final(allocator).base_addr == old(allocator).base_addr,
            r matches Some(top) ==> top % 4096 == 0 && top <= MAX_VADDR && (forall|v: u64|
                top - size <= v < top ==> #[trigger] final(page_table).spec_physical_addr(v)
                    == Some(v)),
            r is None <==> !(exists|i: int|
                Allocator::spec_fit_at(
                    old(allocator).pages@,
                    i,
                    crate::memory::spec_pages_needed(size as int),
                )),
            r is None ==> *final(page_table) == *old(page_table) && final(allocator).pages@
                == old(allocator).pages@ && final(allocator).base_addr == old(allocator).base_addr
                && final(allocator).active == old(allocator).active,
    {
        let ghost pre = *allocator;
        let base = match allocator.allocate(size) {
            Some(b) => b,
            None => {
                return None;
            },
        };
        proof {
            crate::allocator::lemma_allocator_address_range(pre, *allocator, base, size as int);
        }
        page_table.identity_map(base, base + (size - 1) as u64, EntryAttributes::UserReadWrite);
        Some(base + size as u64)
    }

    /// Build a process from an ELF image: a fresh page table with the user
    /// stack, the trampoline page, the user-entry page and the image's
    /// segments mapped; a kernel trap stack; and a trap frame whose program
    /// counter is the image's entry point, mapped at the fixed high address.
    /// Fails when the image is rejected or memory runs out.
    pub fn new(
        elf: &[u8],
        pid: usize,
        allocator: &mut Allocator,
        trampoline_addr: u64,
        user_enter_addr: u64,
    ) -> (r: Result<Process, ElfError>)
        requires
            old(allocator).wf(),
            old(allocator).active,
            trampoline_addr % 4096 == 0,
            trampoline_addr < MAX_VADDR,
            user_enter_addr + 2 * PAGE_SIZE < MAX_VADDR,
        ensures
            final(allocator).wf(),
            final(allocator).active,
            final(allocator).base_addr == old(allocator).base_addr,
            crate::elf::loader::spec_image_ok(elf@) && r is Err ==> r == Err::<Process, ElfError>(
                ElfError::OutOfMemory,
            ) && !(exists|i: int|
                Allocator::spec_fit_at(
                    final(allocator).pages@,
                    i,
                    crate::memory::spec_pages_needed(STACK_SIZE as int),
                )),
            r matches Ok(p) ==> {
                &&& p.wf()
                &&& p.pid == pid
                &&& p.state is Ready
                &&& p.trap_frame.registers@[Registers::ProgramCounter.spec_index()] == crate::elf::spec_le(
                    elf@,
                    24,
                    8,
                ) as u64
                &&& p.page_table.spec_physical_addr(TRAPFRAME_ADDR) is Some
            },
    {
        let mut page_table = Table::new();
        let ghost a0 = *allocator;
        let kernel_stack = match allocator.allocate(STACK_SIZE) {
            Some(b) => b,
            None => {
                proof {
                    lemma_no_fit(*allocator, a0, STACK_SIZE as int);
                }
                return Err(ElfError::OutOfMemory);
            },
        };
        proof {
            crate::allocator::lemma_allocator_address_range(
                a0,
                *allocator,
                kernel_stack,
                STACK_SIZE as int,
            );
        }
        let ghost a_us = *allocator;
        let user_stack_top = match Self::map_user_stack(&mut page_table, allocator, STACK_SIZE) {
            Some(t) => t,
            None => {
                proof {
                    lemma_no_fit(*allocator, a_us, STACK_SIZE as int);
                }
                return Err(ElfError::OutOfMemory);
            },
        };
        // Map the user-entry path so execution can continue after the
        // switch to the new page table, and the shared trampoline page.
        page_table.identity_map(
            user_enter_addr,
            user_enter_addr + PAGE_SIZE as u64,
            EntryAttributes::ReadExecute,
        );
        page_table.map_page(trampoline_addr, trampoline_addr, EntryAttributes::ReadExecute);
        // Map the user's program.
        let entry = match load_elf(elf, &mut page_table, allocator) {
            Ok((entry, _loaded)) => entry,
            Err(e) => {
                proof {
                    if crate::elf::loader::spec_image_ok(elf@) {
                        lemma_fit_narrows(
                            allocator.pages@,
                            crate::memory::spec_pages_needed(STACK_SIZE as int),
                        );
                    }
                }
                return Err(e);
            },
        };
        // The user satp names the new root table; its physical placement is
        // the embedder's, so the slot starts as zero and is assigned when
        // the process first enters.
        let mut trap_frame = TrapFrame::new(0, user_stack_top, kernel_stack + STACK_SIZE as u64);
        trap_frame.set(Registers::ProgramCounter, entry);
        // Back the trap frame itself with a frame visible to both contexts.
        let ghost a1 = *allocator;
        let tf_frame = match allocator.allocate(PAGE_SIZE) {
            Some(b) => b,
            None => {
                proof {
                    lemma_no_fit(*allocator, a1, PAGE_SIZE as int);
                    assert(crate::memory::spec_pages_needed(PAGE_SIZE as int) == 1);
                    assert(!(exists|i: int|
                        Allocator::spec_fit_at(allocator.pages@, i, 1))) by {
                        if exists|i: int| Allocator::spec_fit_at(allocator.pages@, i, 1) {
                            let w = choose|i: int|
                                Allocator::spec_fit_at(allocator.pages@, i, 1);
                            assert(Allocator::spec_fit_at(
                                allocator.pages@,
                                w,
                                crate::memory::spec_pages_needed(PAGE_SIZE as int),
                            ));
                            assert(false);
                        }
                    }
                    lemma_fit_narrows(
                        allocator.pages@,
                        crate::memory::spec_pages_needed(STACK_SIZE as int),
                    );
                }
                return Err(ElfError::OutOfMemory);
            },
        };
        proof {
            crate::allocator::lemma_allocator_address_range(
                a1,
                *allocator,
                tf_frame,
                PAGE_SIZE as int,
            );
        }
        page_table.map_page(TRAPFRAME_ADDR, tf_frame, EntryAttributes::ReadWrite);
        Ok(Process { state: ProcessState::Ready, pid, page_table, trap_frame })
    }
}

/// A failed allocation says no run of the requested page count exists in
/// the allocator as it stands.
proof fn lemma_no_fit(post: Allocator, pre: Allocator, size: int)
    requires
        Allocator::spec_allocate_post(pre, post, None::<u64>, size),
    ensures
        !(exists|i: int|
            Allocator::spec_fit_at(post.pages@, i, crate::memory::spec_pages_needed(size))),
{
    if exists|i: int|
        Allocator::spec_fit_at(post.pages@, i, crate::memory::spec_pages_needed(size)) {
        let w = choose|i: int|
            Allocator::spec_fit_at(post.pages@, i, crate::memory::spec_pages_needed(size));
        assert(Allocator::spec_fit_at(pre.pages@, w, crate::memory::spec_pages_needed(size)));
    }
}

/// Where no single free page remains, no longer run does either.
proof fn lemma_fit_narrows(s: Seq<usize>, n: int)
    requires
        n >= 1,
        !(exists|i: int| Allocator::spec_fit_at(s, i, 1)),
    ensures
        !(exists|i: int| Allocator::spec_fit_at(s, i, n)),
{
    if exists|i: int| Allocator::spec_fit_at(s, i, n) {
        let w = choose|i: int| Allocator::spec_fit_at(s, i, n);
        assert(Allocator::spec_fit_at(s, w, 1));
    }
}

} // verus!
