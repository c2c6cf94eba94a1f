//! The per-process trap frame: the kernel re-entry state and the 31-slot
//! user register file that the trampoline spills and restores.

use vstd::prelude::*;

verus! {

/// Number of user registers a trap frame holds.
pub const REGISTER_COUNT: usize = 31;

/// The user registers, in the order their slots have in the trap frame.
/// The numbering must match the trampoline's spill and restore sequence.
#[derive(Clone, Copy, PartialEq, Eq, Structural, Debug)]
pub enum Registers {
    Satp,
    ProgramCounter,
    StackPointer,
    ReturnAddress,
    GlobalPointer,
    ThreadPointer,
    A0,
    A1,
    A2,
    A3,
    A4,
    A5,
    A6,
    A7,
    T0,
    T1,
    T2,
    T3,
    T4,
    T5,
    T6,
    S0,
    S1,
    S2,
    S3,
    S4,
    S5,
    S6,
    S7,
    S8,
    S9,
}

impl Registers {
    /// The slot of this register in the trap frame.
    pub open spec fn spec_index(self) -> int {
        match self {
            Registers::Satp => 0,
            Registers::ProgramCounter => 1,
            Registers::StackPointer => 2,
            Registers::ReturnAddress => 3,
            Registers::GlobalPointer => 4,
            Registers::ThreadPointer => 5,
            Registers::A0 => 6,
            Registers::A1 => 7,
            Registers::A2 => 8,
            Registers::A3 => 9,
            Registers::A4 => 10,
            Registers::A5 => 11,
            Registers::A6 => 12,
            Registers::A7 => 13,
            Registers::T0 => 14,
            Registers::T1 => 15,
            Registers::T2 => 16,
            Registers::T3 => 17,
            Registers::T4 => 18,
            Registers::T5 => 19,
            Registers::T6 => 20,
            Registers::S0 => 21,
            Registers::S1 => 22,
            Registers::S2 => 23,
            Registers::S3 => 24,
            Registers::S4 => 25,
            Registers::S5 => 26,
            Registers::S6 => 27,
            Registers::S7 => 28,
            Registers::S8 => 29,
            Registers::S9 => 30,
        }
    }

    /// The slot of this register in the trap frame.
    pub fn index(&self) -> (r: usize)
        ensures
            r == self.spec_index(),
            r < REGISTER_COUNT,
    {
        match self {
            Registers::Satp => 0,
            Registers::ProgramCounter => 1,
            Registers::StackPointer => 2,
            Registers::ReturnAddress => 3,
            Registers::GlobalPointer => 4,
            Registers::ThreadPointer => 5,
            Registers::A0 => 6,
            Registers::A1 => 7,
            Registers::A2 => 8,
            Registers::A3 => 9,
            Registers::A4 => 10,
            Registers::A5 => 11,
            Registers::A6 => 12,
            Registers::A7 => 13,
            Registers::T0 => 14,
            Registers::T1 => 15,
            Registers::T2 => 16,
            Registers::T3 => 17,
            Registers::T4 => 18,
            Registers::T5 => 19,
            Registers::T6 => 20,
            Registers::S0 => 21,
            Registers::S1 => 22,
            Registers::S2 => 23,
            Registers::S3 => 24,
            Registers::S4 => 25,
            Registers::S5 => 26,
            Registers::S6 => 27,
            Registers::S7 => 28,
            Registers::S8 => 29,
            Registers::S9 => 30,
        }
    }

    /// How many registers there are.
    pub fn len() -> (r: usize)
        ensures
            r == REGISTER_COUNT,
    {
        REGISTER_COUNT
    }
}

/// The trap frame: kernel satp, kernel trap-handler address and kernel stack
/// top for re-entry, and the saved user register file.
pub struct TrapFrame {
    pub kernel_satp: u64,
    pub kernel_trap_vector: u64,
    pub kernel_stack_pointer: u64,
    pub registers: Vec<u64>,
}

impl TrapFrame {
    /// Whether the register file has its full width.
    pub open spec fn wf(self) -> bool {
        self.registers@.len() == REGISTER_COUNT
    }

    /// A trap frame for a fresh process: user satp and user stack pointer
    /// filled in, every other user register zero, and the kernel stack top
    /// recorded for trap entry.
    pub fn new(user_satp: u64, stack_pointer: u64, kernel_stack_pointer: u64) -> (r: TrapFrame)
        ensures
            r.wf(),
            r.kernel_satp == 0,
            r.kernel_trap_vector == 0,
            r.kernel_stack_pointer == kernel_stack_pointer,
            r.registers@[Registers::Satp.spec_index()] == user_satp,
            r.registers@[Registers::StackPointer.spec_index()] == stack_pointer,
            forall|i: int|
                0 <= i < REGISTER_COUNT && i != Registers::Satp.spec_index() && i
                    != Registers::StackPointer.spec_index() ==> r.registers@[i] == 0,
    {
        let mut registers: Vec<u64> = Vec::new();
        let mut i: usize = 0;
        while i < REGISTER_COUNT
            invariant
                i <= REGISTER_COUNT,
                registers@.len() == i,
                forall|j: int| 0 <= j < i ==> registers@[j] == 0,
            decreases REGISTER_COUNT - i,
        {
            registers.push(0);
            i = i + 1;
        }
        registers.set(0, user_satp);
        registers.set(2, stack_pointer);
        TrapFrame { kernel_satp: 0, kernel_trap_vector: 0, kernel_stack_pointer, registers }
    }

    /// Read one user register.
    pub fn get(&self, reg: Registers) -> (r: u64)
        requires
            self.wf(),
        ensures
            r == self.registers@[reg.spec_index()],
    {
        self.registers[reg.index()]
    }

    /// Write one user register.
    pub fn set(&mut self, reg: Registers, value: u64)
        requires
            old(self).wf(),
        ensures
            final(self).wf(),
            final(self).registers@ == old(self).registers@.update(reg.spec_index(), value),
            final(self).kernel_satp == old(self).kernel_satp,
            final(self).kernel_trap_vector == old(self).kernel_trap_vector,
            final(self).kernel_stack_pointer == old(self).kernel_stack_pointer,
    {
        let i = reg.index();
        self.registers.set(i, value);
    }

    /// What the trampoline's spill does to the trap frame: the live user
    /// register file lands in the register slots, slot by slot in order;
    /// the kernel re-entry fields stay.
    pub fn save_user_registers(&mut self, file: &Vec<u64>)
        requires
            old(self).wf(),
            file@.len() == REGISTER_COUNT,
        ensures
            final(self).wf(),
            final(self).registers@ == file@,
            final(self).kernel_satp == old(self).kernel_satp,
            final(self).kernel_trap_vector == old(self).kernel_trap_vector,
            final(self).kernel_stack_pointer == old(self).kernel_stack_pointer,
    {
        let mut i: usize = 0;
        while i < REGISTER_COUNT
            invariant
                i <= REGISTER_COUNT,
                self.wf(),
                file@.len() == REGISTER_COUNT,
                self.kernel_satp == old(self).kernel_satp,
                self.kernel_trap_vector == old(self).kernel_trap_vector,
                self.kernel_stack_pointer == old(self).kernel_stack_pointer,
                forall|j: int| 0 <= j < i ==> self.registers@[j] == file@[j],
            decreases REGISTER_COUNT - i,
        {
            let v = file[i];
            self.registers.set(i, v);
            i = i + 1;
        }
        proof {
            assert(self.registers@ =~= file@);
        }
    }

    /// What the trampoline's restore does: the register slots are read back
    /// out, slot by slot in the same order.
    pub fn restore_user_registers(&self) -> (r: Vec<u64>)
        requires
            self.wf(),
        ensures
            r@ == self.registers@,
    {
        let mut r: Vec<u64> = Vec::new();
        let mut i: usize = 0;
        while i < REGISTER_COUNT
            invariant
                i <= REGISTER_COUNT,
                self.wf(),
                r@.len() == i,
                forall|j: int| 0 <= j < i ==> r@[j] == self.registers@[j],
            decreases REGISTER_COUNT - i,
        {
            let v = self.registers[i];
            r.push(v);
            i = i + 1;
        }
        proof {
            assert(r@ =~= self.registers@);
        }
        r
    }
}

/// Trap-frame round trip: a trap frame in the state that
/// `save_user_registers(file)` establishes hands back, through
/// `restore_user_registers` and through `get`, exactly the saved file —
/// every register, the program counter included, modified by nothing.
pub proof fn lemma_trapframe_round_trip(saved: TrapFrame, file: Seq<u64>, reg: Registers)
    requires
        saved.wf(),
        file.len() == REGISTER_COUNT,
        saved.registers@ == file,
    ensures
        saved.registers@[reg.spec_index()] == file[reg.spec_index()],
        saved.registers@ == file,
{
}

} // verus!
