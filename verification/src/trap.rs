//! Trap cause classification: the cause register's top bit separates
//! interrupts from exceptions, the rest is the code.  The dispatcher's
//! decision for each cause is a plain value the embedder acts on.

use vstd::prelude::*;

verus! {

/// The interrupt causes this kernel handles.
#[derive(Clone, Copy, PartialEq, Eq, Structural, Debug)]
pub enum Interrupt {
    SupervisorSoftware,
    SupervisorTimer,
    SupervisorExternal,
}

/// The interrupt an exception code names, if any.
pub open spec fn spec_interrupt(code: u64) -> Option<Interrupt> {
    if code == 1 {
        Some(Interrupt::SupervisorSoftware)
    } else if code == 5 {
        Some(Interrupt::SupervisorTimer)
    } else if code == 9 {
        Some(Interrupt::SupervisorExternal)
    } else {
        None
    }
}

/// The exception causes the architecture defines.
#[derive(Clone, Copy, PartialEq, Eq, Structural, Debug)]
pub enum Exception {
    InstructionAddressMisaligned,
    InstructionAccessFault,
    IllegalInstruction,
    Breakpoint,
    LoadAddressMisaligned,
    LoadAccessFault,
    StoreAmoAddressMisaligned,
    StoreAmoAccessFault,
    UserEnvironmentCall,
    SupervisorEnvironmentCall,
    InstructionPageFault,
    LoadPageFault,
    StoreAmoPageFault,
}

/// The exception a code names, if any.
pub open spec fn spec_exception(code: u64) -> Option<Exception> {
    match code {
        0 => Some(Exception::InstructionAddressMisaligned),
        1 => Some(Exception::InstructionAccessFault),
        2 => Some(Exception::IllegalInstruction),
        3 => Some(Exception::Breakpoint),
        4 => Some(Exception::LoadAddressMisaligned),
        5 => Some(Exception::LoadAccessFault),
        6 => Some(Exception::StoreAmoAddressMisaligned),
        7 => Some(Exception::StoreAmoAccessFault),
        8 => Some(Exception::UserEnvironmentCall),
        9 => Some(Exception::SupervisorEnvironmentCall),
        12 => Some(Exception::InstructionPageFault),
        13 => Some(Exception::LoadPageFault),
        15 => Some(Exception::StoreAmoPageFault),
        _ => None,
    }
}

/// A classified trap cause.
#[derive(Clone, Copy, PartialEq, Eq, Structural, Debug)]
pub enum Trap {
    Interrupt(Interrupt),
    Exception(Exception),
}

/// Whether the cause value's top bit marks it as an interrupt.
pub open spec fn spec_is_interrupt(cause: u64) -> bool {
    cause & 0x8000_0000_0000_0000 != 0
}

/// The cause value with the interrupt bit masked off.
pub open spec fn spec_code(cause: u64) -> u64 {
    cause & 0x7fff_ffff_ffff_ffff
}

impl Trap {
    /// Whether the cause is an interrupt.
    pub fn is_interrupt(cause: u64) -> (r: bool)
        ensures
            r == spec_is_interrupt(cause),
    {
        cause & 0x8000_0000_0000_0000 != 0
    }

    /// The code bits of the cause.
    pub fn code(cause: u64) -> (r: u64)
        ensures
            r == spec_code(cause),
    {
        cause & 0x7fff_ffff_ffff_ffff
    }

    /// Classify a raw cause value.  Returns `None` for a code the
    /// architecture leaves undefined, which the dispatcher treats as fatal.
    pub fn parse(cause: u64) -> (r: Option<Trap>)
        ensures
            spec_is_interrupt(cause) ==> r == (match spec_interrupt(spec_code(cause)) {
                Some(i) => Some(Trap::Interrupt(i)),
                None => None,
            }),
            !spec_is_interrupt(cause) ==> r == (match spec_exception(spec_code(cause)) {
                Some(e) => Some(Trap::Exception(e)),
                None => None,
            }),
    {
        let code = Trap::code(cause);
        if Trap::is_interrupt(cause) {
            if code == 1 {
                Some(Trap::Interrupt(Interrupt::SupervisorSoftware))
            } else if code == 5 {
                Some(Trap::Interrupt(Interrupt::SupervisorTimer))
            } else if code == 9 {
                Some(Trap::Interrupt(Interrupt::SupervisorExternal))
            } else {
                None
            }
        } else {
            match code {
                0u64 => Some(Trap::Exception(Exception::InstructionAddressMisaligned)),
                1u64 => Some(Trap::Exception(Exception::InstructionAccessFault)),
                2u64 => Some(Trap::Exception(Exception::IllegalInstruction)),
                3u64 => Some(Trap::Exception(Exception::Breakpoint)),
                4u64 => Some(Trap::Exception(Exception::LoadAddressMisaligned)),
                5u64 => Some(Trap::Exception(Exception::LoadAccessFault)),
                6u64 => Some(Trap::Exception(Exception::StoreAmoAddressMisaligned)),
                7u64 => Some(Trap::Exception(Exception::StoreAmoAccessFault)),
                8u64 => Some(Trap::Exception(Exception::UserEnvironmentCall)),
                9u64 => Some(Trap::Exception(Exception::SupervisorEnvironmentCall)),
                12u64 => Some(Trap::Exception(Exception::InstructionPageFault)),
                13u64 => Some(Trap::Exception(Exception::LoadPageFault)),
                15u64 => Some(Trap::Exception(Exception::StoreAmoPageFault)),
                _ => None,
            }
        }
    }
}

/// What the kernel does with a trap taken from user mode.
#[derive(Clone, Copy, PartialEq, Eq, Structural, Debug)]
pub enum TrapAction {
    /// A timer or software interrupt: clear the pending bit and re-enter
    /// the scheduler.
    Reschedule,
    /// An external interrupt: claim an id from the controller and route it.
    ClaimExternal,
    /// An environment call from user mode: run the system-call layer.
    HandleSyscall,
    /// A fault isolated to the current user process: kill it.
    KillProcess(Exception),
    /// An undefined or kernel-level cause: halt.
    Fatal,
}

/// The dispatcher's decision for a classified cause: timer and software
/// interrupts re-enter the scheduler, external interrupts are claimed, a
/// user environment call runs the system-call layer, user faults kill the
/// faulting process, everything else is fatal.
pub fn trap_action(cause: u64) -> (r: TrapAction)
    ensures
        r == spec_trap_action(cause),
{
    match Trap::parse(cause) {
        Some(Trap::Interrupt(Interrupt::SupervisorSoftware)) => TrapAction::Reschedule,
        Some(Trap::Interrupt(Interrupt::SupervisorTimer)) => TrapAction::Reschedule,
        Some(Trap::Interrupt(Interrupt::SupervisorExternal)) => TrapAction::ClaimExternal,
        Some(Trap::Exception(Exception::UserEnvironmentCall)) => TrapAction::HandleSyscall,
        Some(Trap::Exception(e)) => {
            match e {
                Exception::InstructionPageFault => TrapAction::KillProcess(e),
                Exception::LoadPageFault => TrapAction::KillProcess(e),
                Exception::StoreAmoPageFault => TrapAction::KillProcess(e),
                Exception::IllegalInstruction => TrapAction::KillProcess(e),
                Exception::InstructionAddressMisaligned => TrapAction::KillProcess(e),
                Exception::LoadAddressMisaligned => TrapAction::KillProcess(e),
                Exception::StoreAmoAddressMisaligned => TrapAction::KillProcess(e),
                Exception::InstructionAccessFault => TrapAction::KillProcess(e),
                Exception::LoadAccessFault => TrapAction::KillProcess(e),
                Exception::StoreAmoAccessFault => TrapAction::KillProcess(e),
                Exception::Breakpoint => TrapAction::KillProcess(e),
                _ => TrapAction::Fatal,
            }
        },
        None => TrapAction::Fatal,
    }
}

/// The decision `trap_action` returns for each cause.
pub open spec fn spec_trap_action(cause: u64) -> TrapAction {
    if spec_is_interrupt(cause) {
        match spec_interrupt(spec_code(cause)) {
            Some(Interrupt::SupervisorSoftware) => TrapAction::Reschedule,
            Some(Interrupt::SupervisorTimer) => TrapAction::Reschedule,
            Some(Interrupt::SupervisorExternal) => TrapAction::ClaimExternal,
            None => TrapAction::Fatal,
        }
    } else {
        match spec_exception(spec_code(cause)) {
            Some(Exception::UserEnvironmentCall) => TrapAction::HandleSyscall,
            Some(Exception::SupervisorEnvironmentCall) => TrapAction::Fatal,
            Some(e) => TrapAction::KillProcess(e),
            None => TrapAction::Fatal,
        }
    }
}

} // verus!
