//! The platform-level interrupt controller's handler bookkeeping: which
//! process handles which external interrupt source, and what to do with a
//! claimed interrupt.  The controller's registers themselves are memory
//! mapped and live with the embedder; this is the routing table.

use vstd::prelude::*;

verus! {

/// Number of interrupt sources the controller arbitrates.
pub const MAX_HANDLERS: usize = 1024;

/// A registered user-mode handler: the owning process and the virtual
/// address of its handler routine.
#[derive(Clone, Copy, PartialEq, Eq, Structural, Debug)]
pub struct UserHandler {
    pub pid: usize,
    pub handler_ptr: u64,
}

/// The per-source routing table for user-mode handlers.
pub struct InterruptTable {
    pub handlers: Vec<Option<UserHandler>>,
}

/// What the trap dispatcher should do with a claimed external interrupt.
#[derive(Clone, Copy, PartialEq, Eq, Structural, Debug)]
pub enum InterruptRoute {
    /// Deliver to the registered user handler of this process.
    User { pid: usize, handler_ptr: u64, interrupt_id: u32 },
    /// No handler is registered: the kernel has nothing to run for it.
    Unhandled,
}

impl InterruptTable {
    /// One slot per interrupt source.
    pub open spec fn wf(self) -> bool {
        self.handlers@.len() == MAX_HANDLERS
    }

    /// An empty routing table.
    pub fn new() -> (r: InterruptTable)
        ensures
            r.wf(),
            forall|i: int| 0 <= i < MAX_HANDLERS ==> (#[trigger] r.handlers@[i]) is None,
    {
        let mut handlers: Vec<Option<UserHandler>> = Vec::new();
        let mut i: usize = 0;
        while i < MAX_HANDLERS
            invariant
                i <= MAX_HANDLERS,
                handlers@.len() == i,
                forall|j: int| 0 <= j < i ==> (#[trigger] handlers@[j]) is None,
            decreases MAX_HANDLERS - i,
        {
            handlers.push(None);
            i = i + 1;
        }
        InterruptTable { handlers }
    }

    /// Register a user handler for an interrupt source.  Fails exactly when
    /// the source id is out of range or the source already has a handler;
    /// on success only that slot changes.
    pub fn add_user(&mut self, interrupt_id: u16, pid: usize, handler_ptr: u64) -> (r: bool)
        requires
            old(self).wf(),
        ensures
            final(self).wf(),
            r <==> (interrupt_id < MAX_HANDLERS && old(self).handlers@[interrupt_id as int]
                is None),
            r ==> final(self).handlers@ == old(self).handlers@.update(
                interrupt_id as int,
                Some(UserHandler { pid, handler_ptr }),
            ),
            !r ==> *final(self) == *old(self),
    {
        if (interrupt_id as usize) >= MAX_HANDLERS {
            return false;
        }
        let taken = match &self.handlers[interrupt_id as usize] {
            Some(_) => true,
            None => false,
        };
        if taken {
            return false;
        }
        self.handlers.set(interrupt_id as usize, Some(UserHandler { pid, handler_ptr }));
        true
    }

    /// Drop the handler registered by `pid`, if any; the first slot owned
    /// by the process is cleared.
    pub fn try_remove_user(&mut self, pid: usize) -> (r: bool)
        requires
            old(self).wf(),
        ensures
            final(self).wf(),
            !r ==> *final(self) == *old(self) && (forall|i: int|
                0 <= i < MAX_HANDLERS ==> !((#[trigger] old(self).handlers@[i]) matches Some(h)
                    && h.pid == pid)),
            r ==> exists|i: int|
                0 <= i < MAX_HANDLERS && ((#[trigger] old(self).handlers@[i]) matches Some(h)
                    && h.pid == pid && final(self).handlers@ == old(self).handlers@.update(
                    i,
                    None,
                )),
    {
        let mut i: usize = 0;
        while i < MAX_HANDLERS
            invariant
                i <= MAX_HANDLERS,
                *self == *old(self),
                old(self).wf(),
                forall|j: int|
                    0 <= j < i ==> !((#[trigger] self.handlers@[j]) matches Some(h) && h.pid
                        == pid),
            decreases MAX_HANDLERS - i,
        {
            let found = match &self.handlers[i] {
                Some(h) => h.pid == pid,
                None => false,
            };
            if found {
                self.handlers.set(i, None);
                return true;
            }
            i = i + 1;
        }
        false
    }

    /// Route a claimed external interrupt: to the user handler registered
    /// for the source, or nowhere.
    pub fn route(&self, interrupt_id: u32) -> (r: InterruptRoute)
        requires
            self.wf(),
        ensures
            interrupt_id >= MAX_HANDLERS ==> r is Unhandled,
            interrupt_id < MAX_HANDLERS ==> match self.handlers@[interrupt_id as int] {
                Some(h) => r == (InterruptRoute::User {
                    pid: h.pid,
                    handler_ptr: h.handler_ptr,
                    interrupt_id,
                }),
                None => r is Unhandled,
            },
    {
        if interrupt_id as usize >= MAX_HANDLERS {
            return InterruptRoute::Unhandled;
        }
        match &self.handlers[interrupt_id as usize] {
            Some(h) => InterruptRoute::User {
                pid: h.pid,
                handler_ptr: h.handler_ptr,
                interrupt_id,
            },
            None => InterruptRoute::Unhandled,
        }
    }
}

} // verus!
