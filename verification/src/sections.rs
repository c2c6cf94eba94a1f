//! Mapping the kernel's own sections: the link-time layout comes from the
//! embedder as plain addresses, and the kernel root table maps each range
//! with its proper permissions.

use crate::pte::EntryAttributes;
use crate::table::{Table, MAX_VADDR};
use vstd::prelude::*;

verus! {

/// The link-time layout of the kernel image and its devices: each pair is
/// an inclusive byte range.
#[derive(Clone, Copy, PartialEq, Eq, Structural, Debug)]
pub struct KernelLayout {
    pub text_start: u64,
    pub text_end: u64,
    pub rodata_start: u64,
    pub rodata_end: u64,
    pub data_start: u64,
    pub data_end: u64,
    pub bss_start: u64,
    pub bss_end: u64,
    pub stack_start: u64,
    pub stack_end: u64,
    pub heap_start: u64,
    pub heap_end: u64,
    pub trampoline_start: u64,
    pub device_start: u64,
    pub device_end: u64,
}

impl KernelLayout {
    /// Every range is ordered and below the top of the address space, and
    /// the trampoline page is aligned.
    pub open spec fn wf(self) -> bool {
        &&& self.text_start <= self.text_end < MAX_VADDR
        &&& self.rodata_start <= self.rodata_end < MAX_VADDR
        &&& self.data_start <= self.data_end < MAX_VADDR
        &&& self.bss_start <= self.bss_end < MAX_VADDR
        &&& self.stack_start <= self.stack_end < MAX_VADDR
        &&& self.heap_start <= self.heap_end < MAX_VADDR
        &&& self.device_start <= self.device_end < MAX_VADDR
        &&& self.trampoline_start % 4096 == 0
        &&& self.trampoline_start < MAX_VADDR
    }
}

/// Map the shared trampoline code page into a table, executable but not
/// user-visible.
pub fn map_trampoline(page_table: &mut Table, trampoline_start: u64)
    requires
        old(page_table).wf(),
        trampoline_start % 4096 == 0,
        trampoline_start < MAX_VADDR,
    ensures
        final(page_table).wf(),
        final(page_table).spec_physical_addr(trampoline_start) == Some(trampoline_start),
{
    page_table.map_page(trampoline_start, trampoline_start, EntryAttributes::ReadExecute);
    proof {
        vstd::arithmetic::div_mod::lemma_fundamental_div_mod(trampoline_start as int, 4096);
    }
}

/// Map the kernel's sections into the given page table: code and read-only
/// data executable, writable data and stacks and heap writable, the device
/// window writable, and the trampoline page executable.
pub fn map_kernel(page_table: &mut Table, layout: &KernelLayout)
    requires
        old(page_table).wf(),
        layout.wf(),
    ensures
        final(page_table).wf(),
        forall|v: u64|
            layout.heap_start <= v <= layout.heap_end ==> #[trigger] final(page_table).spec_physical_addr(v) == Some(v),
{
    map_trampoline(page_table, layout.trampoline_start);
    page_table.identity_map(layout.rodata_start, layout.rodata_end, EntryAttributes::ReadExecute);
    page_table.identity_map(layout.text_start, layout.text_end, EntryAttributes::ReadExecute);
    page_table.identity_map(layout.data_start, layout.data_end, EntryAttributes::ReadWrite);
    page_table.identity_map(layout.bss_start, layout.bss_end, EntryAttributes::ReadWrite);
    page_table.identity_map(layout.stack_start, layout.stack_end, EntryAttributes::ReadWrite);
    page_table.identity_map(layout.device_start, layout.device_end, EntryAttributes::ReadWrite);
    page_table.identity_map(layout.heap_start, layout.heap_end, EntryAttributes::ReadWrite);
}

} // verus!
