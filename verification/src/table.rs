//! The Sv39 three-level page table.
//!
//! A table owns its child tables and records leaf mappings as plain values.
//! Its meaning is the partial map from 27-bit virtual page numbers to
//! `(physical page base, flags)` pairs given by `spec_page_at`; `map_page`,
//! `unmap`, `identity_map` and `physical_addr` are specified against it.

use crate::pte::{
    lemma_vpn_index_injective, spec_vpn, spec_vpn_index, EntryAttributes, EntryFlags,
    VirtualPageNumber,
};
use vstd::prelude::*;

verus! {

/// Number of entries in one table.
pub const TABLE_LEN: usize = 512;

/// Number of distinct virtual page numbers (2^27).
pub const VPN_SPACE: u64 = 0x800_0000;

/// Exclusive upper bound on physical addresses an entry can carry (2^56).
pub const MAX_PADDR: u64 = 0x100_0000_0000_0000;

/// Exclusive upper bound on Sv39 virtual addresses (2^39).
pub const MAX_VADDR: u64 = 0x80_0000_0000;

/// One slot of a table: empty, a leaf mapping, or an owned child table.
pub enum Slot {
    Invalid,
    Leaf { paddr: u64, flags: EntryFlags },
    Branch(Box<Table>),
}

/// A page table node: 512 slots.
pub struct Table {
    pub entries: Vec<Slot>,
}

impl Table {
    /// Well-formedness of a node sitting at `level`: 512 slots, leaves only
    /// at level 0 and with aligned in-range addresses and legal permissions,
    /// branches only above level 0 and well-formed for the level below.
    pub open spec fn wf_at(self, level: nat) -> bool
        decreases level, self,
    {
        &&& self.entries.len() == 512
        &&& forall|i: int|
            0 <= i < 512 ==> match #[trigger] self.entries@[i] {
                Slot::Invalid => true,
                Slot::Leaf { paddr, flags } => {
                    &&& level == 0
                    &&& paddr % 4096 == 0
                    &&& paddr < MAX_PADDR
                    &&& flags.spec_is_legal_leaf()
                },
                Slot::Branch(child) => level > 0 && child.wf_at((level - 1) as nat),
            }
    }

    /// Well-formedness of a root table.
    pub open spec fn wf(self) -> bool {
        self.wf_at(2)
    }

    /// The leaf a subtree at `level` resolves the virtual page number `vpn`
    /// to, if any.
    pub open spec fn lookup_at(self, level: nat, vpn: int) -> Option<(u64, EntryFlags)>
        decreases level, self,
    {
        if self.entries.len() != 512 {
            None
        } else {
            match self.entries@[spec_vpn_index(vpn, level)] {
                Slot::Invalid => None,
                Slot::Leaf { paddr, flags } => if level == 0 {
                    Some((paddr, flags))
                } else {
                    None
                },
                Slot::Branch(child) => if level == 0 {
                    None
                } else {
                    child.lookup_at((level - 1) as nat, vpn)
                },
            }
        }
    }

    /// The mapping of a root table for the virtual page number `vpn`.
    pub open spec fn spec_page_at(self, vpn: int) -> Option<(u64, EntryFlags)> {
        self.lookup_at(2, vpn)
    }

    /// What `physical_addr` returns for `vaddr`: the leaf's physical page
    /// base plus the in-page offset, or nothing if the page is unmapped.
    pub open spec fn spec_physical_addr(self, vaddr: u64) -> Option<u64> {
        match self.spec_page_at(spec_vpn(vaddr)) {
            Some((paddr, flags)) => Some((paddr + vaddr % 4096) as u64),
            None => None,
        }
    }

    /// A fresh table with every slot invalid.
    pub fn new() -> (r: Table)
        ensures
            forall|level: nat| r.wf_at(level),
            forall|level: nat, vpn: int| r.lookup_at(level, vpn) == None::<(u64, EntryFlags)>,
            r.wf(),
    {
        let mut entries: Vec<Slot> = Vec::new();
        let mut i: usize = 0;
        while i < TABLE_LEN
            invariant
                i <= TABLE_LEN,
                entries@.len() == i,
                forall|j: int| 0 <= j < i ==> entries@[j] is Invalid,
            decreases TABLE_LEN - i,
        {
            entries.push(Slot::Invalid);
            i = i + 1;
        }
        let r = Table { entries };
        proof {
            assert forall|level: nat, vpn: int|
                r.lookup_at(level, vpn) == None::<(u64, EntryFlags)> by {
                lemma_all_invalid_lookup(r, level, vpn);
            }
        }
        r
    }
}

/// Whether `w` and `v` select the same slot at `level` and at every level
/// below it: the subtree at `level` then resolves them identically.
pub open spec fn same_path(w: int, v: int, level: nat) -> bool
    decreases level,
{
    spec_vpn_index(w, level) == spec_vpn_index(v, level) && (level == 0 || same_path(
        w,
        v,
        (level - 1) as nat,
    ))
}

/// A table whose slots are all invalid resolves nothing.
proof fn lemma_all_invalid_lookup(t: Table, level: nat, vpn: int)
    requires
        t.entries@.len() == 512,
        forall|j: int| 0 <= j < 512 ==> t.entries@[j] is Invalid,
    ensures
        t.lookup_at(level, vpn) == None::<(u64, EntryFlags)>,
{
}

/// Virtual page numbers in range agree on every index level exactly when
/// they are equal.
proof fn lemma_same_path_root(w: int, v: int)
    requires
        0 <= w < VPN_SPACE,
        0 <= v < VPN_SPACE,
    ensures
        same_path(w, v, 2) <==> w == v,
{
    if same_path(w, v, 2) {
        assert(same_path(w, v, 1));
        assert(same_path(w, v, 0));
        lemma_vpn_index_injective(w, v);
    }
    if w == v {
        assert(same_path(w, v, 0));
        assert(same_path(w, v, 1));
        assert(same_path(w, v, 2));
    }
}

impl Table {
    /// Walk to level 0 along `vaddr`, creating empty intermediate tables as
    /// needed, and write the leaf.  Rewrites the path for `vaddr` and leaves
    /// every other translation of the subtree as it was.
    fn map_at(&mut self, level: usize, vaddr: u64, paddr: u64, flags: EntryFlags)
        requires
            old(self).wf_at(level as nat),
            level <= 2,
            paddr % 4096 == 0,
            paddr < MAX_PADDR,
            flags.spec_is_legal_leaf(),
        ensures
            final(self).wf_at(level as nat),
            forall|w: int|
                #[trigger] final(self).lookup_at(level as nat, w) == if same_path(
                    w,
                    spec_vpn(vaddr),
                    level as nat,
                ) {
                    Some((paddr, flags))
                } else {
                    old(self).lookup_at(level as nat, w)
                },
        decreases level,
    {
        let idx = VirtualPageNumber(vaddr).index(level) as usize;
        if level == 0 {
            self.entries.set(idx, Slot::Leaf { paddr, flags });
            proof {
                assert forall|w: int|
                    #[trigger] self.lookup_at(0, w) == if same_path(w, spec_vpn(vaddr), 0) {
                        Some((paddr, flags))
                    } else {
                        old(self).lookup_at(0, w)
                    } by {
                    if spec_vpn_index(w, 0) != idx {
                        assert(self.entries@[spec_vpn_index(w, 0)] == old(
                            self,
                        ).entries@[spec_vpn_index(w, 0)]);
                    }
                }
            }
        } else {
            let ghost old_table = *self;
            let slot = self.entries.remove(idx);
            let ghost mid_entries = self.entries@;
            let mut child: Box<Table> = match slot {
                Slot::Branch(c) => c,
                _ => Box::new(Table::new()),
            };
            let ghost child0 = *child;
            child.map_at(level - 1, vaddr, paddr, flags);
            let ghost child1 = *child;
            self.entries.insert(idx, Slot::Branch(child));
            proof {
                let v = spec_vpn(vaddr);
                assert(self.entries@ =~= old_table.entries@.update(
                    idx as int,
                    Slot::Branch(Box::new(child1)),
                ));
                assert(self.wf_at(level as nat));
                assert forall|w: int|
                    #[trigger] self.lookup_at(level as nat, w) == if same_path(
                        w,
                        v,
                        level as nat,
                    ) {
                        Some((paddr, flags))
                    } else {
                        old_table.lookup_at(level as nat, w)
                    } by {
                    let wi = spec_vpn_index(w, level as nat);
                    if wi == idx {
                        assert(self.lookup_at(level as nat, w) == child1.lookup_at(
                            (level - 1) as nat,
                            w,
                        ));
                        assert(child1.lookup_at((level - 1) as nat, w) == if same_path(
                            w,
                            v,
                            (level - 1) as nat,
                        ) {
                            Some((paddr, flags))
                        } else {
                            child0.lookup_at((level - 1) as nat, w)
                        });
                        if !same_path(w, v, (level - 1) as nat) {
                            if old_table.entries@[idx as int] is Branch {
                                assert(child0 == *old_table.entries@[idx as int]->Branch_0);
                                assert(old_table.lookup_at(level as nat, w) == child0.lookup_at(
                                    (level - 1) as nat,
                                    w,
                                ));
                            } else {
                                assert(old_table.lookup_at(level as nat, w) == None::<(
                                    u64,
                                    EntryFlags,
                                )>);
                                assert(child0.lookup_at((level - 1) as nat, w) == None::<(
                                    u64,
                                    EntryFlags,
                                )>);
                            }
                        }
                    } else {
                        assert(self.entries@[wi] == old_table.entries@[wi]);
                    }
                }
            }
        }
    }

    /// Map one page: record that virtual address `vaddr` translates to
    /// physical address `paddr` with the given attributes.  Every other
    /// virtual page keeps its prior translation.
    pub fn map_page(&mut self, vaddr: u64, paddr: u64, attributes: EntryAttributes)
        requires
            old(self).wf(),
            vaddr % 4096 == 0,
            paddr % 4096 == 0,
            paddr < MAX_PADDR,
        ensures
            final(self).wf(),
            forall|w: int|
                0 <= w < VPN_SPACE ==> #[trigger] final(self).spec_page_at(w) == if w == spec_vpn(
                    vaddr,
                ) {
                    Some((paddr, attributes.spec_flags()))
                } else {
                    old(self).spec_page_at(w)
                },
    {
        let flags = attributes.flags();
        self.map_at(2, vaddr, paddr, flags);
        proof {
            assert forall|w: int| 0 <= w < VPN_SPACE implies #[trigger] self.spec_page_at(w)
                == if w == spec_vpn(vaddr) {
                Some((paddr, attributes.spec_flags()))
            } else {
                old(self).spec_page_at(w)
            } by {
                lemma_same_path_root(w, spec_vpn(vaddr));
            }
        }
    }

    /// Walk along `vaddr` and clear the leaf if one exists; a missing path is
    /// a no-op.  Every other translation of the subtree stays.
    fn unmap_at(&mut self, level: usize, vaddr: u64)
        requires
            old(self).wf_at(level as nat),
            level <= 2,
        ensures
            final(self).wf_at(level as nat),
            forall|w: int|
                #[trigger] final(self).lookup_at(level as nat, w) == if same_path(
                    w,
                    spec_vpn(vaddr),
                    level as nat,
                ) {
                    None::<(u64, EntryFlags)>
                } else {
                    old(self).lookup_at(level as nat, w)
                },
        decreases level,
    {
        let idx = VirtualPageNumber(vaddr).index(level) as usize;
        let ghost old_table = *self;
        let slot = self.entries.remove(idx);
        match slot {
            Slot::Invalid => {
                self.entries.insert(idx, Slot::Invalid);
                proof {
                    assert(self.entries@ =~= old_table.entries@);
                }
            },
            Slot::Leaf { .. } => {
                self.entries.insert(idx, Slot::Invalid);
                proof {
                    assert(self.entries@ =~= old_table.entries@.update(idx as int, Slot::Invalid));
                    assert forall|w: int|
                        #[trigger] self.lookup_at(level as nat, w) == if same_path(
                            w,
                            spec_vpn(vaddr),
                            level as nat,
                        ) {
                            None::<(u64, EntryFlags)>
                        } else {
                            old_table.lookup_at(level as nat, w)
                        } by {
                        let wi = spec_vpn_index(w, level as nat);
                        if wi != idx {
                            assert(self.entries@[wi] == old_table.entries@[wi]);
                        }
                    }
                }
            },
            Slot::Branch(mut c) => {
                let ghost child0 = *c;
                c.unmap_at(level - 1, vaddr);
                let ghost child1 = *c;
                self.entries.insert(idx, Slot::Branch(c));
                proof {
                    let v = spec_vpn(vaddr);
                    assert(self.entries@ =~= old_table.entries@.update(
                        idx as int,
                        Slot::Branch(Box::new(child1)),
                    ));
                    assert(self.wf_at(level as nat));
                    assert forall|w: int|
                        #[trigger] self.lookup_at(level as nat, w) == if same_path(
                            w,
                            v,
                            level as nat,
                        ) {
                            None::<(u64, EntryFlags)>
                        } else {
                            old_table.lookup_at(level as nat, w)
                        } by {
                        let wi = spec_vpn_index(w, level as nat);
                        if wi == idx {
                            assert(self.lookup_at(level as nat, w) == child1.lookup_at(
                                (level - 1) as nat,
                                w,
                            ));
                            assert(child0 == *old_table.entries@[idx as int]->Branch_0);
                            assert(old_table.lookup_at(level as nat, w) == child0.lookup_at(
                                (level - 1) as nat,
                                w,
                            ));
                        } else {
                            assert(self.entries@[wi] == old_table.entries@[wi]);
                        }
                    }
                }
            },
        }
    }

    /// Remove the mapping of `vaddr`'s page, if any.  The backing frame is
    /// not freed here.  Every other virtual page keeps its translation.
    pub fn unmap(&mut self, vaddr: u64)
        requires
            old(self).wf(),
        ensures
            final(self).wf(),
            forall|w: int|
                0 <= w < VPN_SPACE ==> #[trigger] final(self).spec_page_at(w) == if w == spec_vpn(
                    vaddr,
                ) {
                    None::<(u64, EntryFlags)>
                } else {
                    old(self).spec_page_at(w)
                },
    {
        self.unmap_at(2, vaddr);
        proof {
            assert forall|w: int| 0 <= w < VPN_SPACE implies #[trigger] self.spec_page_at(w)
                == if w == spec_vpn(vaddr) {
                None::<(u64, EntryFlags)>
            } else {
                old(self).spec_page_at(w)
            } by {
                lemma_same_path_root(w, spec_vpn(vaddr));
            }
        }
    }

    /// Resolve `vaddr` in the subtree at `level`.
    fn translate_at(&self, level: usize, vaddr: u64) -> (r: Option<(u64, EntryFlags)>)
        requires
            self.wf_at(level as nat),
            level <= 2,
        ensures
            r == self.lookup_at(level as nat, spec_vpn(vaddr)),
        decreases level,
    {
        let idx = VirtualPageNumber(vaddr).index(level) as usize;
        match &self.entries[idx] {
            Slot::Invalid => None,
            Slot::Leaf { paddr, flags } => if level == 0 {
                Some((*paddr, *flags))
            } else {
                None
            },
            Slot::Branch(c) => if level == 0 {
                None
            } else {
                c.translate_at(level - 1, vaddr)
            },
        }
    }

    /// A leaf a well-formed tree resolves to is aligned and in range.
    proof fn lemma_lookup_wf(self, level: nat, vpn: int)
        requires
            self.wf_at(level),
        ensures
            match self.lookup_at(level, vpn) {
                Some((paddr, flags)) => paddr % 4096 == 0 && paddr < MAX_PADDR
                    && flags.spec_is_legal_leaf(),
                None => true,
            },
        decreases level,
    {
        match self.entries@[spec_vpn_index(vpn, level)] {
            Slot::Branch(child) => {
                if level > 0 {
                    child.lemma_lookup_wf((level - 1) as nat, vpn);
                }
            },
            _ => {},
        }
    }

    /// Translate a virtual address to the physical address it is mapped at:
    /// the leaf's page base plus the in-page offset, or `None` if any level
    /// of the walk is missing.
    pub fn physical_addr(&self, vaddr: u64) -> (r: Option<u64>)
        requires
            self.wf(),
        ensures
            r == self.spec_physical_addr(vaddr),
            r is Some ==> r->0 <= MAX_PADDR + 4095,
            r is Some ==> (r->0 as int) % 4096 == (vaddr as int) % 4096,
    {
        proof {
            self.lemma_lookup_wf(2, spec_vpn(vaddr));
            match self.spec_page_at(spec_vpn(vaddr)) {
                Some(pf) => {
                    vstd::arithmetic::div_mod::lemma_fundamental_div_mod(pf.0 as int, 4096);
                    vstd::arithmetic::div_mod::lemma_mod_multiples_vanish(
                        pf.0 as int / 4096,
                        vaddr as int % 4096,
                        4096,
                    );
                },
                None => {},
            }
        }
        match self.translate_at(2, vaddr) {
            Some((paddr, _flags)) => Some(paddr + VirtualPageNumber(vaddr).offset()),
            None => None,
        }
    }

    /// Identity-map the inclusive range `start..=end`: `start` is rounded
    /// down and `end` up to page boundaries, and each page in between is
    /// mapped to itself.  Every other virtual page keeps its translation,
    /// and afterwards every address in the range translates to itself.
    pub fn identity_map(&mut self, start: u64, end: u64, attributes: EntryAttributes)
        requires
            old(self).wf(),
            start <= end,
            end < MAX_VADDR,
        ensures
            final(self).wf(),
            forall|w: int|
                0 <= w < VPN_SPACE ==> #[trigger] final(self).spec_page_at(w) == if start / 4096
                    <= w <= end / 4096 {
                    Some(((w * 4096) as u64, attributes.spec_flags()))
                } else {
                    old(self).spec_page_at(w)
                },
            forall|v: u64|
                start <= v <= end ==> #[trigger] final(self).spec_physical_addr(v) == Some(v),
    {
        let lo: u64 = start / 4096;
        let hi: u64 = end / 4096;
        let n: u64 = hi - lo + 1;
        let mut i: u64 = 0;
        let ghost t0 = *self;
        while i < n
            invariant
                self.wf(),
                lo <= hi < 0x800_0000,
                n == hi - lo + 1,
                i <= n,
                forall|w: int|
                    0 <= w < VPN_SPACE ==> #[trigger] self.spec_page_at(w) == if lo <= w < lo + i {
                        Some(((w * 4096) as u64, attributes.spec_flags()))
                    } else {
                        t0.spec_page_at(w)
                    },
            decreases n - i,
        {
            let addr: u64 = (lo + i) * 4096;
            proof {
                vstd::arithmetic::div_mod::lemma_mod_multiples_basic((lo + i) as int, 4096);
                assert(spec_vpn(addr) == lo + i) by {
                    vstd::arithmetic::div_mod::lemma_div_multiples_vanish(
                        (lo + i) as int,
                        4096,
                    );
                    vstd::arithmetic::div_mod::lemma_small_mod((lo + i) as nat, 0x800_0000);
                }
            }
            self.map_page(addr, addr, attributes);
            i = i + 1;
        }
        proof {
            assert forall|v: u64| start <= v <= end implies #[trigger] self.spec_physical_addr(v)
                == Some(v) by {
                vstd::arithmetic::div_mod::lemma_div_is_ordered(
                    start as int,
                    v as int,
                    4096,
                );
                vstd::arithmetic::div_mod::lemma_div_is_ordered(v as int, end as int, 4096);
                vstd::arithmetic::div_mod::lemma_small_mod((v / 4096) as nat, 0x800_0000);
                assert(spec_vpn(v) == v / 4096);
                vstd::arithmetic::div_mod::lemma_fundamental_div_mod(v as int, 4096);
            }
        }
    }
}

/// Mapping then translating: a table whose entry for `vaddr`'s page is the
/// pair `(paddr, flags)` — the state `map_page(vaddr, paddr, _)` leaves —
/// resolves `vaddr` to `paddr` plus the in-page offset.
pub proof fn lemma_map_then_translate(t: Table, vaddr: u64, paddr: u64, flags: EntryFlags)
    requires
        t.spec_page_at(spec_vpn(vaddr)) == Some((paddr, flags)),
    ensures
        t.spec_physical_addr(vaddr) == Some((paddr + vaddr % 4096) as u64),
{
}

/// Unmapping then translating: a table without an entry for `vaddr`'s page
/// — the state `unmap(vaddr)` leaves — resolves `vaddr` to nothing.
pub proof fn lemma_unmap_then_translate(t: Table, vaddr: u64)
    requires
        t.spec_page_at(spec_vpn(vaddr)) is None,
    ensures
        t.spec_physical_addr(vaddr) is None,
{
}

impl Table {
    /// The satp value that names a root table placed at physical address
    /// `root_paddr`: mode 8 (Sv39) in the top nibble and the root's
    /// physical page number below.  Where the table sits in memory is the
    /// embedder's knowledge, so the address comes in as a plain value.
    pub fn build_satp(root_paddr: u64) -> (r: u64)
        requires
            root_paddr % 4096 == 0,
            root_paddr < MAX_PADDR,
        ensures
            r == (root_paddr / 4096) | (8u64 << 60),
    {
        (root_paddr / 4096) | (8u64 << 60)
    }
}

} // verus!
