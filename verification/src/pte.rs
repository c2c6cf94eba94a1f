//! Raw Sv39 page-table entry encoding: the flag bits of a leaf, the packing
//! of a physical address into an entry, and the per-level index fields of a
//! virtual address.

use vstd::prelude::*;

verus! {

/// The flag bits of a page-table entry, decoded.
#[derive(Clone, Copy, PartialEq, Eq, Structural, Debug)]
pub struct EntryFlags {
    pub read: bool,
    pub write: bool,
    pub execute: bool,
    pub user: bool,
}

impl EntryFlags {
    /// Whether the flags name a legal leaf permission set: one of
    /// {R}, {R,X}, {R,W}, {R,U}, {R,W,U}, {R,X,U}.  W or X without R is
    /// forbidden, as is W together with X.
    pub open spec fn spec_is_legal_leaf(self) -> bool {
        self.read && !(self.write && self.execute)
    }

    /// Whether the flags name a legal leaf permission set.
    pub fn is_legal_leaf(&self) -> (r: bool)
        ensures
            r == self.spec_is_legal_leaf(),
    {
        self.read && !(self.write && self.execute)
    }

    /// The V|R|W|X|U bit pattern of these flags, with Valid always set.  The
    /// bit positions are distinct powers of two, so the pattern is a sum.
    pub open spec fn spec_bits(self) -> u64 {
        (1int + (if self.read {
            2int
        } else {
            0int
        }) + (if self.write {
            4int
        } else {
            0int
        }) + (if self.execute {
            8int
        } else {
            0int
        }) + (if self.user {
            16int
        } else {
            0int
        })) as u64
    }

    /// Encode the flags as entry bits, Valid included.
    pub fn bits(&self) -> (r: u64)
        ensures
            r == self.spec_bits(),
            r < 32,
            r % 2 == 1,
    {
        let mut r: u64 = 1;
        if self.read {
            r = r + 2;
        }
        if self.write {
            r = r + 4;
        }
        if self.execute {
            r = r + 8;
        }
        if self.user {
            r = r + 16;
        }
        r
    }
}

/// The conventional named attribute sets that the kernel maps with, mirroring
/// the flag combinations the hardware accepts.
#[derive(Clone, Copy, PartialEq, Eq, Structural, Debug)]
pub enum EntryAttributes {
    ReadOnly,
    ReadWrite,
    ReadExecute,
    UserRead,
    UserReadWrite,
    UserReadExecute,
}

impl EntryAttributes {
    /// The decoded flags of this attribute set.
    pub open spec fn spec_flags(self) -> EntryFlags {
        match self {
            EntryAttributes::ReadOnly => EntryFlags {
                read: true,
                write: false,
                execute: false,
                user: false,
            },
            EntryAttributes::ReadWrite => EntryFlags {
                read: true,
                write: true,
                execute: false,
                user: false,
            },
            EntryAttributes::ReadExecute => EntryFlags {
                read: true,
                write: false,
                execute: true,
                user: false,
            },
            EntryAttributes::UserRead => EntryFlags {
                read: true,
                write: false,
                execute: false,
                user: true,
            },
            EntryAttributes::UserReadWrite => EntryFlags {
                read: true,
                write: true,
                execute: false,
                user: true,
            },
            EntryAttributes::UserReadExecute => EntryFlags {
                read: true,
                write: false,
                execute: true,
                user: true,
            },
        }
    }

    /// The decoded flags of this attribute set.
    pub fn flags(&self) -> (r: EntryFlags)
        ensures
            r == self.spec_flags(),
            r.spec_is_legal_leaf(),
    {
        match self {
            EntryAttributes::ReadOnly => EntryFlags {
                read: true,
                write: false,
                execute: false,
                user: false,
            },
            EntryAttributes::ReadWrite => EntryFlags {
                read: true,
                write: true,
                execute: false,
                user: false,
            },
            EntryAttributes::ReadExecute => EntryFlags {
                read: true,
                write: false,
                execute: true,
                user: false,
            },
            EntryAttributes::UserRead => EntryFlags {
                read: true,
                write: false,
                execute: false,
                user: true,
            },
            EntryAttributes::UserReadWrite => EntryFlags {
                read: true,
                write: true,
                execute: false,
                user: true,
            },
            EntryAttributes::UserReadExecute => EntryFlags {
                read: true,
                write: false,
                execute: true,
                user: true,
            },
        }
    }
}

/// A raw 64-bit page-table entry as the hardware reads it.
#[derive(Clone, Copy, PartialEq, Eq, Structural, Debug)]
pub struct Entry(pub u64);

impl Entry {
    /// Pack a page-aligned physical address and flag bits into an entry:
    /// the address is shifted down so its page number lands in bits 10..54.
    pub fn new(paddr: u64, flags: u64) -> (r: Entry)
        requires
            paddr % 4096 == 0,
            paddr < 0x100_0000_0000_0000,
            flags < 0x400,
        ensures
            r.0 == ((paddr & !0xfff) >> 2) | flags,
            r.spec_paddr() == paddr,
            flags % 2 == 1 ==> r.spec_is_valid(),
    {
        proof {
            lemma_entry_round_trip(paddr, flags);
        }
        Entry(((paddr & !0xfff) >> 2) | flags)
    }

    /// The physical address packed into the entry.
    pub open spec fn spec_paddr(self) -> u64 {
        (self.0 & !0x3ff) << 2
    }

    /// The physical address packed into the entry.
    pub fn paddr(&self) -> (r: u64)
        ensures
            r == self.spec_paddr(),
    {
        (self.0 & !0x3ff) << 2
    }

    /// Whether the Valid bit is set.
    pub open spec fn spec_is_valid(self) -> bool {
        self.0 & 1 == 1
    }

    /// Whether the Valid bit is set.
    pub fn is_valid(&self) -> (r: bool)
        ensures
            r == self.spec_is_valid(),
    {
        self.0 & 1 == 1
    }

    /// Whether any of the R/W/X bits is set, which makes the entry a leaf.
    pub open spec fn spec_is_leaf(self) -> bool {
        self.0 & 0xe != 0
    }

    /// Whether the entry is a leaf.
    pub fn is_leaf(&self) -> (r: bool)
        ensures
            r == self.spec_is_leaf(),
    {
        self.0 & 0xe != 0
    }
}

/// Packing an aligned physical address with small flag bits and unpacking it
/// again returns the address: the codec loses nothing.
pub proof fn lemma_entry_round_trip(paddr: u64, flags: u64)
    by (bit_vector)
    requires
        paddr % 4096 == 0,
        paddr < 0x100_0000_0000_0000,
        flags < 0x400,
    ensures
        ((((paddr & !0xfff) >> 2) | flags) & !0x3ff) << 2 == paddr,
        flags % 2 == 1 ==> (((paddr & !0xfff) >> 2) | flags) & 1 == 1,
{
}

/// The per-level 9-bit index fields of an Sv39 virtual address.
#[derive(Clone, Copy, PartialEq, Eq, Structural, Debug)]
pub struct VirtualPageNumber(pub u64);

/// The 27-bit virtual page number of an address: the three index fields,
/// with the page offset and the bits above Sv39 removed.
pub open spec fn spec_vpn(vaddr: u64) -> int {
    ((vaddr as int) / 4096) % 0x800_0000
}

/// The 9-bit index a virtual page number selects at the given level.
pub open spec fn spec_vpn_index(vpn: int, level: nat) -> int {
    if level == 0 {
        vpn % 512
    } else if level == 1 {
        (vpn / 512) % 512
    } else {
        (vpn / 262144) % 512
    }
}

impl VirtualPageNumber {
    /// The in-page offset.
    pub fn offset(&self) -> (r: u64)
        ensures
            r == self.0 % 4096,
            r < 4096,
    {
        proof {
            let v = self.0;
            assert(v & 0xfff == v % 4096 && v % 4096 < 4096) by (bit_vector);
        }
        self.0 & 0xfff
    }

    /// The level-0 index field (bits 12..21).
    pub fn vpn0(&self) -> (r: u64)
        ensures
            r == spec_vpn_index(spec_vpn(self.0), 0),
    {
        proof {
            lemma_vpn_fields(self.0);
        }
        (self.0 >> 12) & 0x1ff
    }

    /// The level-1 index field (bits 21..30).
    pub fn vpn1(&self) -> (r: u64)
        ensures
            r == spec_vpn_index(spec_vpn(self.0), 1),
    {
        proof {
            lemma_vpn_fields(self.0);
        }
        (self.0 >> 21) & 0x1ff
    }

    /// The level-2 index field (bits 30..39).
    pub fn vpn2(&self) -> (r: u64)
        ensures
            r == spec_vpn_index(spec_vpn(self.0), 2),
    {
        proof {
            lemma_vpn_fields(self.0);
        }
        (self.0 >> 30) & 0x1ff
    }

    /// The index field at the given level.
    pub fn index(&self, level: usize) -> (r: u64)
        requires
            level <= 2,
        ensures
            r == spec_vpn_index(spec_vpn(self.0), level as nat),
            r < 512,
    {
        proof {
            lemma_vpn_fields(self.0);
        }
        if level == 0 {
            self.vpn0()
        } else if level == 1 {
            self.vpn1()
        } else {
            self.vpn2()
        }
    }
}

/// The shifted-and-masked index fields equal the arithmetic form used in the
/// specifications, and each is below 512.
pub proof fn lemma_vpn_fields(vaddr: u64)
    by (bit_vector)
    ensures
        ((vaddr >> 12) & 0x1ff) as int == ((vaddr as int / 4096) % 0x800_0000) % 512,
        ((vaddr >> 21) & 0x1ff) as int == (((vaddr as int / 4096) % 0x800_0000) / 512) % 512,
        ((vaddr >> 30) & 0x1ff) as int == (((vaddr as int / 4096) % 0x800_0000) / 262144) % 512,
        (vaddr >> 12) & 0x1ff < 512,
        (vaddr >> 21) & 0x1ff < 512,
        (vaddr >> 30) & 0x1ff < 512,
{
}

/// Two virtual page numbers with the same three index fields are the same
/// page: the fields determine the 27-bit page number completely.
pub proof fn lemma_vpn_index_injective(w: int, v: int)
    requires
        0 <= w < 0x800_0000,
        0 <= v < 0x800_0000,
        spec_vpn_index(w, 0) == spec_vpn_index(v, 0),
        spec_vpn_index(w, 1) == spec_vpn_index(v, 1),
        spec_vpn_index(w, 2) == spec_vpn_index(v, 2),
    ensures
        w == v,
{
    let wu = w as u64;
    let vu = v as u64;
    assert(wu == vu) by (bit_vector)
        requires
            wu < 0x800_0000,
            vu < 0x800_0000,
            wu % 512 == vu % 512,
            (wu / 512) % 512 == (vu / 512) % 512,
            (wu / 262144) % 512 == (vu / 262144) % 512,
    ;
}

} // verus!
