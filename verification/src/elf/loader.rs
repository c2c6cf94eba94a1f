//! The ELF loader: parse a 64-bit little-endian image, back every loadable
//! segment page with a fresh zero-filled frame, copy the file bytes in, and
//! map the frames into the target address space with the segment's
//! permissions, User bit set.

use crate::allocator::Allocator;
use crate::elf::header::{spec_header_ok, Header};
use crate::elf::program::{convert_flags, spec_program_header, ProgramHeader, ProgramType, PROGRAM_HEADER_64_LEN};
use crate::elf::{spec_le, ElfError};
use crate::memory::{spec_pages_needed, Page, PAGE_SIZE};
use crate::pte::{spec_vpn, EntryAttributes};
use crate::table::{Table, MAX_PADDR, MAX_VADDR, VPN_SPACE};
use vstd::prelude::*;
use vstd::slice::slice_subrange;

verus! {

/// One page of a loaded segment: where it is mapped, the frame backing it,
/// the permissions, and which bytes of the image it holds (the rest of the
/// page is zero).
pub struct LoadedFrame {
    pub vaddr: u64,
    pub paddr: u64,
    pub attributes: EntryAttributes,
    pub src_offset: usize,
    pub src_len: usize,
    pub page: Page,
}

impl LoadedFrame {
    /// The frame is page-aligned on both sides and holds exactly the named
    /// slice of the image, zero-padded to the end of the page.
    pub open spec fn wf(self, elf: Seq<u8>) -> bool {
        &&& self.page.wf()
        &&& self.vaddr % 4096 == 0
        &&& self.paddr % 4096 == 0
        &&& self.paddr < MAX_PADDR
        &&& self.src_len <= PAGE_SIZE
        &&& self.src_offset + self.src_len <= elf.len()
        &&& forall|b: int|
            0 <= b < self.src_len ==> #[trigger] self.page.bytes@[b] == elf[self.src_offset + b]
        &&& forall|b: int| self.src_len <= b < PAGE_SIZE ==> #[trigger] self.page.bytes@[b] == 0u8
    }
}

/// After loading, the table maps each frame's page to its frame with its
/// permissions (unless a later frame of the list covers the same page), and
/// every untouched virtual page keeps its prior translation.
pub open spec fn spec_loaded_mappings(
    pre: Table,
    post: Table,
    frames: Seq<LoadedFrame>,
) -> bool {
    &&& forall|w: int|
        0 <= w < VPN_SPACE && (forall|j: int|
            0 <= j < frames.len() ==> spec_vpn(#[trigger] frames[j].vaddr) != w)
            ==> #[trigger] post.spec_page_at(w) == pre.spec_page_at(w)
    &&& forall|j: int|
        0 <= j < frames.len() && (forall|j2: int|
            j < j2 < frames.len() ==> spec_vpn(#[trigger] frames[j2].vaddr) != spec_vpn(
                frames[j].vaddr,
            )) ==> #[trigger] post.spec_page_at(spec_vpn(frames[j].vaddr)) == Some(
            (frames[j].paddr, frames[j].attributes.spec_flags()),
        )
}

/// Whether one program header's segment can be loaded from the image:
/// a loadable segment needs legal permissions, a memory span inside the
/// address space, and its file bytes inside the image.
pub open spec fn spec_segment_ok(elf: Seq<u8>, ph: ProgramHeader) -> bool {
    ph.program_type is Loadable ==> {
        let pages = spec_pages_needed(ph.memory_size as int);
        &&& crate::elf::program::spec_convert_flags(ph.flags) is Some
        &&& ph.memory_size < MAX_VADDR
        &&& ph.virtual_address + ph.memory_size <= u64::MAX
        &&& ph.offset + ph.file_size <= elf.len()
        &&& (pages > 0 ==> ph.offset + (pages - 1) * 4096 <= elf.len())
    }
}

/// Whether a whole image is well formed: the headers good, the program
/// header table inside the image, every entry decodable, and every
/// loadable segment loadable.  An image like this loads unless the frame
/// allocator runs dry.
pub open spec fn spec_image_ok(elf: Seq<u8>) -> bool {
    let phoff = spec_le(elf, 32, 8);
    let count = spec_le(elf, 56, 2);
    &&& spec_header_ok(elf)
    &&& phoff + 56 * count <= elf.len()
    &&& forall|k: int|
        0 <= k < count ==> (#[trigger] spec_program_header(elf, phoff + 56 * k)) is Some
    &&& forall|k: int|
        0 <= k < count ==> spec_segment_ok(
            elf,
            (#[trigger] spec_program_header(elf, phoff + 56 * k))->0,
        )
}

/// Load a 64-bit little-endian ELF image into `page_table`: for each
/// loadable segment, allocate a zero frame per page, copy the file bytes in
/// (a tail beyond `file_size` stays zero, which covers BSS), and map it with
/// the segment's permissions plus the User bit.  Returns the entry point and
/// the loaded frames.  Fails on a malformed header, another class or
/// endianness, an illegal permission combination, a segment pointing outside
/// the image, or frame exhaustion.
pub fn load_elf(elf: &[u8], page_table: &mut Table, allocator: &mut Allocator) -> (r: Result<
    (u64, Vec<LoadedFrame>),
    ElfError,
>)
    requires
        old(page_table).wf(),
        old(allocator).wf(),
        old(allocator).active,
    ensures
        final(page_table).wf(),
        final(allocator).wf(),
        final(allocator).active,
        final(allocator).base_addr == old(allocator).base_addr,
        r matches Ok((entry, frames)) ==> {
            &&& entry == spec_le(elf@, 24, 8) as u64
            &&& forall|j: int| 0 <= j < frames@.len() ==> (#[trigger] frames@[j]).wf(elf@)
            &&& spec_loaded_mappings(*old(page_table), *final(page_table), frames@)
        },
        spec_image_ok(elf@) ==> (r is Ok || r == Err::<(u64, Vec<LoadedFrame>), ElfError>(
            ElfError::OutOfMemory,
        )),
        spec_image_ok(elf@) && r is Err ==> !(exists|i: int|
            Allocator::spec_fit_at(final(allocator).pages@, i, 1)),
{
    let header = match Header::parse(elf) {
        Ok(h) => h,
        Err(e) => {
            return Err(e);
        },
    };
    let phoff: u64 = match header.primary.program_header_start_64 {
        Some(v) => v,
        None => {
            return Err(ElfError::BadField);
        },
    };
    let entry: u64 = match header.primary.entry_point_64 {
        Some(v) => v,
        None => {
            return Err(ElfError::BadField);
        },
    };
    let count: u16 = header.primary.program_header_entry_count;
    let elf_len: usize = elf.len();
    proof {
        crate::elf::lemma_pow_256_values();
        crate::elf::lemma_le_bound(elf@, 32, 8);
        crate::elf::lemma_le_bound(elf@, 56, 2);
        assert(phoff as int == spec_le(elf@, 32, 8));
        assert(count as int == spec_le(elf@, 56, 2));
    }
    let mut frames: Vec<LoadedFrame> = Vec::new();
    let ghost t0 = *page_table;
    let mut k: usize = 0;
    while k < count as usize
        invariant
            old(allocator).wf(),
            old(allocator).active,
            allocator.wf(),
            allocator.active,
            allocator.base_addr == old(allocator).base_addr,
            page_table.wf(),
            t0 == *old(page_table),
            t0.wf(),
            elf_len == elf@.len(),
            phoff as int == spec_le(elf@, 32, 8),
            count as int == spec_le(elf@, 56, 2),
            k <= count as usize,
            forall|j: int| 0 <= j < frames@.len() ==> (#[trigger] frames@[j]).wf(elf@),
            spec_loaded_mappings(t0, *page_table, frames@),
        decreases count - k,
    {
        if phoff > u64::MAX - 56 * (k as u64 + 1) {
            proof {
                if spec_image_ok(elf@) {
                    vstd::arithmetic::mul::lemma_mul_inequality(
                        k as int + 1,
                        count as int,
                        56,
                    );
                    assert(false);
                }
            }
            return Err(ElfError::TooShort);
        }
        let off64: u64 = phoff + 56 * (k as u64);
        proof {
            if spec_image_ok(elf@) {
                vstd::arithmetic::mul::lemma_mul_inequality(k as int + 1, count as int, 56);
                vstd::arithmetic::mul::lemma_mul_is_distributive_add_other_way(
                    56,
                    k as int,
                    1,
                );
                assert(off64 as int + 56 <= elf_len);
            }
        }
        if off64 > elf.len() as u64 {
            proof {
                if spec_image_ok(elf@) {
                    assert(false);
                }
            }
            return Err(ElfError::TooShort);
        }
        let ph = match ProgramHeader::parse(elf, off64 as usize) {
            Ok(h) => h,
            Err(e) => {
                proof {
                    if spec_image_ok(elf@) {
                        assert(spec_program_header(elf@, phoff as int + 56 * (k as int))
                            is Some);
                        assert(false);
                    }
                }
                return Err(e);
            },
        };
        let is_loadable = match ph.program_type {
            ProgramType::Loadable => true,
            _ => false,
        };
        if is_loadable {
            let attributes = match convert_flags(&ph.flags) {
                Some(a) => a,
                None => {
                    proof {
                        if spec_image_ok(elf@) {
                            assert(spec_segment_ok(
                                elf@,
                                spec_program_header(elf@, phoff as int + 56 * (k as int))->0,
                            ));
                            assert(false);
                        }
                    }
                    return Err(ElfError::BadPermissions);
                },
            };
            if ph.memory_size >= MAX_VADDR || ph.virtual_address > u64::MAX - ph.memory_size {
                proof {
                    if spec_image_ok(elf@) {
                        assert(spec_segment_ok(
                            elf@,
                            spec_program_header(elf@, phoff as int + 56 * (k as int))->0,
                        ));
                        assert(false);
                    }
                }
                return Err(ElfError::OutOfMemory);
            }
            let pages: u64 = (ph.memory_size + 4095) / 4096;
            proof {
                vstd::arithmetic::div_mod::lemma_fundamental_div_mod(
                    ph.memory_size as int + 4095,
                    4096,
                );
                vstd::arithmetic::div_mod::lemma_div_is_ordered(
                    ph.memory_size as int + 4095,
                    MAX_VADDR as int + 4094,
                    4096,
                );
            }
            let mut i: u64 = 0;
            while i < pages
                invariant
                    old(allocator).wf(),
                    old(allocator).active,
                    allocator.wf(),
                    allocator.active,
                    allocator.base_addr == old(allocator).base_addr,
                    page_table.wf(),
                    t0 == *old(page_table),
                    t0.wf(),
                    elf_len == elf@.len(),
                    phoff as int == spec_le(elf@, 32, 8),
                    count as int == spec_le(elf@, 56, 2),
                    k < count as usize,
                    elf_len <= usize::MAX,
                    spec_program_header(elf@, phoff as int + 56 * (k as int)) == Some(ph),
                    ph.program_type is Loadable,
                    pages as int == spec_pages_needed(ph.memory_size as int),
                    pages <= 0x2000_0000,
                    ph.virtual_address + ph.memory_size <= u64::MAX,
                    ph.memory_size < MAX_VADDR,
                    pages * 4096 < ph.memory_size + 4096,
                    attributes == (match spec_loaded_attr(ph) {
                        Some(a) => a,
                        None => attributes,
                    }),
                    forall|j: int| 0 <= j < frames@.len() ==> (#[trigger] frames@[j]).wf(elf@),
                    spec_loaded_mappings(t0, *page_table, frames@),
                decreases pages - i,
            {
                proof {
                    vstd::arithmetic::div_mod::lemma_fundamental_div_mod(
                        ph.memory_size as int + 4095,
                        4096,
                    );
                    vstd::arithmetic::mul::lemma_mul_inequality(
                        i as int + 1,
                        pages as int,
                        4096,
                    );
                    vstd::arithmetic::mul::lemma_mul_is_distributive_add_other_way(
                        4096,
                        i as int,
                        1,
                    );
                }
                let page_offset: u64 = i * 4096;
                // How many bytes of the file image land in this page.
                let copy_len: u64 = if page_offset >= ph.file_size {
                    0
                } else if ph.file_size - page_offset >= 4096 {
                    4096
                } else {
                    ph.file_size - page_offset
                };
                if ph.offset > u64::MAX - page_offset {
                    proof {
                        if spec_image_ok(elf@) {
                            assert(spec_segment_ok(
                                elf@,
                                spec_program_header(elf@, phoff as int + 56 * (k as int))->0,
                            ));
                            vstd::arithmetic::mul::lemma_mul_inequality(
                                i as int,
                                pages as int - 1,
                                4096,
                            );
                            assert(false);
                        }
                    }
                    return Err(ElfError::SegmentOutOfBounds);
                }
                let src_start: u64 = ph.offset + page_offset;
                if copy_len > elf.len() as u64 || src_start > elf.len() as u64 - copy_len {
                    proof {
                        if spec_image_ok(elf@) {
                            assert(spec_segment_ok(
                                elf@,
                                spec_program_header(elf@, phoff as int + 56 * (k as int))->0,
                            ));
                            vstd::arithmetic::mul::lemma_mul_inequality(
                                i as int,
                                pages as int - 1,
                                4096,
                            );
                            if page_offset >= ph.file_size {
                                assert(src_start as int <= elf_len);
                            } else {
                                assert(src_start as int + copy_len <= ph.offset
                                    + ph.file_size);
                            }
                            assert(false);
                        }
                    }
                    return Err(ElfError::SegmentOutOfBounds);
                }
                let ghost alloc_pre = *allocator;
                let paddr: u64 = match allocator.allocate(PAGE_SIZE) {
                    Some(a) => a,
                    None => {
                        proof {
                            assert(crate::memory::spec_pages_needed(PAGE_SIZE as int) == 1);
                            assert(!(exists|q: int|
                                Allocator::spec_fit_at(allocator.pages@, q, 1))) by {
                                if exists|q: int|
                                    Allocator::spec_fit_at(allocator.pages@, q, 1) {
                                    let w = choose|q: int|
                                        Allocator::spec_fit_at(allocator.pages@, q, 1);
                                    assert(Allocator::spec_fit_at(
                                        alloc_pre.pages@,
                                        w,
                                        crate::memory::spec_pages_needed(PAGE_SIZE as int),
                                    ));
                                    assert(false);
                                }
                            }
                        }
                        return Err(ElfError::OutOfMemory);
                    },
                };
                proof {
                    lemma_allocated_in_range(
                        *allocator,
                        paddr,
                        (paddr - allocator.base_addr) / 4096,
                    );
                }
                let src = slice_subrange(elf, src_start as usize, (src_start + copy_len) as usize);
                let page = Page::from_slice(src);
                proof {
                    assert forall|b: int| 0 <= b < copy_len implies #[trigger] page.bytes@[b]
                        == elf@[src_start + b] by {
                        assert(src@[b] == elf@[src_start + b]);
                    }
                }
                let vaddr_page: u64 = ((ph.virtual_address + page_offset) / 4096) * 4096;
                proof {
                    vstd::arithmetic::div_mod::lemma_mod_multiples_basic(
                        ((ph.virtual_address + page_offset) / 4096) as int,
                        4096,
                    );
                }
                let ghost table_mid = *page_table;
                page_table.map_page(vaddr_page, paddr, attributes);
                let frame = LoadedFrame {
                    vaddr: vaddr_page,
                    paddr,
                    attributes,
                    src_offset: src_start as usize,
                    src_len: copy_len as usize,
                    page,
                };
                proof {
                    assert(frame.wf(elf@));
                }
                let ghost frames_before = frames@;
                frames.push(frame);
                proof {
                    lemma_loaded_mappings_extend(
                        t0,
                        table_mid,
                        frames_before,
                        frames@,
                        *page_table,
                    );
                }
                i = i + 1;
            }
        }
        k = k + 1;
    }
    Ok((entry, frames))
}

/// The attributes a loadable segment's flags convert to, if legal.
pub open spec fn spec_loaded_attr(ph: ProgramHeader) -> Option<EntryAttributes> {
    crate::elf::program::spec_convert_flags(ph.flags)
}

/// A frame the allocator hands out lies below the physical address bound.
proof fn lemma_allocated_in_range(a: Allocator, paddr: u64, i0: int)
    requires
        a.wf(),
        0 <= i0 < crate::memory::TOTAL_PAGES,
        paddr == a.base_addr + i0 * 4096,
    ensures
        paddr < MAX_PADDR,
{
    vstd::arithmetic::mul::lemma_mul_inequality(
        i0 + 1,
        crate::memory::TOTAL_PAGES as int,
        4096,
    );
    vstd::arithmetic::mul::lemma_mul_is_distributive_add_other_way(4096, i0, 1);
}

/// Pushing the frame that the latest `map_page` installed onto the list
/// keeps the loaded-mappings relation.
proof fn lemma_loaded_mappings_extend(
    t0: Table,
    mid: Table,
    before: Seq<LoadedFrame>,
    after: Seq<LoadedFrame>,
    post: Table,
)
    requires
        spec_loaded_mappings(t0, mid, before),
        after.len() == before.len() + 1,
        forall|j: int| 0 <= j < before.len() ==> after[j] == before[j],
        forall|w: int|
            0 <= w < VPN_SPACE ==> #[trigger] post.spec_page_at(w) == if w == spec_vpn(
                after.last().vaddr,
            ) {
                Some((after.last().paddr, after.last().attributes.spec_flags()))
            } else {
                mid.spec_page_at(w)
            },
    ensures
        spec_loaded_mappings(t0, post, after),
{
    let new = after.last();
    let nv = spec_vpn(new.vaddr);
    assert(0 <= nv < VPN_SPACE);
    assert forall|w: int|
        0 <= w < VPN_SPACE && (forall|j: int|
            0 <= j < after.len() ==> spec_vpn(#[trigger] after[j].vaddr) != w)
        implies #[trigger] post.spec_page_at(w) == t0.spec_page_at(w) by {
        assert(spec_vpn(after[after.len() - 1].vaddr) != w);
        assert forall|j: int| 0 <= j < before.len() implies spec_vpn(#[trigger] before[j].vaddr)
            != w by {
            assert(after[j] == before[j]);
            assert(spec_vpn(after[j].vaddr) != w);
        }
    }
    assert forall|j: int|
        0 <= j < after.len() && (forall|j2: int|
            j < j2 < after.len() ==> spec_vpn(#[trigger] after[j2].vaddr) != spec_vpn(
                after[j].vaddr,
            )) implies #[trigger] post.spec_page_at(spec_vpn(after[j].vaddr)) == Some(
        (after[j].paddr, after[j].attributes.spec_flags()),
    ) by {
        if j == after.len() - 1 {
            assert(post.spec_page_at(nv) == Some((new.paddr, new.attributes.spec_flags())));
        } else {
            let v = spec_vpn(after[j].vaddr);
            assert(0 <= v < VPN_SPACE);
            assert(spec_vpn(after[after.len() - 1].vaddr) != v);
            assert forall|j2: int|
                j < j2 < before.len() implies spec_vpn(#[trigger] before[j2].vaddr) != spec_vpn(
                before[j].vaddr,
            ) by {
                assert(after[j2] == before[j2]);
                assert(spec_vpn(after[j2].vaddr) != spec_vpn(after[j].vaddr));
            }
            assert(before[j] == after[j]);
            assert(mid.spec_page_at(v) == Some(
                (before[j].paddr, before[j].attributes.spec_flags()),
            ));
            assert(post.spec_page_at(v) == mid.spec_page_at(v));
        }
    }
}

} // verus!
