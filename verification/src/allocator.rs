//! The physical frame allocator: a page-granular first-fit allocator over a
//! fixed heap region, with one tracking word per page.
//!
//! A page's word is 0 when the page is free; the words of an allocated run
//! count down from the run length, so the word at the run's first page
//! recovers the length when the run is freed.

use crate::memory::{pages_needed, spec_pages_needed, PAGE_SIZE, TOTAL_PAGES};
use crate::table::MAX_VADDR;
use vstd::arithmetic::div_mod::lemma_div_multiples_vanish;
use vstd::prelude::*;

verus! {

/// The allocator's state: the per-page tracking words, the heap base
/// address, and whether allocation is currently permitted.
pub struct Allocator {
    pub pages: Vec<usize>,
    pub base_addr: u64,
    pub active: bool,
}

impl Allocator {
    /// Well-formedness: one word per page, an aligned base, the whole heap
    /// below the physical address bound, and no tracking word beyond the
    /// page count.
    pub open spec fn wf(self) -> bool {
        &&& self.pages@.len() == TOTAL_PAGES
        &&& self.base_addr % 4096 == 0
        &&& self.base_addr + TOTAL_PAGES * 4096 <= MAX_VADDR
        &&& forall|k: int| 0 <= k < TOTAL_PAGES ==> #[trigger] self.pages@[k] <= TOTAL_PAGES
    }

    /// Whether pages `i .. i + n` all lie in range and are free.
    pub open spec fn spec_run_free(s: Seq<usize>, i: int, n: int) -> bool {
        i + n <= s.len() && forall|j: int| i <= j < i + n ==> s[j] == 0
    }

    /// Whether a run of `n` free pages can start at page `i`: the page
    /// itself is free and the whole run fits.
    pub open spec fn spec_fit_at(s: Seq<usize>, i: int, n: int) -> bool {
        0 <= i < s.len() && s[i] == 0 && Self::spec_run_free(s, i, n)
    }

    /// What one `allocate(size)` call does: on success it returns the base
    /// of the first free run big enough, marks that run with the count-down
    /// words, and touches nothing else; it fails exactly when no such run
    /// exists.
    pub open spec fn spec_allocate_post(
        pre: Allocator,
        post: Allocator,
        r: Option<u64>,
        size: int,
    ) -> bool {
        let n = spec_pages_needed(size);
        &&& post.base_addr == pre.base_addr
        &&& post.active == pre.active
        &&& (r is Some <==> exists|i: int| Self::spec_fit_at(pre.pages@, i, n))
        &&& match r {
            None => post.pages@ == pre.pages@,
            Some(a) => {
                let i0 = (a - pre.base_addr) / 4096;
                &&& a == pre.base_addr + i0 * 4096
                &&& Self::spec_fit_at(pre.pages@, i0, n)
                &&& forall|i: int| 0 <= i < i0 ==> !Self::spec_fit_at(pre.pages@, i, n)
                &&& post.pages@.len() == pre.pages@.len()
                &&& forall|k: int|
                    0 <= k < pre.pages@.len() ==> #[trigger] post.pages@[k] as int == if i0 <= k
                        < i0 + n {
                        n - (k - i0)
                    } else {
                        pre.pages@[k] as int
                    }
            },
        }
    }

    /// A fresh, inactive allocator over the heap starting at `base_addr`,
    /// with every page free.
    pub fn new(base_addr: u64) -> (r: Allocator)
        requires
            base_addr % 4096 == 0,
            base_addr + TOTAL_PAGES * 4096 <= MAX_VADDR,
        ensures
            r.wf(),
            !r.active,
            r.base_addr == base_addr,
            forall|k: int| 0 <= k < TOTAL_PAGES ==> #[trigger] r.pages@[k] == 0,
    {
        let mut pages: Vec<usize> = Vec::new();
        let mut i: usize = 0;
        while i < TOTAL_PAGES
            invariant
                i <= TOTAL_PAGES,
                pages@.len() == i,
                forall|k: int| 0 <= k < i ==> #[trigger] pages@[k] == 0,
            decreases TOTAL_PAGES - i,
        {
            pages.push(0);
            i = i + 1;
        }
        Allocator { pages, base_addr, active: false }
    }

    /// Forbid allocation and deallocation.
    pub fn disable(&mut self)
        ensures
            *final(self) == (Allocator { active: false, ..*old(self) }),
    {
        self.active = false;
    }

    /// Permit allocation and deallocation.
    pub fn enable(&mut self)
        ensures
            *final(self) == (Allocator { active: true, ..*old(self) }),
    {
        self.active = true;
    }

    /// Whether a free run of `n` pages starts at page `i`.
    fn fits_at(&self, i: usize, n: usize) -> (r: bool)
        requires
            self.pages@.len() == TOTAL_PAGES,
            i < TOTAL_PAGES,
        ensures
            r == Self::spec_fit_at(self.pages@, i as int, n as int),
    {
        if self.pages[i] != 0 {
            return false;
        }
        if n > TOTAL_PAGES - i {
            return false;
        }
        let mut j: usize = 0;
        while j < n
            invariant
                j <= n,
                i + n <= TOTAL_PAGES,
                self.pages@.len() == TOTAL_PAGES,
                forall|k: int| i <= k < i + j ==> self.pages@[k] == 0,
            decreases n - j,
        {
            if self.pages[i + j] != 0 {
                return false;
            }
            j = j + 1;
        }
        true
    }

    /// Allocate `size` bytes of physical memory, rounded up to whole pages:
    /// scan for the first run of enough free pages, mark it, and return its
    /// base address.  Returns `None` exactly when no such run exists.
    pub fn allocate(&mut self, size: usize) -> (r: Option<u64>)
        requires
            old(self).wf(),
            old(self).active,
            size + PAGE_SIZE - 1 <= usize::MAX,
        ensures
            final(self).wf(),
            final(self).active,
            Self::spec_allocate_post(*old(self), *final(self), r, size as int),
            r is Some ==> r->0 % 4096 == 0 && old(self).base_addr <= r->0,
    {
        let n = pages_needed(size);
        let ghost pre = *self;
        let mut i: usize = 0;
        while i < TOTAL_PAGES
            invariant
                i <= TOTAL_PAGES,
                *self == pre,
                pre == *old(self),
                pre.wf(),
                pre.active,
                size + PAGE_SIZE - 1 <= usize::MAX,
                n == spec_pages_needed(size as int),
                forall|i2: int| 0 <= i2 < i ==> !Self::spec_fit_at(pre.pages@, i2, n as int),
            decreases TOTAL_PAGES - i,
        {
            if self.fits_at(i, n) {
                let mut j: usize = 0;
                while j < n
                    invariant
                        j <= n,
                        i + n <= TOTAL_PAGES,
                        n <= TOTAL_PAGES,
                        pre == *old(self),
                        pre.wf(),
                        pre.active,
                        n == spec_pages_needed(size as int),
                        Self::spec_fit_at(pre.pages@, i as int, n as int),
                        forall|i2: int|
                            0 <= i2 < i ==> !Self::spec_fit_at(pre.pages@, i2, n as int),
                        self.pages@.len() == TOTAL_PAGES,
                        self.base_addr == pre.base_addr,
                        self.active == pre.active,
                        forall|k: int|
                            0 <= k < TOTAL_PAGES ==> #[trigger] self.pages@[k] as int == if i <= k
                                < i + j {
                                n - (k - i)
                            } else {
                                pre.pages@[k] as int
                            },
                    decreases n - j,
                {
                    self.pages.set(i + j, n - j);
                    j = j + 1;
                }
                let addr: u64 = self.base_addr + (i as u64) * 4096;
                proof {
                    lemma_div_multiples_vanish(i as int, 4096);
                    assert((addr - pre.base_addr) / 4096 == i as int);
                }
                return Some(addr);
            }
            i = i + 1;
        }
        proof {
            assert forall|i2: int| !Self::spec_fit_at(pre.pages@, i2, n as int) by {
                if 0 <= i2 < TOTAL_PAGES {
                    assert(!Self::spec_fit_at(pre.pages@, i2, n as int));
                }
            }
        }
        None
    }

    /// Free the run that a prior `allocate` returned `ptr` for: read the run
    /// length recorded at the first page and clear that many words.
    pub fn deallocate(&mut self, ptr: u64)
        requires
            old(self).wf(),
            old(self).active,
            old(self).base_addr <= ptr,
            (ptr - old(self).base_addr) % 4096 == 0,
            (ptr - old(self).base_addr) / 4096 < TOTAL_PAGES,
            (ptr - old(self).base_addr) / 4096 + old(self).pages@[(ptr - old(self).base_addr)
                / 4096] <= TOTAL_PAGES,
        ensures
            final(self).wf(),
            final(self).active,
            final(self).base_addr == old(self).base_addr,
            forall|k: int|
                0 <= k < TOTAL_PAGES ==> #[trigger] final(self).pages@[k] == {
                    let id = (ptr - old(self).base_addr) / 4096;
                    if id <= k < id + old(self).pages@[id] {
                        0
                    } else {
                        old(self).pages@[k]
                    }
                },
    {
        let id = ((ptr - self.base_addr) / 4096) as usize;
        let stride = self.pages[id];
        let ghost pre = *self;
        let mut j: usize = 0;
        while j < stride
            invariant
                j <= stride,
                id + stride <= TOTAL_PAGES,
                self.pages@.len() == TOTAL_PAGES,
                self.base_addr == pre.base_addr,
                self.active == pre.active,
                forall|k: int|
                    0 <= k < TOTAL_PAGES ==> #[trigger] self.pages@[k] == if id <= k < id + j {
                        0usize
                    } else {
                        pre.pages@[k]
                    },
            decreases stride - j,
        {
            self.pages.set(id + j, 0);
            j = j + 1;
        }
    }

    /// The size in bytes of the run that starts at `ptr`.
    pub fn size_of(&self, ptr: u64) -> (r: usize)
        requires
            self.wf(),
            self.base_addr <= ptr,
            (ptr - self.base_addr) / 4096 < TOTAL_PAGES,
        ensures
            r == self.pages@[(ptr - self.base_addr) / 4096] * PAGE_SIZE,
    {
        let id = ((ptr - self.base_addr) / 4096) as usize;
        self.pages[id] * PAGE_SIZE
    }
}

/// An address a successful allocation returned, together with its whole
/// run, lies inside the heap: page-aligned, at or above the base, and with
/// the run's end at or below the top of the heap region.
pub proof fn lemma_allocator_address_range(pre: Allocator, post: Allocator, a: u64, size: int)
    requires
        pre.wf(),
        Allocator::spec_allocate_post(pre, post, Some(a), size),
    ensures
        a % 4096 == 0,
        pre.base_addr <= a,
        a + spec_pages_needed(size) * 4096 <= MAX_VADDR,
        size >= 0 ==> size <= spec_pages_needed(size) * 4096,
{
    let n = spec_pages_needed(size);
    let i0 = (a - pre.base_addr) / 4096;
    assert(Allocator::spec_fit_at(pre.pages@, i0, n));
    assert(i0 + n <= TOTAL_PAGES);
    vstd::arithmetic::mul::lemma_mul_inequality(i0 + n, TOTAL_PAGES as int, 4096);
    vstd::arithmetic::mul::lemma_mul_is_distributive_add_other_way(4096, i0, n);
    vstd::arithmetic::div_mod::lemma_mod_multiples_basic(i0, 4096);
    if size >= 0 {
        vstd::arithmetic::div_mod::lemma_fundamental_div_mod(size + 4095, 4096);
    }
}

/// Base addresses of two successive successful allocations are disjoint:
/// the byte ranges of the two runs do not overlap, because the first run's
/// pages are marked busy while the second is found free.
pub proof fn lemma_allocate_runs_disjoint(
    a0: Allocator,
    a1: Allocator,
    a2: Allocator,
    p: u64,
    q: u64,
    s1: int,
    s2: int,
)
    requires
        a0.wf(),
        Allocator::spec_allocate_post(a0, a1, Some(p), s1),
        Allocator::spec_allocate_post(a1, a2, Some(q), s2),
        s1 > 0,
        s2 > 0,
    ensures
        p + spec_pages_needed(s1) * 4096 <= q || q + spec_pages_needed(s2) * 4096 <= p,
{
    let n1 = spec_pages_needed(s1);
    let n2 = spec_pages_needed(s2);
    let i0 = (p - a0.base_addr) / 4096;
    let j0 = (q - a1.base_addr) / 4096;
    assert(a1.base_addr == a0.base_addr);
    if i0 + n1 > j0 && j0 + n2 > i0 {
        // The index ranges would overlap at some page.
        let k = if i0 >= j0 {
            i0
        } else {
            j0
        };
        assert(i0 <= k < i0 + n1);
        assert(j0 <= k < j0 + n2);
        assert(a1.pages@[k] == n1 - (k - i0));
        assert(a1.pages@[k] == 0);
        assert(false);
    }
}

} // verus!
