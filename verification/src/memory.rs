//! Page-granular memory constants, alignment helpers, and the `Page` type:
//! an owned 4096-byte frame of physical memory.

use vstd::arithmetic::div_mod::{
    lemma_div_is_ordered, lemma_fundamental_div_mod, lemma_mod_multiples_basic,
};
use vstd::arithmetic::power2::{lemma2_to64, lemma_pow2_pos, pow2};
use vstd::bits::{lemma_usize_pow2_no_overflow, lemma_usize_shl_is_mul};
use vstd::prelude::*;

verus! {

/// Size of a physical frame and of a virtual page, in bytes.
pub const PAGE_SIZE: usize = 4096;

/// log2 of `PAGE_SIZE`.
pub const PAGE_ORDER: usize = 12;

/// Number of pages the kernel heap spans (128 MiB of memory).
pub const TOTAL_PAGES: usize = 32768;

/// The least multiple of 2^order at or above `val`.
pub open spec fn spec_align_up(val: int, order: nat) -> int {
    let m = pow2(order) as int;
    ((val + m - 1) / m) * m
}

/// The greatest multiple of 2^order at or below `val`.
pub open spec fn spec_align_down(val: int, order: nat) -> int {
    (val / (pow2(order) as int)) * (pow2(order) as int)
}

/// Align an address to the upper bound according to the specified order.
pub fn align(val: usize, order: usize) -> (r: usize)
    requires
        order < 32,
        val + pow2(order as nat) - 1 <= usize::MAX,
    ensures
        r == spec_align_up(val as int, order as nat),
        val <= r < val + pow2(order as nat),
        (r as int) % (pow2(order as nat) as int) == 0,
{
    proof {
        lemma_usize_pow2_no_overflow(order as nat);
        lemma_usize_shl_is_mul(1, order);
        lemma_pow2_pos(order as nat);
    }
    let m: usize = 1usize << order;
    let q = (val + (m - 1)) / m;
    proof {
        lemma_fundamental_div_mod(val as int + m - 1, m as int);
        lemma_mod_multiples_basic((val as int + m - 1) / (m as int), m as int);
        vstd::arithmetic::mul::lemma_mul_is_commutative(q as int, m as int);
        assert(q * m <= val + m - 1);
    }
    q * m
}

/// Align an address to the lower bound according to the specified order.
pub fn align_down(val: usize, order: usize) -> (r: usize)
    requires
        order < 32,
    ensures
        r == spec_align_down(val as int, order as nat),
        val - pow2(order as nat) < r <= val,
        (r as int) % (pow2(order as nat) as int) == 0,
{
    proof {
        lemma_usize_pow2_no_overflow(order as nat);
        lemma_usize_shl_is_mul(1, order);
        lemma_pow2_pos(order as nat);
    }
    let m: usize = 1usize << order;
    let q = val / m;
    proof {
        lemma_fundamental_div_mod(val as int, m as int);
        lemma_mod_multiples_basic(val as int / (m as int), m as int);
    }
    q * m
}

/// The least multiple of `PAGE_SIZE` at or above `val`.
pub open spec fn spec_page_up(val: int) -> int {
    ((val + PAGE_SIZE - 1) / (PAGE_SIZE as int)) * (PAGE_SIZE as int)
}

/// The greatest multiple of `PAGE_SIZE` at or below `val`.
pub open spec fn spec_page_down(val: int) -> int {
    (val / (PAGE_SIZE as int)) * (PAGE_SIZE as int)
}

/// `pow2(12)` is the page size.
pub proof fn lemma_page_size_pow2()
    ensures
        pow2(PAGE_ORDER as nat) == PAGE_SIZE,
{
    lemma2_to64();
}

/// Align an address to the end of a page.
pub fn align_page_up(val: usize) -> (r: usize)
    requires
        val + PAGE_SIZE - 1 <= usize::MAX,
    ensures
        r == spec_page_up(val as int),
        r % PAGE_SIZE == 0,
        val <= r < val + PAGE_SIZE,
{
    proof {
        lemma_page_size_pow2();
    }
    let r = align(val, PAGE_ORDER);
    proof {
        lemma_mod_multiples_basic((val as int + PAGE_SIZE - 1) / (PAGE_SIZE as int), PAGE_SIZE as int);
    }
    r
}

/// Align an address to the begin of a page.
pub fn align_page_down(val: usize) -> (r: usize)
    ensures
        r == spec_page_down(val as int),
        r % PAGE_SIZE == 0,
        val - PAGE_SIZE < r <= val,
{
    proof {
        lemma_page_size_pow2();
    }
    let r = align_down(val, PAGE_ORDER);
    proof {
        lemma_mod_multiples_basic(val as int / (PAGE_SIZE as int), PAGE_SIZE as int);
    }
    r
}

/// Whether an address lies on a page boundary.
pub fn is_page_aligned(val: usize) -> (r: bool)
    ensures
        r <==> val % PAGE_SIZE == 0,
{
    val % PAGE_SIZE == 0
}

/// Number of pages that hold `size` bytes, as a mathematical integer.
pub open spec fn spec_pages_needed(size: int) -> int {
    (size + PAGE_SIZE - 1) / (PAGE_SIZE as int)
}

/// How many whole pages are needed to hold `size` bytes.
pub fn pages_needed(size: usize) -> (r: usize)
    requires
        size + PAGE_SIZE - 1 <= usize::MAX,
    ensures
        r == spec_pages_needed(size as int),
        size > 0 ==> r >= 1,
        size == 0 ==> r == 0,
        r * PAGE_SIZE == spec_page_up(size as int),
{
    proof {
        lemma_fundamental_div_mod(size as int + PAGE_SIZE - 1, PAGE_SIZE as int);
        if size > 0 {
            lemma_div_is_ordered(PAGE_SIZE as int, size as int + PAGE_SIZE - 1, PAGE_SIZE as int);
        }
    }
    align_page_up(size) / PAGE_SIZE
}

/// The successive page offsets `0, PAGE_SIZE, 2 * PAGE_SIZE, ...` that cover
/// `size` bytes.
pub fn page_offsets(size: usize) -> (r: Vec<usize>)
    requires
        size + PAGE_SIZE - 1 <= usize::MAX,
    ensures
        r@.len() == spec_pages_needed(size as int),
        forall|i: int| 0 <= i < r@.len() ==> r@[i] == i * PAGE_SIZE,
{
    let n = pages_needed(size);
    let mut r: Vec<usize> = Vec::new();
    let mut i: usize = 0;
    while i < n
        invariant
            i <= n,
            n * PAGE_SIZE <= size + PAGE_SIZE - 1 <= usize::MAX,
            r@.len() == i,
            forall|j: int| 0 <= j < i ==> r@[j] == j * PAGE_SIZE,
        decreases n - i,
    {
        proof {
            vstd::arithmetic::mul::lemma_mul_inequality(i as int + 1, n as int, PAGE_SIZE as int);
            vstd::arithmetic::mul::lemma_mul_is_distributive_add_other_way(
                PAGE_SIZE as int,
                i as int,
                1,
            );
        }
        r.push(i * PAGE_SIZE);
        i = i + 1;
    }
    r
}

/// An owned frame: one page worth of bytes.
pub struct Page {
    pub bytes: Vec<u8>,
}

impl Page {
    /// Whether the frame has exactly one page of bytes.
    pub open spec fn wf(self) -> bool {
        self.bytes@.len() == PAGE_SIZE
    }

    /// A zero-filled frame.
    pub fn new() -> (r: Page)
        ensures
            r.wf(),
            forall|i: int| 0 <= i < PAGE_SIZE ==> r.bytes@[i] == 0u8,
    {
        let mut bytes: Vec<u8> = Vec::new();
        let mut i: usize = 0;
        while i < PAGE_SIZE
            invariant
                i <= PAGE_SIZE,
                bytes@.len() == i,
                forall|j: int| 0 <= j < i ==> bytes@[j] == 0u8,
            decreases PAGE_SIZE - i,
        {
            bytes.push(0u8);
            i = i + 1;
        }
        Page { bytes }
    }

    /// A frame holding `slice`, zero-padded to the end of the page: the tail
    /// beyond the slice stays zero, which is what backs BSS in the loader.
    pub fn from_slice(slice: &[u8]) -> (r: Page)
        requires
            slice@.len() <= PAGE_SIZE,
        ensures
            r.wf(),
            forall|i: int| 0 <= i < slice@.len() ==> r.bytes@[i] == slice@[i],
            forall|i: int| slice@.len() <= i < PAGE_SIZE ==> r.bytes@[i] == 0u8,
    {
        let mut page = Page::new();
        let mut i: usize = 0;
        while i < slice.len()
            invariant
                i <= slice@.len() <= PAGE_SIZE,
                page.bytes@.len() == PAGE_SIZE,
                forall|j: int| 0 <= j < i ==> page.bytes@[j] == slice@[j],
                forall|j: int| i <= j < PAGE_SIZE ==> page.bytes@[j] == 0u8,
            decreases slice@.len() - i,
        {
            let b = slice[i];
            page.bytes.set(i, b);
            i = i + 1;
        }
        page
    }
}

} // verus!
