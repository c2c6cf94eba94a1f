//! The ELF64 object format: byte-level readers, the file headers, the
//! program headers, and the loader that maps a user image into a fresh
//! address space.

pub mod header;
pub mod loader;
pub mod program;

use vstd::prelude::*;

verus! {

/// Why an ELF image was rejected.
#[derive(Clone, Copy, PartialEq, Eq, Structural, Debug)]
pub enum ElfError {
    /// The image ends before a field that had to be read.
    TooShort,
    /// The image does not begin with the ELF magic.
    BadMagic,
    /// A field holds a value outside its defined set.
    BadField,
    /// The image is not a 64-bit object.
    UnsupportedClass,
    /// The image is not little-endian.
    UnsupportedEndianness,
    /// A loadable segment asks for W or X without R, or W together with X.
    BadPermissions,
    /// A loadable segment points outside the image.
    SegmentOutOfBounds,
    /// The frame allocator could not back a segment page.
    OutOfMemory,
}

/// The value of `n` little-endian bytes of `s` starting at `off`.
pub open spec fn spec_le(s: Seq<u8>, off: int, n: nat) -> int
    decreases n,
{
    if n == 0 {
        0
    } else {
        s[off] + 256 * spec_le(s, off + 1, (n - 1) as nat)
    }
}

/// A little-endian value of up to eight bytes stays below 2^(8n).
pub(crate) proof fn lemma_le_bound(s: Seq<u8>, off: int, n: nat)
    requires
        0 <= off,
        off + n <= s.len(),
        n <= 8,
    ensures
        0 <= spec_le(s, off, n) < pow_256(n),
    decreases n,
{
    if n > 0 {
        lemma_le_bound(s, off + 1, (n - 1) as nat);
    }
}

/// 256^n.
pub open spec fn pow_256(n: nat) -> int
    decreases n,
{
    if n == 0 {
        1
    } else {
        256 * pow_256((n - 1) as nat)
    }
}

/// Read `n` little-endian bytes at `off` as an unsigned value.
fn read_le(bytes: &[u8], off: usize, n: usize) -> (r: u64)
    requires
        off + n <= bytes@.len(),
        n <= 8,
    ensures
        r == spec_le(bytes@, off as int, n as nat),
    decreases n,
{
    proof {
        lemma_le_bound(bytes@, off as int, n as nat);
        lemma_pow_256_values();
        if n >= 1 {
            lemma_le_bound(bytes@, off as int + 1, (n - 1) as nat);
            lemma_pow_256_increases((n - 1) as nat, 7);
        }
    }
    if n == 0 {
        0
    } else {
        let low = bytes[off];
        let rest = read_le(bytes, off + 1, n - 1);
        low as u64 + 256 * rest
    }
}

/// The small powers of 256, written out.
pub(crate) proof fn lemma_pow_256_values()
    ensures
        pow_256(0) == 1,
        pow_256(1) == 256,
        pow_256(2) == 0x1_0000,
        pow_256(3) == 0x100_0000,
        pow_256(4) == 0x1_0000_0000,
        pow_256(5) == 0x100_0000_0000,
        pow_256(6) == 0x1_0000_0000_0000,
        pow_256(7) == 0x100_0000_0000_0000,
        pow_256(8) == 0x1_0000_0000_0000_0000,
{
    assert(pow_256(0) == 1);
    assert(pow_256(1) == 256);
    assert(pow_256(2) == 0x1_0000);
    assert(pow_256(3) == 0x100_0000);
    assert(pow_256(4) == 0x1_0000_0000);
    assert(pow_256(5) == 0x100_0000_0000);
    assert(pow_256(6) == 0x1_0000_0000_0000);
    assert(pow_256(7) == 0x100_0000_0000_0000);
}

/// 256^a <= 256^b when a <= b.
proof fn lemma_pow_256_increases(a: nat, b: nat)
    requires
        a <= b,
    ensures
        pow_256(a) <= pow_256(b),
        pow_256(a) >= 1,
    decreases b,
{
    if b > 0 {
        if a == b {
            lemma_pow_256_increases((a - 1) as nat, (b - 1) as nat);
        } else {
            lemma_pow_256_increases(a, (b - 1) as nat);
        }
    }
}

/// Read a little-endian 16-bit field.
pub fn read_le_u16(bytes: &[u8], off: usize) -> (r: u16)
    requires
        off + 2 <= bytes@.len(),
    ensures
        r == spec_le(bytes@, off as int, 2),
{
    proof {
        lemma_le_bound(bytes@, off as int, 2);
        lemma_pow_256_values();
    }
    read_le(bytes, off, 2) as u16
}

/// Read a little-endian 32-bit field.
pub fn read_le_u32(bytes: &[u8], off: usize) -> (r: u32)
    requires
        off + 4 <= bytes@.len(),
    ensures
        r == spec_le(bytes@, off as int, 4),
{
    proof {
        lemma_le_bound(bytes@, off as int, 4);
        lemma_pow_256_values();
    }
    read_le(bytes, off, 4) as u32
}

/// Read a little-endian 64-bit field.
pub fn read_le_u64(bytes: &[u8], off: usize) -> (r: u64)
    requires
        off + 8 <= bytes@.len(),
    ensures
        r == spec_le(bytes@, off as int, 8),
{
    read_le(bytes, off, 8)
}

} // verus!
