//! Canonical virtual addresses of x86-64.

use vstd::prelude::*;

verus! {

/// One past the highest address of the lower canonical half.
pub const LOWER_HALF_END: u64 = 0x0000_8000_0000_0000;

/// Lowest address of the upper canonical half.
pub const UPPER_HALF_START: u64 = 0xffff_8000_0000_0000;

/// An address is canonical when bits 48 to 63 repeat bit 47.
pub open spec fn is_canonical(addr: u64) -> bool {
    addr < LOWER_HALF_END || addr >= UPPER_HALF_START
}

/// A block of `size` bytes at `base` whose first address and whose end (one
/// past its last byte) are both canonical.
pub open spec fn is_canonical_block(base: u64, size: nat) -> bool {
    &&& is_canonical(base)
    &&& base + size <= u64::MAX
    &&& is_canonical((base + size) as u64)
}

/// Canonical addresses are exactly those whose bits 47 to 63 are all clear or
/// all set.
pub proof fn lemma_canonical_bits(addr: u64)
    ensures
        is_canonical(addr) <==> (addr >> 47 == 0 || addr >> 47 == 0x1ffff),
{
    assert(addr < 0x0000_8000_0000_0000u64 <==> addr >> 47 == 0) by (bit_vector);
    assert(addr >= 0xffff_8000_0000_0000u64 <==> addr >> 47 == 0x1ffff) by (bit_vector);
}

/// Tests whether `addr` is canonical.
pub fn canonical(addr: u64) -> (ok: bool)
    ensures
        ok == is_canonical(addr),
{
    addr < LOWER_HALF_END || addr >= UPPER_HALF_START
}

/// The end of the block of `size` bytes at `base`, where the block is
/// canonical.
pub fn block_end(base: u64, size: usize) -> (end: Option<u64>)
    ensures
        end is Some <==> is_canonical_block(base, size as nat),
        end matches Some(e) ==> e == base + size,
{
    if !canonical(base) {
        return None;
    }
    match base.checked_add(size as u64) {
        Some(e) => if canonical(e) {
            Some(e)
        } else {
            None
        },
        None => None,
    }
}

} // verus!
