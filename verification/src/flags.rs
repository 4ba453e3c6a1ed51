//! The behaviour bits of a record's flag byte.

use vstd::prelude::*;

verus! {

/// The process forked without a following exec.
pub const AFORK: u8 = 0x01;

/// The process used super-user privileges.
pub const ASU: u8 = 0x02;

/// The process dumped core.
pub const ACORE: u8 = 0x08;

/// The process was killed by a signal.
pub const AXSIG: u8 = 0x10;

/// Whether every bit of `mask` is set in `flag`.
pub open spec fn has_flag(flag: u8, mask: u8) -> bool {
    flag & mask == mask
}

/// Tests `flag` for the bits of `mask`.
pub fn test_flag(flag: u8, mask: u8) -> (set: bool)
    ensures
        set == has_flag(flag, mask),
{
    flag & mask == mask
}

/// Bits outside the four that are defined, the reserved bit 0x04 among them,
/// change none of the four tests, whether they are added or taken away.
pub proof fn lemma_other_bits_ignored(flag: u8, other: u8)
    requires
        other & (AFORK | ASU | ACORE | AXSIG) == 0,
    ensures
        has_flag(flag | other, AFORK) == has_flag(flag, AFORK),
        has_flag(flag | other, ASU) == has_flag(flag, ASU),
        has_flag(flag | other, ACORE) == has_flag(flag, ACORE),
        has_flag(flag | other, AXSIG) == has_flag(flag, AXSIG),
        has_flag(flag & !other, AFORK) == has_flag(flag, AFORK),
        has_flag(flag & !other, ASU) == has_flag(flag, ASU),
        has_flag(flag & !other, ACORE) == has_flag(flag, ACORE),
        has_flag(flag & !other, AXSIG) == has_flag(flag, AXSIG),
{
    assert(other & 0x1b == 0 ==> ((flag | other) & 0x01 == 0x01) == (flag & 0x01 == 0x01)
        && ((flag | other) & 0x02 == 0x02) == (flag & 0x02 == 0x02)
        && ((flag | other) & 0x08 == 0x08) == (flag & 0x08 == 0x08)
        && ((flag | other) & 0x10 == 0x10) == (flag & 0x10 == 0x10)
        && ((flag & !other) & 0x01 == 0x01) == (flag & 0x01 == 0x01)
        && ((flag & !other) & 0x02 == 0x02) == (flag & 0x02 == 0x02)
        && ((flag & !other) & 0x08 == 0x08) == (flag & 0x08 == 0x08)
        && ((flag & !other) & 0x10 == 0x10) == (flag & 0x10 == 0x10)) by (bit_vector);
    assert(0x01u8 | 0x02u8 | 0x08u8 | 0x10u8 == 0x1bu8) by (bit_vector);
}

} // verus!
