//! The `comp_t` encoding of CPU times: a 13-bit mantissa under a 3-bit
//! exponent to the base 8.

use vstd::arithmetic::power::pow;
use vstd::prelude::*;

verus! {

/// The low 13 bits of a `comp_t` value.
pub open spec fn mantissa(time: u16) -> u16 {
    time & 0x1fff
}

/// The high 3 bits of a `comp_t` value.
pub open spec fn exponent(time: u16) -> u16 {
    (time >> 13) & 0x7
}

/// The mantissa shifted left by three bits for each unit of the exponent,
/// kept to 16 bits: bits shifted past the top are lost.
pub open spec fn expand_time_spec(time: u16) -> u16 {
    mantissa(time) << (exponent(time) * 3)
}

/// Expands a `comp_t` value. Total: a shift that leaves no bit of the mantissa
/// within 16 bits gives 0.
pub fn expand_time(time: u16) -> (ret: u16)
    ensures
        ret == expand_time_spec(time),
{
    let m: u16 = time & 0x1fff;
    let e: u16 = (time >> 13) & 0x7;
    assert(e <= 7) by (bit_vector)
        requires
            e == (time >> 13) & 0x7,
    ;
    let shift: u16 = e * 3;
    if shift < 16 {
        m << shift
    } else {
        assert(m << shift == 0) by (bit_vector)
            requires
                shift >= 16,
        ;
        0
    }
}

/// In numbers: the mantissa is the value below 8192 and the exponent the
/// multiples of 8192 in it, and the expanded time is the mantissa times 8 to
/// the exponent, of which the low 16 bits are kept.
pub proof fn lemma_expand_time_value(time: u16)
    ensures
        mantissa(time) == time % 8192,
        exponent(time) == time / 8192,
        expand_time_spec(time) == (mantissa(time) * pow(8, exponent(time) as nat)) % 65536,
{
    let m = mantissa(time);
    let e = exponent(time);
    assert(m == time % 8192 && e == time / 8192 && e <= 7) by (bit_vector)
        requires
            m == time & 0x1fff,
            e == (time >> 13) & 0x7,
    ;
    let r = expand_time_spec(time);
    assert(r == m << (e * 3));
    assert(e == 0 ==> r == m) by (bit_vector)
        requires
            r == m << (e * 3),
    ;
    assert(e == 1 ==> r == (m * 8) % 65536) by (bit_vector)
        requires
            r == m << (e * 3),
    ;
    assert(e == 2 ==> r == (m * 64) % 65536) by (bit_vector)
        requires
            r == m << (e * 3),
    ;
    assert(e == 3 ==> r == (m * 512) % 65536) by (bit_vector)
        requires
            r == m << (e * 3),
    ;
    assert(e == 4 ==> r == (m * 4096) % 65536) by (bit_vector)
        requires
            r == m << (e * 3),
    ;
    assert(e == 5 ==> r == (m * 32768) % 65536) by (bit_vector)
        requires
            r == m << (e * 3),
    ;
    assert(e >= 6 ==> r == 0) by (bit_vector)
        requires
            r == m << (e * 3),
            e <= 7,
    ;
    reveal_with_fuel(pow, 8);
    assert(pow(8, 0) == 1 && pow(8, 1) == 8 && pow(8, 2) == 64 && pow(8, 3) == 512);
    assert(pow(8, 4) == 4096 && pow(8, 5) == 32768 && pow(8, 6) == 262144 && pow(8, 7) == 2097152);
    if e == 6 {
        assert((m * 262144) % 65536 == 0) by (nonlinear_arith)
            requires
                0 <= m,
        {
            assert(m * 262144 == (m * 4) * 65536);
        }
    } else if e == 7 {
        assert((m * 2097152) % 65536 == 0) by (nonlinear_arith)
            requires
                0 <= m,
        {
            assert(m * 2097152 == (m * 32) * 65536);
        }
    }
}

} // verus!
