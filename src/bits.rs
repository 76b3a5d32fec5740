//! Bit-field helpers shared by the decoder, the CSR file and the instruction handlers.
use vstd::prelude::*;

verus! {

/// A mask of the `width` low bits (`1 <= width <= 64`).
pub open spec fn low_mask(width: u64) -> u64 {
    if width >= 64 {
        0xffff_ffff_ffff_ffffu64
    } else {
        ((1u64 << width) - 1) as u64
    }
}

/// The field `x[msb:lsb]`, shifted down to bit 0.
pub open spec fn field(x: u64, msb: u64, lsb: u64) -> u64 {
    (x >> lsb) & low_mask((msb - lsb + 1) as u64)
}

/// `x` with the field `[msb:lsb]` replaced by the low bits of `v`.
pub open spec fn with_field(x: u64, msb: u64, lsb: u64, v: u64) -> u64 {
    let m = low_mask((msb - lsb + 1) as u64);
    (x & !(m << lsb)) | ((v & m) << lsb)
}

/// The low `len` bits of `x`, sign-extended from bit `len - 1` to 64 bits.
pub open spec fn sext(x: u64, len: u64) -> u64 {
    if (x >> ((len - 1) as u64)) & 1 == 1 {
        x | !low_mask(len)
    } else {
        x & low_mask(len)
    }
}

pub fn mask_bits(width: u64) -> (r: u64)
    requires
        1 <= width <= 64,
    ensures
        r == low_mask(width),
{
    if width >= 64 {
        0xffff_ffff_ffff_ffff
    } else {
        proof {
            assert(1u64 << width >= 1) by (bit_vector)
                requires
                    width < 64,
            ;
        }
        (1u64 << width) - 1
    }
}

/// Reads the field `x[msb:lsb]`.
pub fn bit_range(x: u64, msb: u64, lsb: u64) -> (r: u64)
    requires
        lsb <= msb < 64,
    ensures
        r == field(x, msb, lsb),
{
    (x >> lsb) & mask_bits(msb - lsb + 1)
}

/// Replaces the field `x[msb:lsb]` by the low bits of `v`.
pub fn set_bit_range(x: u64, msb: u64, lsb: u64, v: u64) -> (r: u64)
    requires
        lsb <= msb < 64,
    ensures
        r == with_field(x, msb, lsb, v),
{
    let m = mask_bits(msb - lsb + 1);
    (x & !(m << lsb)) | ((v & m) << lsb)
}

/// Sign-extends the low `len` bits of `x`.
pub fn sign_extend(x: u64, len: u64) -> (r: u64)
    requires
        1 <= len <= 64,
    ensures
        r == sext(x, len),
{
    if (x >> (len - 1)) & 1 == 1 {
        x | !mask_bits(len)
    } else {
        x & mask_bits(len)
    }
}

/// Reading back a field that was just written gives the written value, cut to the field's width.
pub proof fn lemma_field_of_with_field(x: u64, msb: u64, lsb: u64, v: u64)
    requires
        lsb <= msb < 64,
    ensures
        field(with_field(x, msb, lsb, v), msb, lsb) == v & low_mask((msb - lsb + 1) as u64),
{
    let w = (msb - lsb + 1) as u64;
    let m = low_mask(w);
    assert(((((x & !(m << lsb)) | ((v & m) << lsb)) >> lsb) & m) == v & m) by (bit_vector)
        requires
            lsb < 64,
            w >= 1,
            lsb + w <= 64,
            m == if w >= 64 { 0xffff_ffff_ffff_ffffu64 } else { ((1u64 << w) - 1) as u64 },
    ;
}

pub proof fn lemma_and_le(y: u64, m: u64)
    ensures
        y & m <= m,
{
    assert(y & m <= m) by (bit_vector);
}

} // verus!
