//! The multiply and divide operations of the M extension, at a width of `n = 2^32` or `2^64`:
//! specified over the integers, computed with 128-bit unsigned arithmetic.
use vstd::prelude::*;
use vstd::arithmetic::div_mod::{lemma_hoist_over_denominator, lemma_mod_multiples_vanish, lemma_fundamental_div_mod};

verus! {

#[derive(Clone, Copy, Debug, PartialEq, Eq, Structural)]
pub enum MulOp {
    Mul,
    Mulh,
    Mulhsu,
    Mulhu,
    Div,
    Divu,
    Rem,
    Remu,
}

/// The two's-complement value of `u` at width `n`.
pub open spec fn signed_of(u: int, n: int) -> int {
    if u >= n / 2 { u - n } else { u }
}

pub open spec fn abs(x: int) -> int {
    if x < 0 { -x } else { x }
}

/// Division rounding toward zero.
pub open spec fn trunc_div(x: int, y: int) -> int {
    let q = abs(x) / abs(y);
    if (x < 0) != (y < 0) { -q } else { q }
}

/// The result of `op` on the width-`n` operands `a` and `b`, as the RISC-V M extension gives
/// it, division by zero and signed overflow included.
pub open spec fn muldiv(op: MulOp, a: int, b: int, n: int) -> int {
    let sa = signed_of(a, n);
    let sb = signed_of(b, n);
    let overflow = sa == -(n / 2) && sb == -1;
    match op {
        MulOp::Mul => (a * b) % n,
        MulOp::Mulhu => (a * b) / n,
        MulOp::Mulh => ((sa * sb) / n) % n,
        MulOp::Mulhsu => ((sa * b) / n) % n,
        MulOp::Divu => if b == 0 { n - 1 } else { a / b },
        MulOp::Remu => if b == 0 { a } else { a % b },
        MulOp::Div => if b == 0 { n - 1 } else if overflow { a } else { trunc_div(sa, sb) % n },
        MulOp::Rem => if b == 0 { a } else if overflow { 0 } else { (sa - trunc_div(sa, sb) * sb) % n },
    }
}

pub open spec fn width_n(wide: bool) -> int {
    if wide { 0x1_0000_0000_0000_0000 } else { 0x1_0000_0000 }
}

proof fn lemma_high_signed(a: int, b: int, an: int, bn: int, n: int, hi: int)
    requires
        n > 0,
        hi == (a * b) / n,
        an == 0 || an == 1,
        bn == 0 || bn == 1,
    ensures
        (((a - n * an) * (b - n * bn)) / n) % n == (hi - (an * b + bn * a)) % n,
{
    let j = n * an * bn - (an * b + bn * a);
    assert((a - n * an) * (b - n * bn) == a * b + j * n) by (nonlinear_arith)
        requires
            j == n * an * bn - (an * b + bn * a),
    ;
    lemma_hoist_over_denominator(a * b, j, n as nat);
    assert(hi - (an * b + bn * a) + n * (an * bn) == hi + j) by (nonlinear_arith)
        requires
            j == n * an * bn - (an * b + bn * a),
    ;
    lemma_mod_multiples_vanish(an * bn, hi - (an * b + bn * a), n);
}

fn high_signed(x: u128, y: u128, n: u128, both: bool) -> (r: u128)
    requires
        n == 0x1_0000_0000_0000_0000 || n == 0x1_0000_0000,
        x < n,
        y < n,
    ensures
        both ==> r as int == muldiv(MulOp::Mulh, x as int, y as int, n as int),
        !both ==> r as int == muldiv(MulOp::Mulhsu, x as int, y as int, n as int),
{
    proof {
        assert(x * y < 0x1_0000_0000_0000_0000_0000_0000_0000_0000) by (nonlinear_arith)
            requires
                x < 0x1_0000_0000_0000_0000,
                y < 0x1_0000_0000_0000_0000,
        ;
        assert(x * y / (n as int) < n) by (nonlinear_arith)
            requires
                x < n,
                y < n,
                n > 0,
        ;
    }
    let half = n / 2;
    let an = x >= half;
    let bn = both && y >= half;
    let hi = (x * y) / n;
    let c = (if an { y } else { 0 }) + (if bn { x } else { 0 });
    proof {
        lemma_high_signed(x as int, y as int, if an { 1 } else { 0 }, if bn { 1 } else { 0 }, n as int, hi as int);
        lemma_mod_multiples_vanish(2, hi - c, n as int);
    }
    (hi + 2 * n - c) % n
}

fn div_signed(x: u128, y: u128, n: u128) -> (r: u128)
    requires
        n == 0x1_0000_0000_0000_0000 || n == 0x1_0000_0000,
        x < n,
        y < n,
    ensures
        r as int == muldiv(MulOp::Div, x as int, y as int, n as int),
{
    let half = n / 2;
    if y == 0 {
        return n - 1;
    }
    if x == half && y == n - 1 {
        return x;
    }
    let an = x >= half;
    let bn = y >= half;
    let ma: u128 = if an { n - x } else { x };
    let mb: u128 = if bn { n - y } else { y };
    let q = ma / mb;
    proof {
        assert(q <= ma) by (nonlinear_arith)
            requires
                mb >= 1,
                q == ma / mb,
        ;
        lemma_mod_multiples_vanish(1, -(q as int), n as int);
    }
    if an != bn { (n - q) % n } else { q }
}

fn rem_signed(x: u128, y: u128, n: u128) -> (r: u128)
    requires
        n == 0x1_0000_0000_0000_0000 || n == 0x1_0000_0000,
        x < n,
        y < n,
    ensures
        r as int == muldiv(MulOp::Rem, x as int, y as int, n as int),
{
    let half = n / 2;
    if y == 0 {
        return x;
    }
    if x == half && y == n - 1 {
        return 0;
    }
    let an = x >= half;
    let bn = y >= half;
    let ma: u128 = if an { n - x } else { x };
    let mb: u128 = if bn { n - y } else { y };
    let rm = ma % mb;
    proof {
        let q = ma as int / mb as int;
        lemma_fundamental_div_mod(ma as int, mb as int);
        let sa = signed_of(x as int, n as int);
        let sb = signed_of(y as int, n as int);
        assert(sa - trunc_div(sa, sb) * sb == if an { -(rm as int) } else { rm as int }) by (nonlinear_arith)
            requires
                ma as int == mb * q + rm,
                sa == (if an { -(ma as int) } else { ma as int }),
                sb == (if bn { -(mb as int) } else { mb as int }),
                mb > 0,
                ma >= 0,
                trunc_div(sa, sb) == (if (sa < 0) != (sb < 0) { -q } else { q }),
                an ==> ma > 0,
        ;
        lemma_mod_multiples_vanish(1, -(rm as int), n as int);
    }
    if an { (n - rm) % n } else { rm }
}

/// Computes `muldiv(op, a, b, n)` for operands below `n`.
pub fn muldiv_exec(op: MulOp, a: u64, b: u64, wide: bool) -> (r: u64)
    requires
        a < width_n(wide),
        b < width_n(wide),
    ensures
        r as int == muldiv(op, a as int, b as int, width_n(wide)),
{
    let n: u128 = if wide { 0x1_0000_0000_0000_0000 } else { 0x1_0000_0000 };
    let x = a as u128;
    let y = b as u128;
    proof {
        assert(x * y < 0x1_0000_0000_0000_0000_0000_0000_0000_0000) by (nonlinear_arith)
            requires
                x < 0x1_0000_0000_0000_0000,
                y < 0x1_0000_0000_0000_0000,
        ;
        assert(x * y / (n as int) < n) by (nonlinear_arith)
            requires
                x < n,
                y < n,
                n > 0,
        ;
    }
    let r: u128 = match op {
        MulOp::Mul => (x * y) % n,
        MulOp::Mulhu => (x * y) / n,
        MulOp::Mulh => high_signed(x, y, n, true),
        MulOp::Mulhsu => high_signed(x, y, n, false),
        MulOp::Divu => if y == 0 { n - 1 } else { x / y },
        MulOp::Remu => if y == 0 { x } else { x % y },
        MulOp::Div => div_signed(x, y, n),
        MulOp::Rem => rem_signed(x, y, n),
    };
    proof {
        if op == MulOp::Divu && y != 0 {
            assert(x / y <= x) by (nonlinear_arith)
                requires
                    y >= 1,
            ;
        }
        if op == MulOp::Remu && y != 0 {
            assert(x % y < y) by (nonlinear_arith)
                requires
                    y >= 1,
            ;
        }
    }
    r as u64
}

} // verus!
