//! Single-precision rounding of fractions, for the payouts that the game
//! computes in `f32`: every value here stays positive and within the range of
//! normal `f32` numbers, so a rounded value is the fraction scaled by powers of
//! two to 24 significant bits and rounded to the nearest, ties to even.

use vstd::prelude::*;

use crate::projections::accounts::two_to;

verus! {

/// `n / d` rounded to a whole number: to the nearest, ties to the even one.
pub open spec fn nearest_even(n: nat, d: nat) -> nat {
    let q = n / d;
    let r = n % d;
    if 2 * r > d || (2 * r == d && q % 2 == 1) {
        q + 1
    } else {
        q
    }
}

/// How far `n` falls short of `2^23 * d`; zero once it gets there.
pub open spec fn shortfall(n: nat, d: nat) -> nat {
    if n >= 0x80_0000 * d {
        0
    } else {
        (0x80_0000 * d - n) as nat
    }
}

/// How many doublings of `n` bring `n / d` to `2^23` or above (none for zero).
pub open spec fn up_bits(n: nat, d: nat) -> nat
    decreases shortfall(n, d),
{
    if n == 0 || n >= 0x80_0000 * d {
        0
    } else {
        1 + up_bits(2 * n, d)
    }
}

/// How many doublings of `d` bring `n / d` below `2^24`.
pub open spec fn down_bits(n: nat, d: nat) -> nat
    decreases n - d,
{
    if d == 0 || n < 0x100_0000 * d {
        0
    } else {
        1 + down_bits(n, 2 * d)
    }
}

/// The `f32` nearest to the fraction `n / d`, as a fraction `(num, den)`
/// whose denominator is a power of two: `n / d` is scaled by powers of two
/// into `[2^23, 2^24)`, rounded to a whole number (to the nearest, ties to
/// even) and scaled back. Zero stays zero.
pub open spec fn f32_quotient(n: nat, d: nat) -> (nat, nat) {
    if n == 0 || d == 0 {
        (0, 1)
    } else {
        let up = up_bits(n, d);
        let n2 = n * two_to(up);
        let down = down_bits(n2, d);
        (nearest_even(n2, d * two_to(down)) * two_to(down), two_to(up))
    }
}

/// Rounds the fraction `n / d` to an `f32`, given back as a fraction whose
/// denominator is a power of two.
pub fn quotient_to_f32(n: u128, d: u128) -> (r: (u128, u128))
    requires
        n < 0x10_0000_0000_0000_0000_0000_0000,
        0 < d < 0x10_0000_0000_0000_0000_0000_0000,
    ensures
        (r.0 as nat, r.1 as nat) == f32_quotient(n as nat, d as nat),
        1 <= r.1 <= 0x100_0000 * d,
        r.0 * d <= 2 * n * r.1,
        r.0 <= 0x100_0000 || r.1 == 1,
        n > 0 ==> r.0 > 0,
{
    if n == 0 {
        return (0, 1);
    }
    let mut n2: u128 = n;
    let mut den: u128 = 1;
    let ghost mut up: nat = 0;
    while n2 < 0x80_0000 * d
        invariant
            1 <= n <= n2,
            n < 0x10_0000_0000_0000_0000_0000_0000,
            0 < d < 0x10_0000_0000_0000_0000_0000_0000,
            1 <= den <= n2,
            den == two_to(up),
            n2 == n * den,
            up_bits(n as nat, d as nat) == up + up_bits(n2 as nat, d as nat),
            up > 0 ==> n2 < 0x100_0000 * d,
            n2 <= n || n2 < 0x100_0000 * d,
        decreases shortfall(n2 as nat, d as nat),
    {
        proof {
            assert(n * (den * 2) == (n * den) * 2) by (nonlinear_arith);
        }
        n2 = n2 * 2;
        den = den * 2;
        proof {
            up = up + 1;
        }
    }
    let mut d2: u128 = d;
    let mut scale: u128 = 1;
    let ghost mut down: nat = 0;
    while n2 >= 0x100_0000 * d2
        invariant
            1 <= n <= n2,
            n < 0x10_0000_0000_0000_0000_0000_0000,
            0 < d < 0x10_0000_0000_0000_0000_0000_0000,
            n2 <= n || n2 < 0x100_0000 * d,
            1 <= d <= d2,
            1 <= scale <= d2,
            scale == two_to(down),
            d2 == d * scale,
            down_bits(n2 as nat, d as nat) == down + down_bits(n2 as nat, d2 as nat),
            down > 0 ==> 0x80_0000 * d2 <= n2,
            down == 0 ==> d2 == d,
            0x80_0000 * d <= n2,
        decreases n2 - d2,
    {
        proof {
            assert(d * (scale * 2) == (d * scale) * 2) by (nonlinear_arith);
        }
        d2 = d2 * 2;
        scale = scale * 2;
        proof {
            down = down + 1;
        }
    }
    let q = n2 / d2;
    let rem = n2 % d2;
    proof {
        assert(up_bits(n2 as nat, d as nat) == 0);
        assert(down_bits(n2 as nat, d2 as nat) == 0);
        vstd::arithmetic::div_mod::lemma_fundamental_div_mod(n2 as int, d2 as int);
        assert(0x80_0000 * d2 <= n2);
        assert(0x80_0000 <= q < 0x100_0000) by (nonlinear_arith)
            requires
                n2 == d2 * q + rem,
                0 <= rem < d2,
                0x80_0000 * d2 <= n2,
                n2 < 0x100_0000 * d2,
        ;
    }
    let sig: u128 = if 2 * rem > d2 || (2 * rem == d2 && q % 2 == 1) {
        q + 1
    } else {
        q
    };
    proof {
        assert(sig * d2 <= 2 * n2) by (nonlinear_arith)
            requires
                n2 == d2 * q + rem,
                0 <= rem < d2,
                0x80_0000 <= q,
                sig <= q + 1,
        ;
        assert(sig * scale <= 0x100_0000 * scale) by (nonlinear_arith)
            requires
                sig <= 0x100_0000,
        ;
        assert((sig * scale) * d <= 2 * n * den) by (nonlinear_arith)
            requires
                sig * d2 <= 2 * n2,
                d2 == d * scale,
                n2 == n * den,
        ;
        if up > 0 {
            assert(down == 0) by {
                assert(n2 < 0x100_0000 * d);
            }
        }
        assert(den <= 0x100_0000 * d);
        assert(sig * scale >= 1) by (nonlinear_arith)
            requires
                sig >= 1,
                scale >= 1,
        ;
    }
    (sig * scale, den)
}

} // verus!
