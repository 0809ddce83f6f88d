//! A node's share of an extent in pixels, computed exactly.
//!
//! A `Percent` holds the bit pattern of a binary64 number: one sign bit,
//! eleven bits of biased exponent and fifty-two bits of fraction. Its value
//! is `significand * 2^exponent`, an exact rational number, and the share of
//! an extent is the floor of their product.

use vstd::prelude::*;
use vstd::arithmetic::div_mod::lemma_fundamental_div_mod;
use vstd::arithmetic::div_mod::lemma_fundamental_div_mod_converse;
use vstd::arithmetic::power2::lemma2_to64;
use vstd::arithmetic::power2::lemma_pow2_pos;
use vstd::arithmetic::power2::lemma_pow2_strictly_increases;
use vstd::arithmetic::power2::lemma_pow2_unfold;
use vstd::arithmetic::power2::pow2;
use crate::node::Percent;

verus! {

/// Two to the power 63: the bit patterns from here on have the sign bit set.
pub const SIGN_BIT: u64 = 0x8000_0000_0000_0000;

/// Two to the power 52: the number of fractions.
pub const FRACTION_RANGE: u64 = 0x10_0000_0000_0000;

impl Percent {
    /// The sign bit is set.
    pub open spec fn negative(self) -> bool {
        self.bits >= SIGN_BIT
    }

    /// The eleven exponent bits.
    pub open spec fn biased_exponent(self) -> int {
        ((self.bits / FRACTION_RANGE) % 2048) as int
    }

    /// The fifty-two fraction bits.
    pub open spec fn fraction(self) -> int {
        (self.bits % FRACTION_RANGE) as int
    }

    /// Not a number.
    pub open spec fn is_nan(self) -> bool {
        self.biased_exponent() == 2047 && self.fraction() != 0
    }

    /// Plus or minus infinity.
    pub open spec fn is_infinite(self) -> bool {
        self.biased_exponent() == 2047 && self.fraction() == 0
    }

    /// The integer that, scaled by two to the `exponent`, is the magnitude.
    pub open spec fn significand(self) -> int {
        if self.biased_exponent() == 0 {
            self.fraction()
        } else {
            FRACTION_RANGE + self.fraction()
        }
    }

    /// The power of two by which the significand is scaled.
    pub open spec fn exponent(self) -> int {
        if self.biased_exponent() == 0 {
            -1074
        } else {
            self.biased_exponent() - 1075
        }
    }

    /// The significand with the sign of the number.
    pub open spec fn signed_significand(self) -> int {
        if self.negative() {
            -self.significand()
        } else {
            self.significand()
        }
    }
}

/// The floor of `n * 2^e`. For a negative `e` this is a division, which in
/// specifications rounds down for a positive divisor.
pub open spec fn scaled_floor(n: int, e: int) -> int {
    if e >= 0 {
        n * pow2(e as nat)
    } else {
        n / (pow2((-e) as nat) as int)
    }
}

/// The nearest 32-bit integer.
pub open spec fn clamp(x: int) -> int {
    if x > i32::MAX {
        i32::MAX as int
    } else if x < i32::MIN {
        i32::MIN as int
    } else {
        x
    }
}

/// The share `floor(percent * extent)`, as the nearest 32-bit integer.
///
/// Where the percentage is not a number the share is zero; an infinite
/// percentage of nothing is zero too, and of anything else it is the largest
/// or the smallest 32-bit integer.
pub open spec fn share(p: Percent, extent: int) -> int {
    if p.is_nan() {
        0
    } else if p.is_infinite() {
        if extent == 0 {
            0
        } else if p.negative() == (extent < 0) {
            i32::MAX as int
        } else {
            i32::MIN as int
        }
    } else {
        clamp(scaled_floor(p.signed_significand() * extent, p.exponent()))
    }
}

proof fn lemma_floor_of_negative(a: int, d: int)
    requires
        a >= 0,
        d > 0,
    ensures
        (-a) / d == if a % d == 0 {
            -(a / d)
        } else {
            -(a / d) - 1
        },
{
    lemma_fundamental_div_mod(a, d);
    let q = a / d;
    let r = a % d;
    if r == 0 {
        assert(-a == (-q) * d + 0) by (nonlinear_arith)
            requires
                a == d * q + r,
                r == 0,
        ;
        lemma_fundamental_div_mod_converse(-a, d, -q, 0);
    } else {
        assert(-a == (-q - 1) * d + (d - r)) by (nonlinear_arith)
            requires
                a == d * q + r,
        ;
        lemma_fundamental_div_mod_converse(-a, d, -q - 1, d - r);
    }
}

proof fn lemma_small_over_large(a: int, d: int)
    requires
        0 <= a < d,
    ensures
        a / d == 0,
        a % d == a,
{
    assert(a == 0 * d + a) by (nonlinear_arith);
    lemma_fundamental_div_mod_converse(a, d, 0, a);
}

/// The share of `extent` that the percentage stands for, in pixels.
pub fn share_of(p: Percent, extent: i32) -> (r: i32)
    ensures
        r == share(p, extent as int),
{
    let negative = p.bits >= SIGN_BIT;
    let biased: u64 = (p.bits / FRACTION_RANGE) % 2048;
    let fraction: u64 = p.bits % FRACTION_RANGE;
    if biased == 2047 {
        if fraction != 0 || extent == 0 {
            return 0;
        }
        return if negative == (extent < 0) {
            i32::MAX
        } else {
            i32::MIN
        };
    }
    let significand: u64 = if biased == 0 {
        fraction
    } else {
        FRACTION_RANGE + fraction
    };
    let width: u64 = if extent < 0 {
        (-(extent as i64)) as u64
    } else {
        extent as u64
    };
    assert(significand * width <= 0x20_0000_0000_0000 * 0x8000_0000) by (nonlinear_arith)
        requires
            significand < 0x20_0000_0000_0000,
            width <= 0x8000_0000,
    ;
    let product: u128 = (significand as u128) * (width as u128);
    let down = negative != (extent < 0);
    let ghost n = p.signed_significand() * (extent as int);
    assert(n == if down {
        -(product as int)
    } else {
        product as int
    }) by (nonlinear_arith)
        requires
            n == p.signed_significand() * (extent as int),
            p.signed_significand() == if negative {
                -(significand as int)
            } else {
                significand as int
            },
            extent as int == if extent < 0 {
                -(width as int)
            } else {
                width as int
            },
            product == significand * width,
            down == (negative != (extent < 0)),
    ;
    if product == 0 {
        assert(scaled_floor(0, p.exponent()) == 0) by {
            lemma_pow2_pos((-p.exponent()) as nat);
            lemma_small_over_large(0, pow2((-p.exponent()) as nat) as int);
            assert(0 * pow2(p.exponent() as nat) == 0);
        }
        return 0;
    }
    if biased >= 1075 {
        proof {
            let e = (biased - 1075) as nat;
            lemma_pow2_pos(e);
            assert(width >= 1) by (nonlinear_arith)
                requires
                    product == significand * width,
                    product > 0,
            ;
            assert(product * pow2(e) >= FRACTION_RANGE) by (nonlinear_arith)
                requires
                    product == significand * width,
                    significand >= FRACTION_RANGE,
                    width >= 1,
                    pow2(e) >= 1,
            ;
            assert((-(product as int)) * pow2(e) == -(product * pow2(e))) by (nonlinear_arith);
        }
        return if down {
            i32::MIN
        } else {
            i32::MAX
        };
    }
    let k: u64 = if biased == 0 {
        1074
    } else {
        1075 - biased
    };
    let mut d: u128 = 1;
    let mut i: u64 = 0;
    proof {
        lemma2_to64();
    }
    while i < k && d <= product
        invariant
            i <= k,
            d == pow2(i as nat),
            1 <= d <= 2 * product,
            product <= 0x20_0000_0000_0000 * 0x8000_0000,
            product > 0,
        decreases k - i,
    {
        proof {
            lemma_pow2_unfold((i + 1) as nat);
        }
        d = d * 2;
        i += 1;
    }
    let q: u128 = product / d;
    let rest: u128 = product % d;
    let ghost big = pow2(k as nat) as int;
    proof {
        lemma_pow2_pos(k as nat);
        if i < k {
            lemma_pow2_strictly_increases(i as nat, k as nat);
            lemma_small_over_large(product as int, d as int);
            lemma_small_over_large(product as int, big);
        }
        assert(q == (product as int) / big);
        assert((rest == 0) == ((product as int) % big == 0));
        lemma_floor_of_negative(product as int, big);
        assert(p.exponent() == -(k as int));
    }
    if !down {
        if q > 0x7fff_ffff {
            i32::MAX
        } else {
            q as i32
        }
    } else {
        let up: u128 = if rest == 0 {
            q
        } else {
            q + 1
        };
        if up >= 0x8000_0000 {
            i32::MIN
        } else {
            (-(up as i64)) as i32
        }
    }
}

/// The share is within one pixel of the exact product: for a finite
/// percentage whose share fits in 32 bits, `share <= percent * extent <
/// share + 1`, both sides scaled by `2^k` with `k = -exponent`.
pub proof fn lemma_share_within_one_pixel(p: Percent, extent: int)
    requires
        !p.is_nan(),
        !p.is_infinite(),
        p.exponent() < 0,
    ensures
        ({
            let floor = scaled_floor(p.signed_significand() * extent, p.exponent());
            let unit = pow2((-p.exponent()) as nat) as int;
            floor * unit <= p.signed_significand() * extent < (floor + 1) * unit
        }),
        i32::MIN <= scaled_floor(p.signed_significand() * extent, p.exponent()) <= i32::MAX
            ==> share(p, extent) == scaled_floor(p.signed_significand() * extent, p.exponent()),
{
    let n = p.signed_significand() * extent;
    let unit = pow2((-p.exponent()) as nat) as int;
    lemma_pow2_pos((-p.exponent()) as nat);
    lemma_fundamental_div_mod(n, unit);
    assert(0 <= n % unit < unit) by {
        vstd::arithmetic::div_mod::lemma_mod_bound(n, unit);
    }
    let floor = n / unit;
    assert(floor * unit <= n < (floor + 1) * unit) by (nonlinear_arith)
        requires
            n == unit * floor + (n % unit),
            0 <= n % unit < unit,
    ;
}

} // verus!
