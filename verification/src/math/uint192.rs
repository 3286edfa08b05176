//! Unsigned 192-bit integers held in three 64-bit limbs.

use vstd::prelude::*;

verus! {

/// The radix of a limb, 2^64.
pub const RADIX: u128 = 0x1_0000_0000_0000_0000;

/// 2^192, one more than the largest value a `U192` holds.
pub open spec fn modulus() -> nat {
    0x1_0000_0000_0000_0000_0000_0000_0000_0000_0000_0000_0000_0000nat
}

/// The number that three limbs stand for.
pub open spec fn limbs_value(lo: u64, mid: u64, hi: u64) -> nat {
    (lo as nat) + (mid as nat) * 0x1_0000_0000_0000_0000 + (hi as nat)
        * 0x1_0000_0000_0000_0000_0000_0000_0000_0000nat
}

/// An unsigned integer below 2^192. The fields are declared from the most
/// significant limb down, so that the derived order is the numeric order.
#[derive(Clone, Copy, Debug, PartialEq, Eq, Structural, PartialOrd, Ord, Hash)]
pub struct U192 {
    pub hi: u64,
    pub mid: u64,
    pub lo: u64,
}

impl View for U192 {
    type V = nat;

    open spec fn view(&self) -> nat {
        limbs_value(self.lo, self.mid, self.hi)
    }
}

/// The product of two limbs fits in 128 bits.
pub proof fn lemma_mul_u64_fits(x: u64, y: u64)
    ensures
        x * y <= 0xffff_ffff_ffff_fffe_0000_0000_0000_0001,
{
    assert(x * y <= 0xffff_ffff_ffff_ffff * 0xffff_ffff_ffff_ffff) by (nonlinear_arith)
        requires
            0 <= x <= 0xffff_ffff_ffff_ffff,
            0 <= y <= 0xffff_ffff_ffff_ffff,
    ;
}

impl U192 {
    /// The value with the given number, for numbers below 2^192.
    pub open spec fn from_nat(n: nat) -> U192 {
        U192 {
            lo: (n % 0x1_0000_0000_0000_0000) as u64,
            mid: ((n / 0x1_0000_0000_0000_0000) % 0x1_0000_0000_0000_0000) as u64,
            hi: (((n / 0x1_0000_0000_0000_0000) / 0x1_0000_0000_0000_0000)
                % 0x1_0000_0000_0000_0000) as u64,
        }
    }

    /// Every value is below 2^192 and is the only one with its number.
    pub proof fn lemma_view_bound(self)
        ensures
            self@ < modulus(),
            U192::from_nat(self@) == self,
    {
    }

    /// `from_nat` is the inverse of the view on numbers below 2^192.
    pub proof fn lemma_from_nat(n: nat)
        requires
            n < modulus(),
        ensures
            U192::from_nat(n)@ == n,
    {
    }

    /// Two values with the same number are the same value.
    pub proof fn lemma_view_injective(a: U192, b: U192)
        requires
            a@ == b@,
        ensures
            a == b,
    {
        a.lemma_view_bound();
        b.lemma_view_bound();
    }

    /// The value zero.
    pub fn zero() -> (r: U192)
        ensures
            r@ == 0,
    {
        U192 { hi: 0, mid: 0, lo: 0 }
    }

    /// The value of a 64-bit number.
    pub fn from_u64(x: u64) -> (r: U192)
        ensures
            r@ == x,
    {
        U192 { hi: 0, mid: 0, lo: x }
    }

    /// The value of a 128-bit number.
    pub fn from_u128(x: u128) -> (r: U192)
        ensures
            r@ == x,
    {
        U192 { hi: 0, mid: (x / RADIX) as u64, lo: (x % RADIX) as u64 }
    }

    /// The value as a `u64`, where it fits.
    pub fn to_u64(self) -> (r: Option<u64>)
        ensures
            r == (if self@ <= u64::MAX { Some(self@ as u64) } else { None::<u64> }),
    {
        if self.hi == 0 && self.mid == 0 {
            Some(self.lo)
        } else {
            None
        }
    }

    /// The value as a `u128`, where it fits.
    pub fn to_u128(self) -> (r: Option<u128>)
        ensures
            r == (if self@ <= u128::MAX { Some(self@ as u128) } else { None::<u128> }),
    {
        if self.hi == 0 {
            Some((self.mid as u128) * RADIX + (self.lo as u128))
        } else {
            None
        }
    }

    /// Whether the value is zero.
    pub fn is_zero(self) -> (r: bool)
        ensures
            r == (self@ == 0),
    {
        self.hi == 0 && self.mid == 0 && self.lo == 0
    }

    /// Whether `self` is below `other`.
    pub fn lt(self, other: U192) -> (r: bool)
        ensures
            r == (self@ < other@),
    {
        if self.hi != other.hi {
            self.hi < other.hi
        } else if self.mid != other.mid {
            self.mid < other.mid
        } else {
            self.lo < other.lo
        }
    }

    /// The sum modulo 2^192 and the carry out of the top limb.
    pub fn add_carry(self, other: U192, carry_in: bool) -> (r: (U192, bool))
        ensures
            r.0@ + (if r.1 { modulus() } else { 0 }) == self@ + other@ + (if carry_in { 1nat } else { 0 }),
    {
        let c: u128 = if carry_in { 1 } else { 0 };
        let s0: u128 = (self.lo as u128) + (other.lo as u128) + c;
        let s1: u128 = (self.mid as u128) + (other.mid as u128) + s0 / RADIX;
        let s2: u128 = (self.hi as u128) + (other.hi as u128) + s1 / RADIX;
        (
            U192 { hi: (s2 % RADIX) as u64, mid: (s1 % RADIX) as u64, lo: (s0 % RADIX) as u64 },
            s2 / RADIX != 0,
        )
    }

    /// The difference modulo 2^192 and the borrow out of the top limb.
    pub fn sub_borrow(self, other: U192) -> (r: (U192, bool))
        ensures
            r.0@ == self@ - other@ + (if r.1 { modulus() as int } else { 0 }),
            r.1 == (self@ < other@),
    {
        let n0: u128 = other.lo as u128;
        let (lo, b0): (u128, u128) = if (self.lo as u128) >= n0 {
            ((self.lo as u128) - n0, 0)
        } else {
            (RADIX + (self.lo as u128) - n0, 1)
        };
        let n1: u128 = (other.mid as u128) + b0;
        let (mid, b1): (u128, u128) = if (self.mid as u128) >= n1 {
            ((self.mid as u128) - n1, 0)
        } else {
            (RADIX + (self.mid as u128) - n1, 1)
        };
        let n2: u128 = (other.hi as u128) + b1;
        let (hi, b2): (u128, u128) = if (self.hi as u128) >= n2 {
            ((self.hi as u128) - n2, 0)
        } else {
            (RADIX + (self.hi as u128) - n2, 1)
        };
        (U192 { hi: hi as u64, mid: mid as u64, lo: lo as u64 }, b2 != 0)
    }

    /// The sum, where it is below 2^192.
    pub open spec fn spec_checked_add(self, other: U192) -> Option<U192> {
        if self@ + other@ < modulus() {
            Some(U192::from_nat(self@ + other@))
        } else {
            None
        }
    }

    /// Adds, or gives `None` on overflow.
    pub fn checked_add(self, other: U192) -> (r: Option<U192>)
        ensures
            r == self.spec_checked_add(other),
    {
        let (sum, carry) = self.add_carry(other, false);
        if carry {
            proof {
                sum.lemma_view_bound();
            }
            None
        } else {
            proof {
                sum.lemma_view_bound();
            }
            Some(sum)
        }
    }

    /// The difference, where it is not negative.
    pub open spec fn spec_checked_sub(self, other: U192) -> Option<U192> {
        if self@ >= other@ {
            Some(U192::from_nat((self@ - other@) as nat))
        } else {
            None
        }
    }

    /// Subtracts, or gives `None` where the result would be negative.
    pub fn checked_sub(self, other: U192) -> (r: Option<U192>)
        ensures
            r == self.spec_checked_sub(other),
    {
        let (diff, borrow) = self.sub_borrow(other);
        if borrow {
            None
        } else {
            proof {
                diff.lemma_view_bound();
            }
            Some(diff)
        }
    }

    /// The product, where it is below 2^192.
    pub open spec fn spec_checked_mul(self, other: U192) -> Option<U192> {
        if self@ * other@ < modulus() {
            Some(U192::from_nat(self@ * other@))
        } else {
            None
        }
    }

    /// The product with a single limb, where it is below 2^192.
    pub fn mul_u64(self, m: u64) -> (r: Option<U192>)
        ensures
            r == (if self@ * m < modulus() {
                Some(U192::from_nat(self@ * (m as nat)))
            } else {
                None::<U192>
            }),
    {
        proof {
            lemma_mul_u64_fits(self.lo, m);
            lemma_mul_u64_fits(self.mid, m);
            lemma_mul_u64_fits(self.hi, m);
        }
        let w0: u128 = (self.lo as u128) * (m as u128);
        let w1: u128 = (self.mid as u128) * (m as u128);
        let w2: u128 = (self.hi as u128) * (m as u128);
        let s1: u128 = w1 + w0 / RADIX;
        let s2: u128 = w2 + s1 / RADIX;
        let out = U192 { hi: (s2 % RADIX) as u64, mid: (s1 % RADIX) as u64, lo: (w0 % RADIX) as u64 };
        proof {
            lemma_limbs_times(self, m as nat);
            assert(self@ * m == out@ + (s2 / RADIX) * modulus());
            out.lemma_view_bound();
        }
        if s2 / RADIX != 0 {
            None
        } else {
            Some(out)
        }
    }

    /// The value times 2^64, where that is below 2^192.
    pub fn shl_limb(self) -> (r: Option<U192>)
        ensures
            r == (if self@ * 0x1_0000_0000_0000_0000 < modulus() {
                Some(U192::from_nat(self@ * 0x1_0000_0000_0000_0000))
            } else {
                None::<U192>
            }),
    {
        if self.hi != 0 {
            None
        } else {
            let out = U192 { hi: self.mid, mid: self.lo, lo: 0 };
            proof {
                out.lemma_view_bound();
            }
            Some(out)
        }
    }

    /// Multiplies, or gives `None` on overflow.
    pub fn checked_mul(self, other: U192) -> (r: Option<U192>)
        ensures
            r == self.spec_checked_mul(other),
    {
        proof {
            lemma_product_parts(self@, other);
        }
        let ghost a = self@;
        let ghost radix: nat = 0x1_0000_0000_0000_0000;
        // self * other.lo
        let t0 = match self.mul_u64(other.lo) {
            Some(t) => t,
            None => {
                return None;
            },
        };
        // self * other.mid * 2^64
        let t1 = match self.mul_u64(other.mid) {
            Some(t) => t,
            None => {
                return None;
            },
        };
        let t1 = match t1.shl_limb() {
            Some(t) => t,
            None => {
                return None;
            },
        };
        // self * other.hi * 2^128
        let t2 = match self.mul_u64(other.hi) {
            Some(t) => t,
            None => {
                return None;
            },
        };
        let t2 = match t2.shl_limb() {
            Some(t) => t,
            None => {
                return None;
            },
        };
        let t2 = match t2.shl_limb() {
            Some(t) => t,
            None => {
                return None;
            },
        };
        proof {
            U192::lemma_from_nat(a * (other.lo as nat));
            U192::lemma_from_nat(a * (other.mid as nat));
            U192::lemma_from_nat(a * (other.mid as nat) * radix);
            U192::lemma_from_nat(a * (other.hi as nat));
            U192::lemma_from_nat(a * (other.hi as nat) * radix);
            U192::lemma_from_nat(a * (other.hi as nat) * radix * radix);
        }
        let s = match t0.checked_add(t1) {
            Some(s) => s,
            None => {
                return None;
            },
        };
        proof {
            U192::lemma_from_nat(t0@ + t1@);
        }
        let s = match s.checked_add(t2) {
            Some(s) => s,
            None => {
                return None;
            },
        };
        Some(s)
    }

    /// Quotient and remainder of the division by a single limb.
    pub fn div_rem_u64(self, d: u64) -> (r: (U192, u64))
        requires
            d > 0,
        ensures
            self@ == r.0@ * d + r.1,
            r.1 < d,
            r.0@ == self@ / (d as nat),
            r.1 == self@ % (d as nat),
    {
        let dd: u128 = d as u128;
        let q2: u128 = (self.hi as u128) / dd;
        let r2: u128 = (self.hi as u128) % dd;
        let t1: u128 = r2 * RADIX + (self.mid as u128);
        let q1: u128 = t1 / dd;
        let r1: u128 = t1 % dd;
        let t0: u128 = r1 * RADIX + (self.lo as u128);
        let q0: u128 = t0 / dd;
        let r0: u128 = t0 % dd;
        proof {
            lemma_quotient_fits(t1, r2, self.mid, d);
            lemma_quotient_fits(t0, r1, self.lo, d);
            vstd::arithmetic::div_mod::lemma_fundamental_div_mod(self.hi as int, d as int);
            vstd::arithmetic::div_mod::lemma_fundamental_div_mod(t1 as int, d as int);
            vstd::arithmetic::div_mod::lemma_fundamental_div_mod(t0 as int, d as int);
        }
        let q = U192 { hi: q2 as u64, mid: q1 as u64, lo: q0 as u64 };
        proof {
            lemma_limbs_times(q, d as nat);
            assert(d * q2 == q2 * d && d * q1 == q1 * d && d * q0 == q0 * d) by (nonlinear_arith);
            assert(self.hi == q2 * d + r2);
            assert(t1 == q1 * d + r1);
            assert(t0 == q0 * d + r0);
            assert(self@ == q@ * d + r0);
            vstd::arithmetic::div_mod::lemma_fundamental_div_mod_converse(
                self@ as int,
                d as int,
                q@ as int,
                r0 as int,
            );
        }
        (q, r0 as u64)
    }

    /// Quotient and remainder, one bit of the dividend at a time.
    pub fn div_rem(self, d: U192) -> (r: (U192, U192))
        requires
            d@ > 0,
        ensures
            self@ == r.0@ * d@ + r.1@,
            r.1@ < d@,
            r.0@ == self@ / d@,
            r.1@ == self@ % d@,
    {
        let mut q = U192::zero();
        let mut rem = U192::zero();
        let mut cur = self;
        let mut k: u32 = 0;
        let ghost p: nat = 1;
        while k < 192
            invariant
                k <= 192,
                d@ > 0,
                p >= 1,
                k < 192 ==> 2 * p <= modulus(),
                k == 192 ==> p == modulus(),
                p == doubled(k as nat),
                self@ * p == (q@ * d@ + rem@) * modulus() + cur@,
                rem@ < d@,
            decreases 192 - k,
        {
            proof {
                q.lemma_view_bound();
                rem.lemma_view_bound();
                cur.lemma_view_bound();
                d.lemma_view_bound();
                self.lemma_view_bound();
                lemma_quotient_below(self@, p, q@, d@, rem@, cur@);
            }
            let (cur2, top) = cur.add_carry(cur, false);
            let (rem2, over) = rem.add_carry(rem, top);
            let (diff, borrow) = rem2.sub_borrow(d);
            let ghost q_old = q@;
            let ghost x_old = q@ * d@ + rem@;
            let ghost t: nat = if top { 1 } else { 0 };
            let ghost full: nat = 2 * rem@ + t;
            proof {
                assert(t * modulus() == (if top { modulus() } else { 0 })) by (nonlinear_arith)
                    requires
                        t == (if top { 1nat } else { 0 }),
                ;
                lemma_shift_step(self@, p, x_old, cur@, t, cur2@);
            }
            if over || !borrow {
                let (q2, c) = q.add_carry(q, true);
                proof {
                    lemma_step_taken(q_old, d@);
                    assert(diff@ == full - d@);
                    assert(q2@ == 2 * q_old + 1);
                    assert(q2@ * d@ + diff@ == 2 * x_old + t);
                }
                q = q2;
                rem = diff;
            } else {
                let (q2, c) = q.add_carry(q, false);
                proof {
                    lemma_step_skipped(q_old, d@);
                    assert(q2@ == 2 * q_old);
                    assert(q2@ * d@ + rem2@ == 2 * x_old + t);
                }
                q = q2;
                rem = rem2;
            }
            cur = cur2;
            proof {
                lemma_doubled_step(k as nat);
                p = 2 * p;
            }
            k = k + 1;
        }
        proof {
            cur.lemma_view_bound();
            lemma_exact(self@, q@ * d@ + rem@, cur@);
            vstd::arithmetic::div_mod::lemma_fundamental_div_mod_converse(
                self@ as int,
                d@ as int,
                q@ as int,
                rem@ as int,
            );
        }
        (q, rem)
    }

    /// The quotient rounded down, unless the divisor is zero.
    pub open spec fn spec_checked_div(self, other: U192) -> Option<U192> {
        if other@ == 0 {
            None
        } else {
            Some(U192::from_nat(self@ / other@))
        }
    }

    /// Divides and rounds down, or gives `None` on division by zero.
    pub fn checked_div(self, other: U192) -> (r: Option<U192>)
        ensures
            r == self.spec_checked_div(other),
    {
        if other.is_zero() {
            None
        } else {
            let (q, _) = self.div_rem(other);
            proof {
                q.lemma_view_bound();
            }
            Some(q)
        }
    }
}

/// 2^k, by repeated doubling.
pub open spec fn doubled(k: nat) -> nat
    decreases k,
{
    if k == 0 {
        1
    } else {
        2 * doubled((k - 1) as nat)
    }
}

proof fn lemma_doubled_step(k: nat)
    ensures
        doubled(k + 1) == 2 * doubled(k),
        k + 1 < 192 ==> 4 * doubled(k) <= modulus(),
        k + 1 == 192 ==> 2 * doubled(k) == modulus(),
        k < 192 ==> 2 * doubled(k) <= modulus(),
{
    lemma_doubled_values();
    if k < 192 {
        lemma_doubled_monotone(k, 191);
        if k + 1 < 192 {
            lemma_doubled_monotone(k, 190);
        }
    }
}

proof fn lemma_doubled_monotone(i: nat, j: nat)
    requires
        i <= j,
    ensures
        doubled(i) <= doubled(j),
    decreases j,
{
    if i < j {
        lemma_doubled_monotone(i, (j - 1) as nat);
    }
}

proof fn lemma_doubled_add(i: nat, j: nat)
    ensures
        doubled(i + j) == doubled(i) * doubled(j),
    decreases j,
{
    if j == 0 {
        assert(doubled(i) * 1 == doubled(i)) by (nonlinear_arith);
    } else {
        lemma_doubled_add(i, (j - 1) as nat);
        let x = doubled(i);
        let y = doubled((j - 1) as nat);
        assert(x * (2 * y) == 2 * (x * y)) by (nonlinear_arith);
        assert(doubled(i + j) == 2 * doubled((i + j - 1) as nat));
    }
}

proof fn lemma_doubled_values()
    ensures
        doubled(190) * 4 == modulus(),
        doubled(191) * 2 == modulus(),
        doubled(192) == modulus(),
{
    assert(doubled(8) == 256) by {
        reveal_with_fuel(doubled, 9);
    }
    lemma_doubled_add(8, 8);
    let d8 = doubled(8);
    assert(d8 * d8 == 0x1_0000) by (nonlinear_arith)
        requires
            d8 == 256,
    ;
    lemma_doubled_add(16, 16);
    let d16 = doubled(16);
    assert(d16 * d16 == 0x1_0000_0000) by (nonlinear_arith)
        requires
            d16 == 0x1_0000,
    ;
    lemma_doubled_add(32, 32);
    let d32 = doubled(32);
    assert(d32 * d32 == 0x1_0000_0000_0000_0000) by (nonlinear_arith)
        requires
            d32 == 0x1_0000_0000,
    ;
    lemma_doubled_add(64, 64);
    let d64 = doubled(64);
    assert(d64 * d64 == 0x1_0000_0000_0000_0000_0000_0000_0000_0000nat) by (nonlinear_arith)
        requires
            d64 == 0x1_0000_0000_0000_0000,
    ;
    lemma_doubled_add(128, 64);
    let d128 = doubled(128);
    assert(d128 * d64 == modulus()) by (nonlinear_arith)
        requires
            d64 == 0x1_0000_0000_0000_0000,
            d128 == 0x1_0000_0000_0000_0000_0000_0000_0000_0000nat,
    ;
    assert(doubled(192) == 2 * doubled(191));
    assert(doubled(191) == 2 * doubled(190));
}

/// A value times `m`, limb by limb.
proof fn lemma_limbs_times(a: U192, m: nat)
    ensures
        a@ * m == (a.lo as nat) * m + ((a.mid as nat) * m) * 0x1_0000_0000_0000_0000 + ((a.hi as nat)
            * m) * 0x1_0000_0000_0000_0000_0000_0000_0000_0000nat,
        m * a@ == a@ * m,
{
    let lo = a.lo as nat;
    let mid = a.mid as nat;
    let hi = a.hi as nat;
    let r1: nat = 0x1_0000_0000_0000_0000;
    let r2: nat = 0x1_0000_0000_0000_0000_0000_0000_0000_0000nat;
    assert((lo + mid * r1 + hi * r2) * m == lo * m + (mid * m) * r1 + (hi * m) * r2)
        by (nonlinear_arith);
    assert(m * a@ == a@ * m) by (nonlinear_arith);
}

/// `a` times a value, split by the limbs of that value; no part exceeds the whole.
proof fn lemma_product_parts(a: nat, b: U192)
    ensures
        a * b@ == a * (b.lo as nat) + a * (b.mid as nat) * 0x1_0000_0000_0000_0000 + a * (
        b.hi as nat) * 0x1_0000_0000_0000_0000 * 0x1_0000_0000_0000_0000,
        a * (b.lo as nat) <= a * b@,
        a * (b.mid as nat) <= a * (b.mid as nat) * 0x1_0000_0000_0000_0000 <= a * b@,
        a * (b.hi as nat) <= a * (b.hi as nat) * 0x1_0000_0000_0000_0000 <= a * (b.hi as nat)
            * 0x1_0000_0000_0000_0000 * 0x1_0000_0000_0000_0000 <= a * b@,
{
    let lo = b.lo as nat;
    let mid = b.mid as nat;
    let hi = b.hi as nat;
    let r1: nat = 0x1_0000_0000_0000_0000;
    let r2: nat = 0x1_0000_0000_0000_0000_0000_0000_0000_0000nat;
    assert(a * (lo + mid * r1 + hi * r2) == a * lo + a * mid * r1 + a * hi * r1 * r1)
        by (nonlinear_arith)
        requires
            r1 == 0x1_0000_0000_0000_0000,
            r2 == r1 * r1,
    ;
    assert(0 <= a * lo && 0 <= a * mid && 0 <= a * hi) by (nonlinear_arith);
}

/// The quotient of a two-limb step fits in one limb.
proof fn lemma_quotient_fits(t: u128, r: u128, limb: u64, d: u64)
    requires
        d > 0,
        r < d,
        t == r * 0x1_0000_0000_0000_0000 + limb,
    ensures
        t / (d as u128) < 0x1_0000_0000_0000_0000,
{
    let q = (t as int) / (d as int);
    vstd::arithmetic::div_mod::lemma_fundamental_div_mod(t as int, d as int);
    assert(q < 0x1_0000_0000_0000_0000) by (nonlinear_arith)
        requires
            d > 0,
            0 <= r < d,
            0 <= limb < 0x1_0000_0000_0000_0000,
            t == r * 0x1_0000_0000_0000_0000 + limb,
            t == d * q + (t as int) % (d as int),
            0 <= (t as int) % (d as int),
    ;
}

/// While bits remain, the quotient so far is below the power of two reached.
proof fn lemma_quotient_below(a: nat, p: nat, q: nat, d: nat, rem: nat, cur: nat)
    requires
        a < modulus(),
        d > 0,
        p >= 1,
        a * p == (q * d + rem) * modulus() + cur,
    ensures
        q < p,
{
    let m = modulus();
    let x = q * d + rem;
    assert(a * p < m * p) by (nonlinear_arith)
        requires
            a < m,
            p >= 1,
    ;
    assert(x < p) by (nonlinear_arith)
        requires
            x * m < m * p,
            m > 0,
    ;
    assert(q <= q * d) by (nonlinear_arith)
        requires
            d >= 1,
    ;
}

/// One more bit of the dividend: the power of two doubles, and so does what was consumed.
proof fn lemma_shift_step(a: nat, p: nat, x: nat, cur: nat, t: nat, cur2: nat)
    requires
        a * p == x * modulus() + cur,
        cur2 + t * modulus() == 2 * cur,
    ensures
        a * (2 * p) == (2 * x + t) * modulus() + cur2,
{
    let m = modulus();
    assert(a * (2 * p) == (2 * x + t) * m + cur2) by (nonlinear_arith)
        requires
            a * p == x * m + cur,
            cur2 + t * m == 2 * cur,
    ;
}

proof fn lemma_step_taken(q: nat, d: nat)
    ensures
        (2 * q + 1) * d == 2 * (q * d) + d,
{
    assert((2 * q + 1) * d == 2 * (q * d) + d) by (nonlinear_arith);
}

proof fn lemma_step_skipped(q: nat, d: nat)
    ensures
        (2 * q) * d == 2 * (q * d),
{
    assert((2 * q) * d == 2 * (q * d)) by (nonlinear_arith);
}

/// Once every bit is consumed nothing is left over.
proof fn lemma_exact(a: nat, x: nat, cur: nat)
    requires
        cur < modulus(),
        a * modulus() == x * modulus() + cur,
    ensures
        a == x,
        cur == 0,
{
    let m = modulus();
    assert(a == x) by (nonlinear_arith)
        requires
            m > 0,
            cur < m,
            a * m == x * m + cur,
    ;
}

} // verus!
