//! Fixed-point amounts: a signed count of units of 10^-18.

use vstd::prelude::*;

verus! {

/// The number of decimal places that an amount carries.
pub const SCALE: u8 = 18;

/// The raw value of the amount one.
pub const ONE: i128 = 1_000_000_000_000_000_000i128;

/// Ten to the power `n`.
pub open spec fn pow10(n: nat) -> int
    decreases n,
{
    if n == 0 {
        1
    } else {
        10 * pow10((n - 1) as nat)
    }
}

/// Powers of ten are positive and grow with the exponent.
pub proof fn lemma_pow10_monotonic(a: nat, b: nat)
    requires
        a <= b,
    ensures
        0 < pow10(a) <= pow10(b),
    decreases b,
{
    if b == 0 {
    } else if a == b {
        lemma_pow10_monotonic((a - 1) as nat, (b - 1) as nat);
    } else {
        lemma_pow10_monotonic(a, (b - 1) as nat);
    }
}

/// The value of ten to the power eighteen.
pub proof fn lemma_pow10_scale()
    ensures
        pow10(18) == ONE,
{
    reveal_with_fuel(pow10, 19);
}

/// Ten to the power `n`, for the exponents that an amount can need.
pub fn power_of_ten(n: u8) -> (p: i128)
    requires
        n <= SCALE,
    ensures
        p == pow10(n as nat),
        0 < p <= ONE,
{
    let mut p: i128 = 1;
    let mut i: u8 = 0;
    proof {
        lemma_pow10_scale();
    }
    while i < n
        invariant
            i <= n <= SCALE,
            p == pow10(i as nat),
            pow10(18) == ONE,
        decreases n - i,
    {
        proof {
            lemma_pow10_monotonic((i + 1) as nat, 18);
        }
        p = p * 10;
        i = i + 1;
    }
    proof {
        lemma_pow10_monotonic(n as nat, 18);
    }
    p
}

/// A fixed-point decimal with eighteen places, held as its count of units.
#[derive(Debug, Clone, Copy, PartialEq, Eq, Structural, Hash)]
pub struct Decimal(pub i128);

impl View for Decimal {
    type V = int;

    open spec fn view(&self) -> int {
        self.0 as int
    }
}

impl Decimal {
    /// Whether the amount is not negative and a whole multiple of the
    /// smallest step that a resource of the given divisibility allows, that
    /// is of 10^(18 - divisibility) units.
    pub open spec fn fits(self, divisibility: u8) -> bool
        recommends
            divisibility <= SCALE,
    {
        0 <= self@ && self@ % pow10((SCALE - divisibility) as nat) == 0
    }

    /// The amount zero.
    pub fn zero() -> (d: Decimal)
        ensures
            d@ == 0,
    {
        Decimal(0)
    }

    /// The whole amount `n`.
    pub fn from_integer(n: u64) -> (d: Decimal)
        ensures
            d@ == n * ONE,
    {
        let wide: i128 = n as i128;
        assert(0 <= wide * ONE <= 0xffff_ffff_ffff_ffff * ONE) by (nonlinear_arith)
            requires
                0 <= wide <= 0xffff_ffff_ffff_ffff,
        ;
        Decimal(wide * ONE)
    }

    /// Whether the amount is zero.
    pub fn is_zero(&self) -> (r: bool)
        ensures
            r == (self@ == 0),
    {
        self.0 == 0
    }

    /// Whether the amount is below zero.
    pub fn is_negative(&self) -> (r: bool)
        ensures
            r == (self@ < 0),
    {
        self.0 < 0
    }

    /// The sum of two amounts, or `None` where it cannot be held.
    pub fn checked_add(self, other: Decimal) -> (r: Option<Decimal>)
        ensures
            match r {
                Some(d) => d@ == self@ + other@,
                None => self@ + other@ > i128::MAX || self@ + other@ < i128::MIN,
            },
    {
        match self.0.checked_add(other.0) {
            Some(v) => Some(Decimal(v)),
            None => None,
        }
    }

    /// The difference of two amounts, or `None` where it cannot be held.
    pub fn checked_sub(self, other: Decimal) -> (r: Option<Decimal>)
        ensures
            match r {
                Some(d) => d@ == self@ - other@,
                None => self@ - other@ > i128::MAX || self@ - other@ < i128::MIN,
            },
    {
        match self.0.checked_sub(other.0) {
            Some(v) => Some(Decimal(v)),
            None => None,
        }
    }

    /// Whether the amount can be held by a resource of the given
    /// divisibility without rounding.
    pub fn is_multiple_of_step(&self, divisibility: u8) -> (r: bool)
        requires
            divisibility <= SCALE,
        ensures
            r == self.fits(divisibility),
    {
        let step = power_of_ten(SCALE - divisibility);
        self.0 >= 0 && self.0 % step == 0
    }
}

} // verus!
