use vstd::prelude::*;
use vstd::string::StringExecFns;
use crate::scalar::{Decimal, Scalar};
use crate::simulation::gain_output;
use crate::text::{append_digits, digits};

verus! {

/// Whole numbers in 64 bits: an exact number type for systems whose
/// coefficients and signals are integers.
///
/// Sums, differences and products wrap around. A quotient is cut off towards
/// zero; where there is none (the divisor is zero, or the result does not fit)
/// it is zero.
#[derive(Clone, Copy, Debug, PartialEq, Eq)]
pub struct Whole(pub i64);

/// `m` with `k` zeros appended.
pub open spec fn grow(m: nat, k: nat) -> nat
    decreases k,
{
    if k == 0 {
        m
    } else {
        grow(m * 10, (k - 1) as nat)
    }
}

/// `m` without its last `k` digits.
pub open spec fn shrink(m: nat, k: nat) -> nat
    decreases k,
{
    if k == 0 {
        m
    } else {
        shrink(m / 10, (k - 1) as nat)
    }
}

/// The whole number nearest to a decimal towards zero, as far as 64 bits reach.
pub open spec fn nearest_whole(d: Decimal) -> i64 {
    let exact = if d.exponent >= 0 {
        grow(d.mantissa as nat, d.exponent as nat)
    } else {
        shrink(d.mantissa as nat, (-d.exponent) as nat)
    };
    let size = if exact > i64::MAX {
        i64::MAX as int
    } else {
        exact as int
    };
    if d.negative {
        (-size) as i64
    } else {
        size as i64
    }
}

/// The size of a whole number, which for the least one does not fit in `i64`.
pub open spec fn size_of(v: i64) -> nat {
    if v < 0 {
        (-v) as nat
    } else {
        v as nat
    }
}

/// A whole number in decimal notation.
pub open spec fn whole_text(v: i64) -> Seq<char> {
    if v < 0 {
        seq!['-'] + digits(size_of(v))
    } else {
        digits(size_of(v))
    }
}

proof fn lemma_grow_increases(m: nat, k: nat)
    ensures
        grow(m, k) >= m,
    decreases k,
{
    if k > 0 {
        lemma_grow_increases(m * 10, (k - 1) as nat);
    }
}

proof fn lemma_shrink_zero(k: nat)
    ensures
        shrink(0, k) == 0,
    decreases k,
{
    if k > 0 {
        lemma_shrink_zero((k - 1) as nat);
    }
}

fn write_whole(v: i64) -> (r: String)
    ensures
        r@ == whole_text(v),
{
    let mut out = String::new();
    let size: u64 = if v < 0 {
        proof {
            reveal_strlit("-");
        }
        out.append("-");
        ((-(v + 1)) as u64) + 1
    } else {
        v as u64
    };
    append_digits(&mut out, size);
    assert(out@ =~= whole_text(v));
    out
}

impl Scalar for Whole {
    open spec fn spec_zero() -> Self {
        Whole(0)
    }

    fn zero() -> (r: Self) {
        Whole(0)
    }

    open spec fn spec_one() -> Self {
        Whole(1)
    }

    fn one() -> (r: Self) {
        Whole(1)
    }

    open spec fn spec_from_decimal(d: Decimal) -> Self {
        Whole(nearest_whole(d))
    }

    fn from_decimal(d: Decimal) -> (r: Self) {
        let mut cur: u64 = d.mantissa;
        if d.exponent >= 0 {
            let mut k: i32 = d.exponent;
            while k > 0 && cur != 0 && cur <= 922337203685477580
                invariant
                    0 <= k <= d.exponent,
                    grow(d.mantissa as nat, d.exponent as nat) == grow(cur as nat, k as nat),
                decreases k,
            {
                cur = cur * 10;
                k = k - 1;
            }
            proof {
                lemma_grow_increases((cur * 10) as nat, (k - 1) as nat);
                if cur == 0 && k > 0 {
                    lemma_grow_zero(k as nat);
                }
            }
            if k > 0 && cur != 0 {
                cur = 0x7fff_ffff_ffff_ffff;
            }
        } else {
            let mut k: i64 = -(d.exponent as i64);
            while k > 0 && cur != 0
                invariant
                    0 <= k <= -d.exponent,
                    shrink(d.mantissa as nat, (-d.exponent) as nat) == shrink(cur as nat, k as nat),
                decreases k,
            {
                cur = cur / 10;
                k = k - 1;
            }
            proof {
                lemma_shrink_zero(k as nat);
            }
        }
        let size: i64 = if cur > 0x7fff_ffff_ffff_ffff {
            0x7fff_ffff_ffff_ffff
        } else {
            cur as i64
        };
        if d.negative {
            Whole(-size)
        } else {
            Whole(size)
        }
    }

    open spec fn spec_plus(self, rhs: Self) -> Self {
        Whole(self.0.wrapping_add(rhs.0))
    }

    fn plus(self, rhs: Self) -> (r: Self) {
        Whole(self.0.wrapping_add(rhs.0))
    }

    open spec fn spec_minus(self, rhs: Self) -> Self {
        Whole(self.0.wrapping_sub(rhs.0))
    }

    fn minus(self, rhs: Self) -> (r: Self) {
        Whole(self.0.wrapping_sub(rhs.0))
    }

    open spec fn spec_times(self, rhs: Self) -> Self {
        Whole(self.0.wrapping_mul(rhs.0))
    }

    fn times(self, rhs: Self) -> (r: Self) {
        Whole(self.0.wrapping_mul(rhs.0))
    }

    open spec fn spec_over(self, rhs: Self) -> Self {
        match self.0.checked_div(rhs.0) {
            Some(q) => Whole(q),
            None => Whole(0),
        }
    }

    fn over(self, rhs: Self) -> (r: Self) {
        match self.0.checked_div(rhs.0) {
            Some(q) => Whole(q),
            None => Whole(0),
        }
    }

    open spec fn spec_negated(self) -> Self {
        Whole(0i64.wrapping_sub(self.0))
    }

    fn negated(self) -> (r: Self) {
        Whole(0i64.wrapping_sub(self.0))
    }

    open spec fn spec_magnitude(self) -> Self {
        if self.0 < 0 {
            Whole(0i64.wrapping_sub(self.0))
        } else {
            self
        }
    }

    fn magnitude(self) -> (r: Self) {
        if self.0 < 0 {
            Whole(0i64.wrapping_sub(self.0))
        } else {
            self
        }
    }

    open spec fn spec_is_zero(self) -> bool {
        self.0 == 0
    }

    fn is_zero(self) -> (r: bool) {
        self.0 == 0
    }

    open spec fn spec_is_one(self) -> bool {
        self.0 == 1
    }

    fn is_one(self) -> (r: bool) {
        self.0 == 1
    }

    open spec fn spec_is_negative(self) -> bool {
        self.0 < 0
    }

    fn is_negative(self) -> (r: bool) {
        self.0 < 0
    }

    open spec fn spec_to_fixed(self) -> String {
        choose|t: String| #[trigger] t@ == whole_text(self.0) + ".000"@
    }

    fn to_fixed(self) -> (r: String) {
        let mut out = write_whole(self.0);
        out.append(".000");
        out
    }

    open spec fn spec_to_text(self) -> String {
        choose|t: String| #[trigger] t@ == whole_text(self.0)
    }

    fn to_text(self) -> (r: String) {
        write_whole(self.0)
    }
}

proof fn lemma_grow_zero(k: nat)
    ensures
        grow(0, k) == 0,
    decreases k,
{
    if k > 0 {
        lemma_grow_zero((k - 1) as nat);
    }
}

/// In whole numbers a block with the gain `k / 1` puts out `k`.
pub proof fn lemma_whole_gain(k: i64)
    ensures
        gain_output(Whole(k)) == Whole(k),
{
}

} // verus!
