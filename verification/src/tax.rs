//! Progressive income-tax calculator for the 2019 single-filer schedule.
//!
//! Seven brackets with thresholds at 0, 9,700, 39,475, 84,200, 160,725,
//! 204,100 and 510,300 dollars and marginal rates of 10%, 12%, 22%, 24%,
//! 32%, 35% and 37%.  The tax is `base + rate * (income - threshold)` for
//! the bracket the income falls in, floored to whole dollars.  The base
//! amounts are the schedule's published values (some end in 50 cents), so
//! the computation is carried out exactly in cents and divided by 100 at
//! the end.

use vstd::prelude::*;

verus! {

/// Tax owed, in cents, before the final floor to whole dollars.  Each base
/// amount equals the previous bracket's value at the threshold, making the
/// schedule continuous and non-decreasing.
pub open spec fn spec_tax_cents(income: int) -> int {
    if income > 510_300 { 37 * (income - 510_300) + 15_379_850 }
    else if income > 204_100 { 35 * (income - 204_100) + 4_662_850 }
    else if income > 160_725 { 32 * (income - 160_725) + 3_274_850 }
    else if income > 84_200 { 24 * (income - 84_200) + 1_438_250 }
    else if income > 39_475 { 22 * (income - 39_475) + 454_300 }
    else if income > 9_700 { 12 * (income - 9_700) + 97_000 }
    else if income > 0 { 10 * income }
    else { 0 }
}

/// Tax owed in whole dollars: the bracket formula floored to an integer.
pub open spec fn spec_tax(income: int) -> int {
    spec_tax_cents(income) / 100
}

/// The schedule is non-decreasing in income, owes nothing on no income,
/// and never exceeds the income itself.
pub proof fn lemma_tax_cents_monotone(a: int, b: int)
    requires
        a <= b,
    ensures
        spec_tax_cents(a) <= spec_tax_cents(b),
{
}

proof fn lemma_tax_cents_nonneg(income: int)
    ensures
        spec_tax_cents(income) >= 0,
{
}

proof fn lemma_tax_cents_le_100x(income: int)
    requires
        income >= 0,
    ensures
        spec_tax_cents(income) <= 100 * income,
{
}

/// No tax is owed on zero or negative taxable income.
pub proof fn lemma_tax_zero()
    ensures
        spec_tax(0) == 0,
{
}

/// Tax is non-decreasing in taxable income.
pub proof fn lemma_tax_monotone(a: int, b: int)
    requires
        a <= b,
    ensures
        spec_tax(a) <= spec_tax(b),
{
    lemma_tax_cents_monotone(a, b);
    vstd::arithmetic::div_mod::lemma_div_is_ordered(spec_tax_cents(a), spec_tax_cents(b), 100);
}

/// Tax is never negative.
pub proof fn lemma_tax_nonneg(income: int)
    ensures
        spec_tax(income) >= 0,
{
    lemma_tax_cents_nonneg(income);
    vstd::arithmetic::div_mod::lemma_div_is_ordered(0, spec_tax_cents(income), 100);
}

/// Tax never exceeds the income it is levied on.
pub proof fn lemma_tax_le_income(income: int)
    requires
        income >= 0,
    ensures
        spec_tax(income) <= income,
{
    lemma_tax_cents_le_100x(income);
    vstd::arithmetic::div_mod::lemma_div_is_ordered(spec_tax_cents(income), 100 * income, 100);
    assert(100 * income / 100 == income) by {
        vstd::arithmetic::div_mod::lemma_div_by_multiple(income, 100);
        vstd::arithmetic::mul::lemma_mul_is_commutative(100, income);
    }
}

/// At every bracket threshold the schedule reproduces the published base
/// amount exactly, floored to whole dollars.
pub proof fn lemma_tax_bracket_boundaries()
    ensures
        spec_tax(0) == 0,
        spec_tax(9_700) == 970,
        spec_tax(39_475) == 4_543,
        spec_tax(84_200) == 14_382,
        spec_tax(160_725) == 32_748,
        spec_tax(204_100) == 46_628,
        spec_tax(510_300) == 153_798,
{
}

/// Tax owed in whole dollars on the year's taxable income.
pub fn get_tax(taxable_income: u32) -> (r: u32)
    ensures
        r == spec_tax(taxable_income as int),
{
    let x: u64 = taxable_income as u64;
    let cents: u64 = if x > 510_300 { 37 * (x - 510_300) + 15_379_850 }
    else if x > 204_100 { 35 * (x - 204_100) + 4_662_850 }
    else if x > 160_725 { 32 * (x - 160_725) + 3_274_850 }
    else if x > 84_200 { 24 * (x - 84_200) + 1_438_250 }
    else if x > 39_475 { 22 * (x - 39_475) + 454_300 }
    else if x > 9_700 { 12 * (x - 9_700) + 97_000 }
    else { 10 * x };
    assert(cents == spec_tax_cents(taxable_income as int));
    proof {
        lemma_tax_cents_le_100x(taxable_income as int);
        vstd::arithmetic::div_mod::lemma_div_is_ordered(
            cents as int,
            100 * (u32::MAX as int),
            100,
        );
        vstd::arithmetic::div_mod::lemma_div_by_multiple(u32::MAX as int, 100);
        vstd::arithmetic::mul::lemma_mul_is_commutative(100, u32::MAX as int);
    }
    (cents / 100) as u32
}

} // verus!
