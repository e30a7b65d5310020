//! Required-minimum-distribution (RMD) calculator.
//!
//! The IRS uniform lifetime table gives, for each age from 70 to 115, a
//! distribution period: the divisor applied to the prior-year account
//! balance to obtain the year's mandatory withdrawal.  The published
//! divisors have one decimal digit, so they are held here in tenths
//! (27.4 years is stored as 274) and the RMD is the exact floor of
//! `balance * 10 / divisor_tenths`.

use vstd::prelude::*;

verus! {

/// Distribution period, in tenths of a year, for the age `70 + index`.
/// Index 45 (age 115) is the last table entry.
pub open spec fn spec_table_tenths(index: int) -> int {
    if index == 0 { 274 }
    else if index == 1 { 265 }
    else if index == 2 { 256 }
    else if index == 3 { 247 }
    else if index == 4 { 238 }
    else if index == 5 { 229 }
    else if index == 6 { 220 }
    else if index == 7 { 212 }
    else if index == 8 { 203 }
    else if index == 9 { 195 }
    else if index == 10 { 187 }
    else if index == 11 { 179 }
    else if index == 12 { 171 }
    else if index == 13 { 163 }
    else if index == 14 { 155 }
    else if index == 15 { 148 }
    else if index == 16 { 141 }
    else if index == 17 { 134 }
    else if index == 18 { 127 }
    else if index == 19 { 120 }
    else if index == 20 { 114 }
    else if index == 21 { 108 }
    else if index == 22 { 102 }
    else if index == 23 { 96 }
    else if index == 24 { 91 }
    else if index == 25 { 86 }
    else if index == 26 { 81 }
    else if index == 27 { 76 }
    else if index == 28 { 71 }
    else if index == 29 { 67 }
    else if index == 30 { 63 }
    else if index == 31 { 59 }
    else if index == 32 { 55 }
    else if index == 33 { 52 }
    else if index == 34 { 49 }
    else if index == 35 { 45 }
    else if index == 36 { 42 }
    else if index == 37 { 39 }
    else if index == 38 { 37 }
    else if index == 39 { 34 }
    else if index == 40 { 31 }
    else if index == 41 { 29 }
    else if index == 42 { 26 }
    else if index == 43 { 24 }
    else if index == 44 { 21 }
    else { 19 }
}

/// Age reached during `current_year`, floored at zero when the birth year
/// lies in the future.
pub open spec fn spec_age(birth_year: int, current_year: int) -> int {
    if current_year >= birth_year { current_year - birth_year } else { 0 }
}

/// Distribution period in tenths, or `None` when no RMD is due.
///
/// Distributions begin the year the holder turns 70 when the birthday falls
/// before July, otherwise the following year; ages beyond the end of the
/// table use the last entry.
pub open spec fn spec_distribution_period(
    birth_year: int,
    birth_month: int,
    current_year: int,
) -> Option<u32> {
    let age = spec_age(birth_year, current_year);
    if age < 70 {
        None
    } else if age == 70 {
        if birth_month < 7 { Some(spec_table_tenths(0) as u32) } else { None }
    } else if age <= 115 {
        Some(spec_table_tenths(age - 70) as u32)
    } else {
        Some(spec_table_tenths(45) as u32)
    }
}

/// Dollar RMD for the year: the floor of the prior-year balance divided by
/// the distribution period, or zero when no RMD is due.
pub open spec fn spec_rmd(
    birth_year: int,
    birth_month: int,
    year: int,
    prior_balance: int,
) -> int {
    match spec_distribution_period(birth_year, birth_month, year) {
        Some(d) => prior_balance * 10 / (d as int),
        None => 0,
    }
}

/// Every table entry lies between 1.9 and 27.4 years.
pub proof fn lemma_table_bounds(index: int)
    ensures
        19 <= spec_table_tenths(index) <= 274,
{
}

/// A divisor returned by the table is at least 1.9 years, so the RMD never
/// exceeds the balance it is computed from.
pub proof fn lemma_rmd_le_balance(birth_year: int, birth_month: int, year: int, prior_balance: int)
    requires
        prior_balance >= 0,
    ensures
        0 <= spec_rmd(birth_year, birth_month, year, prior_balance) <= prior_balance,
{
    match spec_distribution_period(birth_year, birth_month, year) {
        Some(d) => {
            assert(19 <= d <= 274) by {
                let age = spec_age(birth_year, year);
                if age == 70 {
                    lemma_table_bounds(0);
                } else if age <= 115 {
                    lemma_table_bounds(age - 70);
                } else {
                    lemma_table_bounds(45);
                }
            }
            assert(prior_balance * 10 <= prior_balance * (d as int)) by {
                vstd::arithmetic::mul::lemma_mul_inequality(10, d as int, prior_balance);
                vstd::arithmetic::mul::lemma_mul_is_commutative(10, prior_balance);
                vstd::arithmetic::mul::lemma_mul_is_commutative(d as int, prior_balance);
            }
            assert(prior_balance * 10 / (d as int) <= prior_balance * (d as int) / (d as int)) by {
                vstd::arithmetic::div_mod::lemma_div_is_ordered(
                    prior_balance * 10,
                    prior_balance * (d as int),
                    d as int,
                );
            }
            assert(prior_balance * (d as int) / (d as int) == prior_balance) by {
                vstd::arithmetic::div_mod::lemma_div_by_multiple(prior_balance, d as int);
            }
            assert(prior_balance * 10 / (d as int) >= 0) by {
                vstd::arithmetic::div_mod::lemma_div_is_ordered(0, prior_balance * 10, d as int);
            }
        },
        None => {},
    }
}

/// Table lookup for `70 + index`-year-olds.
fn distribution_period_tenths(index: u16) -> (r: u32)
    requires
        index <= 45,
    ensures
        r == spec_table_tenths(index as int),
{
    match index {
        0 => 274,
        1 => 265,
        2 => 256,
        3 => 247,
        4 => 238,
        5 => 229,
        6 => 220,
        7 => 212,
        8 => 203,
        9 => 195,
        10 => 187,
        11 => 179,
        12 => 171,
        13 => 163,
        14 => 155,
        15 => 148,
        16 => 141,
        17 => 134,
        18 => 127,
        19 => 120,
        20 => 114,
        21 => 108,
        22 => 102,
        23 => 96,
        24 => 91,
        25 => 86,
        26 => 81,
        27 => 76,
        28 => 71,
        29 => 67,
        30 => 63,
        31 => 59,
        32 => 55,
        33 => 52,
        34 => 49,
        35 => 45,
        36 => 42,
        37 => 39,
        38 => 37,
        39 => 34,
        40 => 31,
        41 => 29,
        42 => 26,
        43 => 24,
        44 => 21,
        _ => 19,
    }
}

/// Distribution period in tenths of a year, or `None` when no RMD is due:
/// before age 70 there is none, at age 70 only a birthday before July
/// starts distributions, from 71 to 115 the table applies directly, and
/// greater ages use the last table entry.
pub fn get_rmd_distribution_period(birth_year: u16, birth_month: u8, current_year: u16) -> (r:
    Option<u32>)
    ensures
        r == spec_distribution_period(birth_year as int, birth_month as int, current_year as int),
{
    let age: u16 = if current_year >= birth_year {
        current_year - birth_year
    } else {
        0
    };
    if age < 70 {
        None
    } else if age == 70 {
        if birth_month < 7 {
            Some(distribution_period_tenths(0))
        } else {
            None
        }
    } else if age <= 115 {
        Some(distribution_period_tenths(age - 70))
    } else {
        Some(distribution_period_tenths(45))
    }
}

/// Dollar RMD for the year from the prior-year ending balance; zero when no
/// distribution is due.
pub fn get_rmd(birth_year: u16, birth_month: u8, year: u16, prior_year_ending_ira_value: u32) -> (r:
    u32)
    ensures
        r == spec_rmd(
            birth_year as int,
            birth_month as int,
            year as int,
            prior_year_ending_ira_value as int,
        ),
        r <= prior_year_ending_ira_value,
{
    proof {
        lemma_rmd_le_balance(
            birth_year as int,
            birth_month as int,
            year as int,
            prior_year_ending_ira_value as int,
        );
    }
    match get_rmd_distribution_period(birth_year, birth_month, year) {
        Some(d) => {
            assert(d >= 19) by {
                let age = spec_age(birth_year as int, year as int);
                if age == 70 {
                    lemma_table_bounds(0);
                } else if age <= 115 {
                    lemma_table_bounds(age - 70);
                } else {
                    lemma_table_bounds(45);
                }
            }
            let amount: u64 = (prior_year_ending_ira_value as u64) * 10 / (d as u64);
            amount as u32
        },
        None => 0,
    }
}

} // verus!
