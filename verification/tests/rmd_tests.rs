use rollover_planner::{get_rmd, get_rmd_distribution_period};

// Distribution periods are in tenths of a year: 27.4 years is 274.

#[test]
fn rmd_distribution_period_turns_70_june_30() {
    assert_eq!(Some(274), get_rmd_distribution_period(1949, 6, 2019));
}

#[test]
fn rmd_distribution_period_turns_71_june_30() {
    assert_eq!(Some(265), get_rmd_distribution_period(1948, 6, 2019));
}

#[test]
fn rmd_distribution_period_turns_70_july_1() {
    assert_eq!(None, get_rmd_distribution_period(1949, 7, 2019));
}

#[test]
fn rmd_distribution_period_turns_71_july_1() {
    assert_eq!(Some(265), get_rmd_distribution_period(1948, 7, 2019));
}

#[test]
fn rmd_distribution_period_age_butween_70_and_115() {
    assert_eq!(Some(114), get_rmd_distribution_period(2019 - 90, 3, 2019));
}

#[test]
fn rmd_distribution_period_age_115() {
    assert_eq!(Some(19), get_rmd_distribution_period(2019 - 115, 3, 2019));
}

#[test]
fn rmd_distribution_period_age_greater_than_115() {
    assert_eq!(Some(19), get_rmd_distribution_period(2019 - 116, 3, 2019));
}

#[test]
fn rmd_distribution_period_age_less_than_70() {
    assert_eq!(None, get_rmd_distribution_period(2019 - 69, 3, 2019));
}

#[test]
fn rmd_distribution_period_negative_age() {
    assert_eq!(None, get_rmd_distribution_period(2019 + 1, 3, 2019));
}

#[test]
fn rmd_amount_is_floor_of_balance_over_divisor() {
    // Age 71, divisor 26.5 years: floor(53,000 / 26.5) == 2,000.
    assert_eq!(2_000, get_rmd(1948, 7, 2019, 53_000));
    // Fractional dollars are discarded: floor(1,000 / 26.5) == 37.
    assert_eq!(37, get_rmd(1948, 7, 2019, 1_000));
}

#[test]
fn rmd_amount_zero_when_no_distribution_due() {
    assert_eq!(0, get_rmd(2019 - 69, 3, 2019, 1_000_000));
    assert_eq!(0, get_rmd(1949, 7, 2019, 1_000_000));
}
