use rollover_planner::{successors, Action, ProjectArgs, State, ValidationError, RATE_SCALE};

fn base_args() -> ProjectArgs {
    ProjectArgs {
        yearly_taxable_income_excluding_ira: 10_000,
        inflation_effective_annual_rate: 300,
        roth_present_value: 5_000,
        roth_effective_annual_rate: 800,
        ira_present_value: 6_000,
        ira_effective_annual_rate: 800,
        basis_value: 0,
        birth_year: 1955,
        birth_month: 6,
        start_year: 2035,
        end_year: 2040,
        starting_cash: 5_000,
        rollover_increment: 1_000,
    }
}

#[test]
fn validate_accepts_a_valid_scenario() {
    assert_eq!(Ok(()), base_args().validate());
}

#[test]
fn validate_rejects_inflation_above_one() {
    let mut args = base_args();
    args.inflation_effective_annual_rate = RATE_SCALE + 1;
    assert_eq!(Err(ValidationError::InflationOutOfRange), args.validate());
}

#[test]
fn validate_rejects_roth_rate_above_one() {
    let mut args = base_args();
    args.roth_effective_annual_rate = RATE_SCALE + 1;
    assert_eq!(Err(ValidationError::RothRateOutOfRange), args.validate());
}

#[test]
fn validate_rejects_basis_above_ira_value() {
    let mut args = base_args();
    args.basis_value = args.ira_present_value + 1;
    assert_eq!(Err(ValidationError::BasisExceedsIra), args.validate());
}

#[test]
fn validate_rejects_ira_rate_above_one() {
    let mut args = base_args();
    args.ira_effective_annual_rate = RATE_SCALE + 1;
    assert_eq!(Err(ValidationError::IraRateOutOfRange), args.validate());
}

#[test]
fn validate_rejects_birth_year_after_start_year() {
    let mut args = base_args();
    args.birth_year = args.start_year + 1;
    assert_eq!(Err(ValidationError::BirthYearAfterStartYear), args.validate());
}

#[test]
fn validate_rejects_start_year_after_end_year() {
    let mut args = base_args();
    args.start_year = args.end_year + 1;
    // Birth year must still precede the start year, or that check fires first.
    assert_eq!(Err(ValidationError::StartYearAfterEndYear), args.validate());
}

#[test]
fn validate_rejects_birth_month_outside_calendar() {
    let mut args = base_args();
    args.birth_month = 0;
    assert_eq!(Err(ValidationError::BirthMonthOutOfRange), args.validate());
    args.birth_month = 13;
    assert_eq!(Err(ValidationError::BirthMonthOutOfRange), args.validate());
}

#[test]
fn rollover_exceeding_ira_balance_gives_no_successor() {
    let state = State::new(2019, 0, 500, 0, 0);
    let r = state.take_action(Action::RolloverThenContinue(1_000), 1948, 7, 0, 0, 0, 0);
    assert!(r.is_none());
}

#[test]
fn rollover_plus_rmd_exceeding_ira_balance_gives_no_successor() {
    // Age 71: RMD is floor(1,000 / 26.5) == 37, and 1,000 < 1,000 + 37.
    let state = State::new(2019, 0, 1_000, 0, 0);
    let r = state.take_action(Action::RolloverThenContinue(1_000), 1948, 7, 0, 0, 0, 0);
    assert!(r.is_none());
}

#[test]
fn continue_action_takes_rmd_and_pays_tax_on_it() {
    // Age 71, divisor 26.5: RMD == 2,000; zero growth and inflation; no
    // basis, no other income.  Tax on 2,000 is 200, cash kept is 1,800.
    let state = State::new(2019, 100, 53_000, 0, 0);
    let (next, cost) = state
        .take_action(Action::Continue, 1948, 7, 0, 0, 0, 0)
        .unwrap();
    assert_eq!(200, cost);
    assert_eq!(2020, next.year);
    assert_eq!(Some(Action::Continue), next.previous_action);
    assert_eq!(100, next.roth);
    assert_eq!(51_000, next.ira);
    assert_eq!(0, next.basis);
    assert_eq!(1_800, next.total_cash);
    assert_eq!(200, next.total_tax);
}

#[test]
fn rollover_action_moves_funds_into_roth_and_is_taxed() {
    // As above but rolling 1,000 over first: the Roth gains it, the IRA
    // loses it, and the taxable income grows to 3,000.
    let state = State::new(2019, 100, 53_000, 0, 0);
    let (next, cost) = state
        .take_action(Action::RolloverThenContinue(1_000), 1948, 7, 0, 0, 0, 0)
        .unwrap();
    assert_eq!(300, cost);
    assert_eq!(2020, next.year);
    assert_eq!(Some(Action::RolloverThenContinue(1_000)), next.previous_action);
    assert_eq!(1_100, next.roth);
    assert_eq!(50_000, next.ira);
    assert_eq!(1_700, next.total_cash);
    assert_eq!(300, next.total_tax);
}

#[test]
fn basis_makes_part_of_the_distribution_nontaxable() {
    // Divisor 26.5 on a 53,000 IRA: RMD 2,000, remaining IRA 51,000.
    // Whole-dollar recovery: floor(53,000 / 53,000) == 1 dollar per
    // withdrawn dollar, so the whole RMD is basis recovery and only the
    // external income is taxed.
    let state = State::new(2019, 0, 53_000, 53_000, 0);
    let (next, cost) = state
        .take_action(Action::Continue, 1948, 7, 10_000, 0, 0, 0)
        .unwrap();
    assert_eq!(1_006, cost); // tax on the 10,000 external income alone
    assert_eq!(51_000, next.basis); // 2,000 of basis recovered
    assert_eq!(10_994, next.total_cash); // 2,000 + 10,000 - 1,006
}

#[test]
fn successors_offers_continue_then_rollover() {
    let state = State::new(2019, 100, 53_000, 0, 0);
    let args = ProjectArgs {
        yearly_taxable_income_excluding_ira: 0,
        inflation_effective_annual_rate: 0,
        roth_present_value: 100,
        roth_effective_annual_rate: 0,
        ira_present_value: 53_000,
        ira_effective_annual_rate: 0,
        basis_value: 0,
        birth_year: 1948,
        birth_month: 7,
        start_year: 2019,
        end_year: 2020,
        starting_cash: 0,
        rollover_increment: 1_000,
    };
    let edges = successors(&state, &args);
    assert_eq!(2, edges.len());
    assert_eq!(Some(Action::Continue), edges[0].0.previous_action);
    assert_eq!(200, edges[0].1);
    assert_eq!(
        Some(Action::RolloverThenContinue(1_000)),
        edges[1].0.previous_action
    );
    assert_eq!(300, edges[1].1);
}

#[test]
fn successors_drops_an_infeasible_rollover() {
    // Too little in the IRA for the rollover, but young enough for no RMD:
    // only `Continue` survives.
    let state = State::new(2019, 100, 500, 0, 0);
    let args = ProjectArgs {
        yearly_taxable_income_excluding_ira: 0,
        inflation_effective_annual_rate: 0,
        roth_present_value: 100,
        roth_effective_annual_rate: 0,
        ira_present_value: 500,
        ira_effective_annual_rate: 0,
        basis_value: 0,
        birth_year: 1990,
        birth_month: 6,
        start_year: 2019,
        end_year: 2020,
        starting_cash: 0,
        rollover_increment: 1_000,
    };
    let edges = successors(&state, &args);
    assert_eq!(1, edges.len());
    assert_eq!(Some(Action::Continue), edges[0].0.previous_action);
}

#[test]
fn liquidation_value_taxes_the_untaxed_ira_part() {
    // Taxable on liquidation: 50 - 20 + 0 == 30; tax on 30 is 3.
    let state = State {
        year: 2019,
        previous_action: None,
        roth: 100,
        ira: 50,
        basis: 20,
        total_cash: 30,
        total_tax: 0,
    };
    assert_eq!(177, state.maximum_after_tax_cash(0));
}
