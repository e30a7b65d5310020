//! Scenario parameters, the per-year account state, and the transition that
//! applies one year's action to produce the next state and its marginal tax.

use vstd::prelude::*;
use crate::rmd::{get_rmd, spec_rmd};
use crate::tax::{get_tax, spec_tax, lemma_tax_nonneg, lemma_tax_le_income};

verus! {

/// Scale of the fixed-point rates: a rate of 1 (100% a year) is stored as
/// 10,000, so 8% is 800.
pub const RATE_SCALE: u32 = 10000;

/// Scenario parameters, immutable for the lifetime of one search.  All
/// monetary values are whole dollars; all rates are ten-thousandths.
#[derive(Clone, Copy, Debug, PartialEq, Eq, Structural)]
pub struct ProjectArgs {
    /// Taxable income each year from sources other than the IRA.
    pub yearly_taxable_income_excluding_ira: u32,
    pub inflation_effective_annual_rate: u32,
    pub roth_present_value: u32,
    pub roth_effective_annual_rate: u32,
    pub ira_present_value: u32,
    pub ira_effective_annual_rate: u32,
    /// Portion of the IRA already taxed before deposit.
    pub basis_value: u32,
    pub birth_year: u16,
    /// Calendar month of birth, 1 to 12.
    pub birth_month: u8,
    pub start_year: u16,
    pub end_year: u16,
    pub starting_cash: u32,
    /// Dollar amount moved from the IRA to the Roth by a rollover action.
    pub rollover_increment: u32,
}

/// Why a scenario was rejected before any search ran.
#[derive(Clone, Copy, Debug, PartialEq, Eq, Structural)]
pub enum ValidationError {
    InflationOutOfRange,
    RothRateOutOfRange,
    BasisExceedsIra,
    IraRateOutOfRange,
    BirthYearAfterStartYear,
    StartYearAfterEndYear,
    BirthMonthOutOfRange,
}

impl ProjectArgs {
    /// The three rates are genuine fractions: at most 1 (that is,
    /// `RATE_SCALE`) each.
    pub open spec fn rates_within_scale(&self) -> bool {
        &&& self.inflation_effective_annual_rate <= RATE_SCALE
        &&& self.roth_effective_annual_rate <= RATE_SCALE
        &&& self.ira_effective_annual_rate <= RATE_SCALE
    }

    /// A scenario the search may run on: rates in range, basis within the
    /// IRA value, years ordered, birth month a calendar month.
    pub open spec fn valid(&self) -> bool {
        &&& self.rates_within_scale()
        &&& self.basis_value <= self.ira_present_value
        &&& self.birth_year <= self.start_year
        &&& self.start_year <= self.end_year
        &&& 1 <= self.birth_month <= 12
    }

    /// The first violated constraint, in the order the checks are made, or
    /// `Ok` when the scenario is valid.
    pub open spec fn spec_validate(&self) -> Result<(), ValidationError> {
        if self.inflation_effective_annual_rate > RATE_SCALE {
            Err(ValidationError::InflationOutOfRange)
        } else if self.roth_effective_annual_rate > RATE_SCALE {
            Err(ValidationError::RothRateOutOfRange)
        } else if self.ira_present_value < self.basis_value {
            Err(ValidationError::BasisExceedsIra)
        } else if self.ira_effective_annual_rate > RATE_SCALE {
            Err(ValidationError::IraRateOutOfRange)
        } else if self.birth_year > self.start_year {
            Err(ValidationError::BirthYearAfterStartYear)
        } else if self.start_year > self.end_year {
            Err(ValidationError::StartYearAfterEndYear)
        } else if self.birth_month < 1 || self.birth_month > 12 {
            Err(ValidationError::BirthMonthOutOfRange)
        } else {
            Ok(())
        }
    }

    /// Rejects an out-of-range scenario, naming the first constraint it
    /// violates; accepts exactly the valid scenarios.
    pub fn validate(&self) -> (r: Result<(), ValidationError>)
        ensures
            r == self.spec_validate(),
            r is Ok <==> self.valid(),
    {
        if self.inflation_effective_annual_rate > RATE_SCALE {
            Err(ValidationError::InflationOutOfRange)
        } else if self.roth_effective_annual_rate > RATE_SCALE {
            Err(ValidationError::RothRateOutOfRange)
        } else if self.ira_present_value < self.basis_value {
            Err(ValidationError::BasisExceedsIra)
        } else if self.ira_effective_annual_rate > RATE_SCALE {
            Err(ValidationError::IraRateOutOfRange)
        } else if self.birth_year > self.start_year {
            Err(ValidationError::BirthYearAfterStartYear)
        } else if self.start_year > self.end_year {
            Err(ValidationError::StartYearAfterEndYear)
        } else if self.birth_month < 1 || self.birth_month > 12 {
            Err(ValidationError::BirthMonthOutOfRange)
        } else {
            Ok(())
        }
    }
}

/// One year's choice: take only the RMD, or first convert the given dollar
/// amount from the IRA into the Roth and then take the RMD.
#[derive(Clone, Copy, Debug, Hash, PartialEq, Eq, Structural)]
pub enum Action {
    Continue,
    RolloverThenContinue(u32),
}

/// Dollars moved by the rollover part of an action.
pub open spec fn spec_rollover_amount(action: Action) -> int {
    match action {
        Action::Continue => 0,
        Action::RolloverThenContinue(x) => x as int,
    }
}

/// A node of the search graph: the account balances as of December 31 of
/// the year before `year`, together with the running totals and the action
/// that produced this state.
#[derive(Clone, Copy, Debug, Hash, PartialEq, Eq)]
pub struct State {
    pub year: u16,
    /// `None` only for the initial state of a search.
    pub previous_action: Option<Action>,
    pub roth: u32,
    pub ira: u32,
    /// IRA cost basis still unrecovered.
    pub basis: u32,
    /// After-tax cash received so far.
    pub total_cash: u32,
    /// Tax paid so far.
    pub total_tax: u32,
}

/// One year of growth: the balance times `1 + rate - inflation`, floored to
/// whole dollars.
pub open spec fn spec_grow(balance: int, rate: int, inflation: int) -> int {
    balance * (RATE_SCALE + rate - inflation) / (RATE_SCALE as int)
}

/// Whole-dollar recovery per withdrawn dollar: the basis divided by the
/// total of this year's withdrawals and the remaining IRA, or zero when
/// that total is zero.
pub open spec fn spec_basis_percent(basis: int, denom: int) -> int {
    if denom > 0 {
        basis / denom
    } else {
        0
    }
}

/// The basis recovered this year never exceeds the basis held.
pub proof fn lemma_basis_portion(basis: int, withdrawn: int, denom: int)
    requires
        0 <= basis,
        0 <= withdrawn <= denom,
    ensures
        0 <= spec_basis_percent(basis, denom) * withdrawn <= basis,
{
    if denom > 0 {
        let bp = basis / denom;
        assert(bp >= 0) by {
            vstd::arithmetic::div_mod::lemma_div_is_ordered(0, basis, denom);
            vstd::arithmetic::div_mod::lemma_div_of0(denom);
        }
        assert(bp * denom <= basis) by {
            vstd::arithmetic::div_mod::lemma_remainder_lower(basis, denom);
            vstd::arithmetic::mul::lemma_mul_is_commutative(bp, denom);
        }
        assert(bp * withdrawn <= bp * denom) by {
            vstd::arithmetic::mul::lemma_mul_inequality(withdrawn, denom, bp);
            vstd::arithmetic::mul::lemma_mul_is_commutative(bp, withdrawn);
            vstd::arithmetic::mul::lemma_mul_is_commutative(bp, denom);
        }
        assert(bp * withdrawn >= 0) by {
            vstd::arithmetic::mul::lemma_mul_nonnegative(bp, withdrawn);
        }
    } else {
        assert(spec_basis_percent(basis, denom) * withdrawn == 0) by {
            vstd::arithmetic::mul::lemma_mul_by_zero_is_zero(withdrawn);
        }
    }
}

/// The result of applying `action` to `s`: the next year's state and the
/// tax paid, or `None` when the action cannot be applied.
///
/// `None` is returned exactly when the IRA cannot cover the rollover, or
/// cannot cover the rollover and the RMD together, or some computed dollar
/// amount would leave the range `0 ..= u32::MAX` (including a year past the
/// largest representable one): such a transition contributes no successor
/// edge rather than wrapping or panicking.
pub open spec fn spec_take_action(
    s: State,
    action: Action,
    birth_year: int,
    birth_month: int,
    income: int,
    roth_rate: int,
    ira_rate: int,
    inflation: int,
) -> Option<(State, u32)> {
    let rollover = spec_rollover_amount(action);
    let rmd = spec_rmd(birth_year, birth_month, s.year as int, s.ira as int);
    if s.ira < rollover || s.ira < rollover + rmd || s.year == u16::MAX {
        None
    } else {
        let roth_grown = spec_grow(s.roth + rollover, roth_rate, inflation);
        let ira_grown = spec_grow(s.ira - rmd - rollover, ira_rate, inflation);
        let withdrawn = rmd + rollover;
        let bp = spec_basis_percent(s.basis as int, ira_grown + withdrawn);
        let nontaxable = bp * withdrawn;
        let new_basis = s.basis - nontaxable;
        let taxable = (1 - bp) * withdrawn + income;
        if taxable < 0 || taxable > u32::MAX {
            None
        } else {
            let tax = spec_tax(taxable);
            let cash = rmd + income - tax;
            let new_total_cash = s.total_cash + cash;
            let new_total_tax = s.total_tax + tax;
            if cash < 0 || roth_grown < 0 || roth_grown > u32::MAX || ira_grown < 0 || ira_grown
                > u32::MAX || new_total_cash > u32::MAX || new_total_tax > u32::MAX {
                None
            } else {
                Some(
                    (
                        State {
                            year: (s.year + 1) as u16,
                            previous_action: Some(action),
                            roth: roth_grown as u32,
                            ira: ira_grown as u32,
                            basis: new_basis as u32,
                            total_cash: new_total_cash as u32,
                            total_tax: new_total_tax as u32,
                        },
                        tax as u32,
                    ),
                )
            }
        }
    }
}

impl State {
    /// Initial state of a search: no action taken, no tax paid yet.
    pub fn new(year: u16, roth: u32, ira: u32, basis: u32, total_cash: u32) -> (s: State)
        ensures
            s == (State {
                year,
                previous_action: None::<Action>,
                roth,
                ira,
                basis,
                total_cash,
                total_tax: 0u32,
            }),
    {
        State { year, previous_action: None, roth, ira, basis, total_cash, total_tax: 0 }
    }

    /// After-tax value of all accounts if everything were liquidated this
    /// year: the untaxed IRA part becomes taxable income on top of
    /// `income`, and everything else is kept as is.
    pub open spec fn spec_maximum_after_tax_cash(&self, income: int) -> int {
        let taxable = self.ira - self.basis + income;
        self.roth + self.total_cash + self.basis + taxable - spec_tax(taxable)
    }

    /// After-tax value of all accounts when liquidated this year.
    ///
    /// `income` is this year's after-deduction income, which must not
    /// include IRA or Roth withdrawals.
    pub fn maximum_after_tax_cash(&self, income: u32) -> (r: u32)
        requires
            self.basis <= self.ira,
            self.ira - self.basis + income <= u32::MAX,
            self.roth + self.total_cash + self.ira + income <= u32::MAX,
        ensures
            r == self.spec_maximum_after_tax_cash(income as int),
    {
        let taxable_income: u32 = self.ira - self.basis + income;
        let tax: u32 = get_tax(taxable_income);
        proof {
            lemma_tax_nonneg(taxable_income as int);
            lemma_tax_le_income(taxable_income as int);
        }
        self.roth + self.total_cash + self.basis + taxable_income - tax
    }

    /// Applies one action to this state, returning the next state and the
    /// tax paid, or `None` when the action cannot be applied (see
    /// [`spec_take_action`]).  In particular a rollover larger than the
    /// current IRA balance yields no successor.
    pub fn take_action(
        &self,
        action: Action,
        birth_year: u16,
        birth_month: u8,
        income: u32,
        roth_rate: u32,
        ira_rate: u32,
        inflation: u32,
    ) -> (r: Option<(State, u32)>)
        requires
            roth_rate <= RATE_SCALE,
            ira_rate <= RATE_SCALE,
            inflation <= RATE_SCALE,
        ensures
            r == spec_take_action(
                *self,
                action,
                birth_year as int,
                birth_month as int,
                income as int,
                roth_rate as int,
                ira_rate as int,
                inflation as int,
            ),
            (r matches Some(p) ==> p.0.year == self.year + 1 && p.0.total_tax == self.total_tax
                + p.1),
            (action matches Action::RolloverThenContinue(x) && self.ira < x ==> r is None),
    {
        let rollover: u32 = match action {
            Action::Continue => 0,
            Action::RolloverThenContinue(x) => x,
        };
        if self.ira < rollover {
            return None;
        }
        let rmd: u32 = get_rmd(birth_year, birth_month, self.year, self.ira);
        if (self.ira as u64) < rollover as u64 + rmd as u64 {
            return None;
        }
        if self.year == u16::MAX {
            return None;
        }

        // Take the RMD and the rollover at the start of the year, then grow
        // both accounts.
        let roth_mult: u64 = (RATE_SCALE + roth_rate - inflation) as u64;
        let ira_mult: u64 = (RATE_SCALE + ira_rate - inflation) as u64;
        let roth_base: u64 = self.roth as u64 + rollover as u64;
        let ira_base: u64 = self.ira as u64 - rmd as u64 - rollover as u64;
        proof {
            vstd::arithmetic::mul::lemma_mul_upper_bound(
                roth_base as int,
                0x1_FFFF_FFFFint,
                roth_mult as int,
                20000,
            );
            vstd::arithmetic::mul::lemma_mul_upper_bound(
                ira_base as int,
                0x1_FFFF_FFFFint,
                ira_mult as int,
                20000,
            );
            vstd::arithmetic::mul::lemma_mul_nonnegative(roth_base as int, roth_mult as int);
            vstd::arithmetic::mul::lemma_mul_nonnegative(ira_base as int, ira_mult as int);
        }
        let roth_grown: u64 = roth_base * roth_mult / 10_000;
        let ira_grown: u64 = ira_base * ira_mult / 10_000;

        let withdrawn: u64 = rmd as u64 + rollover as u64;
        let denom: u64 = ira_grown + withdrawn;
        let bp: u64 = if denom > 0 {
            self.basis as u64 / denom
        } else {
            0
        };
        proof {
            lemma_basis_portion(self.basis as int, withdrawn as int, denom as int);
        }
        let nontaxable: u64 = bp * withdrawn;
        let new_basis: u64 = self.basis as u64 - nontaxable;

        let taxable: u64 = if withdrawn == 0 || bp == 1 {
            proof {
                vstd::arithmetic::mul::lemma_mul_basics(1 - bp as int);
            }
            income as u64
        } else if bp == 0 {
            withdrawn + income as u64
        } else {
            // bp >= 2 and withdrawn >= 1: the bracket formula would make
            // (1 - bp) * withdrawn negative, so the transition survives
            // only when the other income covers the difference.
            proof {
                vstd::arithmetic::mul::lemma_mul_inequality(
                    bp as int - 1,
                    bp as int,
                    withdrawn as int,
                );
                vstd::arithmetic::mul::lemma_mul_is_commutative(bp as int - 1, withdrawn as int);
                vstd::arithmetic::mul::lemma_mul_is_commutative(bp as int, withdrawn as int);
                vstd::arithmetic::mul::lemma_mul_is_distributive_sub_other_way(
                    withdrawn as int,
                    1,
                    bp as int,
                );
                vstd::arithmetic::mul::lemma_mul_is_distributive_sub_other_way(
                    withdrawn as int,
                    bp as int,
                    1,
                );
                vstd::arithmetic::mul::lemma_mul_basics(withdrawn as int);
            }
            let deduction: u64 = (bp - 1) * withdrawn;
            if (income as u64) < deduction {
                return None;
            }
            income as u64 - deduction
        };
        assert(taxable == (1 - bp as int) * (withdrawn as int) + income) by {
            vstd::arithmetic::mul::lemma_mul_basics(withdrawn as int);
            vstd::arithmetic::mul::lemma_mul_is_commutative(1 - bp as int, withdrawn as int);
            vstd::arithmetic::mul::lemma_mul_is_distributive_sub(withdrawn as int, 1, bp as int);
        }
        if taxable > u32::MAX as u64 {
            return None;
        }

        let tax: u32 = get_tax(taxable as u32);
        proof {
            lemma_tax_nonneg(taxable as int);
            lemma_tax_le_income(taxable as int);
        }
        let cash_in: u64 = rmd as u64 + income as u64;
        if cash_in < tax as u64 {
            return None;
        }
        let cash: u64 = cash_in - tax as u64;
        let new_total_cash: u64 = self.total_cash as u64 + cash;
        let new_total_tax: u64 = self.total_tax as u64 + tax as u64;
        if roth_grown > u32::MAX as u64 || ira_grown > u32::MAX as u64 || new_total_cash
            > u32::MAX as u64 || new_total_tax > u32::MAX as u64 {
            return None;
        }

        Some(
            (
                State {
                    year: self.year + 1,
                    previous_action: Some(action),
                    roth: roth_grown as u32,
                    ira: ira_grown as u32,
                    basis: new_basis as u32,
                    total_cash: new_total_cash as u32,
                    total_tax: new_total_tax as u32,
                },
                tax,
            ),
        )
    }
}

/// [`spec_take_action`] with the scenario's own income, rates and birth
/// date filled in.
pub open spec fn spec_take_action_args(s: State, action: Action, args: ProjectArgs) -> Option<
    (State, u32),
> {
    spec_take_action(
        s,
        action,
        args.birth_year as int,
        args.birth_month as int,
        args.yearly_taxable_income_excluding_ira as int,
        args.roth_effective_annual_rate as int,
        args.ira_effective_annual_rate as int,
        args.inflation_effective_annual_rate as int,
    )
}

/// The successor edges of `s`: the outcome of `Continue`, then of
/// `RolloverThenContinue` with the scenario's increment, each kept only
/// when the action can be applied.
pub open spec fn spec_successors(s: State, args: ProjectArgs) -> Seq<(State, u32)> {
    let cont = spec_take_action_args(s, Action::Continue, args);
    let roll = spec_take_action_args(s, Action::RolloverThenContinue(args.rollover_increment), args);
    match (cont, roll) {
        (Some(a), Some(b)) => seq![a, b],
        (Some(a), None) => seq![a],
        (None, Some(b)) => seq![b],
        (None, None) => Seq::empty(),
    }
}

/// Evaluates the two candidate actions from `parent` and returns the
/// transitions that succeeded, `Continue` first.
pub fn successors(parent: &State, args: &ProjectArgs) -> (r: Vec<(State, u32)>)
    requires
        args.rates_within_scale(),
    ensures
        r@ == spec_successors(*parent, *args),
{
    let mut result: Vec<(State, u32)> = Vec::new();
    if let Some(edge) = parent.take_action(
        Action::Continue,
        args.birth_year,
        args.birth_month,
        args.yearly_taxable_income_excluding_ira,
        args.roth_effective_annual_rate,
        args.ira_effective_annual_rate,
        args.inflation_effective_annual_rate,
    ) {
        result.push(edge);
    }
    if let Some(edge) = parent.take_action(
        Action::RolloverThenContinue(args.rollover_increment),
        args.birth_year,
        args.birth_month,
        args.yearly_taxable_income_excluding_ira,
        args.roth_effective_annual_rate,
        args.ira_effective_annual_rate,
        args.inflation_effective_annual_rate,
    ) {
        result.push(edge);
    }
    proof {
        assert(result@ =~= spec_successors(*parent, *args));
    }
    result
}

} // verus!
