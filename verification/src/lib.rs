//! Multi-year planning of withdrawals from a tax-deferred retirement account
//! ("IRA") alongside a tax-free account ("Roth").
//!
//! Each year the plan either takes only the required minimum distribution
//! (RMD) or additionally converts a fixed increment of IRA funds into the
//! Roth account.  An exhaustive depth-first search over the resulting
//! decision tree returns the action sequence with the lowest cumulative tax.
//!
//! All currency amounts are whole dollars; growth and inflation rates are
//! fixed-point fractions in ten-thousandths (`RATE_SCALE`), so every yearly
//! update is exact integer arithmetic with floor division.
//!
//! The one optimization objective of this crate is the cumulative tax paid,
//! to be minimized; [`State::maximum_after_tax_cash`] reports a state's
//! after-tax liquidation value but does not drive the search.  The horizon
//! is explored exhaustively, which is exponential in `end_year -
//! start_year`: keeping that span to a few tens of years is the caller's
//! responsibility.

pub mod model;
pub mod rmd;
pub mod search;
pub mod tax;

pub use model::{Action, ProjectArgs, RATE_SCALE, State, ValidationError, successors};
pub use rmd::{get_rmd, get_rmd_distribution_period};
pub use search::{shortest_path, shortest_path_recursive};
pub use tax::get_tax;

use vstd::prelude::*;
use crate::search::{
    lemma_edge_facts, lemma_path_year_at, lemma_search_minimal, lemma_search_some_valid,
    spec_complete_path, spec_edge, spec_path_cost, spec_search,
};

verus! {

/// The state a search starts from: the scenario's opening balances in the
/// scenario's first year, with nothing withdrawn or taxed yet.
pub open spec fn spec_initial_state(args: ProjectArgs) -> State {
    State {
        year: args.start_year,
        previous_action: None,
        roth: args.roth_present_value,
        ira: args.ira_present_value,
        basis: args.basis_value,
        total_cash: args.starting_cash,
        total_tax: 0,
    }
}

/// What [`project`] returns: `None` for an invalid scenario or when no
/// action sequence reaches past the horizon, otherwise the cheapest
/// complete path together with the total tax it pays.
pub open spec fn spec_project(args: ProjectArgs) -> Option<(Seq<State>, u32)> {
    if !args.valid() {
        None
    } else {
        match spec_search(spec_initial_state(args), args) {
            Some(q) => Some((q, q.last().total_tax)),
            None => None,
        }
    }
}

/// Plans the scenario: validates the parameters, then searches for the
/// action sequence with the lowest cumulative tax.
///
/// Returns the optimal path of yearly states, from the initial state to
/// the first state past `end_year` inclusive, with the total tax paid
/// along it; `None` when validation fails or no terminal state is
/// reachable.  The result is a function of the parameters alone, so equal
/// parameters always produce equal plans.
pub fn project(args: &ProjectArgs) -> (r: Option<(Vec<State>, u32)>)
    ensures
        (match (r, spec_project(*args)) {
            (None, None) => true,
            (Some(p), Some(q)) => p.0@ == q.0 && p.1 == q.1,
            _ => false,
        }),
{
    if args.validate().is_err() {
        return None;
    }
    let start = State::new(
        args.start_year,
        args.roth_present_value,
        args.ira_present_value,
        args.basis_value,
        args.starting_cash,
    );
    shortest_path(&start, args)
}

/// The plan returned for a valid scenario is sound and optimal: a returned
/// path is a complete run of the scenario whose cost is the tax paid along
/// it, and no complete run pays less; `None` is returned only when the
/// scenario has no complete run at all.
pub proof fn lemma_project_optimal(args: ProjectArgs)
    requires
        args.valid(),
    ensures
        (match spec_project(args) {
            Some(r) => spec_complete_path(r.0, spec_initial_state(args), args) && r.1
                == spec_path_cost(r.0) && (forall|q: Seq<State>|
                spec_complete_path(q, spec_initial_state(args), args) ==> r.1
                    <= spec_path_cost(q)),
            None => forall|q: Seq<State>|
                !spec_complete_path(q, spec_initial_state(args), args),
        }),
{
    let init = spec_initial_state(args);
    lemma_search_some_valid(init, args);
    match spec_project(args) {
        Some(r) => {
            assert forall|q: Seq<State>|
                spec_complete_path(q, init, args) implies r.1 <= spec_path_cost(q) by {
                lemma_search_minimal(init, args, q);
            }
        },
        None => {
            assert forall|q: Seq<State>| !spec_complete_path(q, init, args) by {
                if spec_complete_path(q, init, args) {
                    lemma_search_minimal(init, args, q);
                }
            }
        },
    }
}

/// Extending the horizon by one year cannot lower the total tax of the
/// optimal plan: whenever the longer scenario has a plan, the shorter one
/// has a plan too, and a no more expensive one.
pub proof fn lemma_horizon_monotone(args: ProjectArgs, extended: ProjectArgs)
    requires
        args.valid(),
        args.end_year < u16::MAX,
        extended == (ProjectArgs { end_year: (args.end_year + 1) as u16, ..args }),
    ensures
        (spec_project(extended) matches Some(long) ==> spec_project(args) matches Some(short)
            && short.1 <= long.1),
{
    let init = spec_initial_state(args);
    assert(spec_initial_state(extended) == init);
    assert(extended.valid());
    lemma_search_some_valid(init, extended);
    match spec_search(init, extended) {
        Some(q2) => {
            let n = q2.len() as int;
            if n == 1 {
                assert(q2.last() == init);
                assert(false);
            }
            assert forall|i: int| 0 <= i < n implies #[trigger] q2[i].year == init.year + i by {
                lemma_path_year_at(q2, extended, i);
            }
            let q1 = q2.subrange(0, n - 1);
            assert(q1[0] == init);
            assert forall|i: int| 0 <= i < q1.len() - 1 implies spec_edge(
                q1[i],
                q1[#[trigger] (i + 1)],
                args,
            ) by {
                assert(q1[i] == q2[i]);
                assert(q1[i + 1] == q2[i + 1]);
                assert(spec_edge(q2[i], q2[i + 1], extended));
            }
            assert forall|i: int| 0 <= i < q1.len() - 1 implies #[trigger] q1[i].year
                <= args.end_year by {
                assert(q1[i] == q2[i]);
                assert(q2[n - 2].year <= extended.end_year);
            }
            assert(q1.last() == q2[n - 2]);
            assert(q1.last().year > args.end_year);
            assert(spec_complete_path(q1, init, args));
            lemma_search_minimal(init, args, q1);
            assert(spec_edge(q2[n - 2], q2[(n - 2) + 1], extended));
            lemma_edge_facts(q2[n - 2], q2[n - 1], extended);
        },
        None => {},
    }
}

} // verus!
