//! Lowest-cost path search over the yearly decision tree.
//!
//! Nodes are account states, edges the two candidate actions of a year, and
//! the cost of an edge is the tax it pays.  Because every edge advances the
//! year by exactly one, the graph is a finite tree and an exhaustive
//! depth-first enumeration finds the cheapest run to any state past the
//! horizon.  Ties keep the first path found, which prefers `Continue` over
//! a rollover.

use vstd::prelude::*;
use crate::model::{Action, ProjectArgs, State, spec_take_action_args};
use crate::rmd::spec_rmd;
use crate::tax::{lemma_tax_nonneg, lemma_tax_le_income};

verus! {

/// `t` is the outcome of applying one of the year's two candidate actions
/// to `s`.
pub open spec fn spec_edge(s: State, t: State, args: ProjectArgs) -> bool {
    ||| (spec_take_action_args(s, Action::Continue, args) matches Some(p) && p.0 == t)
    ||| (spec_take_action_args(s, Action::RolloverThenContinue(args.rollover_increment), args)
        matches Some(p) && p.0 == t)
}

/// A transition that succeeds advances the year by one and adds the
/// returned tax to the running total.
pub proof fn lemma_take_action_some_facts(s: State, action: Action, args: ProjectArgs)
    ensures
        spec_take_action_args(s, action, args) matches Some(p) ==> p.0.year == s.year + 1
            && p.0.total_tax == s.total_tax + p.1,
{
    let rollover = crate::model::spec_rollover_amount(action);
    let rmd = spec_rmd(args.birth_year as int, args.birth_month as int, s.year as int, s.ira as int);
    if !(s.ira < rollover || s.ira < rollover + rmd || s.year == u16::MAX) {
        let ira_grown = crate::model::spec_grow(
            s.ira - rmd - rollover,
            args.ira_effective_annual_rate as int,
            args.inflation_effective_annual_rate as int,
        );
        let withdrawn = rmd + rollover;
        let bp = crate::model::spec_basis_percent(s.basis as int, ira_grown + withdrawn);
        let taxable = (1 - bp) * withdrawn + args.yearly_taxable_income_excluding_ira;
        if 0 <= taxable <= u32::MAX {
            lemma_tax_nonneg(taxable);
            lemma_tax_le_income(taxable);
        }
    }
}

/// Every successor edge advances the year by one and cannot lower the tax
/// paid so far.
pub proof fn lemma_edge_facts(s: State, t: State, args: ProjectArgs)
    requires
        spec_edge(s, t, args),
    ensures
        t.year == s.year + 1,
        s.total_tax <= t.total_tax,
{
    lemma_take_action_some_facts(s, Action::Continue, args);
    lemma_take_action_some_facts(s, Action::RolloverThenContinue(args.rollover_increment), args);
}

/// Consecutive states are always joined by successor edges.
pub open spec fn spec_is_path(p: Seq<State>, args: ProjectArgs) -> bool {
    forall|i: int| 0 <= i < p.len() - 1 ==> spec_edge(p[i], p[#[trigger] (i + 1)], args)
}

/// A complete run of the scenario from `s`: successor edges all the way,
/// every state but the last within the horizon, the last one past it.
pub open spec fn spec_complete_path(p: Seq<State>, s: State, args: ProjectArgs) -> bool {
    &&& p.len() > 0
    &&& p[0] == s
    &&& spec_is_path(p, args)
    &&& (forall|i: int| 0 <= i < p.len() - 1 ==> #[trigger] p[i].year <= args.end_year)
    &&& p.last().year > args.end_year
}

/// Total tax paid along a path: the difference of the running totals at
/// its two ends.
pub open spec fn spec_path_cost(p: Seq<State>) -> int {
    p.last().total_tax - p[0].total_tax
}

/// The path the exhaustive depth-first search returns from `s`: the
/// complete path of least total tax, ties resolved in favour of the
/// `Continue` branch, or `None` when no action sequence reaches past the
/// horizon.
pub open spec fn spec_search(s: State, args: ProjectArgs) -> Option<Seq<State>>
    decreases args.end_year + 1 - s.year,
    when s.year <= args.end_year + 1
{
    if s.year > args.end_year {
        Some(seq![s])
    } else {
        let cont = spec_take_action_args(s, Action::Continue, args);
        let roll = spec_take_action_args(
            s,
            Action::RolloverThenContinue(args.rollover_increment),
            args,
        );
        let from_cont = match cont {
            Some(p) => spec_search(p.0, args),
            None => None,
        };
        let from_roll = match roll {
            Some(p) => spec_search(p.0, args),
            None => None,
        };
        match (from_cont, from_roll) {
            (Some(qa), Some(qb)) => if qa.last().total_tax <= qb.last().total_tax {
                Some(seq![s] + qa)
            } else {
                Some(seq![s] + qb)
            },
            (Some(qa), None) => Some(seq![s] + qa),
            (None, Some(qb)) => Some(seq![s] + qb),
            (None, None) => None,
        }
    }
}

/// An edge from `s` followed by a complete path makes a complete path
/// from `s`.
proof fn lemma_prefix_complete(s: State, t: State, q: Seq<State>, args: ProjectArgs)
    requires
        spec_edge(s, t, args),
        spec_complete_path(q, t, args),
        s.year <= args.end_year,
    ensures
        spec_complete_path(seq![s] + q, s, args),
{
    let p = seq![s] + q;
    assert(p[0] == s);
    assert(p.last() == q.last());
    assert forall|i: int| 0 <= i < p.len() - 1 implies spec_edge(p[i], p[#[trigger] (i + 1)], args) by {
        if i == 0 {
            assert(p[1] == q[0]);
        } else {
            assert(p[i] == q[i - 1]);
            assert(p[i + 1] == q[i]);
            assert(spec_edge(q[i - 1], q[(i - 1) + 1], args));
        }
    }
    assert forall|i: int| 0 <= i < p.len() - 1 implies #[trigger] p[i].year <= args.end_year by {
        if i > 0 {
            assert(p[i] == q[i - 1]);
            if i - 1 < q.len() - 1 {
                assert(q[i - 1].year <= args.end_year);
            } else {
                assert(false);
            }
        }
    }
}

/// Whatever the search returns is a complete path from `s`, and the tax
/// total can only have grown along it.
pub proof fn lemma_search_some_valid(s: State, args: ProjectArgs)
    requires
        s.year <= args.end_year + 1,
    ensures
        spec_search(s, args) matches Some(q) ==> spec_complete_path(q, s, args) && s.total_tax
            <= q.last().total_tax,
    decreases args.end_year + 1 - s.year,
{
    if s.year > args.end_year {
        let q = seq![s];
        assert(q.last() == s);
        assert(spec_complete_path(q, s, args));
    } else {
        let cont = spec_take_action_args(s, Action::Continue, args);
        let roll = spec_take_action_args(
            s,
            Action::RolloverThenContinue(args.rollover_increment),
            args,
        );
        lemma_take_action_some_facts(s, Action::Continue, args);
        lemma_take_action_some_facts(s, Action::RolloverThenContinue(args.rollover_increment), args);
        match cont {
            Some(p) => {
                lemma_search_some_valid(p.0, args);
                match spec_search(p.0, args) {
                    Some(qa) => {
                        assert(spec_edge(s, p.0, args));
                        lemma_prefix_complete(s, p.0, qa, args);
                        assert((seq![s] + qa).last() == qa.last());
                    },
                    None => {},
                }
            },
            None => {},
        }
        match roll {
            Some(p) => {
                lemma_search_some_valid(p.0, args);
                match spec_search(p.0, args) {
                    Some(qb) => {
                        assert(spec_edge(s, p.0, args));
                        lemma_prefix_complete(s, p.0, qb, args);
                        assert((seq![s] + qb).last() == qb.last());
                    },
                    None => {},
                }
            },
            None => {},
        }
    }
}

/// The search result is optimal: no complete path from `s` pays less
/// total tax.  In particular, whenever any complete path exists the search
/// returns one.
pub proof fn lemma_search_minimal(s: State, args: ProjectArgs, q: Seq<State>)
    requires
        s.year <= args.end_year + 1,
        spec_complete_path(q, s, args),
    ensures
        spec_search(s, args) matches Some(p) && p.last().total_tax <= q.last().total_tax,
    decreases args.end_year + 1 - s.year,
{
    if s.year > args.end_year {
        if q.len() >= 2 {
            assert(q[0].year <= args.end_year);
            assert(false);
        }
        assert(q.last() == s);
    } else {
        if q.len() == 1 {
            assert(q.last() == s);
            assert(false);
        }
        let t = q[1];
        assert(spec_edge(q[0], q[0int + 1], args));
        lemma_edge_facts(s, t, args);
        let q2 = q.subrange(1, q.len() as int);
        assert(q2[0] == t);
        assert(q2.last() == q.last());
        assert forall|i: int| 0 <= i < q2.len() - 1 implies spec_edge(
            q2[i],
            q2[#[trigger] (i + 1)],
            args,
        ) by {
            assert(q2[i] == q[i + 1]);
            assert(q2[i + 1] == q[(i + 1) + 1]);
            assert(spec_edge(q[i + 1], q[(i + 1) + 1], args));
        }
        assert forall|i: int| 0 <= i < q2.len() - 1 implies #[trigger] q2[i].year
            <= args.end_year by {
            assert(q2[i] == q[i + 1]);
            assert(q[i + 1].year <= args.end_year);
        }
        assert(spec_complete_path(q2, t, args));
        lemma_search_minimal(t, args, q2);
        let cont = spec_take_action_args(s, Action::Continue, args);
        let roll = spec_take_action_args(
            s,
            Action::RolloverThenContinue(args.rollover_increment),
            args,
        );
        lemma_take_action_some_facts(s, Action::Continue, args);
        lemma_take_action_some_facts(s, Action::RolloverThenContinue(args.rollover_increment), args);
        match cont {
            Some(p) => {
                lemma_search_some_valid(p.0, args);
                match spec_search(p.0, args) {
                    Some(qa) => {
                        assert((seq![s] + qa).last() == qa.last());
                    },
                    None => {},
                }
            },
            None => {},
        }
        match roll {
            Some(p) => {
                lemma_search_some_valid(p.0, args);
                match spec_search(p.0, args) {
                    Some(qb) => {
                        assert((seq![s] + qb).last() == qb.last());
                    },
                    None => {},
                }
            },
            None => {},
        }
    }
}

/// Years advance one at a time along a path: the state at position `i`
/// lies `i` years past the first.
pub proof fn lemma_path_year_at(q: Seq<State>, args: ProjectArgs, i: int)
    requires
        spec_is_path(q, args),
        0 <= i < q.len(),
    ensures
        q[i].year == q[0].year + i,
    decreases i,
{
    if i > 0 {
        lemma_path_year_at(q, args, i - 1);
        assert(spec_edge(q[i - 1], q[(i - 1) + 1], args));
        lemma_edge_facts(q[i - 1], q[i], args);
    }
}

/// Depth-first search for the cheapest complete path from `current`.
///
/// Returns that path together with the tax it pays beyond what `current`
/// has already paid, or `None` when no sequence of actions reaches past
/// the horizon.  The result is exactly [`spec_search`]: the cheapest
/// complete path, ties won by the `Continue` branch.
pub fn shortest_path_recursive(current: &State, args: &ProjectArgs) -> (r: Option<(Vec<State>, u32)>)
    requires
        args.rates_within_scale(),
        current.year <= args.end_year + 1,
    ensures
        (match (r, spec_search(*current, *args)) {
            (None, None) => true,
            (Some(p), Some(q)) => p.0@ == q && p.1 == q.last().total_tax - current.total_tax,
            _ => false,
        }),
    decreases args.end_year + 1 - current.year,
{
    if current.year > args.end_year {
        let mut path: Vec<State> = Vec::new();
        path.push(*current);
        proof {
            assert(path@ =~= seq![*current]);
        }
        return Some((path, 0));
    }

    proof {
        lemma_take_action_some_facts(*current, Action::Continue, *args);
        lemma_take_action_some_facts(
            *current,
            Action::RolloverThenContinue(args.rollover_increment),
            *args,
        );
    }

    let from_cont: Option<(Vec<State>, u32)> = match current.take_action(
        Action::Continue,
        args.birth_year,
        args.birth_month,
        args.yearly_taxable_income_excluding_ira,
        args.roth_effective_annual_rate,
        args.ira_effective_annual_rate,
        args.inflation_effective_annual_rate,
    ) {
        Some((next, tax)) => {
            proof {
                lemma_search_some_valid(next, *args);
            }
            match shortest_path_recursive(&next, args) {
                Some((path, c)) => Some((path, tax + c)),
                None => None,
            }
        },
        None => None,
    };

    let from_roll: Option<(Vec<State>, u32)> = match current.take_action(
        Action::RolloverThenContinue(args.rollover_increment),
        args.birth_year,
        args.birth_month,
        args.yearly_taxable_income_excluding_ira,
        args.roth_effective_annual_rate,
        args.ira_effective_annual_rate,
        args.inflation_effective_annual_rate,
    ) {
        Some((next, tax)) => {
            proof {
                lemma_search_some_valid(next, *args);
            }
            match shortest_path_recursive(&next, args) {
                Some((path, c)) => Some((path, tax + c)),
                None => None,
            }
        },
        None => None,
    };

    let chosen: Option<(Vec<State>, u32)> = match (from_cont, from_roll) {
        (Some(a), Some(b)) => if a.1 <= b.1 {
            Some(a)
        } else {
            Some(b)
        },
        (Some(a), None) => Some(a),
        (None, Some(b)) => Some(b),
        (None, None) => None,
    };

    match chosen {
        Some((mut path, c)) => {
            path.insert(0, *current);
            proof {
                match spec_search(*current, *args) {
                    Some(q) => {
                        assert(path@ =~= q);
                    },
                    None => {},
                }
            }
            Some((path, c))
        },
        None => None,
    }
}

/// Lowest-cost complete path from `start`, with its total cost: the
/// entry point of the search engine.
pub fn shortest_path(start: &State, args: &ProjectArgs) -> (r: Option<(Vec<State>, u32)>)
    requires
        args.rates_within_scale(),
        start.year <= args.end_year + 1,
    ensures
        (match (r, spec_search(*start, *args)) {
            (None, None) => true,
            (Some(p), Some(q)) => p.0@ == q && p.1 == q.last().total_tax - start.total_tax,
            _ => false,
        }),
{
    shortest_path_recursive(start, args)
}

} // verus!
