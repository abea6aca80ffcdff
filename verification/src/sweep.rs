//! The parameter sweep runner: one fresh strategy per parameter set, many
//! independent backtests over the same read-only data, run on a parallel
//! worker pool, then ranked by total return. A parameter set whose strategy
//! construction fails is skipped; the sweep always returns the runs that
//! completed cleanly.

use rayon::iter::{IntoParallelRefIterator, ParallelIterator};
use vstd::prelude::*;

use crate::costs::TransactionCosts;
use crate::engine::{result_of_model, run_backtest_selected, spec_init, spec_run, RunConfig,
    RunModel};
use crate::event::MarketEvent;
use crate::metrics::BacktestResult;
use crate::strategies::{spec_any_init, spec_any_signals, AnyStrategy, StrategySelect};
use crate::strategy::StrategyParams;

verus! {

/// Does this parameter set produce a completed run: its strategy constructs,
/// and the configuration, cost model and every event are well formed?
pub open spec fn spec_sweep_ok(
    sel: StrategySelect,
    pmap: Map<Seq<char>, i64>,
    evs: Seq<MarketEvent>,
    cfg: RunConfig,
    costs: TransactionCosts,
) -> bool {
    &&& spec_any_init(sel, pmap) is Some
    &&& cfg.wf()
    &&& costs.wf()
    &&& forall|i: int| 0 <= i < evs.len() ==> (#[trigger] evs[i]).wf()
}

/// The final engine state of the run this parameter set produces.
pub open spec fn spec_sweep_model(
    sel: StrategySelect,
    pmap: Map<Seq<char>, i64>,
    evs: Seq<MarketEvent>,
    cfg: RunConfig,
    costs: TransactionCosts,
) -> RunModel {
    spec_run(
        spec_init(cfg),
        spec_any_signals(spec_any_init(sel, pmap).unwrap(), evs),
        evs,
        cfg,
        costs,
    )
}

/// What one sweep worker returns for one parameter set: a report exactly
/// when the run completes, pinned to the run's final state.
pub open spec fn sweep_item_post(
    r: Option<BacktestResult>,
    pmap: Map<Seq<char>, i64>,
    sel: StrategySelect,
    evs: Seq<MarketEvent>,
    cfg: RunConfig,
    costs: TransactionCosts,
) -> bool {
    &&& (r is Some <==> spec_sweep_ok(sel, pmap, evs, cfg, costs))
    &&& (r matches Some(res) ==> result_of_model(
        res,
        cfg,
        spec_sweep_model(sel, pmap, evs, cfg, costs),
    ) && res.equity_curve@.len() == evs.len() + 1 && res.equity_curve@[0] == cfg.starting_equity)
}

/// One sweep worker: construct a fresh strategy from the parameter set and
/// run one independent backtest; a configuration or data failure drops the
/// run, never the sweep.
pub(crate) fn sweep_item(
    params: &StrategyParams,
    sel: StrategySelect,
    events: &Vec<MarketEvent>,
    cfg: &RunConfig,
    costs: &TransactionCosts,
) -> (r: Option<BacktestResult>)
    ensures
        sweep_item_post(r, params@, sel, events@, *cfg, *costs),
{
    let strat = match AnyStrategy::any_new(sel, params) {
        Result::Ok(s) => s,
        Result::Err(_) => {
            return None;
        },
    };
    match run_backtest_selected(strat, events, cfg, costs) {
        Result::Ok(res) => Some(res),
        Result::Err(_) => None,
    }
}

/// Relies on rayon's `par_iter` over a slice with `map` and an
/// order-preserving `collect` into a `Vec` (an indexed parallel iterator
/// writes each mapped item at that item's own index): the output holds one
/// entry per parameter set, in order, each exactly what `sweep_item`
/// returns for that set. The closure only calls `sweep_item`.
#[verifier::external_body]
fn par_map_sweep(
    combos: &Vec<StrategyParams>,
    sel: StrategySelect,
    events: &Vec<MarketEvent>,
    cfg: &RunConfig,
    costs: &TransactionCosts,
) -> (r: Vec<Option<BacktestResult>>)
    ensures
        r@.len() == combos@.len(),
        forall|i: int|
            0 <= i < combos@.len() ==> sweep_item_post(
                #[trigger] r@[i],
                combos@[i]@,
                sel,
                events@,
                *cfg,
                *costs,
            ),
{
    combos.par_iter().map(|p| sweep_item(p, sel, events, cfg, costs)).collect()
}

/// How many of the parameter sets produce a completed run.
pub open spec fn spec_ok_count(
    combos: Seq<StrategyParams>,
    sel: StrategySelect,
    evs: Seq<MarketEvent>,
    cfg: RunConfig,
    costs: TransactionCosts,
) -> int
    decreases combos.len(),
{
    if combos.len() == 0 {
        0
    } else {
        spec_ok_count(combos.drop_last(), sel, evs, cfg, costs) + if spec_sweep_ok(
            sel,
            combos.last()@,
            evs,
            cfg,
            costs,
        ) {
            1int
        } else {
            0
        }
    }
}

/// One ranked sweep entry: the index of the parameter set it came from and
/// the completed report.
pub open spec fn sweep_entry_post(
    e: (usize, BacktestResult),
    combos: Seq<StrategyParams>,
    sel: StrategySelect,
    evs: Seq<MarketEvent>,
    cfg: RunConfig,
    costs: TransactionCosts,
) -> bool {
    &&& (e.0 as int) < combos.len()
    &&& spec_sweep_ok(sel, combos[e.0 as int]@, evs, cfg, costs)
    &&& result_of_model(e.1, cfg, spec_sweep_model(sel, combos[e.0 as int]@, evs, cfg, costs))
}

/// Run one independent backtest per parameter set, in parallel over the
/// same read-only event data, and rank the completed runs.
///
/// The output holds exactly one entry per parameter set whose run completed
/// (a failed strategy construction or an invalid input drops only that
/// run), labelled with the parameter set's index, each report pinned to its
/// run's outcome, sorted by total return percentage in descending order,
/// with no index repeated.
#[verifier::rlimit(100)]
pub fn run_parallel_backtest(
    parameter_combinations: &Vec<StrategyParams>,
    sel: StrategySelect,
    events: &Vec<MarketEvent>,
    cfg: &RunConfig,
    costs: &TransactionCosts,
) -> (r: Vec<(usize, BacktestResult)>)
    ensures
        r@.len() == spec_ok_count(parameter_combinations@, sel, events@, *cfg, *costs),
        forall|k: int|
            0 <= k < r@.len() ==> sweep_entry_post(
                #[trigger] r@[k],
                parameter_combinations@,
                sel,
                events@,
                *cfg,
                *costs,
            ),
        forall|k1: int, k2: int|
            0 <= k1 < k2 < r@.len() ==> r@[k1].1.total_return_pct >= r@[k2].1.total_return_pct,
        forall|k1: int, k2: int| 0 <= k1 < k2 < r@.len() ==> r@[k1].0 != r@[k2].0,
{
    let outs = par_map_sweep(parameter_combinations, sel, events, cfg, costs);
    let ghost combos = parameter_combinations@;
    let mut rest = outs;
    let mut picked: Vec<(usize, BacktestResult)> = Vec::new();
    let n = parameter_combinations.len();
    let mut i: usize = 0;
    proof {
        assert(combos.take(0) =~= Seq::<StrategyParams>::empty());
    }
    while i < n
        invariant
            n == combos.len(),
            i <= n,
            rest@.len() == n - i,
            forall|j: int|
                0 <= j < rest@.len() ==> sweep_item_post(
                    #[trigger] rest@[j],
                    combos[i + j]@,
                    sel,
                    events@,
                    *cfg,
                    *costs,
                ),
            picked@.len() == spec_ok_count(combos.take(i as int), sel, events@, *cfg, *costs),
            forall|k: int|
                0 <= k < picked@.len() ==> sweep_entry_post(
                    #[trigger] picked@[k],
                    combos,
                    sel,
                    events@,
                    *cfg,
                    *costs,
                ),
            forall|k: int| 0 <= k < picked@.len() ==> (#[trigger] picked@[k]).0 < i,
            forall|k1: int, k2: int| 0 <= k1 < k2 < picked@.len() ==> picked@[k1].0 != picked@[k2].0,
        decreases n - i,
    {
        proof {
            assert(combos.take(i as int + 1).drop_last() =~= combos.take(i as int));
            assert(combos.take(i as int + 1).last() == combos[i as int]);
        }
        let item = rest.remove(0);
        match item {
            Option::Some(res) => {
                picked.push((i, res));
            },
            Option::None => {},
        }
        i += 1;
    }
    proof {
        assert(combos.take(n as int) =~= combos);
    }
    // rank by total return, best first, by repeatedly extracting the
    // largest remaining entry
    let mut src = picked;
    let mut out: Vec<(usize, BacktestResult)> = Vec::new();
    while src.len() > 0
        invariant
            out@.len() + src@.len() == spec_ok_count(combos, sel, events@, *cfg, *costs),
            forall|k: int|
                0 <= k < out@.len() ==> sweep_entry_post(
                    #[trigger] out@[k],
                    combos,
                    sel,
                    events@,
                    *cfg,
                    *costs,
                ),
            forall|k: int|
                0 <= k < src@.len() ==> sweep_entry_post(
                    #[trigger] src@[k],
                    combos,
                    sel,
                    events@,
                    *cfg,
                    *costs,
                ),
            forall|k1: int, k2: int|
                0 <= k1 < k2 < out@.len() ==> out@[k1].1.total_return_pct
                    >= out@[k2].1.total_return_pct,
            forall|a: int, b: int|
                0 <= a < out@.len() && 0 <= b < src@.len() ==> out@[a].1.total_return_pct
                    >= src@[b].1.total_return_pct,
            forall|k1: int, k2: int| 0 <= k1 < k2 < out@.len() ==> out@[k1].0 != out@[k2].0,
            forall|k1: int, k2: int| 0 <= k1 < k2 < src@.len() ==> src@[k1].0 != src@[k2].0,
            forall|a: int, b: int|
                0 <= a < out@.len() && 0 <= b < src@.len() ==> out@[a].0 != src@[b].0,
        decreases src@.len(),
    {
        let m = src.len();
        let mut best: usize = 0;
        let mut j: usize = 1;
        while j < m
            invariant
                m == src@.len(),
                best < j <= m,
                forall|k: int|
                    0 <= k < j ==> src@[best as int].1.total_return_pct
                        >= #[trigger] src@[k].1.total_return_pct,
            decreases m - j,
        {
            if src[j].1.total_return_pct > src[best].1.total_return_pct {
                best = j;
            }
            j += 1;
        }
        let ghost old_src = src@;
        let x = src.remove(best);
        proof {
            assert forall|a: int, b: int|
                0 <= a < b < src@.len() implies src@[a].0 != src@[b].0 by {
                let a0 = if a < best {
                    a
                } else {
                    a + 1
                };
                let b0 = if b < best {
                    b
                } else {
                    b + 1
                };
                assert(src@[a] == old_src[a0] && src@[b] == old_src[b0]);
                assert(old_src[a0].0 != old_src[b0].0);
            }
            assert forall|b: int| 0 <= b < src@.len() implies x.0 != (#[trigger] src@[b]).0 by {
                let b0 = if b < best {
                    b
                } else {
                    b + 1
                };
                assert(src@[b] == old_src[b0]);
            }
            assert forall|b: int|
                0 <= b < src@.len() implies x.1.total_return_pct
                    >= (#[trigger] src@[b]).1.total_return_pct by {
                let b0 = if b < best {
                    b
                } else {
                    b + 1
                };
                assert(src@[b] == old_src[b0]);
            }
            assert forall|b: int|
                0 <= b < src@.len() implies sweep_entry_post(
                    #[trigger] src@[b],
                    combos,
                    sel,
                    events@,
                    *cfg,
                    *costs,
                ) by {
                let b0 = if b < best {
                    b
                } else {
                    b + 1
                };
                assert(src@[b] == old_src[b0]);
            }
        }
        out.push(x);
    }
    out
}

/// Two parameter sets whose strategies emit identical signal traces on the
/// same data reach identical final run states; and since every field of a
/// completed report is pinned to that state by `sweep_entry_post`, repeated
/// sweeps of either set — in any parallel schedule — produce reports equal
/// in every field.
pub proof fn lemma_identical_signals_identical_results(
    sel: StrategySelect,
    p1: Map<Seq<char>, i64>,
    p2: Map<Seq<char>, i64>,
    evs: Seq<MarketEvent>,
    cfg: RunConfig,
    costs: TransactionCosts,
)
    requires
        spec_any_init(sel, p1) is Some,
        spec_any_init(sel, p2) is Some,
        spec_any_signals(spec_any_init(sel, p1).unwrap(), evs) == spec_any_signals(
            spec_any_init(sel, p2).unwrap(),
            evs,
        ),
    ensures
        spec_sweep_model(sel, p1, evs, cfg, costs) == spec_sweep_model(sel, p2, evs, cfg, costs),
{
}

} // verus!
