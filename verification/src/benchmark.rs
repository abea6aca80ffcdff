//! The buy-and-hold benchmark: one notional position taken at the first
//! relevant event's price and held to the end, computed once for comparison
//! display, never part of the sweep.

use vstd::prelude::*;

use crate::engine::RunConfig;
use crate::event::MarketEvent;
use crate::fixed::{clamp_money, div_tz, in_money, lemma_mul_abs_bound, MONEY_MAX, MULT_CAP,
    PRICE_CAP};
use crate::ledger::{ExitReason, Instrument, Trade, TradeDirection};
use crate::metrics::BacktestResult;
use crate::BacktestError;

verus! {

/// The multiplier the benchmark applies to the underlying, in hundredths: a
/// futures contract's point value; one for everything else (the benchmark
/// holds the underlying itself, never the option contract).
pub open spec fn spec_bench_mult(inst: Instrument) -> int {
    match inst {
        Instrument::Futures { point_value } => point_value as int,
        _ => 100,
    }
}

/// Is this event part of the benchmark's underlying series? When the data
/// combines option trades with the underlying, the option trades are not.
pub open spec fn spec_bench_relevant(ev: MarketEvent, skip_options: bool) -> bool {
    !(skip_options && ev is OptionTrade)
}

/// The fold state of the benchmark: the entry price and time once seen, the
/// last relevant price and time, the held-or-marked equity and its curve,
/// and the count of recovered numeric anomalies.
#[verifier::ext_equal]
pub struct BenchState {
    pub p0: Option<i64>,
    pub p0_ts: u64,
    pub last_p: i64,
    pub last_ts: u64,
    pub equity: i64,
    pub curve: Seq<i64>,
    pub anomalies: u64,
}

/// The buy-and-hold equity mark at price `p`: the per-unit PnL times the
/// committed capital over the entry price, both divisions toward zero.
/// `None` is a numeric anomaly: a nonpositive entry price or a mark outside
/// the money range.
pub open spec fn spec_bench_mark(starting: int, capital: int, mult: int, p0: int, p: int) -> Option<
    i64,
> {
    if p0 <= 0 {
        None
    } else {
        let unit = div_tz((p - p0) * mult, 100);
        let delta = div_tz(unit * capital, p0);
        if in_money(starting + delta) {
            Some((starting + delta) as i64)
        } else {
            None
        }
    }
}

/// One benchmark step: an irrelevant event changes nothing; the first
/// relevant event sets the entry; every relevant event appends the current
/// mark to the curve (held flat, and counted, on an anomaly).
pub open spec fn spec_bench_step(b: BenchState, ev: MarketEvent, skip: bool, cfg: RunConfig) -> BenchState {
    if !spec_bench_relevant(ev, skip) {
        b
    } else {
        let p = ev.spec_price();
        let ts = ev.spec_timestamp();
        let p0 = if b.p0 is Some {
            b.p0.unwrap()
        } else {
            p
        };
        let p0_ts = if b.p0 is Some {
            b.p0_ts
        } else {
            ts
        };
        let capital = cfg.starting_equity * cfg.exposure / 10_000;
        let mult = spec_bench_mult(cfg.instrument);
        match spec_bench_mark(cfg.starting_equity as int, capital, mult, p0 as int, p as int) {
            Some(eq) => BenchState {
                p0: Some(p0),
                p0_ts,
                last_p: p,
                last_ts: ts,
                equity: eq,
                curve: b.curve.push(eq),
                anomalies: b.anomalies,
            },
            None => BenchState {
                p0: Some(p0),
                p0_ts,
                last_p: p,
                last_ts: ts,
                equity: b.equity,
                curve: b.curve.push(b.equity),
                anomalies: crate::engine::bump(b.anomalies),
            },
        }
    }
}

/// The benchmark folded over the event sequence.
pub open spec fn spec_bench_run(
    b: BenchState,
    evs: Seq<MarketEvent>,
    skip: bool,
    cfg: RunConfig,
) -> BenchState
    decreases evs.len(),
{
    if evs.len() == 0 {
        b
    } else {
        spec_bench_run(spec_bench_step(b, evs[0], skip, cfg), evs.drop_first(), skip, cfg)
    }
}

/// The state the benchmark starts in.
pub open spec fn spec_bench_init(cfg: RunConfig) -> BenchState {
    BenchState {
        p0: None,
        p0_ts: 0,
        last_p: 0,
        last_ts: 0,
        equity: cfg.starting_equity,
        curve: seq![cfg.starting_equity],
        anomalies: 0,
    }
}

/// The single round-trip record the benchmark reports.
pub open spec fn spec_bench_trade(b: BenchState, cfg: RunConfig) -> Trade {
    let p0 = b.p0.unwrap() as int;
    let capital = cfg.starting_equity * cfg.exposure / 10_000;
    let mult = spec_bench_mult(cfg.instrument);
    Trade {
        entry_ts: b.p0_ts,
        exit_ts: b.last_ts,
        entry_price: b.p0.unwrap(),
        exit_price: b.last_p,
        size: clamp_money(
            if p0 > 0 {
                capital * 10_000 / p0
            } else {
                0
            },
        ),
        pnl: clamp_money(
            if p0 > 0 {
                div_tz(div_tz((b.last_p - p0) * mult, 100) * capital, p0)
            } else {
                0
            },
        ),
        pnl_pct: clamp_money(crate::metrics::spec_pct_of(b.last_p - p0, p0)),
        trade_type: TradeDirection::Benchmark,
        exit_reason: ExitReason::End,
        transaction_costs: 0,
    }
}

/// The benchmark fold preserves the ranges the metrics need, appends one
/// curve point per relevant event, and never unsets the entry price.
pub proof fn lemma_bench_run_inv(b: BenchState, evs: Seq<MarketEvent>, skip: bool, cfg: RunConfig)
    requires
        cfg.wf(),
        in_money(b.equity as int),
        forall|i: int| 0 <= i < b.curve.len() ==> in_money(#[trigger] b.curve[i] as int),
        forall|i: int| 0 <= i < evs.len() ==> (#[trigger] evs[i]).wf(),
        b.curve.len() >= 1,
    ensures
        in_money(spec_bench_run(b, evs, skip, cfg).equity as int),
        forall|i: int|
            0 <= i < spec_bench_run(b, evs, skip, cfg).curve.len() ==> in_money(
                #[trigger] spec_bench_run(b, evs, skip, cfg).curve[i] as int,
            ),
        spec_bench_run(b, evs, skip, cfg).curve.len() >= b.curve.len(),
        spec_bench_run(b, evs, skip, cfg).curve[0] == b.curve[0],
        b.p0 is Some ==> spec_bench_run(b, evs, skip, cfg).p0 == b.p0,
    decreases evs.len(),
{
    if evs.len() > 0 {
        let b1 = spec_bench_step(b, evs[0], skip, cfg);
        assert forall|i: int| 0 <= i < evs.drop_first().len() implies (#[trigger] evs.drop_first()[i]).wf() by {
            assert(evs[i + 1].wf());
        }
        lemma_bench_run_inv(b1, evs.drop_first(), skip, cfg);
    }
}

/// Compute the buy-and-hold benchmark over the event series: enter at the
/// first relevant price with `floor(starting * exposure) / entry` units and
/// mark to market at every later relevant price.
///
/// Succeeds exactly when the configuration and every event are well formed
/// and at least one relevant event exists (else there is no underlying data
/// to hold, a data error). The report is the metrics reduction of the
/// benchmark curve with its single round-trip trade, the anomaly counter
/// carrying the marks that had to be held.
#[verifier::rlimit(100)]
pub fn calculate_benchmark(
    events: &Vec<MarketEvent>,
    config: &RunConfig,
    skip_options: bool,
) -> (r: Result<BacktestResult, BacktestError>)
    ensures
        r is Ok <==> (config.wf() && (forall|i: int|
            0 <= i < events@.len() ==> (#[trigger] events@[i]).wf()) && exists|i: int|
            0 <= i < events@.len() && spec_bench_relevant(#[trigger] events@[i], skip_options)),
        r matches Err(e) ==> (if !config.wf() {
            e == BacktestError::Configuration
        } else {
            e == BacktestError::Data
        }),
        r matches Ok(res) ==> {
            let b = spec_bench_run(spec_bench_init(*config), events@, skip_options, *config);
            &&& res.starting_equity == config.starting_equity
            &&& res.ending_equity == b.equity
            &&& res.equity_curve@ == b.curve
            &&& res.trades@ == seq![spec_bench_trade(b, *config)]
            &&& res.numeric_anomalies == b.anomalies
            &&& res.invariant_violations == 0
            &&& res.max_drawdown == crate::metrics::spec_max_dd(
                config.starting_equity as int,
                b.curve,
            )
            &&& res.total_return == b.equity - config.starting_equity
        },
{
    if !config.check() {
        return Err(BacktestError::Configuration);
    }
    let n = events.len();
    let mut v: usize = 0;
    while v < n
        invariant
            n == events@.len(),
            v <= n,
            config.wf(),
            forall|j: int| 0 <= j < v ==> (#[trigger] events@[j]).wf(),
        decreases n - v,
    {
        if !events[v].check_wf() {
            return Err(BacktestError::Data);
        }
        v += 1;
    }
    proof {
        lemma_mul_abs_bound(config.starting_equity as int, config.exposure as int, MONEY_MAX as int, 10_000);
        vstd::arithmetic::div_mod::lemma_div_is_ordered(
            config.starting_equity as int * config.exposure as int,
            MONEY_MAX as int * 10_000,
            10_000,
        );
        vstd::arithmetic::div_mod::lemma_div_is_ordered(
            0,
            config.starting_equity as int * config.exposure as int,
            10_000,
        );
    }
    let capital: i64 = ((config.starting_equity as i128) * (config.exposure as i128) / 10_000)
        as i64;
    let mult: u64 = match config.instrument {
        Instrument::Futures { point_value } => point_value,
        _ => 100,
    };
    let mut p0: Option<i64> = None;
    let mut p0_ts: u64 = 0;
    let mut last_p: i64 = 0;
    let mut last_ts: u64 = 0;
    let mut equity: i64 = config.starting_equity;
    let mut curve: Vec<i64> = Vec::new();
    curve.push(config.starting_equity);
    let mut anomalies: u64 = 0;
    let ghost binit = spec_bench_init(*config);
    proof {
        assert(events@.take(0) =~= Seq::<MarketEvent>::empty());
    }
    let mut i: usize = 0;
    while i < n
        invariant
            n == events@.len(),
            i <= n,
            config.wf(),
            capital == config.starting_equity * config.exposure / 10_000,
            0 <= capital <= MONEY_MAX,
            mult == spec_bench_mult(config.instrument),
            0 < mult <= MULT_CAP,
            forall|j: int| 0 <= j < n ==> (#[trigger] events@[j]).wf(),
            spec_bench_run(binit, events@.take(i as int), skip_options, *config) == (BenchState {
                p0,
                p0_ts,
                last_p,
                last_ts,
                equity,
                curve: curve@,
                anomalies,
            }),
            in_money(equity as int),
            p0 matches Some(e) ==> 0 <= e <= PRICE_CAP,
            0 <= last_p <= PRICE_CAP,
        decreases n - i,
    {
        let ghost bcur = spec_bench_run(binit, events@.take(i as int), skip_options, *config);
        proof {
            lemma_bench_snoc(binit, events@.take(i as int), events@[i as int], skip_options, *config);
            assert(events@.take(i as int).push(events@[i as int]) =~= events@.take(i as int + 1));
        }
        let ev = &events[i];
        let relevant = !(skip_options && matches!(ev, MarketEvent::OptionTrade(_)));
        if relevant {
            let p = ev.price();
            let ts = ev.timestamp();
            let entry: i64 = match p0 {
                Option::Some(e) => e,
                Option::None => p,
            };
            let entry_ts: u64 = match p0 {
                Option::Some(_) => p0_ts,
                Option::None => ts,
            };
            if entry <= 0 {
                anomalies = if anomalies == u64::MAX {
                    anomalies
                } else {
                    anomalies + 1
                };
                curve.push(equity);
            } else {
                proof {
                    lemma_mul_abs_bound(
                        p - entry,
                        mult as int,
                        PRICE_CAP as int,
                        MULT_CAP as int,
                    );
                }
                let diff_scaled: i128 = ((p as i128) - (entry as i128)) * (mult as i128);
                let unit: i128 = if diff_scaled >= 0 {
                    diff_scaled / 100
                } else {
                    -((-diff_scaled) / 100)
                };
                proof {
                    lemma_div_tz_abs(diff_scaled as int, 100, PRICE_CAP as int * MULT_CAP as int);
                    lemma_mul_abs_bound(
                        unit as int,
                        capital as int,
                        PRICE_CAP as int * MULT_CAP as int / 100,
                        MONEY_MAX as int,
                    );
                }
                let prod: i128 = unit * (capital as i128);
                let delta: i128 = if prod >= 0 {
                    prod / (entry as i128)
                } else {
                    -((-prod) / (entry as i128))
                };
                proof {
                    lemma_div_tz_abs(
                        prod as int,
                        entry as int,
                        (PRICE_CAP as int * MULT_CAP as int / 100) * MONEY_MAX as int,
                    );
                }
                let marked: i128 = (config.starting_equity as i128) + delta;
                if -MONEY_MAX as i128 <= marked && marked <= MONEY_MAX as i128 {
                    equity = marked as i64;
                    curve.push(equity);
                } else {
                    anomalies = if anomalies == u64::MAX {
                        anomalies
                    } else {
                        anomalies + 1
                    };
                    curve.push(equity);
                }
            }
            p0 = Some(entry);
            p0_ts = entry_ts;
            last_p = p;
            last_ts = ts;
        }
        proof {
            assert((BenchState { p0, p0_ts, last_p, last_ts, equity, curve: curve@, anomalies })
                =~= spec_bench_step(bcur, events@[i as int], skip_options, *config));
        }
        i += 1;
    }
    proof {
        assert(events@.take(n as int) =~= events@);
    }
    let ghost bfin = spec_bench_run(binit, events@, skip_options, *config);
    let entry: i64 = match p0 {
        Option::Some(e) => e,
        Option::None => {
            proof {
                lemma_bench_no_relevant(binit, events@, skip_options, *config);
            }
            return Err(BacktestError::Data);
        },
    };
    proof {
        lemma_bench_p0_source(binit, events@, skip_options, *config);
    }
    let size: i64 = if entry > 0 {
        proof {
            lemma_mul_abs_bound(capital as int, 10_000, MONEY_MAX as int, 10_000);
            vstd::arithmetic::div_mod::lemma_div_is_ordered(
                0,
                capital as int * 10_000,
                entry as int,
            );
        }
        let q: i128 = (capital as i128) * 10_000 / (entry as i128);
        if q > MONEY_MAX as i128 {
            MONEY_MAX
        } else {
            q as i64
        }
    } else {
        0
    };
    let pnl: i64 = if entry > 0 {
        proof {
            lemma_mul_abs_bound(last_p - entry, mult as int, PRICE_CAP as int, MULT_CAP as int);
        }
        let diff_scaled: i128 = ((last_p as i128) - (entry as i128)) * (mult as i128);
        let unit: i128 = if diff_scaled >= 0 {
            diff_scaled / 100
        } else {
            -((-diff_scaled) / 100)
        };
        proof {
            lemma_div_tz_abs(diff_scaled as int, 100, PRICE_CAP as int * MULT_CAP as int);
            lemma_mul_abs_bound(
                unit as int,
                capital as int,
                PRICE_CAP as int * MULT_CAP as int / 100,
                MONEY_MAX as int,
            );
        }
        let prod: i128 = unit * (capital as i128);
        let delta: i128 = if prod >= 0 {
            prod / (entry as i128)
        } else {
            -((-prod) / (entry as i128))
        };
        if delta > MONEY_MAX as i128 {
            MONEY_MAX
        } else if delta < -MONEY_MAX as i128 {
            -MONEY_MAX
        } else {
            delta as i64
        }
    } else {
        0
    };
    let pnl_pct: i64 = crate::metrics::pct_of(last_p - entry, entry);
    let trade = Trade {
        entry_ts: p0_ts,
        exit_ts: last_ts,
        entry_price: entry,
        exit_price: last_p,
        size,
        pnl,
        pnl_pct,
        trade_type: TradeDirection::Benchmark,
        exit_reason: ExitReason::End,
        transaction_costs: 0,
    };
    proof {
        assert(trade == spec_bench_trade(bfin, *config));
        lemma_bench_run_inv(binit, events@, skip_options, *config);
        assert forall|j: int| 0 <= j < curve@.len() implies in_money(#[trigger] curve@[j] as int) by {
            assert(in_money(bfin.curve[j] as int));
        }
    }
    let mut trades: Vec<Trade> = Vec::new();
    trades.push(trade);
    proof {
        assert(trades@ =~= seq![spec_bench_trade(bfin, *config)]);
    }
    let mut res = BacktestResult::calculate_metrics(config.starting_equity, equity, curve, trades);
    res.numeric_anomalies = anomalies;
    Ok(res)
}

/// Toward-zero division by a positive divisor keeps a bound on the
/// magnitude.
proof fn lemma_div_tz_abs(a: int, d: int, aa: int)
    requires
        d > 0,
        -aa <= a <= aa,
        0 <= aa,
    ensures
        -(aa / d) <= div_tz(a, d) <= aa / d,
        div_tz(a, d) == (if a >= 0 {
            a / d
        } else {
            -((-a) / d)
        }),
{
    if a >= 0 {
        vstd::arithmetic::div_mod::lemma_div_is_ordered(a, aa, d);
        vstd::arithmetic::div_mod::lemma_div_is_ordered(0, a, d);
    } else {
        vstd::arithmetic::div_mod::lemma_div_is_ordered(-a, aa, d);
        vstd::arithmetic::div_mod::lemma_div_is_ordered(0, -a, d);
    }
}

/// If the fold never saw a relevant event, none exists.
proof fn lemma_bench_no_relevant(b: BenchState, evs: Seq<MarketEvent>, skip: bool, cfg: RunConfig)
    requires
        spec_bench_run(b, evs, skip, cfg).p0 is None,
    ensures
        forall|i: int| 0 <= i < evs.len() ==> !spec_bench_relevant(#[trigger] evs[i], skip),
        b.p0 is None,
    decreases evs.len(),
{
    if evs.len() > 0 {
        lemma_bench_no_relevant(
            spec_bench_step(b, evs[0], skip, cfg),
            evs.drop_first(),
            skip,
            cfg,
        );
        assert forall|i: int| 0 <= i < evs.len() implies !spec_bench_relevant(
            #[trigger] evs[i],
            skip,
        ) by {
            if i > 0 {
                assert(!spec_bench_relevant(evs.drop_first()[i - 1], skip));
            }
        }
    }
}

/// If the fold set an entry price that was not set before, it saw a
/// relevant event.
proof fn lemma_bench_p0_source(b: BenchState, evs: Seq<MarketEvent>, skip: bool, cfg: RunConfig)
    requires
        b.p0 is None,
        spec_bench_run(b, evs, skip, cfg).p0 is Some,
    ensures
        exists|i: int| 0 <= i < evs.len() && spec_bench_relevant(#[trigger] evs[i], skip),
    decreases evs.len(),
{
    if spec_bench_relevant(evs[0], skip) {
        assert(spec_bench_relevant(evs[0], skip));
    } else {
        lemma_bench_p0_source(
            spec_bench_step(b, evs[0], skip, cfg),
            evs.drop_first(),
            skip,
            cfg,
        );
        let i = choose|i: int|
            0 <= i < evs.drop_first().len() && spec_bench_relevant(
                #[trigger] evs.drop_first()[i],
                skip,
            );
        assert(spec_bench_relevant(evs[i + 1], skip));
    }
}

/// Folding one more event is one more step.
proof fn lemma_bench_snoc(
    b: BenchState,
    evs: Seq<MarketEvent>,
    ev: MarketEvent,
    skip: bool,
    cfg: RunConfig,
)
    ensures
        spec_bench_run(b, evs.push(ev), skip, cfg) == spec_bench_step(
            spec_bench_run(b, evs, skip, cfg),
            ev,
            skip,
            cfg,
        ),
    decreases evs.len(),
{
    let ep = evs.push(ev);
    if evs.len() == 0 {
        assert(ep[0] == ev);
        let b1 = spec_bench_step(b, ev, skip, cfg);
        assert(spec_bench_run(b, ep, skip, cfg) == spec_bench_run(
            b1,
            ep.drop_first(),
            skip,
            cfg,
        ));
        assert(ep.drop_first().len() == 0);
        assert(spec_bench_run(b, evs, skip, cfg) == b);
    } else {
        assert(ep[0] == evs[0]);
        let b1 = spec_bench_step(b, evs[0], skip, cfg);
        assert(spec_bench_run(b, ep, skip, cfg) == spec_bench_run(
            b1,
            ep.drop_first(),
            skip,
            cfg,
        ));
        assert(ep.drop_first() =~= evs.drop_first().push(ev));
        lemma_bench_snoc(b1, evs.drop_first(), ev, skip, cfg);
        assert(spec_bench_run(b, evs, skip, cfg) == spec_bench_run(
            b1,
            evs.drop_first(),
            skip,
            cfg,
        ));
    }
}

} // verus!
