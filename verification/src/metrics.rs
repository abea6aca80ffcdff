//! The metrics calculator: a pure reduction of an equity curve and a trade
//! list into summary statistics, and the result record of one backtest.

use vstd::arithmetic::div_mod::{lemma_div_is_ordered, lemma_div_multiples_vanish};
use vstd::prelude::*;

use crate::fixed::{clamp_money, in_money, MONEY_MAX, PCT_100};
use crate::ledger::Trade;

verus! {

/// The documented profit-factor cap (one thousand, fixed-point): reported
/// when gross losses are zero but gross profit is positive, so the ratio is
/// never unbounded.
pub const PROFIT_FACTOR_CAP: i64 = 10_000_000;

/// A trade record the metrics can reduce without leaving the machine range.
pub open spec fn trade_wf(t: Trade) -> bool {
    in_money(t.pnl as int) && 0 <= t.transaction_costs <= MONEY_MAX
}

/// The running peak of an equity curve, seeded with the starting equity.
pub open spec fn spec_peak(start: int, curve: Seq<i64>) -> int
    decreases curve.len(),
{
    if curve.len() == 0 {
        start
    } else {
        let p = spec_peak(start, curve.drop_last());
        if curve.last() > p {
            curve.last() as int
        } else {
            p
        }
    }
}

/// The largest peak-to-point drawdown over the curve, never negative.
pub open spec fn spec_max_dd(start: int, curve: Seq<i64>) -> int
    decreases curve.len(),
{
    if curve.len() == 0 {
        0
    } else {
        let prev = spec_max_dd(start, curve.drop_last());
        let dd = spec_peak(start, curve) - curve.last();
        if dd > prev {
            dd
        } else {
            prev
        }
    }
}

/// The largest drawdown as a fixed-point percentage of the peak at that
/// point; a nonpositive peak contributes zero (the zero-division guard).
pub open spec fn spec_max_dd_pct(start: int, curve: Seq<i64>) -> int
    decreases curve.len(),
{
    if curve.len() == 0 {
        0
    } else {
        let prev = spec_max_dd_pct(start, curve.drop_last());
        let peak = spec_peak(start, curve);
        let pct = if peak > 0 {
            (peak - curve.last()) * 1_000_000 / peak
        } else {
            0
        };
        if pct > prev {
            pct
        } else {
            prev
        }
    }
}

/// Sum of the profits of the winning trades.
pub open spec fn spec_gross_profit(trades: Seq<Trade>) -> int
    decreases trades.len(),
{
    if trades.len() == 0 {
        0
    } else {
        spec_gross_profit(trades.drop_last()) + if trades.last().pnl > 0 {
            trades.last().pnl as int
        } else {
            0
        }
    }
}

/// Sum of the magnitudes of the losses of the losing trades.
pub open spec fn spec_gross_loss(trades: Seq<Trade>) -> int
    decreases trades.len(),
{
    if trades.len() == 0 {
        0
    } else {
        spec_gross_loss(trades.drop_last()) + if trades.last().pnl < 0 {
            -(trades.last().pnl as int)
        } else {
            0
        }
    }
}

/// How many trades won (strictly positive PnL).
pub open spec fn spec_winning(trades: Seq<Trade>) -> int
    decreases trades.len(),
{
    if trades.len() == 0 {
        0
    } else {
        spec_winning(trades.drop_last()) + if trades.last().pnl > 0 {
            1int
        } else {
            0
        }
    }
}

/// How many trades lost (strictly negative PnL).
pub open spec fn spec_losing(trades: Seq<Trade>) -> int
    decreases trades.len(),
{
    if trades.len() == 0 {
        0
    } else {
        spec_losing(trades.drop_last()) + if trades.last().pnl < 0 {
            1int
        } else {
            0
        }
    }
}

/// The largest single-trade profit, at least zero.
pub open spec fn spec_largest_win(trades: Seq<Trade>) -> int
    decreases trades.len(),
{
    if trades.len() == 0 {
        0
    } else {
        let prev = spec_largest_win(trades.drop_last());
        if trades.last().pnl > prev {
            trades.last().pnl as int
        } else {
            prev
        }
    }
}

/// The largest single-trade loss (a nonpositive number).
pub open spec fn spec_largest_loss(trades: Seq<Trade>) -> int
    decreases trades.len(),
{
    if trades.len() == 0 {
        0
    } else {
        let prev = spec_largest_loss(trades.drop_last());
        if trades.last().pnl < prev {
            trades.last().pnl as int
        } else {
            prev
        }
    }
}

/// Sum of the recorded transaction costs over all trades.
pub open spec fn spec_total_costs(trades: Seq<Trade>) -> int
    decreases trades.len(),
{
    if trades.len() == 0 {
        0
    } else {
        spec_total_costs(trades.drop_last()) + trades.last().transaction_costs
    }
}

/// Gross profit over gross loss, fixed-point. Zero losses with positive
/// profit report the documented cap; no profit and no loss report zero.
pub open spec fn spec_profit_factor(gp: int, gl: int) -> int {
    if gl == 0 {
        if gp > 0 {
            PROFIT_FACTOR_CAP as int
        } else {
            0
        }
    } else {
        clamp_money(gp * 10_000 / gl) as int
    }
}

/// A fixed-point percentage of `num` relative to a positive base, rounding
/// toward zero; a nonpositive base reports zero (the zero-division guard).
pub open spec fn spec_pct_of(num: int, den: int) -> int {
    if den <= 0 {
        0
    } else if num >= 0 {
        num * 1_000_000 / den
    } else {
        -((-num) * 1_000_000 / den)
    }
}

/// The fixed-point percentage of `num` relative to `den`, clamped into the
/// money range; a nonpositive base reports zero.
pub fn pct_of(num: i64, den: i64) -> (r: i64)
    requires
        -2 * MONEY_MAX <= num <= 2 * MONEY_MAX,
    ensures
        r == clamp_money(spec_pct_of(num as int, den as int)),
{
    if den <= 0 {
        0
    } else if num >= 0 {
        let p: u128 = (num as u128) * 1_000_000 / (den as u128);
        if p > MONEY_MAX as u128 {
            MONEY_MAX
        } else {
            p as i64
        }
    } else {
        let p: u128 = ((-num) as u128) * 1_000_000 / (den as u128);
        if p > MONEY_MAX as u128 {
            -MONEY_MAX
        } else {
            -(p as i64)
        }
    }
}

/// The audited performance report of one backtest: equity trajectory,
/// realized trades, drawdown and cost-adjusted profitability, plus the
/// counts of recovered anomalies. Created once at the end of a run and
/// read-only afterward.
#[derive(Clone, Debug, PartialEq)]
pub struct BacktestResult {
    pub starting_equity: i64,
    pub ending_equity: i64,
    pub total_return: i64,
    pub total_return_pct: i64,
    pub max_drawdown: i64,
    pub max_drawdown_pct: i64,
    pub win_rate: i64,
    pub profit_factor: i64,
    pub total_trades: usize,
    pub winning_trades: usize,
    pub losing_trades: usize,
    pub avg_win: i64,
    pub avg_loss: i64,
    pub largest_win: i64,
    pub largest_loss: i64,
    /// One equity value per processed event, preceded by the starting equity.
    pub equity_curve: Vec<i64>,
    pub trades: Vec<Trade>,
    pub total_transaction_costs: i64,
    /// Trades discarded or fills skipped because a value left the
    /// representable money range or a division had to be guarded.
    pub numeric_anomalies: u64,
    /// Fills skipped because a pending order came due while a position was
    /// already open.
    pub invariant_violations: u64,
}

impl BacktestResult {
    /// Reduce a finished run into its summary statistics. The equity curve
    /// and the trade list are stored unchanged; the anomaly counters start
    /// at zero and are filled in by the engine.
    pub fn calculate_metrics(
        starting_equity: i64,
        ending_equity: i64,
        equity_curve: Vec<i64>,
        trades: Vec<Trade>,
    ) -> (r: Self)
        requires
            in_money(starting_equity as int),
            in_money(ending_equity as int),
            forall|i: int| 0 <= i < equity_curve@.len() ==> in_money(#[trigger] equity_curve@[i] as int),
            forall|i: int| 0 <= i < trades@.len() ==> trade_wf(#[trigger] trades@[i]),
        ensures
            r.starting_equity == starting_equity,
            r.ending_equity == ending_equity,
            r.total_return == ending_equity - starting_equity,
            r.total_return_pct == clamp_money(
                spec_pct_of(ending_equity - starting_equity, starting_equity as int),
            ),
            r.max_drawdown == spec_max_dd(starting_equity as int, equity_curve@),
            r.max_drawdown_pct == clamp_money(spec_max_dd_pct(starting_equity as int, equity_curve@)),
            r.win_rate == (if trades@.len() == 0 {
                0int
            } else {
                spec_winning(trades@) * 1_000_000 / trades@.len() as int
            }),
            r.profit_factor == spec_profit_factor(
                clamp_money(spec_gross_profit(trades@)) as int,
                clamp_money(spec_gross_loss(trades@)) as int,
            ),
            r.total_trades == trades@.len(),
            r.winning_trades == spec_winning(trades@),
            r.losing_trades == spec_losing(trades@),
            r.avg_win == (if spec_winning(trades@) == 0 {
                0int
            } else {
                clamp_money(spec_gross_profit(trades@)) as int / spec_winning(trades@)
            }),
            r.avg_loss == (if spec_losing(trades@) == 0 {
                0int
            } else {
                clamp_money(spec_gross_loss(trades@)) as int / spec_losing(trades@)
            }),
            r.largest_win == spec_largest_win(trades@),
            r.largest_loss == spec_largest_loss(trades@),
            r.equity_curve@ == equity_curve@,
            r.trades@ == trades@,
            r.total_transaction_costs == clamp_money(spec_total_costs(trades@)),
            r.numeric_anomalies == 0,
            r.invariant_violations == 0,
            // The profit factor is always a finite fixed-point number; with no
            // losses it is the documented cap when there is any profit, zero
            // when there is none.
            spec_gross_loss(trades@) == 0 && spec_gross_profit(trades@) > 0 ==> r.profit_factor
                == PROFIT_FACTOR_CAP,
            spec_gross_loss(trades@) == 0 && spec_gross_profit(trades@) == 0 ==> r.profit_factor
                == 0,
            // The drawdown is never negative, and over a nonnegative curve its
            // percentage never exceeds one hundred percent.
            r.max_drawdown >= 0,
            (starting_equity >= 0 && forall|i: int|
                0 <= i < equity_curve@.len() ==> #[trigger] equity_curve@[i] >= 0) ==> 0
                <= r.max_drawdown_pct <= PCT_100,
            0 <= r.win_rate <= PCT_100,
    {
        let ghost start = starting_equity as int;
        let n = equity_curve.len();
        let mut peak: i64 = starting_equity;
        let mut max_dd: i64 = 0;
        let mut max_dd_pct: u128 = 0;
        let mut i: usize = 0;
        while i < n
            invariant
                n == equity_curve@.len(),
                in_money(starting_equity as int),
                forall|j: int| 0 <= j < n ==> in_money(#[trigger] equity_curve@[j] as int),
                i <= n,
                peak == spec_peak(start, equity_curve@.take(i as int)),
                in_money(peak as int),
                max_dd == spec_max_dd(start, equity_curve@.take(i as int)),
                0 <= max_dd,
                max_dd_pct == spec_max_dd_pct(start, equity_curve@.take(i as int)),
            decreases n - i,
        {
            proof {
                assert(equity_curve@.take(i as int + 1).drop_last() =~= equity_curve@.take(
                    i as int,
                ));
                assert(equity_curve@.take(i as int + 1).last() == equity_curve@[i as int]);
                lemma_max_dd_nonneg(start, equity_curve@.take(i as int + 1));
            }
            let point = equity_curve[i];
            if point > peak {
                peak = point;
            }
            let dd: i64 = peak - point;
            if dd > max_dd {
                max_dd = dd;
            }
            if peak > 0 {
                let pct: u128 = (dd as u128) * 1_000_000 / (peak as u128);
                if pct > max_dd_pct {
                    max_dd_pct = pct;
                }
            }
            i += 1;
        }
        proof {
            assert(equity_curve@.take(n as int) =~= equity_curve@);
        }
        let t = trades.len();
        let mut gp: u128 = 0;
        let mut gl: u128 = 0;
        let mut winning: usize = 0;
        let mut losing: usize = 0;
        let mut largest_win: i64 = 0;
        let mut largest_loss: i64 = 0;
        let mut costs_sum: u128 = 0;
        let mut k: usize = 0;
        while k < t
            invariant
                t == trades@.len(),
                forall|j: int| 0 <= j < t ==> trade_wf(#[trigger] trades@[j]),
                k <= t,
                gp == spec_gross_profit(trades@.take(k as int)),
                gl == spec_gross_loss(trades@.take(k as int)),
                gp <= k as int * MONEY_MAX,
                gl <= k as int * MONEY_MAX,
                winning == spec_winning(trades@.take(k as int)),
                losing == spec_losing(trades@.take(k as int)),
                winning <= k,
                losing <= k,
                largest_win == spec_largest_win(trades@.take(k as int)),
                largest_loss == spec_largest_loss(trades@.take(k as int)),
                costs_sum == spec_total_costs(trades@.take(k as int)),
                costs_sum <= k as int * MONEY_MAX,
            decreases t - k,
        {
            proof {
                assert(trades@.take(k as int + 1).drop_last() =~= trades@.take(k as int));
                assert(trades@.take(k as int + 1).last() == trades@[k as int]);
                assert((k as int + 1) * MONEY_MAX == k as int * MONEY_MAX + MONEY_MAX)
                    by (nonlinear_arith);
                assert(k as int * MONEY_MAX + MONEY_MAX
                    < 0x1_0000_0000_0000_0000_0000_0000_0000_0000) by (nonlinear_arith)
                    requires
                        k as int <= 0xffff_ffff_ffff_ffff,
                ;
            }
            let tr = trades[k];
            if tr.pnl > 0 {
                gp = gp + (tr.pnl as u128);
                winning = winning + 1;
            }
            if tr.pnl < 0 {
                gl = gl + ((-tr.pnl) as u128);
                losing = losing + 1;
            }
            if tr.pnl > largest_win {
                largest_win = tr.pnl;
            }
            if tr.pnl < largest_loss {
                largest_loss = tr.pnl;
            }
            costs_sum = costs_sum + (tr.transaction_costs as u128);
            k += 1;
        }
        proof {
            assert(trades@.take(t as int) =~= trades@);
        }
        let gp_c: i64 = if gp > MONEY_MAX as u128 {
            MONEY_MAX
        } else {
            gp as i64
        };
        let gl_c: i64 = if gl > MONEY_MAX as u128 {
            MONEY_MAX
        } else {
            gl as i64
        };
        let profit_factor: i64 = if gl_c == 0 {
            if gp_c > 0 {
                PROFIT_FACTOR_CAP
            } else {
                0
            }
        } else {
            let q: u128 = (gp_c as u128) * 10_000 / (gl_c as u128);
            if q > MONEY_MAX as u128 {
                MONEY_MAX
            } else {
                q as i64
            }
        };
        let win_rate: i64 = if t == 0 {
            0
        } else {
            ((winning as u128) * 1_000_000 / (t as u128)) as i64
        };
        proof {
            if t > 0 {
                assert(winning as int * 1_000_000 <= t as int * 1_000_000) by (nonlinear_arith)
                    requires
                        winning as int <= t as int,
                ;
                lemma_div_is_ordered(winning as int * 1_000_000, t as int * 1_000_000, t as int);
                lemma_div_multiples_vanish(1_000_000, t as int);
                assert(winning as int * 1_000_000 >= 0) by (nonlinear_arith)
                    requires
                        winning as int >= 0,
                ;
            }
        }
        let avg_win: i64 = if winning == 0 {
            0
        } else {
            ((gp_c as u128) / (winning as u128)) as i64
        };
        let avg_loss: i64 = if losing == 0 {
            0
        } else {
            ((gl_c as u128) / (losing as u128)) as i64
        };
        let total_costs: i64 = if costs_sum > MONEY_MAX as u128 {
            MONEY_MAX
        } else {
            costs_sum as i64
        };
        let diff: i64 = ending_equity - starting_equity;
        let total_return_pct: i64 = if starting_equity <= 0 {
            0
        } else if diff >= 0 {
            let p: u128 = (diff as u128) * 1_000_000 / (starting_equity as u128);
            if p > MONEY_MAX as u128 {
                MONEY_MAX
            } else {
                p as i64
            }
        } else {
            let p: u128 = ((-diff) as u128) * 1_000_000 / (starting_equity as u128);
            if p > MONEY_MAX as u128 {
                -MONEY_MAX
            } else {
                -(p as i64)
            }
        };
        let max_dd_pct_c: i64 = if max_dd_pct > MONEY_MAX as u128 {
            MONEY_MAX
        } else {
            max_dd_pct as i64
        };
        proof {
            lemma_dd_pct_nonneg(start, equity_curve@);
            if starting_equity >= 0 && forall|i: int|
                0 <= i < equity_curve@.len() ==> #[trigger] equity_curve@[i] >= 0 {
                lemma_dd_pct_bounded(start, equity_curve@);
            }
        }
        BacktestResult {
            starting_equity,
            ending_equity,
            total_return: diff,
            total_return_pct,
            max_drawdown: max_dd,
            max_drawdown_pct: max_dd_pct_c,
            win_rate,
            profit_factor,
            total_trades: t,
            winning_trades: winning,
            losing_trades: losing,
            avg_win,
            avg_loss,
            largest_win,
            largest_loss,
            equity_curve,
            trades,
            total_transaction_costs: total_costs,
            numeric_anomalies: 0,
            invariant_violations: 0,
        }
    }
}

/// The drawdown percentage is never negative.
pub proof fn lemma_dd_pct_nonneg(start: int, curve: Seq<i64>)
    ensures
        spec_max_dd_pct(start, curve) >= 0,
    decreases curve.len(),
{
    if curve.len() > 0 {
        lemma_dd_pct_nonneg(start, curve.drop_last());
    }
}

/// The drawdown is never negative.
pub proof fn lemma_max_dd_nonneg(start: int, curve: Seq<i64>)
    ensures
        spec_max_dd(start, curve) >= 0,
    decreases curve.len(),
{
    if curve.len() > 0 {
        lemma_max_dd_nonneg(start, curve.drop_last());
    }
}

/// Over a nonnegative curve with a nonnegative seed, the drawdown
/// percentage never exceeds one hundred percent.
pub proof fn lemma_dd_pct_bounded(start: int, curve: Seq<i64>)
    requires
        start >= 0,
        forall|i: int| 0 <= i < curve.len() ==> curve[i] >= 0,
    ensures
        0 <= spec_max_dd_pct(start, curve) <= PCT_100,
    decreases curve.len(),
{
    if curve.len() > 0 {
        assert forall|i: int| 0 <= i < curve.drop_last().len() implies curve.drop_last()[i]
            >= 0 by {
            assert(curve[i] >= 0);
        }
        lemma_dd_pct_bounded(start, curve.drop_last());
        let peak = spec_peak(start, curve);
        if peak > 0 {
            let last = curve.last() as int;
            assert(curve[curve.len() - 1] >= 0);
            let dd = peak - last;
            assert(dd * 1_000_000 <= peak * 1_000_000) by (nonlinear_arith)
                requires
                    dd <= peak,
            ;
            lemma_div_is_ordered(dd * 1_000_000, peak * 1_000_000, peak);
            lemma_div_multiples_vanish(1_000_000, peak);
            assert(dd >= 0);
            assert(dd * 1_000_000 >= 0) by (nonlinear_arith)
                requires
                    dd >= 0,
            ;
        }
    }
}

} // verus!
