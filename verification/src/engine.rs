//! The backtest engine: exchange-like order-fill timing, the event loop and
//! the buy-and-hold benchmark.
//!
//! Fill rules: a market order emitted on one event fills at the *next*
//! event's representative price (no look-ahead); a limit order rests until a
//! future bar crosses its price, and of several simultaneously eligible
//! limit orders only the first in submission order fills per step, the rest
//! remain pending. A fill that comes due while a position is already open is
//! skipped and counted as an invariant violation; any value that leaves the
//! representable range is a counted numeric anomaly, recovered by holding
//! the last good state.

use vstd::prelude::*;

use crate::costs::{spec_adjust, spec_side_cost_capped, TransactionCosts};
use crate::event::MarketEvent;
use crate::fixed::{clamp_money, in_money, MONEY_MAX, MULT_CAP, PRICE_CAP, SIZE_CAP};
use crate::ledger::{spec_pnl_side, ExitReason, Instrument, Position, Trade, TradeDirection};
use crate::metrics::{pct_of, spec_gross_loss, spec_gross_profit, spec_largest_loss,
    spec_largest_win, spec_losing, spec_max_dd, spec_max_dd_pct, spec_pct_of, spec_profit_factor,
    spec_total_costs, spec_winning, trade_wf, BacktestResult};
use crate::strategies::{lemma_any_signals_len, lemma_any_signals_snoc, spec_any_signals,
    spec_any_state, AnyStrategy};
use crate::strategy::{Order, OrderType, Strategy};
use crate::BacktestError;

verus! {

/// Run-level configuration: starting equity, the fraction of equity
/// committed to each new position, and the instrument class that selects
/// the PnL multiplier.
#[derive(Clone, Copy, Debug, PartialEq, Eq, Structural)]
pub struct RunConfig {
    pub starting_equity: i64,
    /// Exposure fraction in fixed-point: `10_000` commits all equity.
    pub exposure: i64,
    pub instrument: Instrument,
}

impl RunConfig {
    /// Starting equity is positive, the exposure fraction lies in (0, 1],
    /// and the instrument multiplier is in range.
    pub open spec fn wf(self) -> bool {
        0 < self.starting_equity <= MONEY_MAX && 0 < self.exposure <= 10_000
            && self.instrument.wf()
    }

    pub fn check(&self) -> (b: bool)
        ensures
            b == self.wf(),
    {
        0 < self.starting_equity && self.starting_equity <= MONEY_MAX && 0 < self.exposure
            && self.exposure <= 10_000 && (match self.instrument {
            Instrument::Futures { point_value } => 0 < point_value
                && point_value <= crate::fixed::MULT_CAP,
            _ => true,
        })
    }
}

/// The mathematical state of one running simulation.
#[verifier::ext_equal]
pub struct RunModel {
    pub equity: i64,
    pub position: Position,
    pub trades: Seq<Trade>,
    pub curve: Seq<i64>,
    pub pending_market: Option<Order>,
    pub pending_limits: Seq<Order>,
    pub numeric_anomalies: u64,
    pub invariant_violations: u64,
}

/// Saturating counter increment.
pub open spec fn bump(c: u64) -> u64 {
    if c == u64::MAX {
        c
    } else {
        (c + 1) as u64
    }
}

/// The state a run starts in: flat, with the starting equity as the one
/// seed point of the equity curve.
pub open spec fn spec_init(cfg: RunConfig) -> RunModel {
    RunModel {
        equity: cfg.starting_equity,
        position: Position::Neutral,
        trades: Seq::empty(),
        curve: seq![cfg.starting_equity],
        pending_market: None,
        pending_limits: Seq::empty(),
        numeric_anomalies: 0,
        invariant_violations: 0,
    }
}

/// Every quantity of the state sits in its representable range.
pub open spec fn model_inv(m: RunModel) -> bool {
    &&& in_money(m.equity as int)
    &&& m.position.wf()
    &&& forall|i: int| 0 <= i < m.trades.len() ==> trade_wf(#[trigger] m.trades[i])
    &&& forall|i: int| 0 <= i < m.curve.len() ==> in_money(#[trigger] m.curve[i] as int)
}

/// Does this event cross the limit price of a pending limit order? A limit
/// buy fills when the bar's low reaches down to its price, a limit sell
/// when the bar's high reaches up to it.
pub open spec fn spec_should_fill(order: Order, ev: MarketEvent) -> bool {
    match order.order_type {
        OrderType::LimitBuy => ev.spec_low() <= order.price,
        OrderType::LimitSell => ev.spec_high() >= order.price,
        _ => false,
    }
}

/// The first pending limit order, in submission order, that this event
/// makes eligible.
pub open spec fn spec_first_eligible(limits: Seq<Order>, ev: MarketEvent) -> Option<int>
    decreases limits.len(),
{
    if limits.len() == 0 {
        None
    } else if spec_should_fill(limits[0], ev) {
        Some(0int)
    } else {
        match spec_first_eligible(limits.drop_first(), ev) {
            None => None,
            Some(j) => Some(j + 1),
        }
    }
}

/// Try to open a position of `size = floor((equity * exposure) / notional)`
/// units at `price`, the notional being the price times the instrument
/// multiplier. `None` is a numeric anomaly: a nonpositive or out-of-range
/// price, a size beyond the cap, or an adjusted entry outside (0, cap].
/// Nonpositive equity affords nothing, so the size is zero.
pub open spec fn spec_try_open(
    equity: i64,
    cfg: RunConfig,
    price: int,
    is_buy: bool,
    ts: u64,
    costs: TransactionCosts,
) -> Option<Position> {
    if price <= 0 || price > PRICE_CAP {
        None
    } else {
        let size = if equity <= 0 {
            0int
        } else {
            equity * cfg.exposure * 100 / (10_000 * price * cfg.instrument.spec_mult())
        };
        if size > SIZE_CAP {
            None
        } else {
            match spec_adjust(costs, price, size, is_buy) {
                None => None,
                Some(e) => if 0 < e <= PRICE_CAP {
                    if is_buy {
                        Some(Position::Long { entry: e, size: size as u64, entry_ts: ts })
                    } else {
                        Some(Position::Short { entry: e, size: size as u64, entry_ts: ts })
                    }
                } else {
                    None
                },
            }
        }
    }
}

/// Phase one: while flat, fill the first eligible pending limit order at
/// its limit price; the rest remain pending. The eligible order is consumed
/// even when its fill fails on a numeric anomaly.
pub open spec fn spec_limit_phase(
    m: RunModel,
    ev: MarketEvent,
    cfg: RunConfig,
    costs: TransactionCosts,
) -> RunModel {
    if !(m.position is Neutral) {
        m
    } else {
        match spec_first_eligible(m.pending_limits, ev) {
            None => m,
            Some(i) => {
                let o = m.pending_limits[i];
                let rest = m.pending_limits.remove(i);
                match spec_try_open(
                    m.equity,
                    cfg,
                    o.price as int,
                    o.order_type == OrderType::LimitBuy,
                    ev.spec_timestamp(),
                    costs,
                ) {
                    Some(pos) => RunModel { position: pos, pending_limits: rest, ..m },
                    None => RunModel {
                        pending_limits: rest,
                        numeric_anomalies: bump(m.numeric_anomalies),
                        ..m
                    },
                }
            },
        }
    }
}

/// Phase two: a queued market order fills at this event's representative
/// price, one step after it was emitted. If a position is already open the
/// fill is skipped and counted as an invariant violation; either way the
/// order is consumed.
pub open spec fn spec_market_phase(
    m: RunModel,
    ev: MarketEvent,
    cfg: RunConfig,
    costs: TransactionCosts,
) -> RunModel {
    match m.pending_market {
        None => m,
        Some(o) => {
            if !(m.position is Neutral) {
                RunModel {
                    pending_market: None,
                    invariant_violations: bump(m.invariant_violations),
                    ..m
                }
            } else {
                match spec_try_open(
                    m.equity,
                    cfg,
                    ev.spec_rep_price() as int,
                    o.order_type == OrderType::MarketBuy,
                    ev.spec_timestamp(),
                    costs,
                ) {
                    Some(pos) => RunModel { pending_market: None, position: pos, ..m },
                    None => RunModel {
                        pending_market: None,
                        numeric_anomalies: bump(m.numeric_anomalies),
                        ..m
                    },
                }
            }
        },
    }
}

/// Closing a position: adjust the order price for costs, realize the PnL
/// net of both sides' costs, record the trade and return to flat. Any
/// anomaly (out-of-range order price, failed adjustment, nonpositive exit,
/// unrepresentable PnL or equity) discards the exit, holds the state and
/// counts once.
pub open spec fn spec_close(
    m: RunModel,
    is_long: bool,
    entry: i64,
    size: u64,
    entry_ts: u64,
    order_price: i64,
    ev: MarketEvent,
    costs: TransactionCosts,
    inst: Instrument,
) -> RunModel {
    let anomaly = RunModel { numeric_anomalies: bump(m.numeric_anomalies), ..m };
    if !(0 <= order_price <= PRICE_CAP) {
        anomaly
    } else {
        match spec_adjust(costs, order_price as int, size as int, !is_long) {
            None => anomaly,
            Some(x) => if x <= 0 || x > PRICE_CAP {
                anomaly
            } else {
                let vol = ev.spec_volume() as int;
                match spec_pnl_side(is_long, entry as int, x as int, size as int, costs, vol, inst) {
                    None => anomaly,
                    Some(p) => if !in_money(m.equity + p) {
                        anomaly
                    } else {
                        let ec = spec_side_cost_capped(costs, entry as int, size as int, vol).unwrap();
                        let xc = spec_side_cost_capped(costs, x as int, size as int, vol).unwrap();
                        let trade = Trade {
                            entry_ts,
                            exit_ts: ev.spec_timestamp(),
                            entry_price: entry,
                            exit_price: x,
                            size: (size * 10_000) as i64,
                            pnl: p,
                            pnl_pct: clamp_money(
                                if is_long {
                                    spec_pct_of(x - entry, entry as int)
                                } else {
                                    spec_pct_of(entry - x, x as int)
                                },
                            ),
                            trade_type: if is_long {
                                TradeDirection::Long
                            } else {
                                TradeDirection::Short
                            },
                            exit_reason: ExitReason::Strategy,
                            transaction_costs: clamp_money(ec + xc),
                        };
                        RunModel {
                            equity: (m.equity + p) as i64,
                            position: Position::Neutral,
                            trades: m.trades.push(trade),
                            ..m
                        }
                    },
                }
            },
        }
    }
}

/// Phase three: act on the order the strategy emitted on this event. An
/// opposite-direction market order while in a position exits immediately at
/// the (cost-adjusted) order price; while flat, market orders queue for the
/// next event and limit orders join the pending list; a same-direction or
/// limit order while in a position is ignored (no pyramiding).
pub open spec fn spec_signal_phase(
    m: RunModel,
    sig: Option<Order>,
    ev: MarketEvent,
    cfg: RunConfig,
    costs: TransactionCosts,
) -> RunModel {
    match sig {
        None => m,
        Some(o) => match m.position {
            Position::Long { entry, size, entry_ts } => {
                if o.order_type == OrderType::MarketSell {
                    spec_close(m, true, entry, size, entry_ts, o.price, ev, costs, cfg.instrument)
                } else {
                    m
                }
            },
            Position::Short { entry, size, entry_ts } => {
                if o.order_type == OrderType::MarketBuy {
                    spec_close(m, false, entry, size, entry_ts, o.price, ev, costs, cfg.instrument)
                } else {
                    m
                }
            },
            Position::Neutral => match o.order_type {
                OrderType::MarketBuy => RunModel { pending_market: Some(o), ..m },
                OrderType::MarketSell => RunModel { pending_market: Some(o), ..m },
                OrderType::LimitBuy => RunModel { pending_limits: m.pending_limits.push(o), ..m },
                OrderType::LimitSell => RunModel { pending_limits: m.pending_limits.push(o), ..m },
            },
        },
    }
}

/// Phase four: append the mark-to-market equity (realized only, an open
/// position is not marked) to the equity curve.
pub open spec fn spec_curve_phase(m: RunModel) -> RunModel {
    RunModel { curve: m.curve.push(m.equity), ..m }
}

/// One full engine step for one event: limit fills, then the queued market
/// fill, then the strategy's order, then the equity-curve append.
pub open spec fn spec_step(
    m: RunModel,
    sig: Option<Order>,
    ev: MarketEvent,
    cfg: RunConfig,
    costs: TransactionCosts,
) -> RunModel {
    spec_curve_phase(
        spec_signal_phase(spec_market_phase(spec_limit_phase(m, ev, cfg, costs), ev, cfg, costs), sig, ev, cfg, costs),
    )
}

/// The engine folded over an event sequence with the matching sequence of
/// strategy signals.
pub open spec fn spec_run(
    m: RunModel,
    sigs: Seq<Option<Order>>,
    evs: Seq<MarketEvent>,
    cfg: RunConfig,
    costs: TransactionCosts,
) -> RunModel
    decreases evs.len(),
{
    if evs.len() == 0 {
        m
    } else {
        spec_run(
            spec_step(m, sigs[0], evs[0], cfg, costs),
            sigs.drop_first(),
            evs.drop_first(),
            cfg,
            costs,
        )
    }
}

/// A successfully opened position is well formed.
proof fn lemma_try_open_wf(
    equity: i64,
    cfg: RunConfig,
    price: int,
    is_buy: bool,
    ts: u64,
    costs: TransactionCosts,
)
    requires
        cfg.wf(),
    ensures
        spec_try_open(equity, cfg, price, is_buy, ts, costs) matches Some(pos) ==> pos.wf(),
{
    if 0 < price <= PRICE_CAP {
        let size = if equity <= 0 {
            0int
        } else {
            equity * cfg.exposure * 100 / (10_000 * price * cfg.instrument.spec_mult())
        };
        if equity > 0 {
            let mult = cfg.instrument.spec_mult();
            assert(mult > 0);
            let num = equity * cfg.exposure * 100;
            let den = 10_000 * price * mult;
            assert(num >= 0) by (nonlinear_arith)
                requires
                    equity > 0,
                    cfg.exposure > 0,
                    num == equity * cfg.exposure * 100,
            ;
            assert(den > 0) by (nonlinear_arith)
                requires
                    price > 0,
                    mult > 0,
                    den == 10_000 * price * mult,
            ;
            vstd::arithmetic::div_mod::lemma_div_is_ordered(0, num, den);
        }
        assert(size >= 0);
    }
}

/// The limit-fill phase preserves the state invariant.
proof fn lemma_limit_phase_inv(m: RunModel, ev: MarketEvent, cfg: RunConfig, costs: TransactionCosts)
    requires
        model_inv(m),
        cfg.wf(),
    ensures
        model_inv(spec_limit_phase(m, ev, cfg, costs)),
{
    if m.position is Neutral && spec_first_eligible(m.pending_limits, ev) is Some {
        let i = spec_first_eligible(m.pending_limits, ev).unwrap();
        let o = m.pending_limits[i];
        lemma_try_open_wf(
            m.equity,
            cfg,
            o.price as int,
            o.order_type == OrderType::LimitBuy,
            ev.spec_timestamp(),
            costs,
        );
    }
}

/// The market-fill phase preserves the state invariant.
proof fn lemma_market_phase_inv(
    m: RunModel,
    ev: MarketEvent,
    cfg: RunConfig,
    costs: TransactionCosts,
)
    requires
        model_inv(m),
        cfg.wf(),
    ensures
        model_inv(spec_market_phase(m, ev, cfg, costs)),
{
    if m.position is Neutral && m.pending_market is Some {
        let o = m.pending_market.unwrap();
        lemma_try_open_wf(
            m.equity,
            cfg,
            ev.spec_rep_price() as int,
            o.order_type == OrderType::MarketBuy,
            ev.spec_timestamp(),
            costs,
        );
    }
}

/// One step preserves the state invariant and appends exactly one point to
/// the equity curve, leaving earlier points unchanged.
pub proof fn lemma_step_inv(
    m: RunModel,
    sig: Option<Order>,
    ev: MarketEvent,
    cfg: RunConfig,
    costs: TransactionCosts,
)
    requires
        model_inv(m),
        ev.wf(),
        cfg.wf(),
        costs.wf(),
    ensures
        model_inv(spec_step(m, sig, ev, cfg, costs)),
        spec_step(m, sig, ev, cfg, costs).curve.len() == m.curve.len() + 1,
        forall|i: int|
            0 <= i < m.curve.len() ==> spec_step(m, sig, ev, cfg, costs).curve[i] == m.curve[i],
{
    let m1 = spec_limit_phase(m, ev, cfg, costs);
    let m2 = spec_market_phase(m1, ev, cfg, costs);
    let m3 = spec_signal_phase(m2, sig, ev, cfg, costs);
    lemma_limit_phase_inv(m, ev, cfg, costs);
    lemma_market_phase_inv(m1, ev, cfg, costs);
    assert(model_inv(m3)) by {
        if sig is Some {
            let o = sig.unwrap();
            match m2.position {
                Position::Long { entry, size, entry_ts } => {
                    if o.order_type == OrderType::MarketSell {
                        lemma_close_inv(m2, true, entry, size, entry_ts, o.price, ev, costs, cfg.instrument);
                    }
                },
                Position::Short { entry, size, entry_ts } => {
                    if o.order_type == OrderType::MarketBuy {
                        lemma_close_inv(m2, false, entry, size, entry_ts, o.price, ev, costs, cfg.instrument);
                    }
                },
                Position::Neutral => {},
            }
        }
    }
}

/// Closing preserves the state invariant.
proof fn lemma_close_inv(
    m: RunModel,
    is_long: bool,
    entry: i64,
    size: u64,
    entry_ts: u64,
    order_price: i64,
    ev: MarketEvent,
    costs: TransactionCosts,
    inst: Instrument,
)
    requires
        model_inv(m),
    ensures
        model_inv(spec_close(m, is_long, entry, size, entry_ts, order_price, ev, costs, inst)),
{
    let r = spec_close(m, is_long, entry, size, entry_ts, order_price, ev, costs, inst);
    if r.trades.len() > m.trades.len() {
        assert forall|i: int| 0 <= i < r.trades.len() implies trade_wf(#[trigger] r.trades[i]) by {
            if i < m.trades.len() {
                assert(trade_wf(m.trades[i]));
            }
        }
    }
}

/// A run preserves the invariant, grows the curve by one point per event,
/// and never rewrites history: the seed point stays first.
pub proof fn lemma_run_inv(
    m: RunModel,
    sigs: Seq<Option<Order>>,
    evs: Seq<MarketEvent>,
    cfg: RunConfig,
    costs: TransactionCosts,
)
    requires
        model_inv(m),
        cfg.wf(),
        costs.wf(),
        forall|i: int| 0 <= i < evs.len() ==> (#[trigger] evs[i]).wf(),
        m.curve.len() >= 1,
    ensures
        model_inv(spec_run(m, sigs, evs, cfg, costs)),
        spec_run(m, sigs, evs, cfg, costs).curve.len() == m.curve.len() + evs.len(),
        spec_run(m, sigs, evs, cfg, costs).curve[0] == m.curve[0],
    decreases evs.len(),
{
    if evs.len() > 0 {
        lemma_step_inv(m, sigs[0], evs[0], cfg, costs);
        let m1 = spec_step(m, sigs[0], evs[0], cfg, costs);
        assert forall|i: int| 0 <= i < evs.drop_first().len() implies (#[trigger] evs.drop_first()[i]).wf() by {
            assert(evs[i + 1].wf());
        }
        lemma_run_inv(m1, sigs.drop_first(), evs.drop_first(), cfg, costs);
    }
}

/// Folding one more event onto the end of a run is one more step.
pub proof fn lemma_run_snoc(
    m: RunModel,
    sigs: Seq<Option<Order>>,
    evs: Seq<MarketEvent>,
    sig: Option<Order>,
    ev: MarketEvent,
    cfg: RunConfig,
    costs: TransactionCosts,
)
    requires
        sigs.len() == evs.len(),
    ensures
        spec_run(m, sigs.push(sig), evs.push(ev), cfg, costs) == spec_step(
            spec_run(m, sigs, evs, cfg, costs),
            sig,
            ev,
            cfg,
            costs,
        ),
    decreases evs.len(),
{
    let sp = sigs.push(sig);
    let ep = evs.push(ev);
    if evs.len() == 0 {
        assert(ep[0] == ev);
        assert(sp[0] == sig);
        let m1 = spec_step(m, sig, ev, cfg, costs);
        assert(spec_run(m, sp, ep, cfg, costs) == spec_run(
            m1,
            sp.drop_first(),
            ep.drop_first(),
            cfg,
            costs,
        ));
        assert(ep.drop_first().len() == 0);
        assert(spec_run(m1, sp.drop_first(), ep.drop_first(), cfg, costs) == m1);
        assert(spec_run(m, sigs, evs, cfg, costs) == m);
    } else {
        assert(ep[0] == evs[0]);
        assert(sp[0] == sigs[0]);
        let m1 = spec_step(m, sigs[0], evs[0], cfg, costs);
        assert(spec_run(m, sp, ep, cfg, costs) == spec_run(
            m1,
            sp.drop_first(),
            ep.drop_first(),
            cfg,
            costs,
        ));
        assert(ep.drop_first() =~= evs.drop_first().push(ev));
        assert(sp.drop_first() =~= sigs.drop_first().push(sig));
        lemma_run_snoc(m1, sigs.drop_first(), evs.drop_first(), sig, ev, cfg, costs);
        assert(spec_run(m, sigs, evs, cfg, costs) == spec_run(
            m1,
            sigs.drop_first(),
            evs.drop_first(),
            cfg,
            costs,
        ));
    }
}

/// Every field of a finished report, determined by the final engine state
/// and the run configuration.
pub open spec fn result_of_model(res: BacktestResult, cfg: RunConfig, m: RunModel) -> bool {
    &&& res.starting_equity == cfg.starting_equity
    &&& res.ending_equity == m.equity
    &&& res.total_return == m.equity - cfg.starting_equity
    &&& res.total_return_pct == clamp_money(
        spec_pct_of(m.equity - cfg.starting_equity, cfg.starting_equity as int),
    )
    &&& res.max_drawdown == spec_max_dd(cfg.starting_equity as int, m.curve)
    &&& res.max_drawdown_pct == clamp_money(spec_max_dd_pct(cfg.starting_equity as int, m.curve))
    &&& res.win_rate == (if m.trades.len() == 0 {
        0int
    } else {
        spec_winning(m.trades) * 1_000_000 / m.trades.len() as int
    })
    &&& res.profit_factor == spec_profit_factor(
        clamp_money(spec_gross_profit(m.trades)) as int,
        clamp_money(spec_gross_loss(m.trades)) as int,
    )
    &&& res.total_trades == m.trades.len()
    &&& res.winning_trades == spec_winning(m.trades)
    &&& res.losing_trades == spec_losing(m.trades)
    &&& res.avg_win == (if spec_winning(m.trades) == 0 {
        0int
    } else {
        clamp_money(spec_gross_profit(m.trades)) as int / spec_winning(m.trades)
    })
    &&& res.avg_loss == (if spec_losing(m.trades) == 0 {
        0int
    } else {
        clamp_money(spec_gross_loss(m.trades)) as int / spec_losing(m.trades)
    })
    &&& res.largest_win == spec_largest_win(m.trades)
    &&& res.largest_loss == spec_largest_loss(m.trades)
    &&& res.equity_curve@ == m.curve
    &&& res.trades@ == m.trades
    &&& res.total_transaction_costs == clamp_money(spec_total_costs(m.trades))
    &&& res.numeric_anomalies == m.numeric_anomalies
    &&& res.invariant_violations == m.invariant_violations
}

/// Does this event cross the limit price of the order? (A limit buy fills
/// when the low reaches its price, a limit sell when the high does; market
/// orders never fill by price-crossing.)
pub fn should_fill_limit_order(order: &Order, event: &MarketEvent) -> (r: bool)
    ensures
        r == spec_should_fill(*order, *event),
{
    match order.order_type {
        OrderType::LimitBuy => event.low() <= order.price,
        OrderType::LimitSell => event.high() >= order.price,
        _ => false,
    }
}

proof fn lemma_first_eligible_at(s: Seq<Order>, ev: MarketEvent, i: int)
    requires
        0 <= i < s.len(),
        spec_should_fill(s[i], ev),
        forall|j: int| 0 <= j < i ==> !spec_should_fill(#[trigger] s[j], ev),
    ensures
        spec_first_eligible(s, ev) == Some(i),
    decreases i,
{
    if i == 0 {
    } else {
        assert(!spec_should_fill(s[0], ev));
        assert forall|j: int| 0 <= j < i - 1 implies !spec_should_fill(
            #[trigger] s.drop_first()[j],
            ev,
        ) by {
            assert(!spec_should_fill(s[j + 1], ev));
        }
        assert(s.drop_first()[i - 1] == s[i]);
        lemma_first_eligible_at(s.drop_first(), ev, i - 1);
    }
}

proof fn lemma_first_eligible_none(s: Seq<Order>, ev: MarketEvent)
    requires
        forall|j: int| 0 <= j < s.len() ==> !spec_should_fill(#[trigger] s[j], ev),
    ensures
        spec_first_eligible(s, ev) is None,
    decreases s.len(),
{
    if s.len() > 0 {
        assert forall|j: int| 0 <= j < s.drop_first().len() implies !spec_should_fill(
            #[trigger] s.drop_first()[j],
            ev,
        ) by {
            assert(!spec_should_fill(s[j + 1], ev));
        }
        lemma_first_eligible_none(s.drop_first(), ev);
    }
}

/// Saturating counter increment.
fn bump_exec(c: u64) -> (r: u64)
    ensures
        r == bump(c),
{
    if c == u64::MAX {
        c
    } else {
        c + 1
    }
}

/// The mutable state of one running simulation.
struct RunState {
    equity: i64,
    position: Position,
    trades: Vec<Trade>,
    equity_curve: Vec<i64>,
    pending_market: Option<Order>,
    pending_limits: Vec<Order>,
    numeric_anomalies: u64,
    invariant_violations: u64,
}

impl View for RunState {
    type V = RunModel;

    closed spec fn view(&self) -> RunModel {
        RunModel {
            equity: self.equity,
            position: self.position,
            trades: self.trades@,
            curve: self.equity_curve@,
            pending_market: self.pending_market,
            pending_limits: self.pending_limits@,
            numeric_anomalies: self.numeric_anomalies,
            invariant_violations: self.invariant_violations,
        }
    }
}

/// Try to open a position at `price`, sizing it from the current equity and
/// the configured exposure fraction.
fn try_open(
    equity: i64,
    cfg: &RunConfig,
    price: i64,
    is_buy: bool,
    ts: u64,
    costs: &TransactionCosts,
) -> (r: Option<Position>)
    requires
        cfg.wf(),
        costs.wf(),
        in_money(equity as int),
    ensures
        r == spec_try_open(equity, *cfg, price as int, is_buy, ts, *costs),
{
    if price <= 0 || price > PRICE_CAP {
        return None;
    }
    let mult = cfg.instrument.mult();
    let size128: u128 = if equity <= 0 {
        0
    } else {
        proof {
            vstd::arithmetic::mul::lemma_mul_upper_bound(
                equity as int,
                MONEY_MAX as int,
                cfg.exposure as int,
                10_000,
            );
            vstd::arithmetic::mul::lemma_mul_upper_bound(
                equity as int * cfg.exposure as int,
                MONEY_MAX as int * 10_000,
                100,
                100,
            );
            vstd::arithmetic::mul::lemma_mul_upper_bound(
                price as int,
                PRICE_CAP as int,
                mult as int,
                MULT_CAP as int,
            );
            assert(10_000 * (price as int) * (mult as int) > 0) by (nonlinear_arith)
                requires
                    price >= 1,
                    mult >= 1,
            ;
        }
        let num: u128 = (equity as u128) * (cfg.exposure as u128) * 100;
        let pm: u128 = (price as u128) * (mult as u128);
        let den: u128 = 10_000u128 * pm;
        proof {
            assert(10_000 * (price as int) * (mult as int) == 10_000 * ((price as int) * (
            mult as int))) by (nonlinear_arith);
        }
        num / den
    };
    if size128 > SIZE_CAP as u128 {
        return None;
    }
    let size: u64 = size128 as u64;
    match costs.adjust_fill_price(price, size, is_buy) {
        Option::None => None,
        Option::Some(e) => {
            if 0 < e && e <= PRICE_CAP {
                if is_buy {
                    Some(Position::Long { entry: e, size, entry_ts: ts })
                } else {
                    Some(Position::Short { entry: e, size, entry_ts: ts })
                }
            } else {
                None
            }
        },
    }
}

/// Phase one: fill the first eligible pending limit order, if flat.
fn limit_phase(st: &mut RunState, ev: &MarketEvent, cfg: &RunConfig, costs: &TransactionCosts)
    requires
        model_inv(old(st)@),
        ev.wf(),
        cfg.wf(),
        costs.wf(),
    ensures
        final(st)@ == spec_limit_phase(old(st)@, *ev, *cfg, *costs),
{
    match st.position {
        Position::Neutral => {},
        _ => {
            return ;
        },
    }
    let n = st.pending_limits.len();
    let mut i: usize = 0;
    let mut hit: Option<usize> = None;
    while i < n && hit.is_none()
        invariant
            n == st.pending_limits@.len(),
            i <= n,
            hit is None ==> forall|j: int|
                0 <= j < i ==> !spec_should_fill(#[trigger] st.pending_limits@[j], *ev),
            hit matches Some(h) ==> i == h && i < n && spec_should_fill(
                st.pending_limits@[h as int],
                *ev,
            ) && forall|j: int|
                0 <= j < h ==> !spec_should_fill(#[trigger] st.pending_limits@[j], *ev),
            st == old(st),
        decreases n - i + (if hit is None { 1int } else { 0int }),
    {
        if should_fill_limit_order(&st.pending_limits[i], ev) {
            hit = Some(i);
        } else {
            i += 1;
        }
    }
    match hit {
        Option::None => {
            proof {
                lemma_first_eligible_none(st.pending_limits@, *ev);
            }
        },
        Option::Some(h) => {
            proof {
                lemma_first_eligible_at(st.pending_limits@, *ev, h as int);
            }
            let o = st.pending_limits[h];
            let _ = st.pending_limits.remove(h);
            let is_buy = o.order_type == OrderType::LimitBuy;
            match try_open(st.equity, cfg, o.price, is_buy, ev.timestamp(), costs) {
                Option::Some(pos) => {
                    st.position = pos;
                },
                Option::None => {
                    st.numeric_anomalies = bump_exec(st.numeric_anomalies);
                },
            }
            proof {
                assert(st@ =~= spec_limit_phase(old(st)@, *ev, *cfg, *costs));
            }
        },
    }
}

/// Phase two: fill the queued market order at this event's representative
/// price, or skip and count if a position is already open.
fn market_phase(st: &mut RunState, ev: &MarketEvent, cfg: &RunConfig, costs: &TransactionCosts)
    requires
        model_inv(old(st)@),
        ev.wf(),
        cfg.wf(),
        costs.wf(),
    ensures
        final(st)@ == spec_market_phase(old(st)@, *ev, *cfg, *costs),
{
    let o = match st.pending_market {
        Option::None => {
            return ;
        },
        Option::Some(o) => o,
    };
    st.pending_market = None;
    let neutral = match st.position {
        Position::Neutral => true,
        _ => false,
    };
    if !neutral {
        st.invariant_violations = bump_exec(st.invariant_violations);
        proof {
            assert(st@ =~= spec_market_phase(old(st)@, *ev, *cfg, *costs));
        }
        return ;
    }
    let price = ev.rep_price();
    let is_buy = o.order_type == OrderType::MarketBuy;
    match try_open(st.equity, cfg, price, is_buy, ev.timestamp(), costs) {
        Option::Some(pos) => {
            st.position = pos;
        },
        Option::None => {
            st.numeric_anomalies = bump_exec(st.numeric_anomalies);
        },
    }
    proof {
        assert(st@ =~= spec_market_phase(old(st)@, *ev, *cfg, *costs));
    }
}

/// Close the open position at the strategy's order price.
fn close(
    st: &mut RunState,
    is_long: bool,
    entry: i64,
    size: u64,
    entry_ts: u64,
    order_price: i64,
    ev: &MarketEvent,
    costs: &TransactionCosts,
    inst: Instrument,
)
    requires
        model_inv(old(st)@),
        ev.wf(),
        costs.wf(),
        inst.wf(),
        0 < entry <= PRICE_CAP,
        size <= SIZE_CAP,
    ensures
        final(st)@ == spec_close(old(st)@, is_long, entry, size, entry_ts, order_price, *ev, *costs, inst),
{
    if order_price < 0 || order_price > PRICE_CAP {
        st.numeric_anomalies = bump_exec(st.numeric_anomalies);
        return ;
    }
    let x = match costs.adjust_fill_price(order_price, size, !is_long) {
        Option::Some(x) => x,
        Option::None => {
            st.numeric_anomalies = bump_exec(st.numeric_anomalies);
            return ;
        },
    };
    if x <= 0 || x > PRICE_CAP {
        st.numeric_anomalies = bump_exec(st.numeric_anomalies);
        return ;
    }
    let vol = ev.volume();
    let pos = if is_long {
        Position::Long { entry, size, entry_ts }
    } else {
        Position::Short { entry, size, entry_ts }
    };
    let p = match pos.calculate_pnl_with_costs(x, costs, vol, inst) {
        Option::Some(p) => p,
        Option::None => {
            st.numeric_anomalies = bump_exec(st.numeric_anomalies);
            return ;
        },
    };
    let new_equity: i64 = st.equity + p;
    if new_equity < -MONEY_MAX || new_equity > MONEY_MAX {
        st.numeric_anomalies = bump_exec(st.numeric_anomalies);
        return ;
    }
    let ec = match costs.calculate_entry_cost(entry, size, vol) {
        Option::Some(c) => c,
        Option::None => {
            proof {
                assert(false);
            }
            0
        },
    };
    let xc = match costs.calculate_exit_cost(x, size, vol) {
        Option::Some(c) => c,
        Option::None => {
            proof {
                assert(false);
            }
            0
        },
    };
    let tc: i64 = if ec + xc > MONEY_MAX {
        MONEY_MAX
    } else {
        ec + xc
    };
    let pnl_pct: i64 = if is_long {
        pct_of(x - entry, entry)
    } else {
        pct_of(entry - x, x)
    };
    let trade = Trade {
        entry_ts,
        exit_ts: ev.timestamp(),
        entry_price: entry,
        exit_price: x,
        size: (size * 10_000) as i64,
        pnl: p,
        pnl_pct,
        trade_type: if is_long {
            TradeDirection::Long
        } else {
            TradeDirection::Short
        },
        exit_reason: ExitReason::Strategy,
        transaction_costs: tc,
    };
    st.trades.push(trade);
    st.equity = new_equity;
    st.position = Position::Neutral;
    proof {
        assert(st@ =~= spec_close(
            old(st)@,
            is_long,
            entry,
            size,
            entry_ts,
            order_price,
            *ev,
            *costs,
            inst,
        ));
    }
}

/// Phase three: act on the strategy's order for this event.
fn signal_phase(
    st: &mut RunState,
    sig: Option<Order>,
    ev: &MarketEvent,
    cfg: &RunConfig,
    costs: &TransactionCosts,
)
    requires
        model_inv(old(st)@),
        ev.wf(),
        cfg.wf(),
        costs.wf(),
    ensures
        final(st)@ == spec_signal_phase(old(st)@, sig, *ev, *cfg, *costs),
{
    let o = match sig {
        Option::None => {
            return ;
        },
        Option::Some(o) => o,
    };
    match st.position {
        Position::Long { entry, size, entry_ts } => {
            if o.order_type == OrderType::MarketSell {
                close(st, true, entry, size, entry_ts, o.price, ev, costs, cfg.instrument);
            }
        },
        Position::Short { entry, size, entry_ts } => {
            if o.order_type == OrderType::MarketBuy {
                close(st, false, entry, size, entry_ts, o.price, ev, costs, cfg.instrument);
            }
        },
        Position::Neutral => {
            match o.order_type {
                OrderType::MarketBuy => {
                    st.pending_market = Some(o);
                },
                OrderType::MarketSell => {
                    st.pending_market = Some(o);
                },
                OrderType::LimitBuy => {
                    st.pending_limits.push(o);
                },
                OrderType::LimitSell => {
                    st.pending_limits.push(o);
                },
            }
        },
    }
}

/// One full engine step for one event.
fn run_step(
    st: &mut RunState,
    sig: Option<Order>,
    ev: &MarketEvent,
    cfg: &RunConfig,
    costs: &TransactionCosts,
)
    requires
        model_inv(old(st)@),
        ev.wf(),
        cfg.wf(),
        costs.wf(),
    ensures
        final(st)@ == spec_step(old(st)@, sig, *ev, *cfg, *costs),
{
    proof {
        lemma_step_inv(old(st)@, sig, *ev, *cfg, *costs);
    }
    let ghost m0 = st@;
    limit_phase(st, ev, cfg, costs);
    proof {
        lemma_limit_phase_inv(m0, *ev, *cfg, *costs);
    }
    let ghost m1 = st@;
    market_phase(st, ev, cfg, costs);
    proof {
        lemma_market_phase_inv(m1, *ev, *cfg, *costs);
    }
    signal_phase(st, sig, ev, cfg, costs);
    st.equity_curve.push(st.equity);
    proof {
        assert(st@ =~= spec_step(m0, sig, *ev, *cfg, *costs));
    }
}

/// Drive one full event stream through a strategy and the fill simulator
/// and reduce the outcome to a report.
///
/// The run succeeds exactly when the configuration, the cost model and
/// every event are well formed; an invalid configuration is refused before
/// any work, a malformed event is a data error. On success the equity curve
/// holds one point per processed event plus the starting seed, and the whole
/// report is the reduction of the engine fold over the signals the strategy
/// actually emitted.
pub fn run_backtest<S: Strategy>(
    strategy: &mut S,
    events: &Vec<MarketEvent>,
    config: &RunConfig,
    costs: &TransactionCosts,
) -> (r: Result<BacktestResult, BacktestError>)
    ensures
        r is Ok <==> (config.wf() && costs.wf() && (forall|i: int|
            0 <= i < events@.len() ==> (#[trigger] events@[i]).wf())),
        r matches Err(e) ==> (if !(config.wf() && costs.wf()) {
            e == BacktestError::Configuration
        } else {
            e == BacktestError::Data
        }),
        r matches Ok(res) ==> res.equity_curve@.len() == events@.len() + 1
            && res.equity_curve@[0] == config.starting_equity && res.starting_equity
            == config.starting_equity && exists|sigs: Seq<Option<Order>>|
            sigs.len() == events@.len() && #[trigger] result_of_model(
                res,
                *config,
                spec_run(spec_init(*config), sigs, events@, *config, *costs),
            ),
{
    if !config.check() || !costs.check() {
        return Err(BacktestError::Configuration);
    }
    let n = events.len();
    let mut v: usize = 0;
    while v < n
        invariant
            n == events@.len(),
            v <= n,
            config.wf(),
            costs.wf(),
            forall|j: int| 0 <= j < v ==> (#[trigger] events@[j]).wf(),
        decreases n - v,
    {
        if !events[v].check_wf() {
            return Err(BacktestError::Data);
        }
        v += 1;
    }
    let mut curve: Vec<i64> = Vec::new();
    curve.push(config.starting_equity);
    let mut st = RunState {
        equity: config.starting_equity,
        position: Position::Neutral,
        trades: Vec::new(),
        equity_curve: curve,
        pending_market: None,
        pending_limits: Vec::new(),
        numeric_anomalies: 0,
        invariant_violations: 0,
    };
    proof {
        assert(st@ =~= spec_init(*config));
    }
    let ghost mut sigs: Seq<Option<Order>> = Seq::empty();
    let mut i: usize = 0;
    while i < n
        invariant
            n == events@.len(),
            forall|j: int| 0 <= j < n ==> (#[trigger] events@[j]).wf(),
            config.wf(),
            costs.wf(),
            i <= n,
            sigs.len() == i,
            st@ == spec_run(spec_init(*config), sigs, events@.take(i as int), *config, *costs),
            model_inv(st@),
        decreases n - i,
    {
        let prev: Option<&MarketEvent> = if i == 0 {
            None
        } else {
            Some(&events[i - 1])
        };
        let sig = strategy.on_event(&events[i], prev);
        let ghost m_before = st@;
        run_step(&mut st, sig, &events[i], config, costs);
        proof {
            lemma_step_inv(m_before, sig, events@[i as int], *config, *costs);
            lemma_run_snoc(
                spec_init(*config),
                sigs,
                events@.take(i as int),
                sig,
                events@[i as int],
                *config,
                *costs,
            );
            sigs = sigs.push(sig);
            assert(events@.take(i as int).push(events@[i as int]) =~= events@.take(i as int + 1));
        }
        i += 1;
    }
    proof {
        assert(events@.take(n as int) =~= events@);
        lemma_run_inv(spec_init(*config), sigs, events@, *config, *costs);
    }
    let ghost m_final = st@;
    let na = st.numeric_anomalies;
    let iv = st.invariant_violations;
    let ending = st.equity;
    proof {
        assert(model_inv(st@));
        assert forall|j: int| 0 <= j < st.equity_curve@.len() implies in_money(
            #[trigger] st.equity_curve@[j] as int,
        ) by {
            assert(in_money(st@.curve[j] as int));
        }
        assert forall|j: int| 0 <= j < st.trades@.len() implies trade_wf(
            #[trigger] st.trades@[j],
        ) by {
            assert(trade_wf(st@.trades[j]));
        }
    }
    let mut res = BacktestResult::calculate_metrics(
        config.starting_equity,
        ending,
        st.equity_curve,
        st.trades,
    );
    res.numeric_anomalies = na;
    res.invariant_violations = iv;
    proof {
        assert(result_of_model(res, *config, spec_run(spec_init(*config), sigs, events@, *config, *costs)));
    }
    Ok(res)
}

/// Drive one full event stream through one of the library's own strategies.
/// Because the strategy's decisions are themselves specified, the whole
/// report is pinned: it is the reduction of the engine fold over the
/// strategy's deterministic signal trace.
pub fn run_backtest_selected(
    strategy: AnyStrategy,
    events: &Vec<MarketEvent>,
    config: &RunConfig,
    costs: &TransactionCosts,
) -> (r: Result<BacktestResult, BacktestError>)
    ensures
        r is Ok <==> (config.wf() && costs.wf() && (forall|i: int|
            0 <= i < events@.len() ==> (#[trigger] events@[i]).wf())),
        r matches Err(e) ==> (if !(config.wf() && costs.wf()) {
            e == BacktestError::Configuration
        } else {
            e == BacktestError::Data
        }),
        r matches Ok(res) ==> res.equity_curve@.len() == events@.len() + 1
            && res.equity_curve@[0] == config.starting_equity && result_of_model(
            res,
            *config,
            spec_run(
                spec_init(*config),
                spec_any_signals(strategy@, events@),
                events@,
                *config,
                *costs,
            ),
        ),
{
    if !config.check() || !costs.check() {
        return Err(BacktestError::Configuration);
    }
    let n = events.len();
    let mut v: usize = 0;
    while v < n
        invariant
            n == events@.len(),
            v <= n,
            config.wf(),
            costs.wf(),
            forall|j: int| 0 <= j < v ==> (#[trigger] events@[j]).wf(),
        decreases n - v,
    {
        if !events[v].check_wf() {
            return Err(BacktestError::Data);
        }
        v += 1;
    }
    let ghost m0 = strategy@;
    let mut strat = strategy;
    let mut curve: Vec<i64> = Vec::new();
    curve.push(config.starting_equity);
    let mut st = RunState {
        equity: config.starting_equity,
        position: Position::Neutral,
        trades: Vec::new(),
        equity_curve: curve,
        pending_market: None,
        pending_limits: Vec::new(),
        numeric_anomalies: 0,
        invariant_violations: 0,
    };
    proof {
        assert(st@ =~= spec_init(*config));
        assert(events@.take(0) =~= Seq::<MarketEvent>::empty());
    }
    let mut i: usize = 0;
    while i < n
        invariant
            n == events@.len(),
            forall|j: int| 0 <= j < n ==> (#[trigger] events@[j]).wf(),
            config.wf(),
            costs.wf(),
            i <= n,
            strat@ == spec_any_state(m0, events@.take(i as int)),
            st@ == spec_run(
                spec_init(*config),
                spec_any_signals(m0, events@.take(i as int)),
                events@.take(i as int),
                *config,
                *costs,
            ),
            model_inv(st@),
        decreases n - i,
    {
        let (strat2, sig) = strat.decide_owned(&events[i]);
        strat = strat2;
        let ghost m_before = st@;
        run_step(&mut st, sig, &events[i], config, costs);
        proof {
            lemma_step_inv(m_before, sig, events@[i as int], *config, *costs);
            lemma_any_signals_len(m0, events@.take(i as int));
            lemma_any_signals_snoc(m0, events@.take(i as int), events@[i as int]);
            lemma_run_snoc(
                spec_init(*config),
                spec_any_signals(m0, events@.take(i as int)),
                events@.take(i as int),
                sig,
                events@[i as int],
                *config,
                *costs,
            );
            assert(events@.take(i as int).push(events@[i as int]) =~= events@.take(i as int + 1));
        }
        i += 1;
    }
    proof {
        assert(events@.take(n as int) =~= events@);
        lemma_run_inv(
            spec_init(*config),
            spec_any_signals(m0, events@),
            events@,
            *config,
            *costs,
        );
    }
    let ghost m_final = st@;
    let na = st.numeric_anomalies;
    let iv = st.invariant_violations;
    let ending = st.equity;
    proof {
        assert(model_inv(st@));
        assert forall|j: int| 0 <= j < st.equity_curve@.len() implies in_money(
            #[trigger] st.equity_curve@[j] as int,
        ) by {
            assert(in_money(st@.curve[j] as int));
        }
        assert forall|j: int| 0 <= j < st.trades@.len() implies trade_wf(
            #[trigger] st.trades@[j],
        ) by {
            assert(trade_wf(st@.trades[j]));
        }
    }
    let mut res = BacktestResult::calculate_metrics(
        config.starting_equity,
        ending,
        st.equity_curve,
        st.trades,
    );
    res.numeric_anomalies = na;
    res.invariant_violations = iv;
    Ok(res)
}

/// With nothing queued, nothing pending and a silent strategy, a run only
/// appends equity-curve points: position, trades, orders and counters all
/// stay as they are.
pub proof fn lemma_run_idle(
    m: RunModel,
    sigs: Seq<Option<Order>>,
    evs: Seq<MarketEvent>,
    cfg: RunConfig,
    costs: TransactionCosts,
)
    requires
        m.pending_market is None,
        m.pending_limits.len() == 0,
        forall|i: int| 0 <= i < sigs.len() ==> #[trigger] sigs[i] is None,
        sigs.len() == evs.len(),
    ensures
        spec_run(m, sigs, evs, cfg, costs).position == m.position,
        spec_run(m, sigs, evs, cfg, costs).trades == m.trades,
        spec_run(m, sigs, evs, cfg, costs).pending_limits == m.pending_limits,
        spec_run(m, sigs, evs, cfg, costs).pending_market is None,
        spec_run(m, sigs, evs, cfg, costs).equity == m.equity,
        spec_run(m, sigs, evs, cfg, costs).numeric_anomalies == m.numeric_anomalies,
        spec_run(m, sigs, evs, cfg, costs).invariant_violations == m.invariant_violations,
    decreases evs.len(),
{
    if evs.len() > 0 {
        assert(sigs[0] is None);
        let m1 = spec_step(m, sigs[0], evs[0], cfg, costs);
        assert(m1.position == m.position && m1.pending_limits == m.pending_limits
            && m1.pending_market is None && m1.equity == m.equity && m1.trades == m.trades);
        assert forall|i: int| 0 <= i < sigs.drop_first().len() implies #[trigger] sigs.drop_first()[i] is None by {
            assert(sigs[i + 1] is None);
        }
        lemma_run_idle(m1, sigs.drop_first(), evs.drop_first(), cfg, costs);
    }
}

/// A lone resting limit order that no event's bar ever crosses stays
/// pending to the end of the series, and the run stays flat: limit orders
/// never fill retroactively and never fill without a price crossing.
pub proof fn lemma_limit_order_rests(
    m: RunModel,
    o: Order,
    sigs: Seq<Option<Order>>,
    evs: Seq<MarketEvent>,
    cfg: RunConfig,
    costs: TransactionCosts,
)
    requires
        m.position is Neutral,
        m.pending_market is None,
        m.pending_limits == seq![o],
        o.order_type == OrderType::LimitBuy || o.order_type == OrderType::LimitSell,
        sigs.len() == evs.len(),
        forall|i: int| 0 <= i < sigs.len() ==> #[trigger] sigs[i] is None,
        forall|i: int| 0 <= i < evs.len() ==> !spec_should_fill(o, #[trigger] evs[i]),
    ensures
        spec_run(m, sigs, evs, cfg, costs).pending_limits == seq![o],
        spec_run(m, sigs, evs, cfg, costs).position is Neutral,
        spec_run(m, sigs, evs, cfg, costs).trades == m.trades,
    decreases evs.len(),
{
    if evs.len() > 0 {
        assert(sigs[0] is None);
        assert(m.pending_limits[0] == o);
        assert(m.pending_limits.drop_first() =~= Seq::<Order>::empty());
        assert(spec_first_eligible(m.pending_limits.drop_first(), evs[0]) is None);
        assert(spec_first_eligible(m.pending_limits, evs[0]) is None);
        let m1 = spec_step(m, sigs[0], evs[0], cfg, costs);
        assert(m1.position is Neutral && m1.pending_market is None && m1.pending_limits == seq![o]
            && m1.trades == m.trades);
        assert forall|i: int| 0 <= i < sigs.drop_first().len() implies #[trigger] sigs.drop_first()[i] is None by {
            assert(sigs[i + 1] is None);
        }
        assert forall|i: int| 0 <= i < evs.drop_first().len() implies !spec_should_fill(
            o,
            #[trigger] evs.drop_first()[i],
        ) by {
            assert(!spec_should_fill(o, evs[i + 1]));
        }
        lemma_limit_order_rests(m1, o, sigs.drop_first(), evs.drop_first(), cfg, costs);
    }
}

/// A lone resting limit order is consumed exactly at the first event whose
/// bar crosses its price (for a limit buy, the first event whose low
/// reaches down to it): the position opens there at the cost-adjusted limit
/// price for the rest of the run — or, if the fill computation reports a
/// numeric anomaly, the order is consumed with the anomaly counted and the
/// run stays flat. No earlier event, and nothing after the first crossing,
/// touches it.
pub proof fn lemma_limit_order_fills_at_first_cross(
    m: RunModel,
    o: Order,
    sigs: Seq<Option<Order>>,
    evs: Seq<MarketEvent>,
    k: int,
    cfg: RunConfig,
    costs: TransactionCosts,
)
    requires
        m.position is Neutral,
        m.pending_market is None,
        m.pending_limits == seq![o],
        o.order_type == OrderType::LimitBuy || o.order_type == OrderType::LimitSell,
        sigs.len() == evs.len(),
        forall|i: int| 0 <= i < sigs.len() ==> #[trigger] sigs[i] is None,
        0 <= k < evs.len(),
        spec_should_fill(o, evs[k]),
        forall|i: int| 0 <= i < k ==> !spec_should_fill(o, #[trigger] evs[i]),
    ensures
        spec_run(m, sigs, evs, cfg, costs).pending_limits =~= Seq::<Order>::empty(),
        spec_run(m, sigs, evs, cfg, costs).trades == m.trades,
        ({
            let opened = spec_try_open(
                m.equity,
                cfg,
                o.price as int,
                o.order_type == OrderType::LimitBuy,
                evs[k].spec_timestamp(),
                costs,
            );
            match opened {
                Some(pos) => spec_run(m, sigs, evs, cfg, costs).position == pos && spec_run(
                    m,
                    sigs,
                    evs,
                    cfg,
                    costs,
                ).numeric_anomalies == m.numeric_anomalies,
                None => spec_run(m, sigs, evs, cfg, costs).position is Neutral && spec_run(
                    m,
                    sigs,
                    evs,
                    cfg,
                    costs,
                ).numeric_anomalies == bump(m.numeric_anomalies),
            }
        }),
    decreases evs.len(),
{
    assert(sigs[0] is None);
    assert(m.pending_limits[0] == o);
    let m1 = spec_step(m, sigs[0], evs[0], cfg, costs);
    if k == 0 {
        assert(spec_first_eligible(m.pending_limits, evs[0]) == Some(0int));
        assert(m.pending_limits.remove(0) =~= Seq::<Order>::empty());
        assert(m1.pending_market is None && m1.pending_limits.len() == 0 && m1.trades == m.trades);
        assert forall|i: int| 0 <= i < sigs.drop_first().len() implies #[trigger] sigs.drop_first()[i] is None by {
            assert(sigs[i + 1] is None);
        }
        lemma_run_idle(m1, sigs.drop_first(), evs.drop_first(), cfg, costs);
    } else {
        assert(!spec_should_fill(o, evs[0]));
        assert(m.pending_limits.drop_first() =~= Seq::<Order>::empty());
        assert(spec_first_eligible(m.pending_limits.drop_first(), evs[0]) is None);
        assert(spec_first_eligible(m.pending_limits, evs[0]) is None);
        assert(m1.position is Neutral && m1.pending_market is None && m1.pending_limits == seq![o]
            && m1.trades == m.trades && m1.numeric_anomalies == m.numeric_anomalies);
        assert forall|i: int| 0 <= i < sigs.drop_first().len() implies #[trigger] sigs.drop_first()[i] is None by {
            assert(sigs[i + 1] is None);
        }
        assert forall|i: int| 0 <= i < k - 1 implies !spec_should_fill(
            o,
            #[trigger] evs.drop_first()[i],
        ) by {
            assert(!spec_should_fill(o, evs[i + 1]));
        }
        assert(evs.drop_first()[k - 1] == evs[k]);
        lemma_limit_order_fills_at_first_cross(
            m1,
            o,
            sigs.drop_first(),
            evs.drop_first(),
            k - 1,
            cfg,
            costs,
        );
    }
}

} // verus!
