//! The engine's fill rules, the event model, the strategies, the sweep and
//! the benchmark, on concrete scenarios.

use inkback::costs::{CommissionModel, SlippageModel, SpreadModel, TransactionCosts};
use inkback::benchmark::calculate_benchmark;
use inkback::engine::{run_backtest, should_fill_limit_order, RunConfig};
use inkback::event::{EventAttr, FootprintLevel, FootprintMsg, MarketEvent, Mbp1Msg, OhlcvMsg,
    OptionTradeMsg, OptionType, TradeMsg};
use inkback::ledger::{Instrument, TradeDirection};
use inkback::strategies::ma_cross::MaCrossStrategy;
use inkback::strategies::momentum::OptionsMomentumStrategy;
use inkback::strategies::StrategySelect;
use inkback::strategy::{Order, OrderType, Strategy, StrategyParams};
use inkback::sweep::run_parallel_backtest;
use inkback::BacktestError;

fn zero_costs() -> TransactionCosts {
    TransactionCosts {
        commission: CommissionModel::Fixed(0),
        slippage: SlippageModel::Fixed(0),
        spread: SpreadModel::Fixed(0),
    }
}

fn equity_config() -> RunConfig {
    RunConfig { starting_equity: 1_000_000_000, exposure: 5_000, instrument: Instrument::Equity }
}

fn trade_event(ts: u64, price: i64) -> MarketEvent {
    MarketEvent::Trade(TradeMsg { ts_event: ts, price, size: 1_000 })
}

fn bar_event(ts: u64, low: i64, high: i64, close: i64) -> MarketEvent {
    MarketEvent::Ohlcv(OhlcvMsg { ts_event: ts, open: close, high, low, close, volume: 1_000 })
}

/// A strategy that replays a fixed script of orders, one per event.
struct ScriptedStrategy {
    orders: Vec<Option<Order>>,
    next: usize,
}

impl ScriptedStrategy {
    fn new(orders: Vec<Option<Order>>) -> Self {
        ScriptedStrategy { orders, next: 0 }
    }
}

impl Strategy for ScriptedStrategy {
    fn on_event(&mut self, _event: &MarketEvent, _prev: Option<&MarketEvent>) -> Option<Order> {
        let r = if self.next < self.orders.len() {
            self.orders[self.next]
        } else {
            None
        };
        self.next += 1;
        r
    }
}

#[test]
fn full_round_trip_scenario() {
    // equity $100,000, exposure one half, entry fill at $100.00 under a
    // zero-cost model: size = floor(50,000 / 100) = 500; exit at $110.00
    // realizes (110 - 100) * 500 = $5000, a ten percent trade.
    let events = vec![trade_event(1, 1_000_000), trade_event(2, 1_000_000), trade_event(3, 1_100_000)];
    let buy = Order { order_type: OrderType::MarketBuy, price: 1_000_000 };
    let sell = Order { order_type: OrderType::MarketSell, price: 1_100_000 };
    let mut strategy = ScriptedStrategy::new(vec![Some(buy), None, Some(sell)]);
    let res = run_backtest(&mut strategy, &events, &equity_config(), &zero_costs()).unwrap();
    assert_eq!(res.equity_curve, vec![1_000_000_000, 1_000_000_000, 1_000_000_000, 1_050_000_000]);
    assert_eq!(res.total_trades, 1);
    let t = &res.trades[0];
    assert_eq!(t.entry_price, 1_000_000);
    assert_eq!(t.exit_price, 1_100_000);
    assert_eq!(t.size, 5_000_000); // 500 whole units, fixed-point
    assert_eq!(t.pnl, 50_000_000);
    assert_eq!(t.pnl_pct, 100_000); // ten percent
    assert_eq!(t.entry_ts, 2); // filled one event after emission
    assert_eq!(res.ending_equity, 1_050_000_000);
    assert_eq!(res.total_return_pct, 50_000); // five percent on the account
    assert_eq!(res.profit_factor, 10_000_000);
    assert_eq!(res.numeric_anomalies, 0);
    assert_eq!(res.invariant_violations, 0);
}

#[test]
fn equity_curve_length_is_events_plus_one() {
    let events = vec![trade_event(1, 500_000), trade_event(2, 600_000), trade_event(3, 700_000), trade_event(4, 800_000)];
    let mut strategy = ScriptedStrategy::new(vec![]);
    let res = run_backtest(&mut strategy, &events, &equity_config(), &zero_costs()).unwrap();
    assert_eq!(res.equity_curve.len(), 5);
    assert_eq!(res.equity_curve[0], 1_000_000_000);
}

#[test]
fn limit_buy_fills_at_first_low_crossing() {
    // the limit rests through the first bar (low above the limit) and fills
    // on the second, at the limit price, never retroactively.
    let events = vec![
        bar_event(1, 1_050_000, 1_060_000, 1_055_000),
        bar_event(2, 1_020_000, 1_060_000, 1_055_000),
        bar_event(3, 990_000, 1_060_000, 1_055_000),
        bar_event(4, 1_000_000, 1_200_000, 1_150_000),
    ];
    let limit = Order { order_type: OrderType::LimitBuy, price: 1_000_000 };
    let sell = Order { order_type: OrderType::MarketSell, price: 1_100_000 };
    let mut strategy = ScriptedStrategy::new(vec![Some(limit), None, None, Some(sell)]);
    let res = run_backtest(&mut strategy, &events, &equity_config(), &zero_costs()).unwrap();
    assert_eq!(res.total_trades, 1);
    let t = &res.trades[0];
    assert_eq!(t.entry_price, 1_000_000); // the limit price, not the close
    assert_eq!(t.entry_ts, 3); // the first bar whose low reached the limit
    assert_eq!(t.exit_ts, 4);
}

#[test]
fn limit_buy_never_fills_without_a_crossing() {
    let events = vec![
        bar_event(1, 1_050_000, 1_060_000, 1_055_000),
        bar_event(2, 1_040_000, 1_070_000, 1_065_000),
    ];
    let limit = Order { order_type: OrderType::LimitBuy, price: 1_000_000 };
    let mut strategy = ScriptedStrategy::new(vec![Some(limit), None]);
    let res = run_backtest(&mut strategy, &events, &equity_config(), &zero_costs()).unwrap();
    assert_eq!(res.total_trades, 0);
    assert_eq!(res.ending_equity, 1_000_000_000);
}

#[test]
fn market_fill_due_while_positioned_is_skipped_and_counted() {
    // a market order queued while flat comes due on the same event where a
    // resting limit order fills first: the market fill is skipped and the
    // anomaly counted as an invariant violation.
    let events = vec![
        bar_event(1, 1_050_000, 1_060_000, 1_055_000),
        bar_event(2, 1_040_000, 1_070_000, 1_065_000),
        bar_event(3, 990_000, 1_070_000, 1_065_000),
    ];
    let limit = Order { order_type: OrderType::LimitBuy, price: 1_000_000 };
    let buy = Order { order_type: OrderType::MarketBuy, price: 1_065_000 };
    let mut strategy = ScriptedStrategy::new(vec![Some(limit), Some(buy), None]);
    let res = run_backtest(&mut strategy, &events, &equity_config(), &zero_costs()).unwrap();
    assert_eq!(res.invariant_violations, 1);
    assert_eq!(res.total_trades, 0); // position still open at the end
}

#[test]
fn zero_price_fill_is_a_numeric_anomaly() {
    let events = vec![trade_event(1, 500_000), trade_event(2, 0)];
    let buy = Order { order_type: OrderType::MarketBuy, price: 500_000 };
    let mut strategy = ScriptedStrategy::new(vec![Some(buy), None]);
    let res = run_backtest(&mut strategy, &events, &equity_config(), &zero_costs()).unwrap();
    assert_eq!(res.numeric_anomalies, 1);
    assert_eq!(res.total_trades, 0);
}

#[test]
fn invalid_configuration_is_refused() {
    let events = vec![trade_event(1, 500_000)];
    let cfg = RunConfig { starting_equity: 0, exposure: 5_000, instrument: Instrument::Equity };
    let mut strategy = ScriptedStrategy::new(vec![]);
    let r = run_backtest(&mut strategy, &events, &cfg, &zero_costs());
    assert_eq!(r, Err(BacktestError::Configuration));
}

#[test]
fn malformed_event_is_a_data_error() {
    let events = vec![trade_event(1, -1)];
    let mut strategy = ScriptedStrategy::new(vec![]);
    let r = run_backtest(&mut strategy, &events, &equity_config(), &zero_costs());
    assert_eq!(r, Err(BacktestError::Data));
}

#[test]
fn limit_order_price_crossing_rules() {
    let bar = bar_event(1, 990_000, 1_010_000, 1_000_000);
    let lb = Order { order_type: OrderType::LimitBuy, price: 995_000 };
    let ls = Order { order_type: OrderType::LimitSell, price: 1_005_000 };
    let mb = Order { order_type: OrderType::MarketBuy, price: 1_000_000 };
    assert!(should_fill_limit_order(&lb, &bar));
    assert!(should_fill_limit_order(&ls, &bar));
    assert!(!should_fill_limit_order(&mb, &bar));
    let lb_deep = Order { order_type: OrderType::LimitBuy, price: 980_000 };
    assert!(!should_fill_limit_order(&lb_deep, &bar));
}

#[test]
fn ma_cross_construction_accepts_short_below_long() {
    let mut params = StrategyParams::new();
    params.insert("short_window", 20_000);
    params.insert("long_window", 50_000);
    assert!(MaCrossStrategy::new(&params).is_ok());
}

#[test]
fn ma_cross_construction_rejects_short_not_below_long() {
    let mut params = StrategyParams::new();
    params.insert("short_window", 50_000);
    params.insert("long_window", 50_000);
    assert!(matches!(MaCrossStrategy::new(&params), Err(BacktestError::Configuration)));
    let mut params2 = StrategyParams::new();
    params2.insert("short_window", 50_000);
    params2.insert("long_window", 20_000);
    assert!(matches!(MaCrossStrategy::new(&params2), Err(BacktestError::Configuration)));
}

#[test]
fn ma_cross_construction_rejects_missing_parameter() {
    let mut params = StrategyParams::new();
    params.insert("short_window", 20_000);
    assert!(matches!(MaCrossStrategy::new(&params), Err(BacktestError::Configuration)));
}

#[test]
fn strategy_params_bind_and_rebind() {
    let mut params = StrategyParams::new();
    assert_eq!(params.get("alpha"), None);
    params.insert("alpha", 1);
    assert_eq!(params.get("alpha"), Some(1));
    params.insert("alpha", 2);
    assert_eq!(params.get("alpha"), Some(2));
    params.insert("beta", 7);
    assert_eq!(params.get("alpha"), Some(2));
    assert_eq!(params.get("beta"), Some(7));
}

#[test]
fn ma_cross_goes_long_on_a_golden_cross() {
    let mut params = StrategyParams::new();
    params.insert("short_window", 10_000);
    params.insert("long_window", 20_000);
    let mut s = MaCrossStrategy::new(&params).unwrap();
    assert_eq!(s.decide(&trade_event(1, 1_000_000)), None); // not enough history
    let sig = s.decide(&trade_event(2, 2_000_000));
    assert_eq!(sig, Some(Order { order_type: OrderType::MarketBuy, price: 2_000_000 }));
    // falling back below the long average exits
    let sig2 = s.decide(&trade_event(3, 500_000));
    assert_eq!(sig2, Some(Order { order_type: OrderType::MarketSell, price: 500_000 }));
}

fn option_event(ts: u64, price: i64, und: i64, strike: i64, expiration: u64) -> MarketEvent {
    MarketEvent::OptionTrade(OptionTradeMsg {
        ts_event: ts,
        price,
        size: 10,
        instrument_id: 42,
        symbol: String::from("OPT42"),
        strike_price: strike,
        expiration,
        option_type: OptionType::Call,
        underlying_bid: und,
        underlying_ask: und,
        underlying_price: und,
        underlying_bid_sz: 1,
        underlying_ask_sz: 1,
    })
}

#[test]
fn momentum_construction_rejects_missing_parameter() {
    let mut params = StrategyParams::new();
    params.insert("lookback_periods", 10_000);
    assert!(matches!(OptionsMomentumStrategy::new(&params), Err(BacktestError::Configuration)));
}

#[test]
fn momentum_buys_a_near_the_money_call_on_rising_momentum() {
    let day = 86_400_000_000_000u64;
    let mut params = StrategyParams::new();
    params.insert("lookback_periods", 20_000); // two periods
    params.insert("momentum_threshold", 0); // any rise
    params.insert("profit_target", 1_000_000); // one hundred percent
    params.insert("stop_loss", 1_000_000);
    params.insert("min_days_to_expiry", 20_000); // two days
    let mut s = OptionsMomentumStrategy::new(&params).unwrap();
    let exp = 20 * day;
    assert_eq!(s.decide(&option_event(day, 10_000, 1_000_000, 1_000_000, exp)), None);
    assert_eq!(s.decide(&option_event(2 * day, 10_000, 1_000_000, 1_000_000, exp)), None);
    let sig = s.decide(&option_event(3 * day, 10_000, 1_100_000, 1_000_000, exp));
    assert_eq!(sig, Some(Order { order_type: OrderType::MarketBuy, price: 10_000 }));
    // too far out of the money: no signal even on momentum
    let mut s2 = OptionsMomentumStrategy::new(&params).unwrap();
    assert_eq!(s2.decide(&option_event(day, 10_000, 1_000_000, 2_000_000, exp)), None);
    assert_eq!(s2.decide(&option_event(2 * day, 10_000, 1_000_000, 2_000_000, exp)), None);
    assert_eq!(s2.decide(&option_event(3 * day, 10_000, 1_100_000, 2_000_000, exp)), None);
}

#[test]
fn momentum_exits_on_profit_target() {
    let day = 86_400_000_000_000u64;
    let mut params = StrategyParams::new();
    params.insert("lookback_periods", 20_000);
    params.insert("momentum_threshold", 0);
    params.insert("profit_target", 100_000); // ten percent
    params.insert("stop_loss", 1_000_000);
    params.insert("min_days_to_expiry", 20_000);
    let mut s = OptionsMomentumStrategy::new(&params).unwrap();
    let exp = 40 * day;
    assert_eq!(s.decide(&option_event(day, 10_000, 1_000_000, 1_000_000, exp)), None);
    assert_eq!(s.decide(&option_event(2 * day, 10_000, 1_000_000, 1_000_000, exp)), None);
    let entry = s.decide(&option_event(3 * day, 10_000, 1_050_000, 1_000_000, exp));
    assert_eq!(entry, Some(Order { order_type: OrderType::MarketBuy, price: 10_000 }));
    // the premium doubles: well past the ten percent target
    let exit = s.decide(&option_event(4 * day, 20_000, 1_050_000, 1_000_000, exp));
    assert_eq!(exit, Some(Order { order_type: OrderType::MarketSell, price: 20_000 }));
}

fn sweep_params(short: i64, long: i64) -> StrategyParams {
    let mut p = StrategyParams::new();
    p.insert("short_window", short * 10_000);
    p.insert("long_window", long * 10_000);
    p
}

fn sweep_events() -> Vec<MarketEvent> {
    let mut evs = Vec::new();
    let prices: [i64; 8] =
        [1_000_000, 1_050_000, 950_000, 1_200_000, 1_300_000, 900_000, 1_100_000, 1_250_000];
    for (i, p) in prices.iter().enumerate() {
        evs.push(trade_event(i as u64 + 1, *p));
    }
    evs
}

#[test]
fn sweep_returns_exactly_the_constructible_runs_ranked() {
    // eight parameter sets, two of which fail construction: exactly six
    // ranked results, sorted by total return, best first, no label twice.
    let combos = vec![
        sweep_params(1, 2),
        sweep_params(1, 3),
        sweep_params(5, 5), // fails: short not below long
        sweep_params(2, 3),
        sweep_params(6, 2), // fails: short above long
        sweep_params(2, 4),
        sweep_params(1, 4),
        sweep_params(3, 4),
    ];
    let events = sweep_events();
    let results =
        run_parallel_backtest(&combos, StrategySelect::MaCross, &events, &equity_config(), &zero_costs());
    assert_eq!(results.len(), 6);
    for w in results.windows(2) {
        assert!(w[0].1.total_return_pct >= w[1].1.total_return_pct);
    }
    let mut labels: Vec<usize> = results.iter().map(|e| e.0).collect();
    labels.sort();
    assert_eq!(labels, vec![0, 1, 3, 5, 6, 7]);
}

#[test]
fn sweep_is_deterministic_across_runs_and_for_identical_params() {
    // two identical parameter sets must produce identical reports, and a
    // repeated sweep must reproduce every report exactly.
    let combos = vec![sweep_params(1, 2), sweep_params(1, 2), sweep_params(1, 3)];
    let events = sweep_events();
    let first =
        run_parallel_backtest(&combos, StrategySelect::MaCross, &events, &equity_config(), &zero_costs());
    let second =
        run_parallel_backtest(&combos, StrategySelect::MaCross, &events, &equity_config(), &zero_costs());
    assert_eq!(first.len(), 3);
    assert_eq!(first, second);
    let a = first.iter().find(|e| e.0 == 0).unwrap();
    let b = first.iter().find(|e| e.0 == 1).unwrap();
    assert_eq!(a.1, b.1);
}

#[test]
fn benchmark_buy_and_hold_marks_to_market() {
    let cfg = RunConfig {
        starting_equity: 1_000_000_000,
        exposure: 10_000,
        instrument: Instrument::Equity,
    };
    let events = vec![trade_event(1, 1_000_000), trade_event(2, 1_100_000)];
    let res = calculate_benchmark(&events, &cfg, false).unwrap();
    assert_eq!(res.equity_curve, vec![1_000_000_000, 1_000_000_000, 1_100_000_000]);
    assert_eq!(res.ending_equity, 1_100_000_000);
    assert_eq!(res.total_trades, 1);
    let t = &res.trades[0];
    assert_eq!(t.trade_type, TradeDirection::Benchmark);
    assert_eq!(t.entry_price, 1_000_000);
    assert_eq!(t.exit_price, 1_100_000);
    assert_eq!(t.size, 10_000_000); // one thousand units, fixed-point
    assert_eq!(t.pnl, 100_000_000);
    assert_eq!(res.total_return_pct, 100_000); // ten percent
}

#[test]
fn benchmark_without_relevant_data_is_a_data_error() {
    let cfg = equity_config();
    let r = calculate_benchmark(&Vec::new(), &cfg, false);
    assert_eq!(r, Err(BacktestError::Data));
}

#[test]
fn event_accessors_default_high_low_to_price() {
    let ev = trade_event(7, 123_456);
    assert_eq!(ev.price(), 123_456);
    assert_eq!(ev.high(), 123_456);
    assert_eq!(ev.low(), 123_456);
    assert_eq!(ev.timestamp(), 7);
    let bar = bar_event(9, 100, 300, 200);
    assert_eq!(bar.high(), 300);
    assert_eq!(bar.low(), 100);
    assert_eq!(bar.price(), 200);
}

#[test]
fn quote_events_fill_at_the_mid() {
    let ev = MarketEvent::Mbp1(Mbp1Msg {
        ts_event: 1,
        price: 1_000_000,
        size: 5,
        bid_px: 990_000,
        ask_px: 1_010_000,
        bid_sz: 3,
        ask_sz: 4,
    });
    assert_eq!(ev.rep_price(), 1_000_000);
    assert_eq!(ev.get(EventAttr::UnderlyingBid), Some(990_000));
    assert_eq!(ev.get(EventAttr::UnderlyingAsk), Some(1_010_000));
    assert_eq!(ev.get(EventAttr::StrikePrice), None);
    assert_eq!(ev.get_u64(EventAttr::UnderlyingBidSz), Some(3));
}

#[test]
fn option_trade_attributes_are_enumerated() {
    let ev = option_event(5, 10_000, 1_000_000, 1_200_000, 99);
    assert_eq!(ev.get(EventAttr::StrikePrice), Some(1_200_000));
    assert_eq!(ev.get(EventAttr::Price), Some(10_000));
    assert_eq!(ev.get_u64(EventAttr::Expiration), Some(99));
    assert_eq!(ev.get_u64(EventAttr::InstrumentId), Some(42));
    assert_eq!(ev.get_string(EventAttr::OptionTypeCode), Some(String::from("C")));
    assert_eq!(ev.get_string(EventAttr::Symbol), Some(String::from("OPT42")));
    assert_eq!(ev.get_string(EventAttr::UnderlyingBid), None);
}

#[test]
fn date_string_renders_the_utc_calendar_date() {
    // midnight 2019-01-01 UTC in nanoseconds since the epoch
    let ev = trade_event(1_546_300_800_000_000_000, 1);
    assert_eq!(ev.date_string(), "2019-01-01");
    // the epoch itself
    let ev2 = trade_event(0, 1);
    assert_eq!(ev2.date_string(), "1970-01-01");
}

#[test]
fn reset_clears_history_so_replays_match() {
    let mut params = StrategyParams::new();
    params.insert("short_window", 10_000);
    params.insert("long_window", 20_000);
    let mut s = MaCrossStrategy::new(&params).unwrap();
    let first = vec![
        s.decide(&trade_event(1, 1_000_000)),
        s.decide(&trade_event(2, 2_000_000)),
    ];
    s.reset();
    let replay = vec![
        s.decide(&trade_event(1, 1_000_000)),
        s.decide(&trade_event(2, 2_000_000)),
    ];
    assert_eq!(first, replay);
    assert_eq!(replay[1], Some(Order { order_type: OrderType::MarketBuy, price: 2_000_000 }));
}

#[test]
fn momentum_reset_clears_the_held_contract() {
    let day = 86_400_000_000_000u64;
    let mut params = StrategyParams::new();
    params.insert("lookback_periods", 20_000);
    params.insert("momentum_threshold", 0);
    params.insert("profit_target", 1_000_000);
    params.insert("stop_loss", 1_000_000);
    params.insert("min_days_to_expiry", 20_000);
    let mut s = OptionsMomentumStrategy::new(&params).unwrap();
    let exp = 20 * day;
    s.decide(&option_event(day, 10_000, 1_000_000, 1_000_000, exp));
    s.decide(&option_event(2 * day, 10_000, 1_000_000, 1_000_000, exp));
    let entered = s.decide(&option_event(3 * day, 10_000, 1_100_000, 1_000_000, exp));
    assert!(entered.is_some());
    s.reset();
    // flat again and without history: the same event yields no exit and no
    // entry
    assert_eq!(s.decide(&option_event(4 * day, 20_000, 1_100_000, 1_000_000, exp)), None);
}

#[test]
fn footprint_events_carry_their_level_table() {
    let ev = MarketEvent::Footprint(FootprintMsg {
        ts_event: 11,
        price: 777_000,
        volume: 42,
        levels: vec![FootprintLevel { price: 777_000, buy_volume: 30, sell_volume: 12 }],
    });
    assert_eq!(ev.price(), 777_000);
    assert_eq!(ev.volume(), 42);
    assert_eq!(ev.high(), 777_000);
    assert_eq!(ev.low(), 777_000);
    assert_eq!(ev.timestamp(), 11);
    assert_eq!(ev.get(EventAttr::Price), None);
    if let MarketEvent::Footprint(msg) = &ev {
        assert_eq!(msg.levels.len(), 1);
        assert_eq!(msg.levels[0].buy_volume, 30);
    } else {
        panic!("expected a footprint event");
    }
}
