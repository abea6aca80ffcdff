//! The metrics reduction and the position ledger on concrete values.

use inkback::costs::{CommissionModel, SlippageModel, SpreadModel, TransactionCosts};
use inkback::ledger::{ExitReason, Instrument, Position, Trade, TradeDirection};
use inkback::metrics::{BacktestResult, PROFIT_FACTOR_CAP};

fn trade_with_pnl(pnl: i64) -> Trade {
    Trade {
        entry_ts: 0,
        exit_ts: 1,
        entry_price: 1_000_000,
        exit_price: 1_000_000 + pnl,
        size: 10_000,
        pnl,
        pnl_pct: 0,
        trade_type: TradeDirection::Long,
        exit_reason: ExitReason::Strategy,
        transaction_costs: 0,
    }
}

fn zero_costs() -> TransactionCosts {
    TransactionCosts {
        commission: CommissionModel::Fixed(0),
        slippage: SlippageModel::Fixed(0),
        spread: SpreadModel::Fixed(0),
    }
}

#[test]
fn profit_factor_caps_when_no_losses() {
    let r = BacktestResult::calculate_metrics(100, 200, vec![], vec![trade_with_pnl(100)]);
    assert_eq!(r.profit_factor, PROFIT_FACTOR_CAP);
}

#[test]
fn profit_factor_zero_when_no_trades_win_or_lose() {
    let r = BacktestResult::calculate_metrics(100, 100, vec![], vec![trade_with_pnl(0)]);
    assert_eq!(r.profit_factor, 0);
}

#[test]
fn profit_factor_is_the_gross_ratio() {
    let trades = vec![trade_with_pnl(200), trade_with_pnl(-100)];
    let r = BacktestResult::calculate_metrics(100, 200, vec![], trades);
    assert_eq!(r.profit_factor, 20_000);
}

#[test]
fn max_drawdown_tracks_the_running_peak() {
    let curve = vec![100, 120, 90, 110, 80];
    let r = BacktestResult::calculate_metrics(100, 80, curve, vec![]);
    assert_eq!(r.max_drawdown, 40);
    assert_eq!(r.max_drawdown_pct, 333_333);
    assert!(r.max_drawdown >= 0);
    assert!(r.max_drawdown_pct <= 1_000_000);
}

#[test]
fn drawdown_zero_on_a_rising_curve() {
    let r = BacktestResult::calculate_metrics(100, 300, vec![150, 200, 300], vec![]);
    assert_eq!(r.max_drawdown, 0);
    assert_eq!(r.max_drawdown_pct, 0);
}

#[test]
fn trade_statistics_exact() {
    let trades = vec![trade_with_pnl(100), trade_with_pnl(-50), trade_with_pnl(300)];
    let r = BacktestResult::calculate_metrics(1_000, 1_350, vec![], trades);
    assert_eq!(r.total_trades, 3);
    assert_eq!(r.winning_trades, 2);
    assert_eq!(r.losing_trades, 1);
    assert_eq!(r.win_rate, 666_666);
    assert_eq!(r.avg_win, 200);
    assert_eq!(r.avg_loss, 50);
    assert_eq!(r.largest_win, 300);
    assert_eq!(r.largest_loss, -50);
    assert_eq!(r.profit_factor, 80_000);
}

#[test]
fn total_return_pct_relative_to_start() {
    let r = BacktestResult::calculate_metrics(1_000_000_000, 1_050_000_000, vec![], vec![]);
    assert_eq!(r.total_return, 50_000_000);
    assert_eq!(r.total_return_pct, 50_000);
}

#[test]
fn round_trip_long_pnl_with_zero_costs() {
    // entry $100.00, size 500, exit $110.00, equity multiplier one:
    // exactly (110 - 100) * 500 = $5000.
    let pos = Position::Long { entry: 1_000_000, size: 500, entry_ts: 0 };
    let pnl = pos.calculate_pnl_with_costs(1_100_000, &zero_costs(), 1_000, Instrument::Equity);
    assert_eq!(pnl, Some(50_000_000));
}

#[test]
fn round_trip_short_pnl_with_zero_costs() {
    let pos = Position::Short { entry: 1_100_000, size: 500, entry_ts: 0 };
    let pnl = pos.calculate_pnl_with_costs(1_000_000, &zero_costs(), 1_000, Instrument::Equity);
    assert_eq!(pnl, Some(50_000_000));
}

#[test]
fn options_multiplier_scales_pnl_by_one_hundred() {
    let pos = Position::Long { entry: 10_000, size: 3, entry_ts: 0 };
    let pnl = pos.calculate_pnl_with_costs(20_000, &zero_costs(), 1_000, Instrument::Options);
    // (2.00 - 1.00) * 3 contracts * 100 = $300
    assert_eq!(pnl, Some(3_000_000));
}

#[test]
fn futures_point_value_scales_pnl() {
    // a point value of 12.50: one full point on two contracts is $25.
    let pos = Position::Long { entry: 1_000_000, size: 2, entry_ts: 0 };
    let inst = Instrument::Futures { point_value: 1_250 };
    let pnl = pos.calculate_pnl_with_costs(1_010_000, &zero_costs(), 1_000, inst);
    assert_eq!(pnl, Some(250_000));
}

#[test]
fn pnl_nets_both_sides_of_costs() {
    let costs = TransactionCosts {
        commission: CommissionModel::Fixed(10_000),
        slippage: SlippageModel::Fixed(0),
        spread: SpreadModel::Fixed(0),
    };
    let pos = Position::Long { entry: 1_000_000, size: 500, entry_ts: 0 };
    let pnl = pos.calculate_pnl_with_costs(1_100_000, &costs, 1_000, Instrument::Equity);
    // $5000 gross minus a $1 commission on each side
    assert_eq!(pnl, Some(49_980_000));
}
