//! The transaction-cost model on concrete values.

use inkback::costs::{CommissionModel, SlippageModel, SpreadModel, TransactionCosts};

fn zero_costs() -> TransactionCosts {
    TransactionCosts {
        commission: CommissionModel::Fixed(0),
        slippage: SlippageModel::Fixed(0),
        spread: SpreadModel::Fixed(0),
    }
}

#[test]
fn equity_preset_entry_cost_exact() {
    // two basis points of slippage on a $1000 notional is $0.20; one basis
    // point of spread on a $100 price is $0.01, half of which enters.
    let costs = TransactionCosts::equity_trading();
    let r = costs.calculate_entry_cost(1_000_000, 10, 1_000);
    assert_eq!(r, Some(2_050));
}

#[test]
fn exit_cost_mirrors_entry_cost() {
    let costs = TransactionCosts::equity_trading();
    assert_eq!(
        costs.calculate_entry_cost(1_000_000, 10, 1_000),
        costs.calculate_exit_cost(1_000_000, 10, 1_000)
    );
}

#[test]
fn zero_cost_model_charges_nothing() {
    let costs = zero_costs();
    assert_eq!(costs.calculate_entry_cost(1_000_000, 500, 0), Some(0));
    assert_eq!(costs.adjust_fill_price(1_000_000, 500, true), Some(1_000_000));
    assert_eq!(costs.adjust_fill_price(1_000_000, 500, false), Some(1_000_000));
}

#[test]
fn tick_based_adjust_is_signed() {
    // one cent of tick slippage plus half a one-cent spread: buys pay more,
    // sells receive less.
    let costs = TransactionCosts {
        commission: CommissionModel::Fixed(0),
        slippage: SlippageModel::TickBased(100),
        spread: SpreadModel::Fixed(100),
    };
    assert_eq!(costs.adjust_fill_price(1_000_000, 5, true), Some(1_000_150));
    assert_eq!(costs.adjust_fill_price(1_000_000, 5, false), Some(999_850));
}

#[test]
fn tiered_commission_picks_matching_tier() {
    // $200 notional crosses the first tier, so the second rate applies.
    let costs = TransactionCosts {
        commission: CommissionModel::Tiered(vec![(1_000_000, 100), (5_000_000, 200)]),
        slippage: SlippageModel::Fixed(0),
        spread: SpreadModel::Fixed(0),
    };
    assert_eq!(costs.calculate_entry_cost(1_000_000, 2, 100), Some(40_000));
}

#[test]
fn tiered_commission_last_tier_applies_above_all() {
    let costs = TransactionCosts {
        commission: CommissionModel::Tiered(vec![(1_000_000, 100)]),
        slippage: SlippageModel::Fixed(0),
        spread: SpreadModel::Fixed(0),
    };
    assert_eq!(costs.calculate_entry_cost(1_000_000, 2, 100), Some(20_000));
}

#[test]
fn percentage_commission_exact() {
    // one percent of a $1000 notional is $10.
    let costs = TransactionCosts {
        commission: CommissionModel::Percentage(10_000),
        slippage: SlippageModel::Fixed(0),
        spread: SpreadModel::Fixed(0),
    };
    assert_eq!(costs.calculate_entry_cost(1_000_000, 10, 100), Some(100_000));
}

#[test]
fn square_root_slippage_exact() {
    // participation 4/16 = 0.25, square root 0.5, factor one basis point
    // scale: 0.5 bps of the $400 notional is $0.02.
    let costs = TransactionCosts {
        commission: CommissionModel::Fixed(0),
        slippage: SlippageModel::SquareRoot(10_000),
        spread: SpreadModel::Fixed(0),
    };
    assert_eq!(costs.calculate_entry_cost(1_000_000, 4, 16), Some(200));
}

#[test]
fn options_preset_floors_tiny_spreads() {
    // a $0.10 premium: the percentage spread would be far below the $0.05
    // floor, so the floor applies in both slippage and the half-spread.
    let costs = TransactionCosts::options_trading();
    assert_eq!(costs.calculate_entry_cost(1_000, 1, 1_000), Some(7_001));
}

#[test]
fn market_impact_zero_volume_is_an_anomaly() {
    let costs = TransactionCosts {
        commission: CommissionModel::Fixed(0),
        slippage: SlippageModel::MarketImpact {
            permanent: 10_000,
            temporary: 10_000,
            liquidity_factor: 10_000,
        },
        spread: SpreadModel::Fixed(0),
    };
    assert_eq!(costs.calculate_entry_cost(1_000_000, 10, 0), None);
}

#[test]
fn linear_slippage_caps_participation() {
    // thirty units against ten of volume: participation capped at one, so
    // the full factor (10 bps) applies to the $3000 notional: $3.
    let costs = TransactionCosts {
        commission: CommissionModel::Fixed(0),
        slippage: SlippageModel::Linear(100_000),
        spread: SpreadModel::Fixed(0),
    };
    assert_eq!(costs.calculate_entry_cost(1_000_000, 30, 10), Some(30_000));
}
