//! The position ledger: the one open position of a run, the instrument
//! multiplier, realized-PnL arithmetic and the immutable trade record.

use vstd::arithmetic::mul::lemma_mul_upper_bound;
use vstd::prelude::*;

use crate::costs::{spec_side_cost, spec_side_cost_capped, CommissionModel, SlippageModel,
    SpreadModel, TransactionCosts};
use crate::fixed::{in_money, MONEY_MAX, MULT_CAP, PRICE_CAP, SIZE_CAP};

verus! {

/// What is being traded: selects the multiplier that converts a price delta
/// into a cash delta. The point value of a futures contract is given in
/// hundredths, so `1_250` means a point is worth twelve and a half.
#[derive(Clone, Copy, Debug, PartialEq, Eq, Structural)]
pub enum Instrument {
    Equity,
    Futures { point_value: u64 },
    Options,
}

impl Instrument {
    /// The multiplier in hundredths: one hundred for an equity, ten thousand
    /// (a multiplier of one hundred) for an options contract, the configured
    /// point value for a futures contract.
    pub open spec fn spec_mult(self) -> int {
        match self {
            Instrument::Equity => 100,
            Instrument::Futures { point_value } => point_value as int,
            Instrument::Options => 10_000,
        }
    }

    pub open spec fn wf(self) -> bool {
        match self {
            Instrument::Futures { point_value } => 0 < point_value <= MULT_CAP,
            _ => true,
        }
    }

    /// The multiplier in hundredths.
    pub fn mult(&self) -> (m: u64)
        requires
            self.wf(),
        ensures
            m == self.spec_mult(),
            0 < m <= MULT_CAP,
    {
        match self {
            Instrument::Equity => 100,
            Instrument::Futures { point_value } => *point_value,
            Instrument::Options => 10_000,
        }
    }
}

/// Whether a completed trade was long, short, or the buy-and-hold benchmark.
#[derive(Clone, Copy, Debug, PartialEq, Eq, Structural)]
pub enum TradeDirection {
    Long,
    Short,
    Benchmark,
}

/// Why a position was closed.
#[derive(Clone, Copy, Debug, PartialEq, Eq, Structural)]
pub enum ExitReason {
    /// The strategy emitted an opposite-direction market order.
    Strategy,
    /// The series ended (used by the benchmark's single round trip).
    End,
}

/// The immutable record of one completed round trip. Timestamps are
/// nanoseconds since the Unix epoch; `size` is fixed-point (the benchmark
/// holds a fractional size), prices and money fixed-point as everywhere.
#[derive(Clone, Copy, Debug, PartialEq, Eq, Structural)]
pub struct Trade {
    pub entry_ts: u64,
    pub exit_ts: u64,
    pub entry_price: i64,
    pub exit_price: i64,
    pub size: i64,
    pub pnl: i64,
    pub pnl_pct: i64,
    pub trade_type: TradeDirection,
    pub exit_reason: ExitReason,
    pub transaction_costs: i64,
}

/// The one position of a running simulation: flat, long or short. The entry
/// price already reflects the cost-model adjustment.
#[derive(Clone, Copy, Debug, PartialEq, Eq, Structural)]
pub enum Position {
    Long { entry: i64, size: u64, entry_ts: u64 },
    Short { entry: i64, size: u64, entry_ts: u64 },
    Neutral,
}

/// Division by one hundred rounding toward zero, as the fixed-point
/// multiplier conversion performs it.
pub open spec fn div100_toward_zero(x: int) -> int {
    if x >= 0 {
        x / 100
    } else {
        -((-x) / 100)
    }
}

/// The gross PnL of a round trip: the signed price move times size times
/// the instrument multiplier.
pub open spec fn spec_gross_pnl(
    is_long: bool,
    entry: int,
    exit: int,
    size: int,
    mult: int,
) -> int {
    let diff = if is_long {
        exit - entry
    } else {
        entry - exit
    };
    div100_toward_zero(diff * size * mult)
}

/// The realized PnL of closing `pos` at `exit_price`: gross PnL net of the
/// entry-side and exit-side transaction costs, both quoted against the
/// volume of the exit event. `None` is a numeric anomaly: a cost or the
/// result left the representable money range.
pub open spec fn spec_pnl(
    pos: Position,
    exit_price: int,
    costs: TransactionCosts,
    vol: int,
    inst: Instrument,
) -> Option<i64> {
    match pos {
        Position::Neutral => Some(0i64),
        Position::Long { entry, size, .. } => spec_pnl_side(
            true,
            entry as int,
            exit_price,
            size as int,
            costs,
            vol,
            inst,
        ),
        Position::Short { entry, size, .. } => spec_pnl_side(
            false,
            entry as int,
            exit_price,
            size as int,
            costs,
            vol,
            inst,
        ),
    }
}

/// One direction of `spec_pnl`.
pub open spec fn spec_pnl_side(
    is_long: bool,
    entry: int,
    exit: int,
    size: int,
    costs: TransactionCosts,
    vol: int,
    inst: Instrument,
) -> Option<i64> {
    let entry_cost = spec_side_cost_capped(costs, entry, size, vol);
    let exit_cost = spec_side_cost_capped(costs, exit, size, vol);
    match (entry_cost, exit_cost) {
        (Some(ec), Some(xc)) => {
            let pnl = spec_gross_pnl(is_long, entry, exit, size, inst.spec_mult()) - ec - xc;
            if in_money(pnl) {
                Some(pnl as i64)
            } else {
                None
            }
        },
        _ => None,
    }
}

impl Position {
    /// A position's entry price and size sit inside the representable range;
    /// the entry price of an open position is strictly positive.
    pub open spec fn wf(self) -> bool {
        match self {
            Position::Neutral => true,
            Position::Long { entry, size, .. } => 0 < entry <= PRICE_CAP && size <= SIZE_CAP,
            Position::Short { entry, size, .. } => 0 < entry <= PRICE_CAP && size <= SIZE_CAP,
        }
    }

    /// The realized PnL of closing this position at `exit_price`, net of
    /// transaction costs; `None` reports a numeric anomaly, on which the
    /// ledger discards the trade and holds equity flat.
    pub fn calculate_pnl_with_costs(
        &self,
        exit_price: i64,
        costs: &TransactionCosts,
        vol: u64,
        inst: Instrument,
    ) -> (r: Option<i64>)
        requires
            self.wf(),
            costs.wf(),
            inst.wf(),
            0 <= exit_price <= PRICE_CAP,
        ensures
            r == spec_pnl(*self, exit_price as int, *costs, vol as int, inst),
            r matches Some(v) ==> in_money(v as int),
    {
        let (is_long, entry, size): (bool, i64, u64) = match self {
            Position::Neutral => {
                return Some(0);
            },
            Position::Long { entry, size, .. } => (true, *entry, *size),
            Position::Short { entry, size, .. } => (false, *entry, *size),
        };
        let entry_cost = match costs.calculate_entry_cost(entry, size, vol) {
            Option::Some(c) => c,
            Option::None => {
                return None;
            },
        };
        let exit_cost = match costs.calculate_exit_cost(exit_price, size, vol) {
            Option::Some(c) => c,
            Option::None => {
                return None;
            },
        };
        let mult = inst.mult();
        let (mag, neg): (i64, bool) = if is_long {
            if exit_price >= entry {
                (exit_price - entry, false)
            } else {
                (entry - exit_price, true)
            }
        } else {
            if entry >= exit_price {
                (entry - exit_price, false)
            } else {
                (exit_price - entry, true)
            }
        };
        proof {
            lemma_mul_upper_bound(mag as int, PRICE_CAP as int, size as int, SIZE_CAP as int);
            lemma_mul_upper_bound(
                mag as int * size as int,
                PRICE_CAP as int * SIZE_CAP as int,
                mult as int,
                MULT_CAP as int,
            );
        }
        let gross_mag: u128 = (mag as u128) * (size as u128) * (mult as u128) / 100;
        let gross: i128 = if neg {
            -(gross_mag as i128)
        } else {
            gross_mag as i128
        };
        proof {
            let diff: int = if is_long {
                exit_price - entry
            } else {
                entry - exit_price
            };
            assert(diff * size * mult == if neg {
                -(mag as int * size as int * mult as int)
            } else {
                mag as int * size as int * mult as int
            }) by (nonlinear_arith)
                requires
                    diff == if neg {
                        -(mag as int)
                    } else {
                        mag as int
                    },
                    size >= 0,
                    mult >= 0,
            ;
        }
        let pnl: i128 = gross - (entry_cost as i128) - (exit_cost as i128);
        if -MONEY_MAX as i128 <= pnl && pnl <= MONEY_MAX as i128 {
            Some(pnl as i64)
        } else {
            None
        }
    }
}

/// A cost model under which every trade is free: no commission, no
/// slippage, no spread.
pub open spec fn is_zero_cost(costs: TransactionCosts) -> bool {
    costs.commission == CommissionModel::Fixed(0i64) && costs.slippage == SlippageModel::Fixed(
        0i64,
    ) && costs.spread == SpreadModel::Fixed(0i64)
}

/// Under a zero-cost model every side cost is exactly zero.
pub proof fn lemma_zero_cost_side(costs: TransactionCosts, price: int, size: int, vol: int)
    requires
        is_zero_cost(costs),
        price >= 0,
        size >= 0,
    ensures
        spec_side_cost_capped(costs, price, size, vol) == Some(0i64),
{
    assert(0int * price * size == 0) by (nonlinear_arith);
    assert(spec_side_cost(costs, price, size, vol) == Some(0int));
}

/// A long round trip of equal entry and exit size under a zero-cost model
/// realizes exactly `(exit - entry) * size * multiplier`, the multiplier
/// taken in whole units (an equity counts one, an options contract one
/// hundred).
pub proof fn lemma_round_trip_pnl(
    entry: i64,
    size: u64,
    entry_ts: u64,
    exit_price: i64,
    costs: TransactionCosts,
    vol: u64,
    inst: Instrument,
)
    requires
        is_zero_cost(costs),
        0 < entry <= PRICE_CAP,
        size <= SIZE_CAP,
        0 <= exit_price <= PRICE_CAP,
        inst.wf(),
        inst.spec_mult() % 100 == 0,
        in_money((exit_price - entry) * size * (inst.spec_mult() / 100)),
    ensures
        spec_pnl(
            Position::Long { entry, size, entry_ts },
            exit_price as int,
            costs,
            vol as int,
            inst,
        ) == Some((((exit_price - entry) * size * (inst.spec_mult() / 100)) as i64)),
{
    lemma_zero_cost_side(costs, entry as int, size as int, vol as int);
    lemma_zero_cost_side(costs, exit_price as int, size as int, vol as int);
    let diff = exit_price - entry;
    let m = inst.spec_mult();
    assert(diff * size * m == (diff * size * (m / 100)) * 100) by (nonlinear_arith)
        requires
            m % 100 == 0,
    ;
    let w = diff * size * (m / 100);
    if w >= 0 {
        assert(div100_toward_zero(w * 100) == w) by (nonlinear_arith)
            requires
                w >= 0,
        ;
    } else {
        assert(div100_toward_zero(w * 100) == w) by (nonlinear_arith)
            requires
                w < 0,
        ;
    }
}

} // verus!
