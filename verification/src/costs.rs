//! The transaction cost model: commission, slippage and spread.
//!
//! Each axis is configured independently and the three are combined
//! additively. Every amount is fixed-point (`fixed::SCALE` units); every
//! formula is evaluated in a fixed staging order with truncating division,
//! which the specification functions state exactly. A value that leaves the
//! representable money range is reported as `None` (a numeric anomaly the
//! engine recovers from); a zero available volume is guarded, never divided
//! by.

use vstd::arithmetic::div_mod::lemma_div_is_ordered;
use vstd::arithmetic::mul::lemma_mul_upper_bound;
use vstd::prelude::*;

use crate::fixed::{
    in_money, isqrt, money_opt, spec_isqrt, MONEY_MAX, PRICE_CAP, RATE_CAP, SIZE_CAP,
};

verus! {

/// Commission charged per trade.
#[derive(Clone, Debug)]
pub enum CommissionModel {
    /// A fixed fee per trade, in money units.
    Fixed(i64),
    /// A fee per instrument unit, in money units.
    PerShare(i64),
    /// A percentage of the trade's notional value, in fixed-point percent.
    Percentage(i64),
    /// Notional-value tiers: the first tier whose threshold is at or above
    /// the notional sets the rate (a fixed-point fraction); above every
    /// threshold the last tier's rate applies.
    Tiered(Vec<(i64, i64)>),
}

/// Adverse price deviation as a function of trade size and liquidity.
#[derive(Clone, Debug)]
pub enum SlippageModel {
    /// Fixed basis points of the price, in fixed-point basis points.
    Fixed(i64),
    /// Linear in the participation rate (size over available volume, capped
    /// at one); the factor is fixed-point basis points.
    Linear(i64),
    /// Proportional to the square root of the participation rate.
    SquareRoot(i64),
    /// A fixed price amount per instrument unit, in money units.
    TickBased(i64),
    /// Permanent and temporary impact scaled by a liquidity adjustment that
    /// penalizes low-volume periods; all three are fixed-point factors.
    MarketImpact { permanent: i64, temporary: i64, liquidity_factor: i64 },
    /// Options-specific: base basis points times a liquidity penalty, plus a
    /// fraction of the bid/ask spread.
    OptionsSlippage { base_slippage_bps: i64, liquidity_factor: i64, bid_ask_multiplier: i64 },
}

/// Bid/ask spread width as a function of the price.
#[derive(Clone, Debug)]
pub enum SpreadModel {
    /// A fixed spread in money units.
    Fixed(i64),
    /// A percentage of the price, in fixed-point percent.
    Percentage(i64),
    /// An options band: a percentage of the price, floored at a minimum
    /// dollar spread and capped at a maximum percentage for cheap contracts.
    OptionsBidAsk { min_spread: i64, spread_pct: i64, max_spread_pct: i64 },
}

/// One commission variant, one slippage variant, one spread variant,
/// shared read-only by every trade of a run.
#[derive(Clone, Debug)]
pub struct TransactionCosts {
    pub commission: CommissionModel,
    pub slippage: SlippageModel,
    pub spread: SpreadModel,
}

impl CommissionModel {
    /// Every parameter sits inside the machine range its use requires.
    pub open spec fn wf(self) -> bool {
        match self {
            CommissionModel::Fixed(f) => 0 <= f <= MONEY_MAX,
            CommissionModel::PerShare(r) => 0 <= r <= MONEY_MAX,
            CommissionModel::Percentage(p) => 0 <= p <= RATE_CAP,
            CommissionModel::Tiered(tiers) => forall|i: int|
                0 <= i < tiers@.len() ==> 0 <= #[trigger] tiers@[i].0 <= MONEY_MAX && 0
                    <= tiers@[i].1 <= RATE_CAP,
        }
    }
}

impl SlippageModel {
    pub open spec fn wf(self) -> bool {
        match self {
            SlippageModel::Fixed(b) => 0 <= b <= RATE_CAP,
            SlippageModel::Linear(f) => 0 <= f <= RATE_CAP,
            SlippageModel::SquareRoot(f) => 0 <= f <= RATE_CAP,
            SlippageModel::TickBased(t) => 0 <= t <= MONEY_MAX,
            SlippageModel::MarketImpact { permanent, temporary, liquidity_factor } => 0 <= permanent
                <= RATE_CAP && 0 <= temporary <= RATE_CAP && 0 <= liquidity_factor <= RATE_CAP,
            SlippageModel::OptionsSlippage {
                base_slippage_bps,
                liquidity_factor,
                bid_ask_multiplier,
            } => 0 <= base_slippage_bps <= RATE_CAP && 0 <= liquidity_factor <= RATE_CAP && 0
                <= bid_ask_multiplier <= RATE_CAP,
        }
    }
}

impl SpreadModel {
    pub open spec fn wf(self) -> bool {
        match self {
            SpreadModel::Fixed(s) => 0 <= s <= MONEY_MAX,
            SpreadModel::Percentage(p) => 0 <= p <= RATE_CAP,
            SpreadModel::OptionsBidAsk { min_spread, spread_pct, max_spread_pct } => 0 <= min_spread
                <= MONEY_MAX && 0 <= spread_pct <= RATE_CAP && 0 <= max_spread_pct <= RATE_CAP,
        }
    }
}

impl TransactionCosts {
    pub open spec fn wf(self) -> bool {
        self.commission.wf() && self.slippage.wf() && self.spread.wf()
    }
}

/// The participation rate `size / volume`, fixed-point, capped at one whole.
/// A zero volume counts as full participation (the zero-division guard).
pub open spec fn spec_participation(size: int, volume: int) -> int {
    if volume == 0 {
        10_000
    } else if size * 10_000 / volume > 10_000 {
        10_000
    } else {
        size * 10_000 / volume
    }
}

/// Square root of a fixed-point fraction, itself fixed-point.
pub open spec fn spec_sqrt_fp(x: int) -> int
    recommends
        x >= 0,
{
    spec_isqrt((x * 10_000) as nat) as int
}

/// The commission for a trade of `size` units at `price`, before the money
/// range cap. The tiers of a tiered model are scanned in order.
pub open spec fn spec_commission(c: CommissionModel, price: int, size: int) -> int {
    match c {
        CommissionModel::Fixed(f) => f as int,
        CommissionModel::PerShare(r) => r * size,
        CommissionModel::Percentage(p) => p * price * size / 1_000_000,
        CommissionModel::Tiered(tiers) => spec_tiered(tiers@, price * size),
    }
}

/// First tier whose threshold covers the notional sets the rate; above all
/// thresholds the last rate applies; no tiers means no commission.
pub open spec fn spec_tiered(tiers: Seq<(i64, i64)>, notional: int) -> int
    decreases tiers.len(),
{
    if tiers.len() == 0 {
        0
    } else if notional <= tiers[0].0 {
        tiers[0].1 * notional / 10_000
    } else if tiers.len() == 1 {
        tiers[0].1 * notional / 10_000
    } else {
        spec_tiered(tiers.drop_first(), notional)
    }
}

/// The spread width at `price`, before the money range cap.
pub open spec fn spec_spread(sp: SpreadModel, price: int) -> int {
    match sp {
        SpreadModel::Fixed(s) => s as int,
        SpreadModel::Percentage(p) => p * price / 1_000_000,
        SpreadModel::OptionsBidAsk { min_spread, spread_pct, max_spread_pct } => {
            let pct = spread_pct * price / 1_000_000;
            let cap = max_spread_pct * price / 1_000_000;
            let floored = if pct >= min_spread {
                pct
            } else {
                min_spread as int
            };
            if floored <= cap {
                floored
            } else {
                cap
            }
        },
    }
}

/// The slippage cost of trading `size` units at `price` against `volume`
/// available units, before the money range cap. `None` is the one anomaly:
/// a market-impact model quoted against zero volume.
pub open spec fn spec_slippage(
    costs: TransactionCosts,
    price: int,
    size: int,
    volume: int,
) -> Option<int> {
    match costs.slippage {
        SlippageModel::Fixed(b) => Some(b * price * size / 100_000_000),
        SlippageModel::Linear(f) => {
            let part = spec_participation(size, volume);
            Some((f * part / 10_000) * price * size / 100_000_000)
        },
        SlippageModel::SquareRoot(f) => {
            let root = spec_sqrt_fp(spec_participation(size, volume));
            Some((f * root / 10_000) * price * size / 100_000_000)
        },
        SlippageModel::TickBased(t) => Some(t * size),
        SlippageModel::MarketImpact { permanent, temporary, liquidity_factor } => {
            if volume == 0 {
                None
            } else {
                let part = size * 10_000 / volume;
                let root = spec_sqrt_fp(part);
                let vol_ratio = if volume / 100 > 10_000 {
                    10_000
                } else {
                    volume / 100
                };
                let adj = 10_000 + liquidity_factor * (10_000 - vol_ratio) / 10_000;
                let impact = (permanent + temporary) * root / 10_000;
                let scaled = impact * adj / 10_000;
                Some(scaled * price / 100_000_000 * size)
            }
        },
        SlippageModel::OptionsSlippage {
            base_slippage_bps,
            liquidity_factor,
            bid_ask_multiplier,
        } => {
            let part = spec_participation(size, volume);
            let penalty = if part > 1_000 {
                liquidity_factor * part / 10_000
            } else {
                10_000
            };
            let base = (base_slippage_bps * penalty / 10_000) * price * size / 100_000_000;
            let spread_cost = bid_ask_multiplier * spec_spread(costs.spread, price) / 10_000 * size;
            Some(base + spread_cost)
        },
    }
}

/// Commission plus slippage plus half the spread, before the money cap.
pub open spec fn spec_side_cost(
    costs: TransactionCosts,
    price: int,
    size: int,
    volume: int,
) -> Option<int> {
    match spec_slippage(costs, price, size, volume) {
        Option::None => None,
        Option::Some(s) => Some(
            spec_commission(costs.commission, price, size) + s + spec_spread(costs.spread, price)
                / 2,
        ),
    }
}

/// `spec_side_cost` with the money range cap applied.
pub open spec fn spec_side_cost_capped(
    costs: TransactionCosts,
    price: int,
    size: int,
    volume: int,
) -> Option<i64> {
    match spec_side_cost(costs, price, size, volume) {
        Option::None => None,
        Option::Some(v) => money_opt(v),
    }
}

/// The slippage amount a single fill pays on top of the order price. No
/// volume is known at fill time, so the trade size itself stands in for the
/// participation rate here.
pub open spec fn spec_adjust_amount(costs: TransactionCosts, price: int, size: int) -> int {
    match costs.slippage {
        SlippageModel::Fixed(b) => b * price / 100_000_000,
        SlippageModel::Linear(f) => {
            let pfull: int = if size >= 1 {
                10_000
            } else {
                0
            };
            (f * pfull / 10_000) * price / 100_000_000
        },
        SlippageModel::SquareRoot(f) => {
            let root = spec_isqrt((size * 100_000_000) as nat) as int;
            (f * root / 10_000) * price / 100_000_000
        },
        SlippageModel::TickBased(t) => t as int,
        SlippageModel::MarketImpact { temporary, .. } => {
            let root = spec_isqrt((size * 100_000_000) as nat) as int;
            (temporary * root / 10_000) * price / 100_000_000
        },
        SlippageModel::OptionsSlippage {
            base_slippage_bps,
            liquidity_factor,
            bid_ask_multiplier,
        } => {
            let pfull: int = if size >= 1 {
                10_000
            } else {
                0
            };
            let penalty: int = if pfull > 1_000 {
                liquidity_factor * pfull / 10_000
            } else {
                10_000
            };
            (base_slippage_bps * penalty / 10_000) * price / 100_000_000 + bid_ask_multiplier
                * spec_spread(costs.spread, price) / 10_000
        },
    }
}

/// The adjusted fill price: the order price plus (for a buy) or minus (for
/// a sell) the slippage amount and half the spread; `None` on a numeric
/// anomaly.
pub open spec fn spec_adjust(
    costs: TransactionCosts,
    price: int,
    size: int,
    is_buy: bool,
) -> Option<i64> {
    let total = spec_adjust_amount(costs, price, size) + spec_spread(costs.spread, price) / 2;
    let res = if is_buy {
        price + total
    } else {
        price - total
    };
    if in_money(res) {
        Some(res as i64)
    } else {
        None
    }
}

/// Fixed-point square root of a whole number of instrument units.
fn sqrt_units(size: u64) -> (r: u64)
    requires
        size <= SIZE_CAP,
    ensures
        r == spec_isqrt((size * 100_000_000) as nat),
        r <= 10_000_000_000,
{
    let r = isqrt((size as u128) * 100_000_000);
    proof {
        assert(r * r <= size * 100_000_000);
        if r > 10_000_000_000u64 {
            assert((10_000_000_001u64 as int) * (10_000_000_001u64 as int) <= r * r)
                by (nonlinear_arith)
                requires
                    r >= 10_000_000_001u64,
            ;
            assert(false);
        }
    }
    r
}

/// The capped participation rate, total in size and volume.
fn participation(size: u64, volume: u64) -> (r: u64)
    ensures
        r == spec_participation(size as int, volume as int),
        r <= 10_000,
{
    if volume == 0 {
        10_000
    } else {
        let p: u128 = (size as u128) * 10_000 / (volume as u128);
        if p > 10_000 {
            10_000
        } else {
            p as u64
        }
    }
}

/// Fixed-point square root of a fixed-point fraction.
fn sqrt_fp(x: u64) -> (r: u64)
    requires
        x <= 10_000_000_000_000_000,
    ensures
        r == spec_sqrt_fp(x as int),
        r <= 10_000_000_000,
        x <= 10_000 ==> r <= 10_000,
{
    let r = isqrt((x as u128) * 10_000);
    proof {
        assert(r * r <= x * 10_000);
        assert(x * 10_000 < (r + 1) * (r + 1));
        if r > 10_000_000_000u64 {
            assert((10_000_000_001u64 as int) * (10_000_000_001u64 as int) <= r * r)
                by (nonlinear_arith)
                requires
                    r >= 10_000_000_001u64,
            ;
            assert(false);
        }
        if x <= 10_000 && r > 10_000 {
            assert((10_001int) * (10_001int) <= r * r) by (nonlinear_arith)
                requires
                    r >= 10_001,
            ;
            assert(false);
        }
    }
    r
}

impl TransactionCosts {
    /// Does every model parameter sit inside its machine range? A
    /// configuration for which this fails is refused, never computed with.
    pub fn check(&self) -> (b: bool)
        ensures
            b == self.wf(),
    {
        let c_ok: bool = match &self.commission {
            CommissionModel::Fixed(f) => 0 <= *f && *f <= MONEY_MAX,
            CommissionModel::PerShare(r) => 0 <= *r && *r <= MONEY_MAX,
            CommissionModel::Percentage(p) => 0 <= *p && *p <= RATE_CAP,
            CommissionModel::Tiered(tiers) => {
                let n = tiers.len();
                let mut i: usize = 0;
                let mut ok = true;
                while i < n
                    invariant
                        n == tiers@.len(),
                        i <= n,
                        ok == (forall|j: int|
                            0 <= j < i ==> 0 <= #[trigger] tiers@[j].0 <= MONEY_MAX && 0
                                <= tiers@[j].1 <= RATE_CAP),
                    decreases n - i,
                {
                    let (t, r) = tiers[i];
                    ok = ok && 0 <= t && t <= MONEY_MAX && 0 <= r && r <= RATE_CAP;
                    i += 1;
                }
                ok
            },
        };
        let s_ok: bool = match &self.slippage {
            SlippageModel::Fixed(b) => 0 <= *b && *b <= RATE_CAP,
            SlippageModel::Linear(f) => 0 <= *f && *f <= RATE_CAP,
            SlippageModel::SquareRoot(f) => 0 <= *f && *f <= RATE_CAP,
            SlippageModel::TickBased(t) => 0 <= *t && *t <= MONEY_MAX,
            SlippageModel::MarketImpact { permanent, temporary, liquidity_factor } => 0
                <= *permanent && *permanent <= RATE_CAP && 0 <= *temporary && *temporary
                <= RATE_CAP && 0 <= *liquidity_factor && *liquidity_factor <= RATE_CAP,
            SlippageModel::OptionsSlippage {
                base_slippage_bps,
                liquidity_factor,
                bid_ask_multiplier,
            } => 0 <= *base_slippage_bps && *base_slippage_bps <= RATE_CAP && 0 <= *liquidity_factor
                && *liquidity_factor <= RATE_CAP && 0 <= *bid_ask_multiplier && *bid_ask_multiplier
                <= RATE_CAP,
        };
        let sp_ok: bool = match &self.spread {
            SpreadModel::Fixed(s) => 0 <= *s && *s <= MONEY_MAX,
            SpreadModel::Percentage(p) => 0 <= *p && *p <= RATE_CAP,
            SpreadModel::OptionsBidAsk { min_spread, spread_pct, max_spread_pct } => 0
                <= *min_spread && *min_spread <= MONEY_MAX && 0 <= *spread_pct && *spread_pct
                <= RATE_CAP && 0 <= *max_spread_pct && *max_spread_pct <= RATE_CAP,
        };
        c_ok && s_ok && sp_ok
    }

    /// The commission amount, exact and unclamped.
    fn calculate_commission(&self, price: i64, size: u64) -> (r: u128)
        requires
            self.commission.wf(),
            0 <= price <= PRICE_CAP,
            size <= SIZE_CAP,
        ensures
            r == spec_commission(self.commission, price as int, size as int),
            r <= 0x10_0000_0000_0000_0000_0000_0000_0000u128,
    {
        let pr = price as u128;
        let sz = size as u128;
        match &self.commission {
            CommissionModel::Fixed(f) => *f as u128,
            CommissionModel::PerShare(rate) => {
                proof {
                    lemma_mul_upper_bound(
                        *rate as int,
                        MONEY_MAX as int,
                        sz as int,
                        SIZE_CAP as int,
                    );
                }
                (*rate as u128) * sz
            },
            CommissionModel::Percentage(p) => {
                proof {
                    lemma_mul_upper_bound(*p as int, RATE_CAP as int, pr as int, PRICE_CAP as int);
                    lemma_mul_upper_bound(
                        (*p as int) * (pr as int),
                        RATE_CAP as int * PRICE_CAP as int,
                        sz as int,
                        SIZE_CAP as int,
                    );
                }
                (*p as u128) * pr * sz / 1_000_000
            },
            CommissionModel::Tiered(tiers) => {
                proof {
                    lemma_mul_upper_bound(pr as int, PRICE_CAP as int, sz as int, SIZE_CAP as int);
                }
                let notional: u128 = pr * sz;
                let n = tiers.len();
                if n == 0 {
                    return 0;
                }
                let mut i: usize = 0;
                proof {
                    assert(tiers@.skip(0) =~= tiers@);
                }
                while i < n - 1 && notional > tiers[i].0 as u128
                    invariant
                        self.commission == CommissionModel::Tiered(*tiers),
                        self.commission.wf(),
                        n == tiers@.len(),
                        n >= 1,
                        0 <= i < n,
                        notional == pr * sz,
                        notional <= PRICE_CAP * SIZE_CAP,
                        spec_tiered(tiers@, notional as int) == spec_tiered(
                            tiers@.skip(i as int),
                            notional as int,
                        ),
                    decreases n - i,
                {
                    proof {
                        assert(tiers@.skip(i as int).drop_first() =~= tiers@.skip(i as int + 1));
                        assert(tiers@.skip(i as int)[0] == tiers@[i as int]);
                        assert(tiers@.skip(i as int).len() == n - i);
                    }
                    i += 1;
                }
                proof {
                    assert(tiers@.skip(i as int)[0] == tiers@[i as int]);
                }
                let rate = tiers[i].1;
                proof {
                    lemma_mul_upper_bound(
                        rate as int,
                        RATE_CAP as int,
                        notional as int,
                        PRICE_CAP as int * SIZE_CAP as int,
                    );
                }
                (rate as u128) * notional / 10_000
            },
        }
    }

    /// The spread width, exact and unclamped.
    fn calculate_spread(&self, price: i64) -> (r: u128)
        requires
            self.spread.wf(),
            0 <= price <= PRICE_CAP,
        ensures
            r == spec_spread(self.spread, price as int),
            r <= MONEY_MAX as u128,
    {
        let pr = price as u128;
        match &self.spread {
            SpreadModel::Fixed(s) => *s as u128,
            SpreadModel::Percentage(p) => {
                proof {
                    lemma_mul_upper_bound(*p as int, RATE_CAP as int, pr as int, PRICE_CAP as int);
                }
                (*p as u128) * pr / 1_000_000
            },
            SpreadModel::OptionsBidAsk { min_spread, spread_pct, max_spread_pct } => {
                proof {
                    lemma_mul_upper_bound(
                        *spread_pct as int,
                        RATE_CAP as int,
                        pr as int,
                        PRICE_CAP as int,
                    );
                    lemma_mul_upper_bound(
                        *max_spread_pct as int,
                        RATE_CAP as int,
                        pr as int,
                        PRICE_CAP as int,
                    );
                }
                let pct: u128 = (*spread_pct as u128) * pr / 1_000_000;
                let cap: u128 = (*max_spread_pct as u128) * pr / 1_000_000;
                let floored: u128 = if pct >= *min_spread as u128 {
                    pct
                } else {
                    *min_spread as u128
                };
                if floored <= cap {
                    floored
                } else {
                    cap
                }
            },
        }
    }

    /// The slippage cost, exact and unclamped; `None` only for a
    /// market-impact model quoted against zero available volume.
    fn calculate_slippage(&self, price: i64, size: u64, volume: u64) -> (r: Option<u128>)
        requires
            self.wf(),
            0 <= price <= PRICE_CAP,
            size <= SIZE_CAP,
        ensures
            r matches Some(v) ==> spec_slippage(*self, price as int, size as int, volume as int)
                == Some(v as int) && v <= 0x1000_0000_0000_0000_0000_0000_0000_0000u128,
            r is None ==> spec_slippage(*self, price as int, size as int, volume as int) is None,
    {
        let pr = price as u128;
        let sz = size as u128;
        match &self.slippage {
            SlippageModel::Fixed(b) => {
                proof {
                    lemma_mul_upper_bound(*b as int, RATE_CAP as int, pr as int, PRICE_CAP as int);
                    lemma_mul_upper_bound(
                        (*b as int) * (pr as int),
                        RATE_CAP as int * PRICE_CAP as int,
                        sz as int,
                        SIZE_CAP as int,
                    );
                }
                Some((*b as u128) * pr * sz / 100_000_000)
            },
            SlippageModel::Linear(f) => {
                let part = participation(size, volume);
                proof {
                    lemma_mul_upper_bound(*f as int, RATE_CAP as int, part as int, 10_000);
                }
                let impact: u128 = (*f as u128) * (part as u128) / 10_000;
                proof {
                    lemma_div_is_ordered(
                        (*f as int) * (part as int),
                        RATE_CAP as int * 10_000,
                        10_000,
                    );
                    lemma_mul_upper_bound(impact as int, RATE_CAP as int, pr as int, PRICE_CAP as int);
                    lemma_mul_upper_bound(
                        (impact as int) * (pr as int),
                        RATE_CAP as int * PRICE_CAP as int,
                        sz as int,
                        SIZE_CAP as int,
                    );
                }
                Some(impact * pr * sz / 100_000_000)
            },
            SlippageModel::SquareRoot(f) => {
                let part = participation(size, volume);
                let root = sqrt_fp(part);
                proof {
                    lemma_mul_upper_bound(*f as int, RATE_CAP as int, root as int, 10_000);
                }
                let impact: u128 = (*f as u128) * (root as u128) / 10_000;
                proof {
                    lemma_div_is_ordered(
                        (*f as int) * (root as int),
                        RATE_CAP as int * 10_000,
                        10_000,
                    );
                    lemma_mul_upper_bound(impact as int, RATE_CAP as int, pr as int, PRICE_CAP as int);
                    lemma_mul_upper_bound(
                        (impact as int) * (pr as int),
                        RATE_CAP as int * PRICE_CAP as int,
                        sz as int,
                        SIZE_CAP as int,
                    );
                }
                Some(impact * pr * sz / 100_000_000)
            },
            SlippageModel::TickBased(t) => {
                proof {
                    lemma_mul_upper_bound(*t as int, MONEY_MAX as int, sz as int, SIZE_CAP as int);
                }
                Some((*t as u128) * sz)
            },
            SlippageModel::MarketImpact { permanent, temporary, liquidity_factor } => {
                if volume == 0 {
                    return None;
                }
                let part: u128 = sz * 10_000 / (volume as u128);
                proof {
                    lemma_div_is_ordered(
                        sz as int * 10_000,
                        SIZE_CAP as int * 10_000,
                        volume as int,
                    );
                }
                let root = sqrt_fp(part as u64);
                let sum: u128 = (*permanent as u128) + (*temporary as u128);
                proof {
                    lemma_mul_upper_bound(sum as int, 2 * RATE_CAP as int, root as int, 10_000_000_000);
                }
                let t1: u128 = sum * (root as u128) / 10_000;
                let vol_ratio: u64 = if volume / 100 > 10_000 {
                    10_000
                } else {
                    volume / 100
                };
                proof {
                    lemma_mul_upper_bound(
                        *liquidity_factor as int,
                        RATE_CAP as int,
                        10_000 - vol_ratio as int,
                        10_000,
                    );
                }
                let adj: u128 = 10_000 + (*liquidity_factor as u128) * (10_000 - vol_ratio as u128)
                    / 10_000;
                proof {
                    lemma_div_is_ordered(
                        sum as int * (root as int),
                        2 * RATE_CAP as int * 10_000_000_000,
                        10_000,
                    );
                    lemma_div_is_ordered(
                        (*liquidity_factor as int) * (10_000 - vol_ratio as int),
                        RATE_CAP as int * 10_000,
                        10_000,
                    );
                    lemma_mul_upper_bound(
                        t1 as int,
                        2 * RATE_CAP as int * 10_000_000_000 / 10_000,
                        adj as int,
                        10_000 + RATE_CAP as int,
                    );
                }
                let t2: u128 = t1 * adj / 10_000;
                proof {
                    lemma_div_is_ordered(
                        t1 as int * adj as int,
                        (2 * RATE_CAP as int * 10_000_000_000 / 10_000) * (10_000
                            + RATE_CAP as int),
                        10_000,
                    );
                    lemma_mul_upper_bound(
                        t2 as int,
                        (2 * RATE_CAP as int * 10_000_000_000 / 10_000) * (10_000
                            + RATE_CAP as int) / 10_000,
                        pr as int,
                        PRICE_CAP as int,
                    );
                }
                let t3: u128 = t2 * pr / 100_000_000;
                proof {
                    lemma_div_is_ordered(
                        t2 as int * pr as int,
                        ((2 * RATE_CAP as int * 10_000_000_000 / 10_000) * (10_000
                            + RATE_CAP as int) / 10_000) * PRICE_CAP as int,
                        100_000_000,
                    );
                    lemma_mul_upper_bound(
                        t3 as int,
                        ((2 * RATE_CAP as int * 10_000_000_000 / 10_000) * (10_000
                            + RATE_CAP as int) / 10_000) * PRICE_CAP as int / 100_000_000,
                        sz as int,
                        SIZE_CAP as int,
                    );
                }
                Some(t3 * sz)
            },
            SlippageModel::OptionsSlippage {
                base_slippage_bps,
                liquidity_factor,
                bid_ask_multiplier,
            } => {
                let part = participation(size, volume);
                let penalty: u128 = if part > 1_000 {
                    proof {
                        lemma_mul_upper_bound(
                            *liquidity_factor as int,
                            RATE_CAP as int,
                            part as int,
                            10_000,
                        );
                    }
                    (*liquidity_factor as u128) * (part as u128) / 10_000
                } else {
                    10_000
                };
                proof {
                    if part > 1_000 {
                        lemma_div_is_ordered(
                            (*liquidity_factor as int) * (part as int),
                            RATE_CAP as int * 10_000,
                            10_000,
                        );
                    }
                    lemma_mul_upper_bound(
                        *base_slippage_bps as int,
                        RATE_CAP as int,
                        penalty as int,
                        RATE_CAP as int,
                    );
                }
                let scaled: u128 = (*base_slippage_bps as u128) * penalty / 10_000;
                proof {
                    lemma_div_is_ordered(
                        (*base_slippage_bps as int) * (penalty as int),
                        RATE_CAP as int * RATE_CAP as int,
                        10_000,
                    );
                    lemma_mul_upper_bound(
                        scaled as int,
                        RATE_CAP as int * RATE_CAP as int / 10_000,
                        pr as int,
                        PRICE_CAP as int,
                    );
                    lemma_mul_upper_bound(
                        scaled as int * pr as int,
                        (RATE_CAP as int * RATE_CAP as int / 10_000) * PRICE_CAP as int,
                        sz as int,
                        SIZE_CAP as int,
                    );
                }
                let base: u128 = scaled * pr * sz / 100_000_000;
                let spread = self.calculate_spread(price);
                proof {
                    lemma_mul_upper_bound(
                        *bid_ask_multiplier as int,
                        RATE_CAP as int,
                        spread as int,
                        MONEY_MAX as int,
                    );
                    lemma_div_is_ordered(
                        (*bid_ask_multiplier as int) * (spread as int),
                        RATE_CAP as int * MONEY_MAX as int,
                        10_000,
                    );
                    lemma_mul_upper_bound(
                        (*bid_ask_multiplier as int) * (spread as int) / 10_000,
                        RATE_CAP as int * MONEY_MAX as int / 10_000,
                        sz as int,
                        SIZE_CAP as int,
                    );
                }
                let spread_cost: u128 = (*bid_ask_multiplier as u128) * spread / 10_000 * sz;
                Some(base + spread_cost)
            },
        }
    }

    /// The total cost of entering a position: commission plus slippage plus
    /// half the spread. `None` reports a numeric anomaly (an amount outside
    /// the money range, or a market-impact quote against zero volume).
    pub fn calculate_entry_cost(&self, price: i64, size: u64, volume: u64) -> (r: Option<i64>)
        requires
            self.wf(),
            0 <= price <= PRICE_CAP,
            size <= SIZE_CAP,
        ensures
            r == spec_side_cost_capped(*self, price as int, size as int, volume as int),
            r matches Some(v) ==> 0 <= v <= MONEY_MAX,
    {
        let commission = self.calculate_commission(price, size);
        let spread = self.calculate_spread(price);
        match self.calculate_slippage(price, size, volume) {
            Option::None => None,
            Option::Some(s) => {
                let total: u128 = commission + s + spread / 2;
                if total > MONEY_MAX as u128 {
                    None
                } else {
                    Some(total as i64)
                }
            },
        }
    }

    /// Adjust an order price for slippage and half the spread: a buy pays
    /// more, a sell receives less. `None` reports a numeric anomaly.
    pub fn adjust_fill_price(&self, order_price: i64, size: u64, is_buy: bool) -> (r: Option<i64>)
        requires
            self.wf(),
            0 <= order_price <= PRICE_CAP,
            size <= SIZE_CAP,
        ensures
            r == spec_adjust(*self, order_price as int, size as int, is_buy),
    {
        let pr = order_price as u128;
        let amount: u128 = match &self.slippage {
            SlippageModel::Fixed(b) => {
                proof {
                    lemma_mul_upper_bound(*b as int, RATE_CAP as int, pr as int, PRICE_CAP as int);
                }
                (*b as u128) * pr / 100_000_000
            },
            SlippageModel::Linear(f) => {
                let pfull: u128 = if size >= 1 {
                    10_000
                } else {
                    0
                };
                let impact: u128 = (*f as u128) * pfull / 10_000;
                proof {
                    lemma_mul_upper_bound(*f as int, RATE_CAP as int, pfull as int, 10_000);
                    lemma_div_is_ordered((*f as int) * (pfull as int), RATE_CAP as int * 10_000, 10_000);
                    lemma_mul_upper_bound(impact as int, RATE_CAP as int, pr as int, PRICE_CAP as int);
                }
                impact * pr / 100_000_000
            },
            SlippageModel::SquareRoot(f) => {
                let root = sqrt_units(size);
                proof {
                    lemma_mul_upper_bound(*f as int, RATE_CAP as int, root as int, 10_000_000_000);
                }
                let impact: u128 = (*f as u128) * (root as u128) / 10_000;
                proof {
                    lemma_div_is_ordered(
                        (*f as int) * (root as int),
                        RATE_CAP as int * 10_000_000_000,
                        10_000,
                    );
                    lemma_mul_upper_bound(
                        impact as int,
                        RATE_CAP as int * 10_000_000_000 / 10_000,
                        pr as int,
                        PRICE_CAP as int,
                    );
                }
                impact * pr / 100_000_000
            },
            SlippageModel::TickBased(t) => *t as u128,
            SlippageModel::MarketImpact { temporary, .. } => {
                let root = sqrt_units(size);
                proof {
                    lemma_mul_upper_bound(
                        *temporary as int,
                        RATE_CAP as int,
                        root as int,
                        10_000_000_000,
                    );
                }
                let impact: u128 = (*temporary as u128) * (root as u128) / 10_000;
                proof {
                    lemma_div_is_ordered(
                        (*temporary as int) * (root as int),
                        RATE_CAP as int * 10_000_000_000,
                        10_000,
                    );
                    lemma_mul_upper_bound(
                        impact as int,
                        RATE_CAP as int * 10_000_000_000 / 10_000,
                        pr as int,
                        PRICE_CAP as int,
                    );
                }
                impact * pr / 100_000_000
            },
            SlippageModel::OptionsSlippage {
                base_slippage_bps,
                liquidity_factor,
                bid_ask_multiplier,
            } => {
                let pfull: u128 = if size >= 1 {
                    10_000
                } else {
                    0
                };
                let penalty: u128 = if pfull > 1_000 {
                    proof {
                        lemma_mul_upper_bound(
                            *liquidity_factor as int,
                            RATE_CAP as int,
                            pfull as int,
                            10_000,
                        );
                    }
                    (*liquidity_factor as u128) * pfull / 10_000
                } else {
                    10_000
                };
                proof {
                    if pfull > 1_000 {
                        lemma_div_is_ordered(
                            (*liquidity_factor as int) * (pfull as int),
                            RATE_CAP as int * 10_000,
                            10_000,
                        );
                    }
                    lemma_mul_upper_bound(
                        *base_slippage_bps as int,
                        RATE_CAP as int,
                        penalty as int,
                        RATE_CAP as int,
                    );
                }
                let scaled: u128 = (*base_slippage_bps as u128) * penalty / 10_000;
                proof {
                    lemma_div_is_ordered(
                        (*base_slippage_bps as int) * (penalty as int),
                        RATE_CAP as int * RATE_CAP as int,
                        10_000,
                    );
                    lemma_mul_upper_bound(
                        scaled as int,
                        RATE_CAP as int * RATE_CAP as int / 10_000,
                        pr as int,
                        PRICE_CAP as int,
                    );
                }
                let base: u128 = scaled * pr / 100_000_000;
                let spread = self.calculate_spread(order_price);
                proof {
                    lemma_mul_upper_bound(
                        *bid_ask_multiplier as int,
                        RATE_CAP as int,
                        spread as int,
                        MONEY_MAX as int,
                    );
                }
                base + (*bid_ask_multiplier as u128) * spread / 10_000
            },
        };
        let spread = self.calculate_spread(order_price);
        let total: u128 = amount + spread / 2;
        let res: i128 = if is_buy {
            (order_price as i128) + (total as i128)
        } else {
            (order_price as i128) - (total as i128)
        };
        if -MONEY_MAX as i128 <= res && res <= MONEY_MAX as i128 {
            Some(res as i64)
        } else {
            None
        }
    }

    /// A zero-commission equity profile: two basis points of slippage and a
    /// one-basis-point spread.
    pub fn equity_trading() -> (r: Self)
        ensures
            r.commission == CommissionModel::Fixed(0i64),
            r.slippage == SlippageModel::Fixed(20_000i64),
            r.spread == SpreadModel::Percentage(100i64),
            r.wf(),
    {
        TransactionCosts {
            commission: CommissionModel::Fixed(0),
            slippage: SlippageModel::Fixed(20_000),
            spread: SpreadModel::Percentage(100),
        }
    }

    /// A futures profile: a fixed fee per trade and one tick of slippage and
    /// of spread, for the tick size of the contract under test.
    pub fn futures_trading(tick_size: i64) -> (r: Self)
        requires
            0 <= tick_size <= MONEY_MAX,
        ensures
            r.commission == CommissionModel::Fixed(25_000i64),
            r.slippage == SlippageModel::TickBased(tick_size),
            r.spread == SpreadModel::Fixed(tick_size),
            r.wf(),
    {
        TransactionCosts {
            commission: CommissionModel::Fixed(25_000),
            slippage: SlippageModel::TickBased(tick_size),
            spread: SpreadModel::Fixed(tick_size),
        }
    }

    /// An options profile: a per-contract commission, liquidity-penalized
    /// slippage and a banded bid/ask spread.
    pub fn options_trading() -> (r: Self)
        ensures
            r.commission == CommissionModel::PerShare(6_500i64),
            r.slippage == (SlippageModel::OptionsSlippage {
                base_slippage_bps: 100_000i64,
                liquidity_factor: 20_000i64,
                bid_ask_multiplier: 5_000i64,
            }),
            r.spread == (SpreadModel::OptionsBidAsk {
                min_spread: 500i64,
                spread_pct: 20_000i64,
                max_spread_pct: 500_000i64,
            }),
            r.wf(),
    {
        TransactionCosts {
            commission: CommissionModel::PerShare(6_500),
            slippage: SlippageModel::OptionsSlippage {
                base_slippage_bps: 100_000,
                liquidity_factor: 20_000,
                bid_ask_multiplier: 5_000,
            },
            spread: SpreadModel::OptionsBidAsk {
                min_spread: 500,
                spread_pct: 20_000,
                max_spread_pct: 500_000,
            },
        }
    }

    /// The total cost of exiting a position; the same additive combination
    /// as the entry side.
    pub fn calculate_exit_cost(&self, price: i64, size: u64, volume: u64) -> (r: Option<i64>)
        requires
            self.wf(),
            0 <= price <= PRICE_CAP,
            size <= SIZE_CAP,
        ensures
            r == spec_side_cost_capped(*self, price as int, size as int, volume as int),
            r matches Some(v) ==> 0 <= v <= MONEY_MAX,
    {
        self.calculate_entry_cost(price, size, volume)
    }
}

} // verus!
