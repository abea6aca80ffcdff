//! A moving-average cross strategy: long when the short-window average of
//! the price climbs above the long-window average, flat when it falls back
//! below. Averages are compared by cross-multiplication, so no rounding is
//! involved.

use vstd::prelude::*;

use crate::event::MarketEvent;
use crate::fixed::PRICE_CAP;
use crate::strategies::{spec_suffix_sum, PositionState};
use crate::strategy::{Order, OrderType, Strategy, StrategyParams};
use crate::BacktestError;

verus! {

/// The mathematical state of a moving-average cross strategy.
#[verifier::ext_equal]
pub struct MaModel {
    pub short_window: int,
    pub long_window: int,
    pub prices: Seq<i64>,
    pub state: PositionState,
}

/// The construction outcome determined by the parameter map: the two window
/// lengths are the whole parts of `short_window` and `long_window`, which
/// must satisfy `1 <= short < long <= 1_000_000`.
pub open spec fn spec_ma_init(pmap: Map<Seq<char>, i64>) -> Option<MaModel> {
    if pmap.contains_key("short_window"@) && pmap.contains_key("long_window"@) {
        let sw = pmap["short_window"@] / 10_000;
        let lw = pmap["long_window"@] / 10_000;
        if 1 <= sw < lw <= 1_000_000 {
            Some(
                MaModel {
                    short_window: sw,
                    long_window: lw,
                    prices: Seq::empty(),
                    state: PositionState::Flat,
                },
            )
        } else {
            None
        }
    } else {
        None
    }
}

/// One decision of the strategy: record the price, and once a full long
/// window of history exists, go long on a golden cross and exit on the
/// reverse cross, always at the event's own price. An out-of-range price is
/// ignored entirely.
pub open spec fn spec_ma_decide(m: MaModel, ev: MarketEvent) -> (MaModel, Option<Order>) {
    let price = ev.spec_price();
    if !(0 <= price <= PRICE_CAP) {
        (m, None)
    } else {
        let grown = m.prices.push(price);
        let ps = if grown.len() > m.long_window {
            grown.drop_first()
        } else {
            grown
        };
        let m1 = MaModel { prices: ps, ..m };
        if ps.len() >= m.long_window {
            let short_sum = spec_suffix_sum(ps, ps.len() - m.short_window);
            let long_sum = spec_suffix_sum(ps, ps.len() - m.long_window);
            if short_sum * m.long_window > long_sum * m.short_window && m.state is Flat {
                (
                    MaModel { state: PositionState::Long, ..m1 },
                    Some(Order { order_type: OrderType::MarketBuy, price }),
                )
            } else if short_sum * m.long_window < long_sum * m.short_window && m.state is Long {
                (
                    MaModel { state: PositionState::Flat, ..m1 },
                    Some(Order { order_type: OrderType::MarketSell, price }),
                )
            } else {
                (m1, None)
            }
        } else {
            (m1, None)
        }
    }
}

/// A moving-average cross strategy over the event price.
#[derive(Debug)]
pub struct MaCrossStrategy {
    short_window: usize,
    long_window: usize,
    prices: Vec<i64>,
    state: PositionState,
}

impl View for MaCrossStrategy {
    type V = MaModel;

    closed spec fn view(&self) -> MaModel {
        MaModel {
            short_window: self.short_window as int,
            long_window: self.long_window as int,
            prices: self.prices@,
            state: self.state,
        }
    }
}

impl MaCrossStrategy {
    #[verifier::type_invariant]
    spec fn inv(self) -> bool {
        &&& 1 <= self.short_window < self.long_window <= 1_000_000
        &&& self.prices@.len() <= self.long_window
        &&& forall|i: int| 0 <= i < self.prices@.len() ==> 0 <= #[trigger] self.prices@[i] <= PRICE_CAP
    }

    /// Construct the strategy from its named parameters. Construction
    /// succeeds exactly when both window parameters are present and the
    /// short window is at least one and strictly shorter than the long
    /// window (which is capped at one million); otherwise it fails with a
    /// configuration error.
    pub fn new(params: &StrategyParams) -> (r: Result<Self, BacktestError>)
        ensures
            r is Ok <==> spec_ma_init(params@) is Some,
            r matches Err(e) ==> e == BacktestError::Configuration,
            r matches Ok(s) ==> s@ == spec_ma_init(params@).unwrap(),
    {
        let sw_raw = match params.get("short_window") {
            Option::Some(v) => v,
            Option::None => {
                return Err(BacktestError::Configuration);
            },
        };
        let lw_raw = match params.get("long_window") {
            Option::Some(v) => v,
            Option::None => {
                return Err(BacktestError::Configuration);
            },
        };
        if sw_raw < 10_000 || lw_raw < 10_000 {
            return Err(BacktestError::Configuration);
        }
        let sw_q: i64 = sw_raw / 10_000;
        let lw_q: i64 = lw_raw / 10_000;
        if !(1 <= sw_q && sw_q < lw_q && lw_q <= 1_000_000) {
            return Err(BacktestError::Configuration);
        }
        let s = MaCrossStrategy {
            short_window: sw_q as usize,
            long_window: lw_q as usize,
            prices: Vec::new(),
            state: PositionState::Flat,
        };
        proof {
            assert(s@ =~= spec_ma_init(params@).unwrap());
        }
        Ok(s)
    }

    /// Clear the price history and the synthetic position, keeping the
    /// configured windows, so the instance can be reused across runs.
    pub fn reset(&mut self)
        ensures
            final(self)@ == (MaModel {
                prices: Seq::<i64>::empty(),
                state: PositionState::Flat,
                ..old(self)@
            }),
    {
        proof {
            use_type_invariant(&*self);
        }
        let mut prices: Vec<i64> = Vec::new();
        std::mem::swap(&mut prices, &mut self.prices);
        self.state = PositionState::Flat;
    }

    /// One decision, exactly `spec_ma_decide` on the current state.
    pub fn decide(&mut self, event: &MarketEvent) -> (r: Option<Order>)
        ensures
            final(self)@ == spec_ma_decide(old(self)@, *event).0,
            r == spec_ma_decide(old(self)@, *event).1,
    {
        proof {
            use_type_invariant(&*self);
        }
        let price = event.price();
        if price < 0 || price > PRICE_CAP {
            return None;
        }
        let mut prices: Vec<i64> = Vec::new();
        std::mem::swap(&mut prices, &mut self.prices);
        prices.push(price);
        if prices.len() > self.long_window {
            let _ = prices.remove(0);
            proof {
                assert(prices@ =~= old(self)@.prices.push(price).drop_first());
            }
        }
        let n = prices.len();
        if n >= self.long_window {
            let short_sum = suffix_sum(&prices, n - self.short_window);
            let long_sum = suffix_sum(&prices, n - self.long_window);
            proof {
                lemma_suffix_sum_bounds(prices@, n - self.short_window as int);
                lemma_suffix_sum_bounds(prices@, n - self.long_window as int);
                vstd::arithmetic::mul::lemma_mul_upper_bound(
                    short_sum as int,
                    1_000_000 * PRICE_CAP as int,
                    self.long_window as int,
                    1_000_000,
                );
                vstd::arithmetic::mul::lemma_mul_upper_bound(
                    long_sum as int,
                    1_000_000 * PRICE_CAP as int,
                    self.short_window as int,
                    1_000_000,
                );
            }
            let short_scaled: u128 = (short_sum as u128) * (self.long_window as u128);
            let long_scaled: u128 = (long_sum as u128) * (self.short_window as u128);
            if short_scaled > long_scaled && matches!(self.state, PositionState::Flat) {
                self.prices = prices;
                self.state = PositionState::Long;
                return Some(Order { order_type: OrderType::MarketBuy, price });
            }
            if short_scaled < long_scaled && matches!(self.state, PositionState::Long) {
                self.prices = prices;
                self.state = PositionState::Flat;
                return Some(Order { order_type: OrderType::MarketSell, price });
            }
        }
        self.prices = prices;
        None
    }
}

/// Any suffix sum of in-range prices is nonnegative and at most the length
/// times the price cap.
proof fn lemma_suffix_sum_bounds(s: Seq<i64>, from: int)
    requires
        forall|i: int| 0 <= i < s.len() ==> 0 <= #[trigger] s[i] <= PRICE_CAP,
        s.len() <= 1_000_000,
    ensures
        0 <= spec_suffix_sum(s, from) <= 1_000_000 * PRICE_CAP,
{
    lemma_suffix_sum_le(s, from);
    if 0 <= from < s.len() {
        assert((s.len() - from) * PRICE_CAP <= 1_000_000 * PRICE_CAP) by (nonlinear_arith)
            requires
                s.len() - from <= 1_000_000,
        ;
    }
}

/// A sharper bound: the suffix sum is at most the suffix length times the
/// price cap.
proof fn lemma_suffix_sum_le(s: Seq<i64>, from: int)
    requires
        forall|i: int| 0 <= i < s.len() ==> 0 <= #[trigger] s[i] <= PRICE_CAP,
    ensures
        0 <= from < s.len() ==> spec_suffix_sum(s, from) <= (s.len() - from) * PRICE_CAP,
        spec_suffix_sum(s, from) >= 0,
    decreases s.len() - from,
{
    if 0 <= from < s.len() {
        lemma_suffix_sum_le(s, from + 1);
        assert((s.len() - from) * PRICE_CAP == (s.len() - from - 1) * PRICE_CAP + PRICE_CAP)
            by (nonlinear_arith);
    }
}

/// The executable suffix sum over a price vector.
fn suffix_sum(prices: &Vec<i64>, from: usize) -> (r: u128)
    requires
        forall|i: int| 0 <= i < prices@.len() ==> 0 <= #[trigger] prices@[i] <= PRICE_CAP,
        prices@.len() <= 1_000_000,
        from <= prices@.len(),
    ensures
        r == spec_suffix_sum(prices@, from as int),
{
    let n = prices.len();
    let mut acc: u128 = 0;
    let mut i: usize = n;
    while i > from
        invariant
            from <= i <= n,
            n == prices@.len(),
            n <= 1_000_000,
            forall|j: int| 0 <= j < n ==> 0 <= #[trigger] prices@[j] <= PRICE_CAP,
            acc == spec_suffix_sum(prices@, i as int),
            acc <= (n - i) * PRICE_CAP,
        decreases i - from,
    {
        proof {
            lemma_suffix_sum_le(prices@, i as int - 1);
            assert((n - i + 1) * PRICE_CAP == (n - i) * PRICE_CAP + PRICE_CAP) by (nonlinear_arith);
        }
        i -= 1;
        acc = acc + (prices[i] as u128);
    }
    proof {
        lemma_suffix_sum_le(prices@, from as int);
    }
    acc
}

impl Strategy for MaCrossStrategy {
    fn on_event(&mut self, event: &MarketEvent, _prev: Option<&MarketEvent>) -> Option<Order> {
        self.decide(event)
    }
}

} // verus!
