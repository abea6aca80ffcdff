//! An options momentum strategy: it watches the underlying's mid price,
//! buys near-the-money contracts when momentum over a lookback window
//! crosses a threshold, and exits on a profit target, a stop loss, or when
//! expiry comes too close. All ratio comparisons are exact
//! cross-multiplications; a zero divisor never arises.

use vstd::prelude::*;

use crate::event::{MarketEvent, OptionTradeMsg, OptionType};
use crate::fixed::{PRICE_CAP, RATE_CAP};
use crate::strategies::PositionState;
use crate::strategy::{Order, OrderType, Strategy, StrategyParams};
use crate::BacktestError;

verus! {

/// The option contract a position is held in.
#[derive(Clone, Debug)]
pub struct ContractInfo {
    pub instrument_id: u32,
    pub symbol: String,
    pub strike_price: i64,
    /// Expiration as nanoseconds since the Unix epoch.
    pub expiration: u64,
    pub option_type: OptionType,
    pub entry_price: i64,
    /// Entry time as nanoseconds since the Unix epoch.
    pub entry_time: u64,
}

/// The mathematical state of the options momentum strategy.
#[verifier::ext_equal]
pub struct MomentumModel {
    pub lookback_periods: int,
    /// Momentum threshold as a fixed-point fraction.
    pub momentum_threshold: i64,
    /// Profit target as a fixed-point fraction of the entry price.
    pub profit_target: i64,
    /// Stop loss as a fixed-point fraction of the entry price.
    pub stop_loss: i64,
    /// Positions are force-closed at this many days to expiry.
    pub min_days_to_expiry: u64,
    pub underlying_history: Seq<i64>,
    pub volume_history: Seq<u64>,
    pub position_state: PositionState,
    pub current_contract: Option<ContractInfo>,
}

/// The construction outcome determined by the parameter map: all five
/// parameters must be present and nonnegative, the lookback a whole number
/// of periods between one and a million. The three fraction parameters are
/// given in percent and converted by one division by one hundred.
pub open spec fn spec_momentum_init(pmap: Map<Seq<char>, i64>) -> Option<MomentumModel> {
    if pmap.contains_key("lookback_periods"@) && pmap.contains_key("momentum_threshold"@)
        && pmap.contains_key("profit_target"@) && pmap.contains_key("stop_loss"@)
        && pmap.contains_key("min_days_to_expiry"@) {
        let lb = pmap["lookback_periods"@] / 10_000;
        let mt = pmap["momentum_threshold"@] / 100;
        let pt = pmap["profit_target"@] / 100;
        let sl = pmap["stop_loss"@] / 100;
        let md = pmap["min_days_to_expiry"@] / 10_000;
        if 1 <= lb <= 1_000_000 && 0 <= mt <= RATE_CAP && 0 <= pt <= RATE_CAP && 0 <= sl
            <= RATE_CAP && 0 <= md <= 1_000_000 {
            Some(
                MomentumModel {
                    lookback_periods: lb,
                    momentum_threshold: mt as i64,
                    profit_target: pt as i64,
                    stop_loss: sl as i64,
                    min_days_to_expiry: md as u64,
                    underlying_history: Seq::empty(),
                    volume_history: Seq::empty(),
                    position_state: PositionState::Flat,
                    current_contract: None,
                },
            )
        } else {
            None
        }
    } else {
        None
    }
}

/// The contract fields of an option trade are all usable: a positive
/// strike, expiration and instrument id.
pub open spec fn spec_parse_ok(msg: OptionTradeMsg) -> bool {
    msg.strike_price > 0 && msg.expiration > 0 && msg.instrument_id > 0
}

/// Should a contract entered at `entry_price` and expiring at `expiration`
/// be closed at `price` and time `ts`? On a profit target or stop loss hit
/// (exact cross-multiplied fractions of the entry price), or within the
/// minimum days to expiry.
pub open spec fn spec_should_exit(
    m: MomentumModel,
    entry_price: i64,
    expiration: u64,
    price: i64,
    ts: u64,
) -> bool {
    let profit_hit = entry_price > 0 && (price - entry_price) * 10_000 >= m.profit_target
        * entry_price;
    let stop_hit = entry_price > 0 && (price - entry_price) * 10_000 <= -(m.stop_loss
        * entry_price);
    let cur_s = ts / 1_000_000_000;
    let exp_s = expiration / 1_000_000_000;
    let expiry_force = exp_s > cur_s && (exp_s - cur_s) / 86_400 <= m.min_days_to_expiry;
    profit_hit || stop_hit || expiry_force
}

/// The entry signal for one option trade, given the updated underlying
/// history: a market buy of a near-the-money call on momentum above the
/// threshold, or of a near-the-money put on momentum below its negative.
/// Tiny premiums, unusable contract fields, stale or expired timestamps,
/// far-out-of-the-money strikes and nonpositive reference prices all yield
/// no signal.
pub open spec fn spec_entry_signal(m: MomentumModel, msg: OptionTradeMsg, und: i64) -> Option<
    OrderType,
> {
    if msg.price < 500 {
        None
    } else if !spec_parse_ok(msg) {
        None
    } else if msg.ts_event == 0 {
        None
    } else {
        let cur_s = msg.ts_event / 1_000_000_000;
        let exp_s = msg.expiration / 1_000_000_000;
        if exp_s <= cur_s {
            None
        } else if (exp_s - cur_s) / 86_400 <= m.min_days_to_expiry {
            None
        } else {
            let len = m.underlying_history.len();
            if len < m.lookback_periods {
                None
            } else {
                let cur = m.underlying_history.last();
                let past = m.underlying_history[len - m.lookback_periods];
                if past <= 0 {
                    None
                } else {
                    match msg.option_type {
                        OptionType::Call => {
                            let mny = und * 10_000 / (msg.strike_price as int);
                            if mny < 8_000 {
                                None
                            } else if (cur - past) * 10_000 > m.momentum_threshold * past {
                                if 9_000 <= mny <= 11_000 {
                                    Some(OrderType::MarketBuy)
                                } else {
                                    None
                                }
                            } else {
                                None
                            }
                        },
                        OptionType::Put => {
                            if und <= 0 {
                                None
                            } else {
                                let mny = msg.strike_price * 10_000 / (und as int);
                                if mny < 8_000 {
                                    None
                                } else if (cur - past) * 10_000 < -(m.momentum_threshold * past) {
                                    if 9_000 <= mny <= 11_000 {
                                        Some(OrderType::MarketBuy)
                                    } else {
                                        None
                                    }
                                } else {
                                    None
                                }
                            }
                        },
                    }
                }
            }
        }
    }
}

/// The contract record taken at entry.
pub open spec fn spec_contract_of(msg: OptionTradeMsg) -> ContractInfo {
    ContractInfo {
        instrument_id: msg.instrument_id,
        symbol: msg.symbol,
        strike_price: msg.strike_price,
        expiration: msg.expiration,
        option_type: msg.option_type,
        entry_price: msg.price,
        entry_time: msg.ts_event,
    }
}

/// One decision of the strategy. Only option trades are acted on: the
/// underlying mid and the trade size join the rolling histories; in a
/// position, only the held contract's own trades can trigger the exit; flat
/// and with a full lookback of history, an entry signal opens a synthetic
/// long and records the contract. Malformed prices are ignored entirely.
pub open spec fn spec_momentum_decide(m: MomentumModel, ev: MarketEvent) -> (
    MomentumModel,
    Option<Order>,
) {
    match ev {
        MarketEvent::OptionTrade(msg) => {
            if !(0 <= msg.underlying_bid <= PRICE_CAP && 0 <= msg.underlying_ask <= PRICE_CAP && 0
                <= msg.price <= PRICE_CAP && 0 <= msg.strike_price <= PRICE_CAP) {
                (m, None)
            } else {
                let und = ((msg.underlying_bid + msg.underlying_ask) / 2) as i64;
                let h0 = m.underlying_history.push(und);
                let v0 = m.volume_history.push(msg.size);
                let h = if h0.len() > m.lookback_periods + 1 {
                    h0.drop_first()
                } else {
                    h0
                };
                let v = if v0.len() > m.lookback_periods + 1 {
                    v0.drop_first()
                } else {
                    v0
                };
                let m1 = MomentumModel { underlying_history: h, volume_history: v, ..m };
                if !(m.position_state is Flat) {
                    match m.current_contract {
                        Some(c) => {
                            if msg.instrument_id == c.instrument_id && spec_parse_ok(msg)
                                && spec_should_exit(
                                m1,
                                c.entry_price,
                                c.expiration,
                                msg.price,
                                msg.ts_event,
                            ) {
                                (
                                    MomentumModel {
                                        position_state: PositionState::Flat,
                                        current_contract: None,
                                        ..m1
                                    },
                                    Some(Order { order_type: OrderType::MarketSell, price: msg.price }),
                                )
                            } else {
                                (m1, None)
                            }
                        },
                        None => (m1, None),
                    }
                } else if h.len() <= m.lookback_periods {
                    (m1, None)
                } else {
                    match spec_entry_signal(m1, msg, und) {
                        Some(ot) => (
                            MomentumModel {
                                position_state: PositionState::Long,
                                current_contract: Some(spec_contract_of(msg)),
                                ..m1
                            },
                            Some(Order { order_type: ot, price: msg.price }),
                        ),
                        None => (m1, None),
                    }
                }
            }
        },
        _ => (m, None),
    }
}

/// The options momentum strategy.
#[derive(Debug)]
pub struct OptionsMomentumStrategy {
    lookback_periods: usize,
    momentum_threshold: i64,
    profit_target: i64,
    stop_loss: i64,
    min_days_to_expiry: u64,
    underlying_history: Vec<i64>,
    volume_history: Vec<u64>,
    position_state: PositionState,
    current_contract: Option<ContractInfo>,
}

impl View for OptionsMomentumStrategy {
    type V = MomentumModel;

    closed spec fn view(&self) -> MomentumModel {
        MomentumModel {
            lookback_periods: self.lookback_periods as int,
            momentum_threshold: self.momentum_threshold,
            profit_target: self.profit_target,
            stop_loss: self.stop_loss,
            min_days_to_expiry: self.min_days_to_expiry,
            underlying_history: self.underlying_history@,
            volume_history: self.volume_history@,
            position_state: self.position_state,
            current_contract: self.current_contract,
        }
    }
}

impl OptionsMomentumStrategy {
    #[verifier::type_invariant]
    spec fn inv(self) -> bool {
        &&& 1 <= self.lookback_periods <= 1_000_000
        &&& 0 <= self.momentum_threshold <= RATE_CAP
        &&& 0 <= self.profit_target <= RATE_CAP
        &&& 0 <= self.stop_loss <= RATE_CAP
        &&& self.min_days_to_expiry <= 1_000_000
        &&& self.underlying_history@.len() <= self.lookback_periods + 1
        &&& self.volume_history@.len() <= self.lookback_periods + 1
        &&& forall|i: int|
            0 <= i < self.underlying_history@.len() ==> 0 <= #[trigger] self.underlying_history@[i]
                <= PRICE_CAP
    }

    /// Construct the strategy from its named parameters; any missing
    /// parameter or violated invariant is a configuration error.
    pub fn new(params: &StrategyParams) -> (r: Result<Self, BacktestError>)
        ensures
            r is Ok <==> spec_momentum_init(params@) is Some,
            r matches Err(e) ==> e == BacktestError::Configuration,
            r matches Ok(s) ==> s@ == spec_momentum_init(params@).unwrap(),
    {
        let lb_raw = match params.get("lookback_periods") {
            Option::Some(v) => v,
            Option::None => {
                return Err(BacktestError::Configuration);
            },
        };
        let mt_raw = match params.get("momentum_threshold") {
            Option::Some(v) => v,
            Option::None => {
                return Err(BacktestError::Configuration);
            },
        };
        let pt_raw = match params.get("profit_target") {
            Option::Some(v) => v,
            Option::None => {
                return Err(BacktestError::Configuration);
            },
        };
        let sl_raw = match params.get("stop_loss") {
            Option::Some(v) => v,
            Option::None => {
                return Err(BacktestError::Configuration);
            },
        };
        let md_raw = match params.get("min_days_to_expiry") {
            Option::Some(v) => v,
            Option::None => {
                return Err(BacktestError::Configuration);
            },
        };
        if lb_raw < 10_000 || mt_raw < 0 || pt_raw < 0 || sl_raw < 0 || md_raw < 0 {
            return Err(BacktestError::Configuration);
        }
        let lb: i64 = lb_raw / 10_000;
        let mt: i64 = mt_raw / 100;
        let pt: i64 = pt_raw / 100;
        let sl: i64 = sl_raw / 100;
        let md: i64 = md_raw / 10_000;
        if !(1 <= lb && lb <= 1_000_000 && mt <= RATE_CAP && pt <= RATE_CAP && sl <= RATE_CAP && md
            <= 1_000_000) {
            return Err(BacktestError::Configuration);
        }
        let s = OptionsMomentumStrategy {
            lookback_periods: lb as usize,
            momentum_threshold: mt,
            profit_target: pt,
            stop_loss: sl,
            min_days_to_expiry: md as u64,
            underlying_history: Vec::new(),
            volume_history: Vec::new(),
            position_state: PositionState::Flat,
            current_contract: None,
        };
        proof {
            assert(s@ =~= spec_momentum_init(params@).unwrap());
        }
        Ok(s)
    }

    /// Clear all rolling history and the held contract, keeping the
    /// configured parameters, so the instance can be reused across runs.
    pub fn reset(&mut self)
        ensures
            final(self)@ == (MomentumModel {
                underlying_history: Seq::<i64>::empty(),
                volume_history: Seq::<u64>::empty(),
                position_state: PositionState::Flat,
                current_contract: None::<ContractInfo>,
                ..old(self)@
            }),
    {
        proof {
            use_type_invariant(&*self);
        }
        let mut h: Vec<i64> = Vec::new();
        std::mem::swap(&mut h, &mut self.underlying_history);
        let mut v: Vec<u64> = Vec::new();
        std::mem::swap(&mut v, &mut self.volume_history);
        self.position_state = PositionState::Flat;
        self.current_contract = None;
    }

    /// One decision, exactly `spec_momentum_decide` on the current state.
    pub fn decide(&mut self, event: &MarketEvent) -> (r: Option<Order>)
        ensures
            final(self)@ == spec_momentum_decide(old(self)@, *event).0,
            r == spec_momentum_decide(old(self)@, *event).1,
    {
        proof {
            use_type_invariant(&*self);
        }
        let msg = match event {
            MarketEvent::OptionTrade(msg) => msg,
            _ => {
                return None;
            },
        };
        if !(0 <= msg.underlying_bid && msg.underlying_bid <= PRICE_CAP && 0 <= msg.underlying_ask
            && msg.underlying_ask <= PRICE_CAP && 0 <= msg.price && msg.price <= PRICE_CAP && 0
            <= msg.strike_price && msg.strike_price <= PRICE_CAP) {
            return None;
        }
        let und: i64 = (msg.underlying_bid + msg.underlying_ask) / 2;
        let mut h: Vec<i64> = Vec::new();
        std::mem::swap(&mut h, &mut self.underlying_history);
        let mut v: Vec<u64> = Vec::new();
        std::mem::swap(&mut v, &mut self.volume_history);
        h.push(und);
        v.push(msg.size);
        if h.len() > self.lookback_periods + 1 {
            let _ = h.remove(0);
            proof {
                assert(h@ =~= old(self)@.underlying_history.push(und).drop_first());
            }
        }
        if v.len() > self.lookback_periods + 1 {
            let _ = v.remove(0);
            proof {
                assert(v@ =~= old(self)@.volume_history.push(msg.size).drop_first());
            }
        }
        self.underlying_history = h;
        self.volume_history = v;
        let in_position = !matches!(self.position_state, PositionState::Flat);
        if in_position {
            let (c_id, c_exp, c_entry): (u32, u64, i64) = match &self.current_contract {
                Option::Some(c) => (c.instrument_id, c.expiration, c.entry_price),
                Option::None => {
                    return None;
                },
            };
            let parse_ok = msg.strike_price > 0 && msg.expiration > 0 && msg.instrument_id > 0;
            if msg.instrument_id == c_id && parse_ok && self.check_exit(
                c_entry,
                c_exp,
                msg.price,
                msg.ts_event,
            ) {
                self.position_state = PositionState::Flat;
                self.current_contract = None;
                return Some(Order { order_type: OrderType::MarketSell, price: msg.price });
            }
            return None;
        }
        if self.underlying_history.len() <= self.lookback_periods {
            return None;
        }
        match self.entry_signal(msg, und) {
            Option::Some(ot) => {
                self.position_state = PositionState::Long;
                self.current_contract = Some(
                    ContractInfo {
                        instrument_id: msg.instrument_id,
                        symbol: msg.symbol.clone(),
                        strike_price: msg.strike_price,
                        expiration: msg.expiration,
                        option_type: msg.option_type,
                        entry_price: msg.price,
                        entry_time: msg.ts_event,
                    },
                );
                proof {
                    assert(self.current_contract.unwrap() == spec_contract_of(*msg));
                }
                Some(Order { order_type: ot, price: msg.price })
            },
            Option::None => None,
        }
    }

    /// Exactly `spec_should_exit` for the held contract.
    fn check_exit(&self, entry_price: i64, expiration: u64, price: i64, ts: u64) -> (r: bool)
        requires
            0 <= price <= PRICE_CAP,
        ensures
            r == spec_should_exit(self@, entry_price, expiration, price, ts),
    {
        proof {
            use_type_invariant(&*self);
            crate::fixed::lemma_mul_abs_bound(
                self.profit_target as int,
                entry_price as int,
                RATE_CAP as int,
                0x8000_0000_0000_0000,
            );
            crate::fixed::lemma_mul_abs_bound(
                self.stop_loss as int,
                entry_price as int,
                RATE_CAP as int,
                0x8000_0000_0000_0000,
            );
        }
        let profit_hit = entry_price > 0 && ((price as i128) - (entry_price as i128)) * 10_000
            >= (self.profit_target as i128) * (entry_price as i128);
        let stop_hit = entry_price > 0 && ((price as i128) - (entry_price as i128)) * 10_000
            <= -((self.stop_loss as i128) * (entry_price as i128));
        let cur_s = ts / 1_000_000_000;
        let exp_s = expiration / 1_000_000_000;
        let expiry_force = exp_s > cur_s && (exp_s - cur_s) / 86_400 <= self.min_days_to_expiry;
        profit_hit || stop_hit || expiry_force
    }

    /// Exactly `spec_entry_signal` on the updated history.
    fn entry_signal(&self, msg: &OptionTradeMsg, und: i64) -> (r: Option<OrderType>)
        requires
            0 <= msg.price <= PRICE_CAP,
            0 <= msg.strike_price <= PRICE_CAP,
            0 <= und <= PRICE_CAP,
        ensures
            r == spec_entry_signal(self@, *msg, und),
    {
        proof {
            use_type_invariant(&*self);
        }
        if msg.price < 500 {
            return None;
        }
        if !(msg.strike_price > 0 && msg.expiration > 0 && msg.instrument_id > 0) {
            return None;
        }
        if msg.ts_event == 0 {
            return None;
        }
        let cur_s = msg.ts_event / 1_000_000_000;
        let exp_s = msg.expiration / 1_000_000_000;
        if exp_s <= cur_s {
            return None;
        }
        if (exp_s - cur_s) / 86_400 <= self.min_days_to_expiry {
            return None;
        }
        let len = self.underlying_history.len();
        if len < self.lookback_periods {
            return None;
        }
        let cur = self.underlying_history[len - 1];
        let past = self.underlying_history[len - self.lookback_periods];
        if past <= 0 {
            return None;
        }
        proof {
            crate::fixed::lemma_mul_abs_bound(
                self.momentum_threshold as int,
                past as int,
                RATE_CAP as int,
                PRICE_CAP as int,
            );
        }
        let momentum_num: i128 = ((cur as i128) - (past as i128)) * 10_000;
        let momentum_bar: i128 = (self.momentum_threshold as i128) * (past as i128);
        match msg.option_type {
            OptionType::Call => {
                let mny: i64 = (((und as i128) * 10_000) / (msg.strike_price as i128)) as i64;
                proof {
                    lemma_ratio_in_range(und as int, msg.strike_price as int);
                }
                if mny < 8_000 {
                    None
                } else if momentum_num > momentum_bar {
                    if 9_000 <= mny && mny <= 11_000 {
                        Some(OrderType::MarketBuy)
                    } else {
                        None
                    }
                } else {
                    None
                }
            },
            OptionType::Put => {
                if und <= 0 {
                    return None;
                }
                let mny: i64 = (((msg.strike_price as i128) * 10_000) / (und as i128)) as i64;
                proof {
                    lemma_ratio_in_range(msg.strike_price as int, und as int);
                }
                if mny < 8_000 {
                    None
                } else if momentum_num < -momentum_bar {
                    if 9_000 <= mny && mny <= 11_000 {
                        Some(OrderType::MarketBuy)
                    } else {
                        None
                    }
                } else {
                    None
                }
            },
        }
    }
}

/// A fixed-point ratio of two in-range prices with a positive divisor fits
/// an `i64`.
proof fn lemma_ratio_in_range(num: int, den: int)
    requires
        0 <= num <= PRICE_CAP,
        0 < den,
    ensures
        0 <= num * 10_000 / den <= PRICE_CAP * 10_000,
{
    assert(num * 10_000 >= 0) by (nonlinear_arith)
        requires
            num >= 0,
    ;
    assert(num * 10_000 <= PRICE_CAP * 10_000) by (nonlinear_arith)
        requires
            num <= PRICE_CAP,
    ;
    vstd::arithmetic::div_mod::lemma_div_is_ordered(0, num * 10_000, den);
    vstd::arithmetic::div_mod::lemma_div_is_ordered(num * 10_000, PRICE_CAP * 10_000, den);
    vstd::arithmetic::div_mod::lemma_div_is_ordered_by_denominator(PRICE_CAP * 10_000, 1, den);
}

impl Strategy for OptionsMomentumStrategy {
    fn on_event(&mut self, event: &MarketEvent, _prev: Option<&MarketEvent>) -> Option<Order> {
        self.decide(event)
    }
}

} // verus!
