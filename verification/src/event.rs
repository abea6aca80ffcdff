//! Normalized market observations, one per tick or bar.
//!
//! Each schema family is a tagged variant carrying plain values: prices in
//! fixed-point units, sizes and volumes in whole units, timestamps in
//! nanoseconds since the Unix epoch. Events are created once by the data
//! collaborator, consumed read-only, and never mutated.

use vstd::prelude::*;

use crate::fixed::PRICE_CAP;

verus! {

/// Whether an option contract is a call or a put.
#[derive(Clone, Copy, Debug, PartialEq, Eq, Structural)]
pub enum OptionType {
    Call,
    Put,
}

/// A single trade print.
#[derive(Clone, Copy, Debug, PartialEq, Eq, Structural)]
pub struct TradeMsg {
    pub ts_event: u64,
    pub price: i64,
    pub size: u64,
}

/// A single order-book event at market-by-order granularity.
#[derive(Clone, Copy, Debug, PartialEq, Eq, Structural)]
pub struct MboMsg {
    pub ts_event: u64,
    pub price: i64,
    pub size: u64,
}

/// A top-of-book quote update with the last trade price.
#[derive(Clone, Copy, Debug, PartialEq, Eq, Structural)]
pub struct Mbp1Msg {
    pub ts_event: u64,
    pub price: i64,
    pub size: u64,
    pub bid_px: i64,
    pub ask_px: i64,
    pub bid_sz: u64,
    pub ask_sz: u64,
}

/// An aggregated bar: open, high, low, close and total volume.
#[derive(Clone, Copy, Debug, PartialEq, Eq, Structural)]
pub struct OhlcvMsg {
    pub ts_event: u64,
    pub open: i64,
    pub high: i64,
    pub low: i64,
    pub close: i64,
    pub volume: u64,
}

/// Buy and sell volume traded at one price level of a footprint bar.
#[derive(Clone, Copy, Debug, PartialEq, Eq, Structural)]
pub struct FootprintLevel {
    pub price: i64,
    pub buy_volume: u64,
    pub sell_volume: u64,
}

/// A footprint bar: a close price, total volume, and the volume-at-price
/// table of the bar.
#[derive(Clone, Debug)]
pub struct FootprintMsg {
    pub ts_event: u64,
    pub price: i64,
    pub volume: u64,
    pub levels: Vec<FootprintLevel>,
}

/// An option trade enriched with the contract definition and the prevailing
/// underlying quote.
#[derive(Clone, Debug)]
pub struct OptionTradeMsg {
    pub ts_event: u64,
    pub price: i64,
    pub size: u64,
    pub instrument_id: u32,
    pub symbol: String,
    pub strike_price: i64,
    /// Expiration as nanoseconds since the Unix epoch.
    pub expiration: u64,
    pub option_type: OptionType,
    pub underlying_bid: i64,
    pub underlying_ask: i64,
    pub underlying_price: i64,
    pub underlying_bid_sz: u32,
    pub underlying_ask_sz: u32,
}

/// One normalized market observation.
#[derive(Clone, Debug)]
pub enum MarketEvent {
    Trade(TradeMsg),
    Mbp1(Mbp1Msg),
    Ohlcv(OhlcvMsg),
    Mbo(MboMsg),
    Footprint(FootprintMsg),
    OptionTrade(OptionTradeMsg),
}

impl MarketEvent {
    /// Every price field of the observation sits inside the representable
    /// price range. The data collaborator rejects records outside it.
    pub open spec fn wf(self) -> bool {
        match self {
            MarketEvent::Trade(m) => 0 <= m.price <= PRICE_CAP,
            MarketEvent::Mbp1(m) => 0 <= m.price <= PRICE_CAP && 0 <= m.bid_px <= PRICE_CAP && 0
                <= m.ask_px <= PRICE_CAP,
            MarketEvent::Ohlcv(m) => 0 <= m.open <= PRICE_CAP && 0 <= m.high <= PRICE_CAP && 0
                <= m.low <= PRICE_CAP && 0 <= m.close <= PRICE_CAP,
            MarketEvent::Mbo(m) => 0 <= m.price <= PRICE_CAP,
            MarketEvent::Footprint(m) => 0 <= m.price <= PRICE_CAP,
            MarketEvent::OptionTrade(m) => 0 <= m.price <= PRICE_CAP && 0 <= m.strike_price
                <= PRICE_CAP && 0 <= m.underlying_bid <= PRICE_CAP && 0 <= m.underlying_ask
                <= PRICE_CAP && 0 <= m.underlying_price <= PRICE_CAP,
        }
    }

    /// The trade or close price of the observation.
    pub open spec fn spec_price(self) -> i64 {
        match self {
            MarketEvent::Trade(m) => m.price,
            MarketEvent::Mbp1(m) => m.price,
            MarketEvent::Ohlcv(m) => m.close,
            MarketEvent::Mbo(m) => m.price,
            MarketEvent::Footprint(m) => m.price,
            MarketEvent::OptionTrade(m) => m.price,
        }
    }

    pub fn price(&self) -> (p: i64)
        ensures
            p == self.spec_price(),
    {
        match self {
            MarketEvent::Trade(m) => m.price,
            MarketEvent::Mbp1(m) => m.price,
            MarketEvent::Ohlcv(m) => m.close,
            MarketEvent::Mbo(m) => m.price,
            MarketEvent::Footprint(m) => m.price,
            MarketEvent::OptionTrade(m) => m.price,
        }
    }

    /// The traded or quoted volume of the observation.
    pub open spec fn spec_volume(self) -> u64 {
        match self {
            MarketEvent::Trade(m) => m.size,
            MarketEvent::Mbp1(m) => m.size,
            MarketEvent::Ohlcv(m) => m.volume,
            MarketEvent::Mbo(m) => m.size,
            MarketEvent::Footprint(m) => m.volume,
            MarketEvent::OptionTrade(m) => m.size,
        }
    }

    pub fn volume(&self) -> (v: u64)
        ensures
            v == self.spec_volume(),
    {
        match self {
            MarketEvent::Trade(m) => m.size,
            MarketEvent::Mbp1(m) => m.size,
            MarketEvent::Ohlcv(m) => m.volume,
            MarketEvent::Mbo(m) => m.size,
            MarketEvent::Footprint(m) => m.volume,
            MarketEvent::OptionTrade(m) => m.size,
        }
    }

    /// The high of a bar; for tick data, the price itself.
    pub open spec fn spec_high(self) -> i64 {
        match self {
            MarketEvent::Ohlcv(m) => m.high,
            _ => self.spec_price(),
        }
    }

    pub fn high(&self) -> (p: i64)
        ensures
            p == self.spec_high(),
    {
        match self {
            MarketEvent::Ohlcv(m) => m.high,
            _ => self.price(),
        }
    }

    /// The low of a bar; for tick data, the price itself.
    pub open spec fn spec_low(self) -> i64 {
        match self {
            MarketEvent::Ohlcv(m) => m.low,
            _ => self.spec_price(),
        }
    }

    pub fn low(&self) -> (p: i64)
        ensures
            p == self.spec_low(),
    {
        match self {
            MarketEvent::Ohlcv(m) => m.low,
            _ => self.price(),
        }
    }

    /// The event timestamp, nanoseconds since the Unix epoch.
    pub open spec fn spec_timestamp(self) -> u64 {
        match self {
            MarketEvent::Trade(m) => m.ts_event,
            MarketEvent::Mbp1(m) => m.ts_event,
            MarketEvent::Ohlcv(m) => m.ts_event,
            MarketEvent::Mbo(m) => m.ts_event,
            MarketEvent::Footprint(m) => m.ts_event,
            MarketEvent::OptionTrade(m) => m.ts_event,
        }
    }

    pub fn timestamp(&self) -> (t: u64)
        ensures
            t == self.spec_timestamp(),
    {
        match self {
            MarketEvent::Trade(m) => m.ts_event,
            MarketEvent::Mbp1(m) => m.ts_event,
            MarketEvent::Ohlcv(m) => m.ts_event,
            MarketEvent::Mbo(m) => m.ts_event,
            MarketEvent::Footprint(m) => m.ts_event,
            MarketEvent::OptionTrade(m) => m.ts_event,
        }
    }

    /// The representative price a market order fills at: the bid/ask mid
    /// where a quote is present, else the trade or close price.
    pub open spec fn spec_rep_price(self) -> i64 {
        match self {
            MarketEvent::Mbp1(m) => ((m.bid_px + m.ask_px) / 2) as i64,
            _ => self.spec_price(),
        }
    }

    pub fn rep_price(&self) -> (p: i64)
        requires
            self.wf(),
        ensures
            p == self.spec_rep_price(),
    {
        match self {
            MarketEvent::Mbp1(m) => (m.bid_px + m.ask_px) / 2,
            _ => self.price(),
        }
    }

    /// Does every price field of the observation sit inside the price range?
    /// The data collaborator rejects records for which this fails.
    pub fn check_wf(&self) -> (b: bool)
        ensures
            b == self.wf(),
    {
        match self {
            MarketEvent::Trade(m) => 0 <= m.price && m.price <= PRICE_CAP,
            MarketEvent::Mbp1(m) => 0 <= m.price && m.price <= PRICE_CAP && 0 <= m.bid_px
                && m.bid_px <= PRICE_CAP && 0 <= m.ask_px && m.ask_px <= PRICE_CAP,
            MarketEvent::Ohlcv(m) => 0 <= m.open && m.open <= PRICE_CAP && 0 <= m.high && m.high
                <= PRICE_CAP && 0 <= m.low && m.low <= PRICE_CAP && 0 <= m.close && m.close
                <= PRICE_CAP,
            MarketEvent::Mbo(m) => 0 <= m.price && m.price <= PRICE_CAP,
            MarketEvent::Footprint(m) => 0 <= m.price && m.price <= PRICE_CAP,
            MarketEvent::OptionTrade(m) => 0 <= m.price && m.price <= PRICE_CAP && 0
                <= m.strike_price && m.strike_price <= PRICE_CAP && 0 <= m.underlying_bid
                && m.underlying_bid <= PRICE_CAP && 0 <= m.underlying_ask && m.underlying_ask
                <= PRICE_CAP && 0 <= m.underlying_price && m.underlying_price <= PRICE_CAP,
        }
    }

}

/// The calendar date (year, month, day, UTC) that the `time` crate renders
/// for a nanosecond Unix timestamp.
pub uninterp spec fn date_of(ts: u64) -> Seq<char>;

/// Relies on time's `OffsetDateTime::from_unix_timestamp_nanos` and the
/// `Display` of its `Date`: the rendered UTC calendar date is a function of
/// the nanosecond timestamp alone, and construction fails only for
/// timestamps outside the crate's supported year range.
#[verifier::external_body]
fn format_utc_date(ts: u64) -> (r: Option<String>)
    ensures
        r matches Some(s) ==> s@ == date_of(ts),
{
    match time::OffsetDateTime::from_unix_timestamp_nanos(ts as i128) {
        Ok(odt) => Some(odt.date().to_string()),
        Err(_) => None,
    }
}

impl MarketEvent {
    /// The event's UTC calendar date as text, or a fixed marker when the
    /// timestamp lies outside the representable date range.
    pub fn date_string(&self) -> (r: String)
        ensures
            r@ == date_of(self.spec_timestamp()) || r@ == "UNKNOWN"@,
    {
        match format_utc_date(self.timestamp()) {
            Option::Some(s) => s,
            Option::None => String::from_str("UNKNOWN"),
        }
    }
}

/// The schema-specific attributes an event can be asked for, each one
/// explicitly enumerated rather than looked up by an open string key.
#[derive(Clone, Copy, Debug, PartialEq, Eq, Structural)]
pub enum EventAttr {
    UnderlyingBid,
    UnderlyingAsk,
    UnderlyingPrice,
    StrikePrice,
    Price,
    UnderlyingBidSz,
    UnderlyingAskSz,
    Expiration,
    InstrumentId,
    OptionTypeCode,
    Symbol,
}

impl MarketEvent {
    /// The price-valued attribute, where the schema carries it: the
    /// underlying quote on a top-of-book event, and the underlying quote,
    /// strike and premium on an option trade.
    pub open spec fn spec_get(self, attr: EventAttr) -> Option<i64> {
        match self {
            MarketEvent::Mbp1(m) => match attr {
                EventAttr::UnderlyingBid => Some(m.bid_px),
                EventAttr::UnderlyingAsk => Some(m.ask_px),
                EventAttr::UnderlyingPrice => Some(m.price),
                _ => None,
            },
            MarketEvent::OptionTrade(m) => match attr {
                EventAttr::StrikePrice => Some(m.strike_price),
                EventAttr::UnderlyingPrice => Some(m.underlying_price),
                EventAttr::UnderlyingBid => Some(m.underlying_bid),
                EventAttr::UnderlyingAsk => Some(m.underlying_ask),
                EventAttr::Price => Some(m.price),
                _ => None,
            },
            _ => None,
        }
    }

    pub fn get(&self, attr: EventAttr) -> (r: Option<i64>)
        ensures
            r == self.spec_get(attr),
    {
        match self {
            MarketEvent::Mbp1(m) => match attr {
                EventAttr::UnderlyingBid => Some(m.bid_px),
                EventAttr::UnderlyingAsk => Some(m.ask_px),
                EventAttr::UnderlyingPrice => Some(m.price),
                _ => None,
            },
            MarketEvent::OptionTrade(m) => match attr {
                EventAttr::StrikePrice => Some(m.strike_price),
                EventAttr::UnderlyingPrice => Some(m.underlying_price),
                EventAttr::UnderlyingBid => Some(m.underlying_bid),
                EventAttr::UnderlyingAsk => Some(m.underlying_ask),
                EventAttr::Price => Some(m.price),
                _ => None,
            },
            _ => None,
        }
    }

    /// The count-valued attribute, where the schema carries it.
    pub open spec fn spec_get_u64(self, attr: EventAttr) -> Option<u64> {
        match self {
            MarketEvent::Mbp1(m) => match attr {
                EventAttr::UnderlyingBidSz => Some(m.bid_sz),
                EventAttr::UnderlyingAskSz => Some(m.ask_sz),
                _ => None,
            },
            MarketEvent::OptionTrade(m) => match attr {
                EventAttr::Expiration => Some(m.expiration),
                EventAttr::InstrumentId => Some(m.instrument_id as u64),
                EventAttr::UnderlyingBidSz => Some(m.underlying_bid_sz as u64),
                EventAttr::UnderlyingAskSz => Some(m.underlying_ask_sz as u64),
                _ => None,
            },
            _ => None,
        }
    }

    pub fn get_u64(&self, attr: EventAttr) -> (r: Option<u64>)
        ensures
            r == self.spec_get_u64(attr),
    {
        match self {
            MarketEvent::Mbp1(m) => match attr {
                EventAttr::UnderlyingBidSz => Some(m.bid_sz),
                EventAttr::UnderlyingAskSz => Some(m.ask_sz),
                _ => None,
            },
            MarketEvent::OptionTrade(m) => match attr {
                EventAttr::Expiration => Some(m.expiration),
                EventAttr::InstrumentId => Some(m.instrument_id as u64),
                EventAttr::UnderlyingBidSz => Some(m.underlying_bid_sz as u64),
                EventAttr::UnderlyingAskSz => Some(m.underlying_ask_sz as u64),
                _ => None,
            },
            _ => None,
        }
    }

    /// The text-valued attribute, where the schema carries it: the option
    /// class code (`C` or `P`) and the raw contract symbol.
    pub open spec fn spec_get_string(self, attr: EventAttr) -> Option<Seq<char>> {
        match self {
            MarketEvent::OptionTrade(m) => match attr {
                EventAttr::OptionTypeCode => match m.option_type {
                    OptionType::Call => Some("C"@),
                    OptionType::Put => Some("P"@),
                },
                EventAttr::Symbol => Some(m.symbol@),
                _ => None,
            },
            _ => None,
        }
    }

    pub fn get_string(&self, attr: EventAttr) -> (r: Option<String>)
        ensures
            r is Some <==> self.spec_get_string(attr) is Some,
            r matches Some(s) ==> self.spec_get_string(attr) == Some(s@),
    {
        match self {
            MarketEvent::OptionTrade(m) => match attr {
                EventAttr::OptionTypeCode => match m.option_type {
                    OptionType::Call => Some(String::from_str("C")),
                    OptionType::Put => Some(String::from_str("P")),
                },
                EventAttr::Symbol => Some(m.symbol.clone()),
                _ => None,
            },
            _ => None,
        }
    }
}

} // verus!
