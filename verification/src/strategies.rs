//! Concrete strategies the library ships: a moving-average cross and an
//! options momentum strategy, each a deterministic function of its
//! construction parameters and the event sequence.

pub mod ma_cross;
pub mod momentum;

use vstd::prelude::*;

use crate::event::MarketEvent;
use crate::strategy::{Order, StrategyParams};
use crate::BacktestError;

verus! {

/// The synthetic position a strategy believes it holds.
#[derive(Clone, Copy, Debug, PartialEq, Eq, Structural)]
pub enum PositionState {
    Flat,
    Long,
    Short,
}

/// The sum of the elements of `s` from index `from` to the end.
pub open spec fn spec_suffix_sum(s: Seq<i64>, from: int) -> int
    decreases s.len() - from,
{
    if from < 0 || from >= s.len() {
        0
    } else {
        s[from] + spec_suffix_sum(s, from + 1)
    }
}

/// Which of the library's strategies a sweep constructs per parameter set.
#[derive(Clone, Copy, Debug, PartialEq, Eq, Structural)]
pub enum StrategySelect {
    MaCross,
    OptionsMomentum,
}

/// One of the library's strategies, behind a single state type so a sweep
/// can hold any of them.
#[derive(Debug)]
pub enum AnyStrategy {
    MaCross(ma_cross::MaCrossStrategy),
    OptionsMomentum(momentum::OptionsMomentumStrategy),
}

/// The mathematical state of `AnyStrategy`.
pub enum AnyModel {
    MaCross(ma_cross::MaModel),
    OptionsMomentum(momentum::MomentumModel),
}

impl View for AnyStrategy {
    type V = AnyModel;

    open spec fn view(&self) -> AnyModel {
        match self {
            AnyStrategy::MaCross(s) => AnyModel::MaCross(s@),
            AnyStrategy::OptionsMomentum(s) => AnyModel::OptionsMomentum(s@),
        }
    }
}

/// The construction outcome of the selected strategy on a parameter map.
pub open spec fn spec_any_init(sel: StrategySelect, pmap: Map<Seq<char>, i64>) -> Option<AnyModel> {
    match sel {
        StrategySelect::MaCross => match ma_cross::spec_ma_init(pmap) {
            Some(m) => Some(AnyModel::MaCross(m)),
            None => None,
        },
        StrategySelect::OptionsMomentum => match momentum::spec_momentum_init(pmap) {
            Some(m) => Some(AnyModel::OptionsMomentum(m)),
            None => None,
        },
    }
}

/// One decision of the selected strategy.
pub open spec fn spec_any_decide(m: AnyModel, ev: MarketEvent) -> (AnyModel, Option<Order>) {
    match m {
        AnyModel::MaCross(s) => {
            let (s2, o) = ma_cross::spec_ma_decide(s, ev);
            (AnyModel::MaCross(s2), o)
        },
        AnyModel::OptionsMomentum(s) => {
            let (s2, o) = momentum::spec_momentum_decide(s, ev);
            (AnyModel::OptionsMomentum(s2), o)
        },
    }
}

/// The strategy state after consuming an event sequence.
pub open spec fn spec_any_state(m: AnyModel, evs: Seq<MarketEvent>) -> AnyModel
    decreases evs.len(),
{
    if evs.len() == 0 {
        m
    } else {
        spec_any_state(spec_any_decide(m, evs[0]).0, evs.drop_first())
    }
}

/// The sequence of signals the strategy emits over an event sequence: its
/// deterministic trace, one optional order per event.
pub open spec fn spec_any_signals(m: AnyModel, evs: Seq<MarketEvent>) -> Seq<Option<Order>>
    decreases evs.len(),
{
    if evs.len() == 0 {
        Seq::empty()
    } else {
        seq![spec_any_decide(m, evs[0]).1] + spec_any_signals(
            spec_any_decide(m, evs[0]).0,
            evs.drop_first(),
        )
    }
}

/// The trace has one signal per event.
pub proof fn lemma_any_signals_len(m: AnyModel, evs: Seq<MarketEvent>)
    ensures
        spec_any_signals(m, evs).len() == evs.len(),
    decreases evs.len(),
{
    if evs.len() > 0 {
        lemma_any_signals_len(spec_any_decide(m, evs[0]).0, evs.drop_first());
    }
}

/// Consuming one more event extends the trace by that event's decision on
/// the state reached so far.
pub proof fn lemma_any_signals_snoc(m: AnyModel, evs: Seq<MarketEvent>, ev: MarketEvent)
    ensures
        spec_any_state(m, evs.push(ev)) == spec_any_decide(spec_any_state(m, evs), ev).0,
        spec_any_signals(m, evs.push(ev)) =~= spec_any_signals(m, evs).push(
            spec_any_decide(spec_any_state(m, evs), ev).1,
        ),
    decreases evs.len(),
{
    let ep = evs.push(ev);
    if evs.len() == 0 {
        assert(ep[0] == ev);
        assert(ep.drop_first() =~= Seq::<MarketEvent>::empty());
        let m1 = spec_any_decide(m, ev).0;
        assert(spec_any_state(m1, ep.drop_first()) == m1);
        assert(spec_any_signals(m1, ep.drop_first()) =~= Seq::<Option<Order>>::empty());
    } else {
        assert(ep[0] == evs[0]);
        assert(ep.drop_first() =~= evs.drop_first().push(ev));
        let m1 = spec_any_decide(m, evs[0]).0;
        lemma_any_signals_snoc(m1, evs.drop_first(), ev);
        assert(spec_any_state(m, evs) == spec_any_state(m1, evs.drop_first()));
        assert(spec_any_signals(m, evs) == seq![spec_any_decide(m, evs[0]).1] + spec_any_signals(
            m1,
            evs.drop_first(),
        ));
    }
}

impl AnyStrategy {
    /// Construct the selected strategy from its parameters; failure is
    /// always a configuration error, exactly when `spec_any_init` refuses.
    pub fn any_new(sel: StrategySelect, params: &StrategyParams) -> (r: Result<
        AnyStrategy,
        BacktestError,
    >)
        ensures
            r is Ok <==> spec_any_init(sel, params@) is Some,
            r matches Err(e) ==> e == BacktestError::Configuration,
            r matches Ok(s) ==> s@ == spec_any_init(sel, params@).unwrap(),
    {
        match sel {
            StrategySelect::MaCross => match ma_cross::MaCrossStrategy::new(params) {
                Result::Ok(s) => Ok(AnyStrategy::MaCross(s)),
                Result::Err(e) => Err(e),
            },
            StrategySelect::OptionsMomentum => match momentum::OptionsMomentumStrategy::new(
                params,
            ) {
                Result::Ok(s) => Ok(AnyStrategy::OptionsMomentum(s)),
                Result::Err(e) => Err(e),
            },
        }
    }

    /// One decision, exactly `spec_any_decide`, returning the stepped
    /// strategy by value.
    pub fn decide_owned(self, event: &MarketEvent) -> (r: (AnyStrategy, Option<Order>))
        ensures
            r.0@ == spec_any_decide(self@, *event).0,
            r.1 == spec_any_decide(self@, *event).1,
    {
        match self {
            AnyStrategy::MaCross(s) => {
                let mut s = s;
                let o = s.decide(event);
                (AnyStrategy::MaCross(s), o)
            },
            AnyStrategy::OptionsMomentum(s) => {
                let mut s = s;
                let o = s.decide(event);
                (AnyStrategy::OptionsMomentum(s), o)
            },
        }
    }
}

} // verus!
