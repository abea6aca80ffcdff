//! Strategy-facing types: orders, the strategy capability, and the named
//! parameter map a strategy is constructed from.

use vstd::prelude::*;

use crate::event::MarketEvent;

verus! {

/// The four order kinds a strategy may emit.
#[derive(Clone, Copy, Debug, PartialEq, Eq, Structural)]
pub enum OrderType {
    MarketBuy,
    MarketSell,
    LimitBuy,
    LimitSell,
}

/// A request emitted by a strategy; it lives until filled or, for limit
/// orders, until the end of the series.
#[derive(Clone, Copy, Debug, PartialEq, Eq, Structural)]
pub struct Order {
    pub order_type: OrderType,
    pub price: i64,
}

/// A stateful decision unit: it consumes one event (plus the previous event)
/// and optionally emits an order. Implementations must be deterministic for
/// the same event sequence and construction parameters.
pub trait Strategy {
    fn on_event(&mut self, event: &MarketEvent, prev: Option<&MarketEvent>) -> Option<Order>;
}

/// The key-value pairs of a parameter list as a mathematical map; a later
/// binding of a key wins.
pub closed spec fn seq_to_map(s: Seq<(String, i64)>) -> Map<Seq<char>, i64>
    decreases s.len(),
{
    if s.len() == 0 {
        Map::empty()
    } else {
        seq_to_map(s.drop_last()).insert(s.last().0@, s.last().1)
    }
}

/// No two entries share a key.
pub closed spec fn keys_unique(s: Seq<(String, i64)>) -> bool {
    forall|i: int, j: int| 0 <= i < j < s.len() ==> s[i].0@ != s[j].0@
}

proof fn lemma_unique_prefix(s: Seq<(String, i64)>)
    requires
        keys_unique(s),
        s.len() > 0,
    ensures
        keys_unique(s.drop_last()),
{
    assert forall|i: int, j: int| 0 <= i < j < s.drop_last().len() implies s.drop_last()[i].0@
        != s.drop_last()[j].0@ by {
        assert(s[i].0@ != s[j].0@);
    }
}

/// A key is in the map exactly when some entry holds it.
proof fn lemma_map_contains(s: Seq<(String, i64)>, k: Seq<char>)
    ensures
        seq_to_map(s).contains_key(k) <==> exists|i: int| 0 <= i < s.len() && s[i].0@ == k,
    decreases s.len(),
{
    if s.len() > 0 {
        lemma_map_contains(s.drop_last(), k);
        if s.last().0@ == k {
            assert(s[s.len() - 1].0@ == k);
        } else {
            if seq_to_map(s).contains_key(k) {
                let i = choose|i: int| 0 <= i < s.drop_last().len() && s.drop_last()[i].0@ == k;
                assert(s[i].0@ == k);
            }
            if exists|i: int| 0 <= i < s.len() && s[i].0@ == k {
                let i = choose|i: int| 0 <= i < s.len() && s[i].0@ == k;
                assert(s.drop_last()[i].0@ == k);
            }
        }
    }
}

/// Under unique keys, the map sends each entry's key to its value.
proof fn lemma_map_value(s: Seq<(String, i64)>, i: int)
    requires
        keys_unique(s),
        0 <= i < s.len(),
    ensures
        seq_to_map(s).contains_key(s[i].0@),
        seq_to_map(s)[s[i].0@] == s[i].1,
    decreases s.len(),
{
    if i == s.len() - 1 {
    } else {
        lemma_unique_prefix(s);
        lemma_map_value(s.drop_last(), i);
        assert(s.drop_last()[i] == s[i]);
        assert(s.last().0@ != s[i].0@);
    }
}

/// Removing the one entry that holds a key removes the key from the map.
proof fn lemma_map_remove(s: Seq<(String, i64)>, i: int)
    requires
        keys_unique(s),
        0 <= i < s.len(),
    ensures
        seq_to_map(s.remove(i)) =~= seq_to_map(s).remove(s[i].0@),
        keys_unique(s.remove(i)),
    decreases s.len(),
{
    let k = s[i].0@;
    assert forall|a: int, b: int| 0 <= a < b < s.remove(i).len() implies s.remove(i)[a].0@
        != s.remove(i)[b].0@ by {
        let a0 = if a < i {
            a
        } else {
            a + 1
        };
        let b0 = if b < i {
            b
        } else {
            b + 1
        };
        assert(s.remove(i)[a] == s[a0] && s.remove(i)[b] == s[b0]);
        assert(s[a0].0@ != s[b0].0@);
    }
    if i == s.len() - 1 {
        assert(s.remove(i) =~= s.drop_last());
        lemma_unique_prefix(s);
        lemma_map_contains(s.drop_last(), k);
        assert(!seq_to_map(s.drop_last()).contains_key(k)) by {
            if seq_to_map(s.drop_last()).contains_key(k) {
                let j = choose|j: int| 0 <= j < s.drop_last().len() && s.drop_last()[j].0@ == k;
                assert(s[j].0@ == s[i].0@ && j < i);
            }
        }
        assert(seq_to_map(s.drop_last()).insert(k, s.last().1).remove(k) =~= seq_to_map(
            s.drop_last(),
        ));
    } else {
        let t = s.remove(i);
        lemma_unique_prefix(s);
        lemma_map_remove(s.drop_last(), i);
        assert(t.drop_last() =~= s.drop_last().remove(i));
        assert(t.last() == s.last());
        assert(s.last().0@ != k);
        assert(seq_to_map(t) == seq_to_map(s.drop_last().remove(i)).insert(
            s.last().0@,
            s.last().1,
        ));
        assert(seq_to_map(s).remove(k) =~= seq_to_map(s.drop_last()).remove(k).insert(
            s.last().0@,
            s.last().1,
        ));
    }
}

/// Named numeric parameters a strategy is constructed from: a key-value
/// mapping with unique keys, never mutated after construction.
#[derive(Debug)]
pub struct StrategyParams {
    items: Vec<(String, i64)>,
}

impl View for StrategyParams {
    type V = Map<Seq<char>, i64>;

    closed spec fn view(&self) -> Map<Seq<char>, i64> {
        seq_to_map(self.items@)
    }
}

impl StrategyParams {
    #[verifier::type_invariant]
    spec fn inv(self) -> bool {
        keys_unique(self.items@)
    }

    /// Create a new, empty parameter map.
    pub fn new() -> (r: Self)
        ensures
            r@ == Map::<Seq<char>, i64>::empty(),
    {
        StrategyParams { items: Vec::new() }
    }

    /// Bind a key to a value, replacing any earlier binding of the key.
    pub fn insert(&mut self, key: &str, value: i64)
        ensures
            final(self)@ == old(self)@.insert(key@, value),
    {
        proof {
            use_type_invariant(&*self);
        }
        let k: String = key.to_owned();
        let mut items: Vec<(String, i64)> = Vec::new();
        std::mem::swap(&mut items, &mut self.items);
        let ghost orig = items@;
        let n = items.len();
        let mut i: usize = 0;
        let mut hit: Option<usize> = None;
        while i < n && hit.is_none()
            invariant
                n == items@.len(),
                k@ == key@,
                hit is None ==> forall|j: int| 0 <= j < i ==> items@[j].0@ != key@,
                hit matches Some(h) ==> i < n && i == h && items@[h as int].0@ == key@,
                i <= n,
            decreases n - i + (if hit is None { 1int } else { 0int }),
        {
            if items[i].0 == k {
                hit = Some(i);
            } else {
                i += 1;
            }
        }
        match hit {
            Option::Some(h) => {
                proof {
                    lemma_map_remove(items@, h as int);
                }
                let _ = items.remove(h);
                items.push((k, value));
                proof {
                    assert(items@.drop_last() =~= orig.remove(h as int));
                    assert(seq_to_map(items@) =~= seq_to_map(orig).insert(key@, value));
                    assert forall|a: int, b: int|
                        0 <= a < b < items@.len() implies items@[a].0@ != items@[b].0@ by {
                        if b == items@.len() - 1 {
                            lemma_map_contains(orig.remove(h as int), key@);
                            assert(seq_to_map(orig.remove(h as int)) =~= seq_to_map(orig).remove(
                                key@,
                            ));
                            if items@[a].0@ == key@ {
                                assert(orig.remove(h as int)[a].0@ == key@);
                                assert(seq_to_map(orig.remove(h as int)).contains_key(key@));
                            }
                        }
                    }
                }
                self.items = items;
            },
            Option::None => {
                items.push((k, value));
                proof {
                    assert(items@.drop_last() =~= orig);
                    assert(seq_to_map(items@) =~= seq_to_map(orig).insert(key@, value));
                    assert forall|a: int, b: int|
                        0 <= a < b < items@.len() implies items@[a].0@ != items@[b].0@ by {
                        if b == items@.len() - 1 {
                            assert(orig[a].0@ != key@);
                        }
                    }
                }
                self.items = items;
            },
        }
    }

    /// Look a key up; `None` when the key is unbound.
    pub fn get(&self, key: &str) -> (r: Option<i64>)
        ensures
            r == (if self@.contains_key(key@) {
                Some(self@[key@])
            } else {
                None::<i64>
            }),
    {
        proof {
            use_type_invariant(&*self);
        }
        let k: String = key.to_owned();
        let n = self.items.len();
        let mut i: usize = 0;
        while i < n
            invariant
                n == self.items@.len(),
                k@ == key@,
                keys_unique(self.items@),
                self@ == seq_to_map(self.items@),
                forall|j: int| 0 <= j < i ==> self.items@[j].0@ != key@,
                i <= n,
            decreases n - i,
        {
            if self.items[i].0 == k {
                proof {
                    lemma_map_value(self.items@, i as int);
                }
                return Some(self.items[i].1);
            }
            i += 1;
        }
        proof {
            lemma_map_contains(self.items@, key@);
        }
        None
    }
}

} // verus!
