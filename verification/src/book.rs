//! Fixed-point prices and quantities and the L2 order book.
//!
//! Prices and quantities are integers scaled by 10^8, so the book's keys
//! order exactly. Each side maps a price level to the total quantity resting
//! there; asks are read lowest first, bids highest first.

use std::collections::BTreeMap;
use vstd::prelude::*;
use vstd::std_specs::btree::{increasing_seq, spec_btree_map_iter};
use vstd::std_specs::cmp::OrdSpec;
use vstd::std_specs::iter::IteratorSpec;

pub use crate::fixed_point::{Price, Quantity, PRICE_SCALE, QUANTITY_SCALE};
use crate::models::{BookLevel, OrderBookUpdate};
use crate::text::text_eq;

verus! {

/// `s` lists the entries of `m` in strictly increasing key order.
pub open spec fn ascending_listing(s: Seq<(u64, u64)>, m: Map<u64, u64>) -> bool {
    &&& forall|i: int, j: int| 0 <= i < j < s.len() ==> s[i].0 < s[j].0
    &&& forall|i: int|
        0 <= i < s.len() ==> #[trigger] m.contains_key(s[i].0) && m[s[i].0] == s[i].1
    &&& forall|k: u64| #[trigger]
        m.contains_key(k) ==> exists|i: int| 0 <= i < s.len() && s[i].0 == k
}

/// `s` lists the entries of `m` in strictly decreasing key order.
pub open spec fn descending_listing(s: Seq<(u64, u64)>, m: Map<u64, u64>) -> bool {
    &&& forall|i: int, j: int| 0 <= i < j < s.len() ==> s[i].0 > s[j].0
    &&& forall|i: int|
        0 <= i < s.len() ==> #[trigger] m.contains_key(s[i].0) && m[s[i].0] == s[i].1
    &&& forall|k: u64| #[trigger]
        m.contains_key(k) ==> exists|i: int| 0 <= i < s.len() && s[i].0 == k
}

/// The entries of `m` in increasing key order (the unique ascending listing,
/// where one exists).
pub open spec fn levels_up(m: Map<u64, u64>) -> Seq<(u64, u64)> {
    choose|s: Seq<(u64, u64)>| ascending_listing(s, m)
}

/// Two ascending listings of one map are the same sequence.
pub proof fn lemma_ascending_listing_unique(s1: Seq<(u64, u64)>, s2: Seq<(u64, u64)>, m: Map<u64, u64>)
    requires
        ascending_listing(s1, m),
        ascending_listing(s2, m),
    ensures
        s1 == s2,
    decreases s1.len(),
{
    if s1.len() == 0 {
        if s2.len() > 0 {
            assert(m.contains_key(s2[0].0));
        }
        assert(s1 =~= s2);
    } else {
        assert(m.contains_key(s1[0].0));
        assert(s2.len() > 0);
        assert(m.contains_key(s2[0].0));
        let j = choose|j: int| 0 <= j < s2.len() && s2[j].0 == s1[0].0;
        let i = choose|i: int| 0 <= i < s1.len() && s1[i].0 == s2[0].0;
        if j > 0 {
            if i > 0 {
                assert(s1[0].0 < s1[i].0);
            }
            assert(s2[0].0 < s2[j].0);
        }
        assert(s1[0].0 == s2[0].0);
        let k = s1[0].0;
        let m2 = m.remove(k);
        let t1 = s1.drop_first();
        let t2 = s2.drop_first();
        lemma_listing_tail(s1, m);
        lemma_listing_tail(s2, m);
        lemma_ascending_listing_unique(t1, t2, m2);
        assert(s1 =~= s2) by {
            assert(s1 =~= seq![s1[0]] + t1);
            assert(s2 =~= seq![s2[0]] + t2);
        }
    }
}

/// Dropping the first entry of an ascending listing lists the map without
/// that entry's key.
pub proof fn lemma_listing_tail(s: Seq<(u64, u64)>, m: Map<u64, u64>)
    requires
        ascending_listing(s, m),
        s.len() > 0,
    ensures
        ascending_listing(s.drop_first(), m.remove(s[0].0)),
{
    let t = s.drop_first();
    let m2 = m.remove(s[0].0);
    assert forall|i: int| 0 <= i < t.len() implies #[trigger] m2.contains_key(t[i].0) && m2[t[i].0]
        == t[i].1 by {
        assert(t[i] == s[i + 1]);
        assert(s[0].0 < s[i + 1].0);
        assert(m.contains_key(s[i + 1].0));
    }
    assert forall|k: u64| #[trigger] m2.contains_key(k) implies exists|i: int|
        0 <= i < t.len() && t[i].0 == k by {
        assert(m.contains_key(k));
        let i = choose|i: int| 0 <= i < s.len() && s[i].0 == k;
        assert(i > 0);
        assert(t[i - 1].0 == k);
    }
    assert forall|i: int, j: int| 0 <= i < j < t.len() implies t[i].0 < t[j].0 by {
        assert(t[i] == s[i + 1] && t[j] == s[j + 1]);
    }
}

/// An ascending listing of `m` is `levels_up(m)`.
pub proof fn lemma_levels_up_is_the_listing(s: Seq<(u64, u64)>, m: Map<u64, u64>)
    requires
        ascending_listing(s, m),
    ensures
        levels_up(m) == s,
{
    let c = levels_up(m);
    assert(ascending_listing(c, m));
    lemma_ascending_listing_unique(c, s, m);
}

/// The raw values of a list of (price, quantity) levels.
pub open spec fn raw_levels(s: Seq<(Price, Quantity)>) -> Seq<(u64, u64)> {
    s.map_values(|l: (Price, Quantity)| (l.0@, l.1@))
}

/// Lowest entry of a map (std: `BTreeMap::first_key_value`).
/// Claimed: `None` exactly when the map is empty; otherwise an entry of the
/// map whose key is the least key.
#[verifier::external_body]
fn first_level(m: &BTreeMap<u64, u64>) -> (r: Option<(u64, u64)>)
    ensures
        match r {
            None => m@.dom().is_empty(),
            Some((k, v)) => m@.contains_key(k) && m@[k] == v && forall|j: u64|
                #[trigger] m@.contains_key(j) ==> k <= j,
        },
{
    match m.first_key_value() {
        Some((k, v)) => Some((*k, *v)),
        None => None,
    }
}

/// Highest entry of a map (std: `BTreeMap::last_key_value`).
/// Claimed: `None` exactly when the map is empty; otherwise an entry of the
/// map whose key is the greatest key.
#[verifier::external_body]
fn last_level(m: &BTreeMap<u64, u64>) -> (r: Option<(u64, u64)>)
    ensures
        match r {
            None => m@.dom().is_empty(),
            Some((k, v)) => m@.contains_key(k) && m@[k] == v && forall|j: u64|
                #[trigger] m@.contains_key(j) ==> j <= k,
        },
{
    match m.last_key_value() {
        Some((k, v)) => Some((*k, *v)),
        None => None,
    }
}

/// One side of an L2 book: raw price level to raw resting quantity.
#[derive(Debug, Clone)]
pub struct BookSide {
    levels: BTreeMap<u64, u64>,
}

impl View for BookSide {
    type V = Map<u64, u64>;

    closed spec fn view(&self) -> Map<u64, u64> {
        self.levels@
    }
}

impl BookSide {
    /// An empty side.
    pub fn new() -> (s: BookSide)
        ensures
            s@ == Map::<u64, u64>::empty(),
    {
        BookSide { levels: BTreeMap::new() }
    }

    /// Sets the quantity resting at `price`.
    pub fn insert(&mut self, price: Price, qty: Quantity)
        ensures
            final(self)@ == old(self)@.insert(price@, qty@),
    {
        let p = price.raw();
        self.levels.insert(p, qty.raw());
    }

    /// Removes the level at `price`, if any.
    pub fn remove(&mut self, price: &Price)
        ensures
            final(self)@ == old(self)@.remove(price@),
    {
        let p = price.raw();
        self.levels.remove(&p);
    }

    /// The quantity resting at `price`.
    pub fn get(&self, price: &Price) -> (r: Option<Quantity>)
        ensures
            match r {
                Some(q) => self@.contains_key(price@) && self@[price@] == q@,
                None => !self@.contains_key(price@),
            },
    {
        let p = price.raw();
        match self.levels.get(&p) {
            Some(q) => Some(Quantity::from_raw(*q)),
            None => None,
        }
    }

    /// Number of price levels.
    pub fn len(&self) -> (n: usize)
        ensures
            n == self@.len(),
    {
        self.levels.len()
    }

    /// Whether the side holds no level.
    pub fn is_empty(&self) -> (b: bool)
        ensures
            b == self@.is_empty(),
    {
        self.levels.is_empty()
    }

    /// The level with the lowest price.
    pub fn lowest(&self) -> (r: Option<(Price, Quantity)>)
        ensures
            match r {
                None => self@.dom().is_empty(),
                Some((p, q)) => self@.contains_key(p@) && self@[p@] == q@ && forall|j: u64|
                    #[trigger] self@.contains_key(j) ==> p@ <= j,
            },
    {
        match first_level(&self.levels) {
            Some((p, q)) => Some((Price::from_raw(p), Quantity::from_raw(q))),
            None => None,
        }
    }

    /// The level with the highest price.
    pub fn highest(&self) -> (r: Option<(Price, Quantity)>)
        ensures
            match r {
                None => self@.dom().is_empty(),
                Some((p, q)) => self@.contains_key(p@) && self@[p@] == q@ && forall|j: u64|
                    #[trigger] self@.contains_key(j) ==> j <= p@,
            },
    {
        match last_level(&self.levels) {
            Some((p, q)) => Some((Price::from_raw(p), Quantity::from_raw(q))),
            None => None,
        }
    }

    /// The raw levels, lowest price first.
    pub fn ascending_raw(&self) -> (v: Vec<(u64, u64)>)
        ensures
            ascending_listing(v@, self@),
            v@ == levels_up(self@),
    {
        let mut out: Vec<(u64, u64)> = Vec::new();
        let ghost src = spec_btree_map_iter(&self.levels).remaining();
        for kv in it: self.levels.iter()
            invariant
                it.seq() == src,
                out@.len() == it.index(),
                forall|i: int| 0 <= i < it.index() ==> out@[i] == (*src[i].0, *src[i].1),
        {
            out.push((*kv.0, *kv.1));
        }
        proof {
            let keys = src.map_values(|kv: (&u64, &u64)| *kv.0);
            assert(increasing_seq(keys));
            assert forall|i: int, j: int| 0 <= i < j < out@.len() implies out@[i].0
                < out@[j].0 by {
                assert(keys[i].cmp_spec(&keys[j]) is Less);
            }
            assert forall|k: u64| #[trigger] self@.contains_key(k) implies exists|i: int|
                0 <= i < out@.len() && out@[i].0 == k by {
                assert(src.contains((&k, &self.levels@[k])));
                let i = choose|i: int| 0 <= i < src.len() && src[i] == (&k, &self.levels@[k]);
                assert(out@[i].0 == k);
            }
            assert forall|i: int| 0 <= i < out@.len() implies #[trigger] self@.contains_key(
                out@[i].0,
            ) && self@[out@[i].0] == out@[i].1 by {
                assert(self.levels@.contains_key(*src[i].0));
            }
            lemma_levels_up_is_the_listing(out@, self@);
        }
        out
    }

    /// The raw levels, highest price first.
    pub fn descending_raw(&self) -> (v: Vec<(u64, u64)>)
        ensures
            descending_listing(v@, self@),
            v@ == levels_up(self@).reverse(),
    {
        let asc = self.ascending_raw();
        let n = asc.len();
        let mut out: Vec<(u64, u64)> = Vec::new();
        let mut i: usize = 0;
        while i < n
            invariant
                n == asc@.len(),
                i <= n,
                out@.len() == i,
                forall|k: int| 0 <= k < i ==> out@[k] == asc@[n - 1 - k],
            decreases n - i,
        {
            out.push(asc[n - 1 - i]);
            i = i + 1;
        }
        proof {
            assert forall|a: int, b: int| 0 <= a < b < out@.len() implies out@[a].0
                > out@[b].0 by {
                assert(asc@[n - 1 - b].0 < asc@[n - 1 - a].0);
            }
            assert forall|k: u64| #[trigger] self@.contains_key(k) implies exists|a: int|
                0 <= a < out@.len() && out@[a].0 == k by {
                let j = choose|j: int| 0 <= j < asc@.len() && asc@[j].0 == k;
                assert(out@[n - 1 - j] == asc@[j]);
            }
            assert forall|a: int| 0 <= a < out@.len() implies #[trigger] self@.contains_key(
                out@[a].0,
            ) && self@[out@[a].0] == out@[a].1 by {
                assert(out@[a] == asc@[n - 1 - a]);
            }
            assert(out@ =~= asc@.reverse());
        }
        out
    }

    /// The levels, lowest price first.
    pub fn ascending(&self) -> (v: Vec<(Price, Quantity)>)
        ensures
            ascending_listing(raw_levels(v@), self@),
    {
        let raw = self.ascending_raw();
        let out = wrap_levels(&raw);
        proof {
            assert(raw_levels(out@) =~= raw@);
        }
        out
    }

    /// The levels, highest price first.
    pub fn descending(&self) -> (v: Vec<(Price, Quantity)>)
        ensures
            descending_listing(raw_levels(v@), self@),
    {
        let raw = self.descending_raw();
        let out = wrap_levels(&raw);
        proof {
            assert(raw_levels(out@) =~= raw@);
        }
        out
    }
}

/// The raw levels as typed (price, quantity) pairs, in the same order.
fn wrap_levels(raw: &Vec<(u64, u64)>) -> (v: Vec<(Price, Quantity)>)
    ensures
        v@.len() == raw@.len(),
        forall|i: int| 0 <= i < raw@.len() ==> v@[i].0@ == raw@[i].0 && v@[i].1@ == raw@[i].1,
{
    let mut out: Vec<(Price, Quantity)> = Vec::new();
    let mut i: usize = 0;
    while i < raw.len()
        invariant
            i <= raw@.len(),
            out@.len() == i,
            forall|k: int| 0 <= k < i ==> out@[k].0@ == raw@[k].0 && out@[k].1@ == raw@[k].1,
        decreases raw@.len() - i,
    {
        let (p, q) = raw[i];
        out.push((Price::from_raw(p), Quantity::from_raw(q)));
        i = i + 1;
    }
    out
}


/// What one level of a book change does to its side.
#[derive(Debug, Clone, Copy, PartialEq, Eq, Structural)]
pub enum LevelAction {
    /// `"new"` or `"change"`: the level's quantity is set.
    Put,
    /// `"delete"`: the level is removed.
    Remove,
    /// Any other action: the side is left as it is.
    Ignore,
}

/// The action that a level's action text names.
pub open spec fn action_of(action: Seq<char>) -> LevelAction {
    if action == "new"@ || action == "change"@ {
        LevelAction::Put
    } else if action == "delete"@ {
        LevelAction::Remove
    } else {
        LevelAction::Ignore
    }
}

/// Reads a level's action text.
pub fn classify_action(action: &str) -> (r: LevelAction)
    ensures
        r == action_of(action@),
{
    if text_eq(action, "new") || text_eq(action, "change") {
        LevelAction::Put
    } else if text_eq(action, "delete") {
        LevelAction::Remove
    } else {
        LevelAction::Ignore
    }
}

/// A side after one level of a change is applied to it.
pub open spec fn apply_level_spec(m: Map<u64, u64>, level: BookLevel) -> Map<u64, u64> {
    match action_of(level.action@) {
        LevelAction::Put => m.insert(level.price@, level.amount@),
        LevelAction::Remove => m.remove(level.price@),
        LevelAction::Ignore => m,
    }
}

/// A side after the levels of a change are applied to it, in order.
pub open spec fn apply_levels_spec(m: Map<u64, u64>, levels: Seq<BookLevel>) -> Map<u64, u64>
    decreases levels.len(),
{
    if levels.len() == 0 {
        m
    } else {
        apply_level_spec(apply_levels_spec(m, levels.drop_last()), levels.last())
    }
}

/// The level changes its side: its action is `"new"`, `"change"` or
/// `"delete"`.
pub open spec fn is_effective(level: BookLevel) -> bool {
    action_of(level.action@) != LevelAction::Ignore
}

/// `i` is the last level of `levels` that changes its price's level.
pub open spec fn is_last_effective_at(levels: Seq<BookLevel>, i: int) -> bool {
    &&& 0 <= i < levels.len()
    &&& is_effective(levels[i])
    &&& forall|j: int|
        i < j < levels.len() && #[trigger] levels[j].price@ == levels[i].price@ ==> !is_effective(
            levels[j],
        )
}

/// Applying the levels of a change decides each price by the last level
/// that acts on it: a last `"new"` or `"change"` leaves the price at that
/// level's amount, a last `"delete"` leaves the price absent, and a price
/// that no level acts on (none listed, or only unknown actions) keeps
/// whatever it held.
pub proof fn lemma_change_decided_by_last_level(m: Map<u64, u64>, levels: Seq<BookLevel>)
    ensures
        forall|k: u64|
            (forall|j: int| 0 <= j < levels.len() && #[trigger] levels[j].price@ == k ==> !is_effective(levels[j]))
                ==> (#[trigger] apply_levels_spec(m, levels).contains_key(k) == m.contains_key(k) && (
            m.contains_key(k) ==> apply_levels_spec(m, levels)[k] == m[k])),
        forall|i: int|
            #[trigger] is_last_effective_at(levels, i) ==> if action_of(levels[i].action@)
                == LevelAction::Put {
                apply_levels_spec(m, levels).contains_key(levels[i].price@) && apply_levels_spec(
                    m,
                    levels,
                )[levels[i].price@] == levels[i].amount@
            } else {
                !apply_levels_spec(m, levels).contains_key(levels[i].price@)
            },
    decreases levels.len(),
{
    if levels.len() > 0 {
        let n = levels.len() - 1;
        let init = levels.drop_last();
        lemma_change_decided_by_last_level(m, init);
        let r0 = apply_levels_spec(m, init);
        let r = apply_levels_spec(m, levels);
        let last = levels[n];
        assert(r == apply_level_spec(r0, last));
        assert forall|k: u64|
            (forall|j: int| 0 <= j < levels.len() && #[trigger] levels[j].price@ == k ==> !is_effective(levels[j]))
            implies (#[trigger] r.contains_key(k) == m.contains_key(k) && (m.contains_key(k) ==> r[k] == m[k])) by {
            assert forall|j: int| 0 <= j < init.len() && #[trigger] init[j].price@ == k implies !is_effective(init[j]) by {
                assert(init[j] == levels[j]);
                assert(levels[j].price@ == k);
            }
            if last.price@ == k {
                assert(levels[n].price@ == k);
                assert(!is_effective(last));
            }
        }
        assert forall|i: int| #[trigger] is_last_effective_at(levels, i) implies if action_of(levels[i].action@)
            == LevelAction::Put {
            r.contains_key(levels[i].price@) && r[levels[i].price@] == levels[i].amount@
        } else {
            !r.contains_key(levels[i].price@)
        } by {
            if i < n {
                assert(init[i] == levels[i]);
                assert forall|j: int|
                    i < j < init.len() && #[trigger] init[j].price@ == init[i].price@ implies !is_effective(init[j]) by {
                    assert(init[j] == levels[j]);
                    assert(levels[j].price@ == levels[i].price@);
                }
                assert(is_last_effective_at(init, i));
                if last.price@ == levels[i].price@ {
                    assert(levels[n].price@ == levels[i].price@);
                    assert(!is_effective(last));
                }
            }
        }
    }
}

/// A side built from the levels of a snapshot: each level sets its price's
/// quantity, a later level for the same price overriding an earlier one.
pub open spec fn snapshot_side_spec(levels: Seq<BookLevel>) -> Map<u64, u64>
    decreases levels.len(),
{
    if levels.len() == 0 {
        Map::empty()
    } else {
        snapshot_side_spec(levels.drop_last()).insert(levels.last().price@, levels.last().amount@)
    }
}

/// `i` is the last of `levels` listed at its price.
pub open spec fn is_last_at_price(levels: Seq<BookLevel>, i: int) -> bool {
    &&& 0 <= i < levels.len()
    &&& forall|j: int| i < j < levels.len() ==> #[trigger] levels[j].price@ != levels[i].price@
}

/// A side built from a snapshot holds exactly the snapshot's levels, however
/// many there are: every listed price is in it, with the amount of the last
/// level listed at that price, and no price that the snapshot does not list.
pub proof fn lemma_snapshot_side_holds_every_level(levels: Seq<BookLevel>)
    ensures
        forall|i: int|
            0 <= i < levels.len() ==> #[trigger] snapshot_side_spec(levels).contains_key(
                levels[i].price@,
            ),
        forall|i: int|
            #[trigger] is_last_at_price(levels, i) ==> snapshot_side_spec(levels)[levels[i].price@]
                == levels[i].amount@,
        forall|k: u64|
            #[trigger] snapshot_side_spec(levels).contains_key(k) ==> exists|i: int|
                0 <= i < levels.len() && #[trigger] levels[i].price@ == k,
    decreases levels.len(),
{
    if levels.len() > 0 {
        let n = levels.len() - 1;
        let init = levels.drop_last();
        lemma_snapshot_side_holds_every_level(init);
        let m0 = snapshot_side_spec(init);
        let m = snapshot_side_spec(levels);
        let last = levels[n];
        assert(m == m0.insert(last.price@, last.amount@));
        assert forall|i: int| 0 <= i < levels.len() implies #[trigger] m.contains_key(
            levels[i].price@,
        ) by {
            if i < n {
                assert(init[i] == levels[i]);
                assert(m0.contains_key(init[i].price@));
            }
        }
        assert forall|i: int| #[trigger] is_last_at_price(levels, i) implies m[levels[i].price@]
            == levels[i].amount@ by {
            if i < n {
                assert(levels[n].price@ != levels[i].price@);
                assert(init[i] == levels[i]);
                assert forall|j: int| i < j < init.len() implies #[trigger] init[j].price@
                    != init[i].price@ by {
                    assert(init[j] == levels[j]);
                    assert(levels[j].price@ != levels[i].price@);
                }
                assert(is_last_at_price(init, i));
            }
        }
        assert forall|k: u64| #[trigger] m.contains_key(k) implies exists|i: int|
            0 <= i < levels.len() && #[trigger] levels[i].price@ == k by {
            if k == last.price@ {
                assert(levels[n].price@ == k);
            } else {
                assert(m0.contains_key(k));
                let i = choose|i: int| 0 <= i < init.len() && #[trigger] init[i].price@ == k;
                assert(init[i] == levels[i]);
                assert(levels[i].price@ == k);
            }
        }
    }
}

/// Applies one level of a book change to a side: `"new"` and `"change"` set
/// the level's quantity, `"delete"` removes it, other actions change nothing.
pub fn apply_level(side: &mut BookSide, level: &BookLevel)
    ensures
        final(side)@ == apply_level_spec(old(side)@, *level),
{
    match classify_action(level.action.as_str()) {
        LevelAction::Put => side.insert(level.price, level.amount),
        LevelAction::Remove => side.remove(&level.price),
        LevelAction::Ignore => {},
    }
}

/// Applies the levels of a book change to a side, in order.
pub fn apply_levels(side: &mut BookSide, levels: &Vec<BookLevel>)
    ensures
        final(side)@ == apply_levels_spec(old(side)@, levels@),
{
    let ghost start = side@;
    let mut i: usize = 0;
    while i < levels.len()
        invariant
            i <= levels@.len(),
            side@ == apply_levels_spec(start, levels@.take(i as int)),
        decreases levels@.len() - i,
    {
        apply_level(side, &levels[i]);
        proof {
            assert(levels@.take(i + 1).drop_last() =~= levels@.take(i as int));
        }
        i = i + 1;
    }
    proof {
        assert(levels@.take(levels@.len() as int) =~= levels@);
    }
}

/// A side holding the levels of a snapshot.
pub fn side_from_levels(levels: &Vec<BookLevel>) -> (side: BookSide)
    ensures
        side@ == snapshot_side_spec(levels@),
{
    let mut side = BookSide::new();
    let mut i: usize = 0;
    while i < levels.len()
        invariant
            i <= levels@.len(),
            side@ == snapshot_side_spec(levels@.take(i as int)),
        decreases levels@.len() - i,
    {
        side.insert(levels[i].price, levels[i].amount);
        proof {
            assert(levels@.take(i + 1).drop_last() =~= levels@.take(i as int));
        }
        i = i + 1;
    }
    proof {
        assert(levels@.take(levels@.len() as int) =~= levels@);
    }
    side
}

/// An L2 order book: aggregated price levels and the exchange's change id.
#[derive(Debug, Clone)]
pub struct Book {
    pub asks: BookSide,
    pub bids: BookSide,
    pub change_id: u64,
}

impl Default for Book {
    fn default() -> (b: Book)
        ensures
            b.asks@ == Map::<u64, u64>::empty(),
            b.bids@ == Map::<u64, u64>::empty(),
            b.change_id == 0,
    {
        Book::new()
    }
}

impl Book {
    /// An empty book with change id 0.
    pub fn new() -> (b: Book)
        ensures
            b.asks@ == Map::<u64, u64>::empty(),
            b.bids@ == Map::<u64, u64>::empty(),
            b.change_id == 0,
    {
        Book { asks: BookSide::new(), bids: BookSide::new(), change_id: 0 }
    }

    /// The book that a snapshot describes.
    pub fn from_snapshot(snapshot: &OrderBookUpdate) -> (b: Book)
        ensures
            b.asks@ == snapshot_side_spec(snapshot.asks@),
            b.bids@ == snapshot_side_spec(snapshot.bids@),
            b.change_id == snapshot.change_id,
    {
        Book {
            asks: side_from_levels(&snapshot.asks),
            bids: side_from_levels(&snapshot.bids),
            change_id: snapshot.change_id,
        }
    }

    /// Applies a book change: takes its change id, then its ask levels and
    /// its bid levels in order.
    pub fn apply_change(&mut self, update: &OrderBookUpdate)
        ensures
            final(self).change_id == update.change_id,
            final(self).asks@ == apply_levels_spec(old(self).asks@, update.asks@),
            final(self).bids@ == apply_levels_spec(old(self).bids@, update.bids@),
    {
        self.change_id = update.change_id;
        apply_levels(&mut self.asks, &update.asks);
        apply_levels(&mut self.bids, &update.bids);
    }
}


/// The side of a market order: a buy takes asks, a sell takes bids.
#[derive(Debug, Clone, Copy, PartialEq, Eq, Structural)]
pub enum Side {
    Buy,
    Sell,
}

/// The outcome of sweeping a market order through the book.
#[derive(Debug, Clone, Copy, PartialEq, Eq)]
pub struct WalkResult {
    /// Volume-weighted average fill price (floor of notional / filled);
    /// `None` when nothing was filled.
    pub average_price: Option<Price>,
    /// Quantity filled against the book.
    pub filled: Quantity,
    /// Quantity of the order that the book could not fill.
    pub unfilled: Quantity,
    /// Sum over the levels touched of raw price × raw quantity taken.
    pub notional: u128,
}

pub open spec fn min_nat(a: nat, b: nat) -> nat {
    if a <= b {
        a
    } else {
        b
    }
}

/// Sweeps `want` through `levels` in order: each level gives up to its
/// quantity. The result is (quantity filled, notional of the fills).
pub open spec fn walk_spec(levels: Seq<(u64, u64)>, want: nat) -> (nat, nat)
    decreases levels.len(),
{
    if levels.len() == 0 {
        (0, 0)
    } else {
        let take = min_nat(levels[0].1 as nat, want);
        let rest = walk_spec(levels.drop_first(), (want - take) as nat);
        (take + rest.0, (levels[0].0 as nat) * take + rest.1)
    }
}

/// Total quantity resting on a list of levels.
pub open spec fn depth_spec(levels: Seq<(u64, u64)>) -> nat
    decreases levels.len(),
{
    if levels.len() == 0 {
        0
    } else {
        levels[0].1 as nat + depth_spec(levels.drop_first())
    }
}

/// The levels that an order of `side` consumes, in the order it consumes
/// them: asks lowest first, bids highest first.
pub open spec fn levels_for(book: Book, side: Side) -> Seq<(u64, u64)> {
    match side {
        Side::Buy => levels_up(book.asks@),
        Side::Sell => levels_up(book.bids@).reverse(),
    }
}

/// Asking for nothing fills nothing.
pub proof fn lemma_walk_nothing(levels: Seq<(u64, u64)>)
    ensures
        walk_spec(levels, 0) == (0nat, 0nat),
    decreases levels.len(),
{
    if levels.len() > 0 {
        lemma_walk_nothing(levels.drop_first());
        assert((levels[0].0 as nat) * 0nat == 0) by (nonlinear_arith);
    }
}

/// A sweep fills the lesser of what was asked and what the levels hold.
pub proof fn lemma_walk_fills_min(levels: Seq<(u64, u64)>, want: nat)
    ensures
        walk_spec(levels, want).0 == min_nat(want, depth_spec(levels)),
    decreases levels.len(),
{
    if levels.len() > 0 {
        let take = min_nat(levels[0].1 as nat, want);
        lemma_walk_fills_min(levels.drop_first(), (want - take) as nat);
    }
}

/// When every level's price lies in `[lo, hi]`, the notional of a sweep lies
/// between `lo` and `hi` times the quantity filled.
pub proof fn lemma_walk_notional_bounds(levels: Seq<(u64, u64)>, want: nat, lo: nat, hi: nat)
    requires
        forall|i: int| 0 <= i < levels.len() ==> lo <= #[trigger] levels[i].0 <= hi,
    ensures
        lo * walk_spec(levels, want).0 <= walk_spec(levels, want).1 <= hi * walk_spec(
            levels,
            want,
        ).0,
    decreases levels.len(),
{
    if levels.len() > 0 {
        let take = min_nat(levels[0].1 as nat, want);
        let t = levels.drop_first();
        assert forall|i: int| 0 <= i < t.len() implies lo <= #[trigger] t[i].0 <= hi by {
            assert(t[i] == levels[i + 1]);
        }
        lemma_walk_notional_bounds(t, (want - take) as nat, lo, hi);
        let r = walk_spec(t, (want - take) as nat);
        let p = levels[0].0 as nat;
        assert(lo <= p <= hi);
        assert(lo * take <= p * take <= hi * take) by (nonlinear_arith)
            requires
                lo <= p <= hi,
        ;
        assert(lo * (take + r.0) == lo * take + lo * r.0) by (nonlinear_arith);
        assert(hi * (take + r.0) == hi * take + hi * r.0) by (nonlinear_arith);
    } else {
        assert(lo * 0nat == 0 && hi * 0nat == 0) by (nonlinear_arith);
    }
}

/// An order no larger than the first level is filled entirely at that
/// level's price.
pub proof fn lemma_walk_within_first_level(levels: Seq<(u64, u64)>, want: nat)
    requires
        levels.len() > 0,
        want <= levels[0].1,
    ensures
        walk_spec(levels, want) == (want, (levels[0].0 as nat) * want),
{
    lemma_walk_nothing(levels.drop_first());
}

/// Sweeps `want` through raw levels in order, stopping once it is filled.
/// Returns (quantity filled, notional) in raw units.
pub fn walk_levels(levels: &Vec<(u64, u64)>, want: u64) -> (r: (u64, u128))
    ensures
        r.0 == walk_spec(levels@, want as nat).0,
        r.1 == walk_spec(levels@, want as nat).1,
        r.0 <= want,
{
    let n = levels.len();
    let mut i: usize = 0;
    let mut filled: u64 = 0;
    let mut remaining: u64 = want;
    let mut notional: u128 = 0;
    proof {
        assert(levels@.skip(0) =~= levels@);
    }
    while i < n && remaining > 0
        invariant
            n == levels@.len(),
            i <= n,
            filled + remaining == want,
            notional <= (u64::MAX as nat) * (filled as nat),
            walk_spec(levels@, want as nat).0 == filled + walk_spec(
                levels@.skip(i as int),
                remaining as nat,
            ).0,
            walk_spec(levels@, want as nat).1 == notional + walk_spec(
                levels@.skip(i as int),
                remaining as nat,
            ).1,
        decreases n - i,
    {
        let (price, qty) = levels[i];
        let take: u64 = if qty < remaining {
            qty
        } else {
            remaining
        };
        proof {
            let rest = levels@.skip(i as int);
            assert(rest[0] == levels@[i as int]);
            assert(rest.drop_first() =~= levels@.skip(i + 1));
            let m: nat = u64::MAX as nat;
            assert((price as nat) * (take as nat) <= m * (take as nat)) by (nonlinear_arith)
                requires
                    price <= m,
            ;
            assert(m * (filled as nat) + m * (take as nat) == m * ((filled + take) as nat))
                by (nonlinear_arith);
            assert(m * ((filled + take) as nat) <= m * m) by (nonlinear_arith)
                requires
                    filled + take <= m,
            ;
        }
        notional = notional + (price as u128) * (take as u128);
        filled = filled + take;
        remaining = remaining - take;
        i = i + 1;
    }
    proof {
        if remaining == 0 {
            lemma_walk_nothing(levels@.skip(i as int));
        } else {
            assert(levels@.skip(i as int) =~= Seq::<(u64, u64)>::empty());
        }
    }
    (filled, notional)
}

impl Book {
    /// The highest bid.
    pub fn best_bid(&self) -> (r: Option<(Price, Quantity)>)
        ensures
            match r {
                None => self.bids@.dom().is_empty(),
                Some((p, q)) => self.bids@.contains_key(p@) && self.bids@[p@] == q@ && forall|
                    j: u64,
                | #[trigger] self.bids@.contains_key(j) ==> j <= p@,
            },
    {
        self.bids.highest()
    }

    /// The lowest ask.
    pub fn best_ask(&self) -> (r: Option<(Price, Quantity)>)
        ensures
            match r {
                None => self.asks@.dom().is_empty(),
                Some((p, q)) => self.asks@.contains_key(p@) && self.asks@[p@] == q@ && forall|
                    j: u64,
                | #[trigger] self.asks@.contains_key(j) ==> p@ <= j,
            },
    {
        self.asks.lowest()
    }

    /// Best ask minus best bid, in raw price units (negative on a crossed
    /// book); `None` when a side is empty.
    pub fn spread(&self) -> (r: Option<i128>)
        ensures
            match r {
                None => self.asks@.dom().is_empty() || self.bids@.dom().is_empty(),
                Some(d) => exists|a: u64, b: u64|
                    #![trigger self.asks@.contains_key(a), self.bids@.contains_key(b)]
                    {
                        &&& self.asks@.contains_key(a)
                        &&& (forall|j: u64| #[trigger] self.asks@.contains_key(j) ==> a <= j)
                        &&& self.bids@.contains_key(b)
                        &&& (forall|j: u64| #[trigger] self.bids@.contains_key(j) ==> j <= b)
                        &&& d == a - b
                    },
            },
    {
        match (self.best_ask(), self.best_bid()) {
            (Some((a, _)), Some((b, _))) => {
                let d = (a.raw() as i128) - (b.raw() as i128);
                proof {
                    assert(self.asks@.contains_key(a@) && self.bids@.contains_key(b@));
                }
                Some(d)
            },
            _ => None,
        }
    }

    /// Midpoint of best bid and best ask, rounded down to the price grid;
    /// `None` when a side is empty.
    pub fn mid_price(&self) -> (r: Option<Price>)
        ensures
            match r {
                None => self.asks@.dom().is_empty() || self.bids@.dom().is_empty(),
                Some(m) => exists|a: u64, b: u64|
                    #![trigger self.asks@.contains_key(a), self.bids@.contains_key(b)]
                    {
                        &&& self.asks@.contains_key(a)
                        &&& (forall|j: u64| #[trigger] self.asks@.contains_key(j) ==> a <= j)
                        &&& self.bids@.contains_key(b)
                        &&& (forall|j: u64| #[trigger] self.bids@.contains_key(j) ==> j <= b)
                        &&& m@ == (a + b) / 2
                    },
            },
    {
        match (self.best_ask(), self.best_bid()) {
            (Some((a, _)), Some((b, _))) => {
                let sum: u128 = (a.raw() as u128) + (b.raw() as u128);
                let mid: u128 = sum / 2;
                let p = Price::from_raw(mid as u64);
                proof {
                    assert(self.asks@.contains_key(a@) && self.bids@.contains_key(b@));
                }
                Some(p)
            },
            _ => None,
        }
    }

    /// Simulates a market order of `qty` on `side`: consumes levels in price
    /// priority (asks lowest first for a buy, bids highest first for a
    /// sell) until the order is filled or the side is exhausted. Notional is
    /// accumulated in `u128`.
    pub fn walk_book(&self, side: Side, qty: Quantity) -> (r: WalkResult)
        ensures
            r.filled@ == walk_spec(levels_for(*self, side), qty@ as nat).0,
            r.notional == walk_spec(levels_for(*self, side), qty@ as nat).1,
            r.filled@ == min_nat(qty@ as nat, depth_spec(levels_for(*self, side))),
            r.filled@ + r.unfilled@ == qty@,
            match r.average_price {
                None => r.filled@ == 0,
                Some(p) => r.filled@ > 0 && p@ == r.notional / (r.filled@ as u128),
            },
            // price priority: a buy never averages below the best ask, a sell
            // never above the best bid, and neither beyond the far end of the side
            r.average_price matches Some(p) ==> match side {
                Side::Buy => levels_for(*self, side)[0].0 <= p@ <= levels_for(*self, side).last().0,
                Side::Sell => levels_for(*self, side).last().0 <= p@ <= levels_for(*self, side)[0].0,
            },
    {
        let levels = match side {
            Side::Buy => self.asks.ascending_raw(),
            Side::Sell => self.bids.descending_raw(),
        };
        let want = qty.raw();
        let (filled, notional) = walk_levels(&levels, want);
        proof {
            lemma_walk_fills_min(levels@, want as nat);
            lemma_walk_notional_bounds(levels@, want as nat, 0, u64::MAX as nat);
        }
        let average_price = if filled == 0 {
            None
        } else {
            let avg: u128 = notional / (filled as u128);
            proof {
                let m: nat = u64::MAX as nat;
                assert(avg <= m) by (nonlinear_arith)
                    requires
                        notional <= m * filled,
                        filled > 0,
                        avg == notional / (filled as u128),
                ;
                assert(levels@.len() > 0) by {
                    if levels@.len() == 0 {
                        assert(walk_spec(levels@, want as nat).0 == 0);
                    }
                }
                let first = levels@[0].0 as nat;
                let last = levels@.last().0 as nat;
                let (lo, hi) = match side {
                    Side::Buy => (first, last),
                    Side::Sell => (last, first),
                };
                assert forall|i: int| 0 <= i < levels@.len() implies lo <= #[trigger] levels@[i].0
                    <= hi by {
                    let l = levels@.len() - 1;
                    if i > 0 {
                        assert(levels@[0].0 != levels@[i].0);
                    }
                    if i < l {
                        assert(levels@[i].0 != levels@[l].0);
                    }
                }
                lemma_walk_notional_bounds(levels@, want as nat, lo, hi);
                assert(lo <= avg <= hi) by (nonlinear_arith)
                    requires
                        lo * filled <= notional <= hi * filled,
                        filled > 0,
                        avg == notional / (filled as u128),
                ;
            }
            Some(Price::from_raw(avg as u64))
        };
        WalkResult {
            average_price,
            filled: Quantity::from_raw(filled),
            unfilled: Quantity::from_raw(want - filled),
            notional,
        }
    }
}

} // verus!
