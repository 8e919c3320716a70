//! One side of the book: price levels kept in ascending order of price, at
//! most one level per price, none with quantity zero.

use crate::decimal::Decimal;
use crate::error::Error;
use vstd::prelude::*;

verus! {

/// The resting quantity at one price.
#[derive(Clone, Copy, Debug)]
pub struct PriceLevel {
    pub price: Decimal,
    pub quantity: Decimal,
}

impl PriceLevel {
    /// The price as a number: what the side orders and finds the level by.
    pub open spec fn key(self) -> int {
        self.price.value()
    }
}

/// Prices strictly increase along the sequence.
pub open spec fn is_ascending(s: Seq<PriceLevel>) -> bool {
    forall|i: int, j: int| 0 <= i < j < s.len() ==> (#[trigger] s[i]).key() < (#[trigger] s[j]).key()
}

/// No level of the sequence has quantity zero.
pub open spec fn no_empty_level(s: Seq<PriceLevel>) -> bool {
    forall|i: int| 0 <= i < s.len() ==> !(#[trigger] s[i]).quantity.is_zero_spec()
}

/// Some level of the sequence has the price `k`.
pub open spec fn has_price(s: Seq<PriceLevel>, k: int) -> bool {
    exists|i: int| 0 <= i < s.len() && (#[trigger] s[i]).key() == k
}

/// Where in the sequence the level with price `k` stands.
pub open spec fn position(s: Seq<PriceLevel>, k: int) -> int {
    choose|i: int| 0 <= i < s.len() && (#[trigger] s[i]).key() == k
}

/// The levels of a sequence as a map from price to level.
pub open spec fn map_of(s: Seq<PriceLevel>) -> Map<int, PriceLevel> {
    Map::new(|k: int| has_price(s, k), |k: int| s[position(s, k)])
}

/// The levels of a map in ascending order of price: the order in which a side
/// is walked from its lowest price to its highest.
pub open spec fn levels_of(m: Map<int, PriceLevel>) -> Seq<PriceLevel> {
    choose|s: Seq<PriceLevel>| is_ascending(s) && map_of(s) == m
}

/// What one delta does to a side. Quantity zero removes the level at that
/// price, if there is one. Any other quantity sets the quantity at that price;
/// a level that was already there keeps the price as it was first written.
pub open spec fn upsert_map(m: Map<int, PriceLevel>, price: Decimal, quantity: Decimal) -> Map<
    int,
    PriceLevel,
> {
    let k = price.value();
    if quantity.is_zero_spec() {
        m.remove(k)
    } else if m.contains_key(k) {
        m.insert(k, PriceLevel { price: m[k].price, quantity })
    } else {
        m.insert(k, PriceLevel { price, quantity })
    }
}

/// What a list of deltas does to a side, applied first to last.
pub open spec fn apply_deltas(m: Map<int, PriceLevel>, deltas: Seq<(Decimal, Decimal)>) -> Map<
    int,
    PriceLevel,
>
    decreases deltas.len(),
{
    if deltas.len() == 0 {
        m
    } else {
        let last = deltas.last();
        upsert_map(apply_deltas(m, deltas.drop_last()), last.0, last.1)
    }
}

/// In an ascending sequence each level is found under its own price.
pub proof fn lemma_map_of_index(s: Seq<PriceLevel>, i: int)
    requires
        is_ascending(s),
        0 <= i < s.len(),
    ensures
        map_of(s).contains_key(s[i].key()),
        map_of(s)[s[i].key()] == s[i],
{
    let k = s[i].key();
    assert(has_price(s, k));
    let j = position(s, k);
    assert(0 <= j < s.len() && s[j].key() == k);
    if j < i {
        assert(s[j].key() < s[i].key());
    } else if i < j {
        assert(s[i].key() < s[j].key());
    }
}

/// A map is the map of an ascending sequence if it holds each level of the
/// sequence under its price and nothing else.
pub proof fn lemma_map_of_characterised(s: Seq<PriceLevel>, m: Map<int, PriceLevel>)
    requires
        is_ascending(s),
        forall|i: int| 0 <= i < s.len() ==> m.contains_key((#[trigger] s[i]).key()) && m[s[i].key()] == s[i],
        forall|k: int| m.contains_key(k) ==> has_price(s, k),
    ensures
        map_of(s) == m,
{
    assert forall|k: int| map_of(s).contains_key(k) <==> m.contains_key(k) by {
        if has_price(s, k) {
            let j = position(s, k);
            assert(m.contains_key(s[j].key()));
        }
    }
    assert forall|k: int| map_of(s).contains_key(k) implies map_of(s)[k] == m[k] by {
        let j = position(s, k);
        lemma_map_of_index(s, j);
        assert(m[s[j].key()] == s[j]);
    }
    assert(map_of(s) =~= m);
}

/// Two ascending sequences with the same map are the same sequence: the map of
/// a side fixes the order in which its levels are walked.
pub proof fn lemma_ascending_unique(s: Seq<PriceLevel>, t: Seq<PriceLevel>)
    requires
        is_ascending(s),
        is_ascending(t),
        map_of(s) == map_of(t),
    ensures
        s == t,
    decreases s.len(),
{
    if s.len() == 0 {
        if t.len() > 0 {
            lemma_map_of_index(t, 0);
            assert(has_price(s, t[0].key()));
        }
        assert(s =~= t);
    } else {
        let n = s.len() - 1;
        lemma_map_of_index(s, n);
        let k = s[n].key();
        assert(has_price(t, k));
        let j = position(t, k);
        lemma_map_of_index(t, j);
        assert(t[j] == s[n]);
        if j < t.len() - 1 {
            let last = t.len() - 1;
            lemma_map_of_index(t, last);
            assert(t[j].key() < t[last].key());
            assert(has_price(s, t[last].key()));
            let p = position(s, t[last].key());
            assert(s[p].key() == t[last].key());
            if p < n {
                assert(s[p].key() < s[n].key());
            }
            assert(false);
        }
        let s1 = s.drop_last();
        let t1 = t.drop_last();
        assert(is_ascending(s1)) by {
            assert forall|a: int, b: int| 0 <= a < b < s1.len() implies
                (#[trigger] s1[a]).key() < (#[trigger] s1[b]).key()
            by {
                assert(s1[a] == s[a] && s1[b] == s[b]);
            }
        }
        assert(is_ascending(t1)) by {
            assert forall|a: int, b: int| 0 <= a < b < t1.len() implies
                (#[trigger] t1[a]).key() < (#[trigger] t1[b]).key()
            by {
                assert(t1[a] == t[a] && t1[b] == t[b]);
            }
        }
        assert forall|i: int| 0 <= i < s1.len() implies
            map_of(t1).contains_key((#[trigger] s1[i]).key()) && map_of(t1)[s1[i].key()] == s1[i]
        by {
            assert(s1[i] == s[i]);
            lemma_map_of_index(s, i);
            assert(s[i].key() < s[n].key());
            let q = position(t, s[i].key());
            assert(has_price(t, s[i].key()));
            lemma_map_of_index(t, q);
            assert(t[q] == s[i]);
            assert(q != j);
            assert(t1[q] == t[q]);
            lemma_map_of_index(t1, q);
        }
        assert forall|k2: int| map_of(t1).contains_key(k2) implies has_price(s1, k2) by {
            let q = position(t1, k2);
            assert(t1[q] == t[q]);
            lemma_map_of_index(t, q);
            assert(t[q].key() < t[j].key());
            assert(has_price(s, k2));
            let p = position(s, k2);
            assert(p != n);
            assert(s1[p] == s[p]);
        }
        lemma_map_of_characterised(s1, map_of(t1));
        lemma_ascending_unique(s1, t1);
        assert(s =~= s1.push(s[n]));
        assert(t =~= t1.push(t[j]));
    }
}

/// Taking the level at index `i` out of an ascending sequence removes its
/// price from the map and leaves the rest as it was.
proof fn lemma_remove(s: Seq<PriceLevel>, i: int)
    requires
        is_ascending(s),
        0 <= i < s.len(),
    ensures
        is_ascending(s.remove(i)),
        map_of(s.remove(i)) == map_of(s).remove(s[i].key()),
{
    let t = s.remove(i);
    let m = map_of(s).remove(s[i].key());
    assert forall|a: int, b: int| 0 <= a < b < t.len() implies
        (#[trigger] t[a]).key() < (#[trigger] t[b]).key()
    by {
        let a1 = if a < i { a } else { a + 1 };
        let b1 = if b < i { b } else { b + 1 };
        assert(t[a] == s[a1] && t[b] == s[b1]);
    }
    assert forall|j: int| 0 <= j < t.len() implies
        m.contains_key((#[trigger] t[j]).key()) && m[t[j].key()] == t[j]
    by {
        let j1 = if j < i { j } else { j + 1 };
        assert(t[j] == s[j1]);
        lemma_map_of_index(s, j1);
        if j1 < i {
            assert(s[j1].key() < s[i].key());
        } else {
            assert(s[i].key() < s[j1].key());
        }
    }
    assert forall|k: int| m.contains_key(k) implies has_price(t, k) by {
        let j1 = position(s, k);
        assert(j1 != i);
        let j = if j1 < i { j1 } else { j1 - 1 };
        assert(t[j] == s[j1]);
    }
    lemma_map_of_characterised(t, m);
}

/// Replacing the level at index `i` by one of the same price replaces it in
/// the map.
proof fn lemma_update(s: Seq<PriceLevel>, i: int, level: PriceLevel)
    requires
        is_ascending(s),
        0 <= i < s.len(),
        level.key() == s[i].key(),
    ensures
        is_ascending(s.update(i, level)),
        map_of(s.update(i, level)) == map_of(s).insert(level.key(), level),
{
    let t = s.update(i, level);
    let m = map_of(s).insert(level.key(), level);
    assert forall|a: int, b: int| 0 <= a < b < t.len() implies
        (#[trigger] t[a]).key() < (#[trigger] t[b]).key()
    by {
        assert(t[a].key() == s[a].key() && t[b].key() == s[b].key());
    }
    assert forall|j: int| 0 <= j < t.len() implies
        m.contains_key((#[trigger] t[j]).key()) && m[t[j].key()] == t[j]
    by {
        lemma_map_of_index(s, j);
        if j < i {
            assert(s[j].key() < s[i].key());
        } else if i < j {
            assert(s[i].key() < s[j].key());
        }
    }
    assert forall|k: int| m.contains_key(k) implies has_price(t, k) by {
        if k == level.key() {
            assert(t[i].key() == k);
        } else {
            let j = position(s, k);
            assert(t[j].key() == k);
        }
    }
    lemma_map_of_characterised(t, m);
}

/// Putting a level with a new price at its place in an ascending sequence
/// adds it to the map.
proof fn lemma_insert(s: Seq<PriceLevel>, i: int, level: PriceLevel)
    requires
        is_ascending(s),
        0 <= i <= s.len(),
        forall|j: int| 0 <= j < i ==> (#[trigger] s[j]).key() < level.key(),
        forall|j: int| i <= j < s.len() ==> level.key() < (#[trigger] s[j]).key(),
    ensures
        is_ascending(s.insert(i, level)),
        !map_of(s).contains_key(level.key()),
        map_of(s.insert(i, level)) == map_of(s).insert(level.key(), level),
{
    let t = s.insert(i, level);
    let m = map_of(s).insert(level.key(), level);
    assert forall|a: int, b: int| 0 <= a < b < t.len() implies
        (#[trigger] t[a]).key() < (#[trigger] t[b]).key()
    by {
        if a != i {
            let a1 = if a < i { a } else { a - 1 };
            assert(t[a] == s[a1]);
        }
        if b != i {
            let b1 = if b < i { b } else { b - 1 };
            assert(t[b] == s[b1]);
        }
    }
    if has_price(s, level.key()) {
        let j = position(s, level.key());
        assert(s[j].key() == level.key());
        assert(false);
    }
    assert forall|j: int| 0 <= j < t.len() implies
        m.contains_key((#[trigger] t[j]).key()) && m[t[j].key()] == t[j]
    by {
        if j != i {
            let j1 = if j < i { j } else { j - 1 };
            assert(t[j] == s[j1]);
            lemma_map_of_index(s, j1);
        }
    }
    assert forall|k: int| m.contains_key(k) implies has_price(t, k) by {
        if k == level.key() {
            assert(t[i].key() == k);
        } else {
            let j1 = position(s, k);
            let j = if j1 < i { j1 } else { j1 + 1 };
            assert(t[j] == s[j1]);
        }
    }
    lemma_map_of_characterised(t, m);
}

/// A delta with quantity zero for a price that has no level changes nothing.
/// For a price that has a level it removes that level and leaves every other
/// as it was. A later delta for the same price with another quantity puts a
/// level there again, with that quantity.
pub proof fn lemma_zero_delta(m: Map<int, PriceLevel>, price: Decimal, zero: Decimal, quantity: Decimal)
    requires
        zero.is_zero_spec(),
        !quantity.is_zero_spec(),
    ensures
        !m.contains_key(price.value()) ==> upsert_map(m, price, zero) == m,
        m.contains_key(price.value()) ==> upsert_map(m, price, zero) == m.remove(price.value()),
        !upsert_map(m, price, zero).contains_key(price.value()),
        forall|k: int|
            k != price.value() && m.contains_key(k) ==> upsert_map(m, price, zero).contains_key(k)
                && upsert_map(m, price, zero)[k] == m[k],
        upsert_map(upsert_map(m, price, zero), price, quantity) == m.insert(
            price.value(),
            PriceLevel { price, quantity },
        ),
{
    let k = price.value();
    if !m.contains_key(k) {
        assert(m.remove(k) =~= m);
    }
    assert(m.remove(k).insert(k, PriceLevel { price, quantity }) =~= m.insert(
        k,
        PriceLevel { price, quantity },
    ));
}

/// `level` is the level of `m` with the highest price.
pub open spec fn is_highest(m: Map<int, PriceLevel>, level: PriceLevel) -> bool {
    &&& m.contains_key(level.key())
    &&& m[level.key()] == level
    &&& forall|k: int| m.contains_key(k) ==> k <= level.key()
}

/// `level` is the level of `m` with the lowest price.
pub open spec fn is_lowest(m: Map<int, PriceLevel>, level: PriceLevel) -> bool {
    &&& m.contains_key(level.key())
    &&& m[level.key()] == level
    &&& forall|k: int| m.contains_key(k) ==> level.key() <= k
}

/// The first `n` items of a sequence, or all of it where it has fewer.
pub open spec fn first_n<T>(s: Seq<T>, n: int) -> Seq<T> {
    if n <= 0 {
        Seq::empty()
    } else if n < s.len() {
        s.take(n)
    } else {
        s
    }
}

/// One side of the book.
#[derive(Debug)]
pub struct Side {
    levels: Vec<PriceLevel>,
}

impl View for Side {
    type V = Map<int, PriceLevel>;

    /// The side as a map from price to level.
    open spec fn view(&self) -> Map<int, PriceLevel> {
        map_of(self.levels())
    }
}

impl Side {
    /// The levels are in ascending order of price, and none is empty.
    #[verifier::type_invariant]
    pub closed spec fn wf(&self) -> bool {
        is_ascending(self.levels@) && no_empty_level(self.levels@)
    }

    /// The levels from the lowest price to the highest.
    pub closed spec fn levels(&self) -> Seq<PriceLevel> {
        self.levels@
    }

    /// What the invariant of a side says of its levels: they ascend, none is
    /// empty, and they are the levels of the view.
    pub proof fn lemma_levels(&self)
        requires
            self.wf(),
        ensures
            is_ascending(self.levels()),
            no_empty_level(self.levels()),
            self.levels() == levels_of(self@),
    {
        lemma_ascending_unique(self.levels@, levels_of(self@));
    }

    /// What the invariant of a side says of its view: each level stands under
    /// its own price, and none is empty.
    pub proof fn lemma_view(&self)
        requires
            self.wf(),
        ensures
            forall|k: int|
                self@.contains_key(k) ==> (#[trigger] self@[k]).key() == k && !self@[k].quantity.is_zero_spec(),
    {
        assert forall|k: int| self@.contains_key(k) implies
            (#[trigger] self@[k]).key() == k && !self@[k].quantity.is_zero_spec()
        by {
            let j = position(self.levels@, k);
            assert(self@[k] == self.levels@[j]);
        }
    }

    /// A side without levels.
    pub fn new() -> (r: Side)
        ensures
            r@ == Map::<int, PriceLevel>::empty(),
    {
        let r = Side { levels: Vec::new() };
        assert(r@ =~= Map::<int, PriceLevel>::empty());
        r
    }

    /// The number of levels.
    pub fn len(&self) -> (n: usize)
        ensures
            n == levels_of(self@).len(),
    {
        proof {
            use_type_invariant(self);
            self.lemma_levels();
        }
        self.levels.len()
    }

    /// Looks the price up. Returns whether a level has it and, if so, the
    /// level's index; if not, the index at which such a level would stand.
    fn search(&self, price: &Decimal) -> (r: (bool, usize))
        ensures
            r.1 <= self.levels().len(),
            r.0 ==> r.1 < self.levels().len() && self.levels()[r.1 as int].key() == price.value(),
            !r.0 ==> forall|j: int| 0 <= j < r.1 ==> (#[trigger] self.levels()[j]).key() < price.value(),
            !r.0 ==> forall|j: int|
                r.1 <= j < self.levels().len() ==> price.value() < (#[trigger] self.levels()[j]).key(),
    {
        proof {
            use_type_invariant(self);
        }
        let mut lo: usize = 0;
        let mut hi: usize = self.levels.len();
        while lo < hi
            invariant
                lo <= hi <= self.levels@.len(),
                is_ascending(self.levels@),
                forall|j: int| 0 <= j < lo ==> (#[trigger] self.levels@[j]).key() < price.value(),
                forall|j: int| hi <= j < self.levels@.len() ==> price.value() < (#[trigger] self.levels@[j]).key(),
            decreases hi - lo,
        {
            let mid: usize = lo + (hi - lo) / 2;
            let probe: Decimal = self.levels[mid].price;
            if probe.less_than(price) {
                assert forall|j: int| 0 <= j < mid + 1 implies
                    (#[trigger] self.levels@[j]).key() < price.value()
                by {
                    if j < mid {
                        assert(self.levels@[j].key() < self.levels@[mid as int].key());
                    }
                }
                lo = mid + 1;
            } else if price.less_than(&probe) {
                assert forall|j: int| mid <= j < self.levels@.len() implies
                    price.value() < (#[trigger] self.levels@[j]).key()
                by {
                    if mid < j {
                        assert(self.levels@[mid as int].key() < self.levels@[j].key());
                    }
                }
                hi = mid;
            } else {
                return (true, mid);
            }
        }
        (false, lo)
    }

    /// The level at a price, if there is one.
    pub fn get(&self, price: &Decimal) -> (r: Option<PriceLevel>)
        ensures
            r == if self@.contains_key(price.value()) {
                Some(self@[price.value()])
            } else {
                None
            },
    {
        proof {
            use_type_invariant(self);
        }
        let (found, i) = self.search(price);
        if found {
            proof {
                lemma_map_of_index(self.levels@, i as int);
            }
            Some(self.levels[i])
        } else {
            proof {
                if has_price(self.levels@, price.value()) {
                    let j = position(self.levels@, price.value());
                    assert(self.levels@[j].key() == price.value());
                    assert(false);
                }
            }
            None
        }
    }

    /// Applies one delta: quantity zero removes the level at `price`, if there
    /// is one; any other quantity sets the quantity at `price`.
    pub fn upsert(&mut self, price: Decimal, quantity: Decimal)
        ensures
            final(self)@ == upsert_map(old(self)@, price, quantity),
    {
        proof {
            use_type_invariant(&*self);
        }
        let (found, i) = self.search(&price);
        let ghost before = self.levels@;
        let mut levels: Vec<PriceLevel> = Vec::new();
        std::mem::swap(&mut levels, &mut self.levels);
        if quantity.is_zero() {
            if found {
                proof {
                    lemma_remove(before, i as int);
                }
                levels.remove(i);
            } else {
                proof {
                    lemma_insert(before, i as int, PriceLevel { price, quantity });
                    assert(map_of(before).remove(price.value()) =~= map_of(before));
                }
            }
        } else if found {
            let level = PriceLevel { price: levels[i].price, quantity };
            proof {
                lemma_map_of_index(before, i as int);
                lemma_update(before, i as int, level);
            }
            levels.set(i, level);
        } else {
            let level = PriceLevel { price, quantity };
            proof {
                lemma_insert(before, i as int, level);
            }
            levels.insert(i, level);
        }
        self.levels = levels;
    }

    /// Applies the deltas first to last.
    pub fn apply(&mut self, deltas: &Vec<(Decimal, Decimal)>)
        ensures
            final(self)@ == apply_deltas(old(self)@, deltas@),
    {
        let mut i: usize = 0;
        while i < deltas.len()
            invariant
                i <= deltas@.len(),
                self@ == apply_deltas(old(self)@, deltas@.take(i as int)),
            decreases deltas@.len() - i,
        {
            let (price, quantity) = deltas[i];
            proof {
                assert(deltas@.take(i + 1).drop_last() =~= deltas@.take(i as int));
            }
            self.upsert(price, quantity);
            i += 1;
        }
        proof {
            assert(deltas@.take(i as int) =~= deltas@);
        }
    }

    /// The side that the deltas build when applied, first to last, to an
    /// empty side.
    pub fn from_deltas(deltas: &Vec<(Decimal, Decimal)>) -> (r: Side)
        ensures
            r@ == apply_deltas(Map::<int, PriceLevel>::empty(), deltas@),
    {
        let mut r = Side::new();
        r.apply(deltas);
        r
    }

    /// The level with the highest price: the best bid of a bid side.
    pub fn highest(&self) -> (r: Result<PriceLevel, Error>)
        ensures
            match r {
                Ok(level) => is_highest(self@, level),
                Err(e) => e == Error::EmptyBook && self@ == Map::<int, PriceLevel>::empty(),
            },
    {
        proof {
            use_type_invariant(self);
        }
        let n = self.levels.len();
        if n == 0 {
            assert(self@ =~= Map::<int, PriceLevel>::empty());
            Err(Error::EmptyBook)
        } else {
            let level = self.levels[n - 1];
            proof {
                lemma_map_of_index(self.levels@, n - 1);
                assert forall|k: int| self@.contains_key(k) implies k <= level.key() by {
                    let j = position(self.levels@, k);
                    if j < n - 1 {
                        assert(self.levels@[j].key() < self.levels@[n - 1].key());
                    }
                }
            }
            Ok(level)
        }
    }

    /// The level with the lowest price: the best ask of an ask side.
    pub fn lowest(&self) -> (r: Result<PriceLevel, Error>)
        ensures
            match r {
                Ok(level) => is_lowest(self@, level),
                Err(e) => e == Error::EmptyBook && self@ == Map::<int, PriceLevel>::empty(),
            },
    {
        proof {
            use_type_invariant(self);
        }
        if self.levels.len() == 0 {
            assert(self@ =~= Map::<int, PriceLevel>::empty());
            Err(Error::EmptyBook)
        } else {
            let level = self.levels[0];
            proof {
                lemma_map_of_index(self.levels@, 0);
                assert forall|k: int| self@.contains_key(k) implies level.key() <= k by {
                    let j = position(self.levels@, k);
                    if 0 < j {
                        assert(self.levels@[0].key() < self.levels@[j].key());
                    }
                }
            }
            Ok(level)
        }
    }

    /// The levels from the lowest price to the highest.
    pub fn ascending(&self) -> (r: &Vec<PriceLevel>)
        ensures
            r@ == levels_of(self@),
    {
        proof {
            use_type_invariant(self);
            self.lemma_levels();
        }
        &self.levels
    }

    /// The levels from the highest price to the lowest.
    pub fn descending(&self) -> (r: Vec<PriceLevel>)
        ensures
            r@ == levels_of(self@).reverse(),
    {
        proof {
            use_type_invariant(self);
            self.lemma_levels();
        }
        self.highest_n(self.levels.len())
    }

    /// The `n` levels with the lowest prices, lowest first; all levels where
    /// the side has fewer.
    pub fn lowest_n(&self, n: usize) -> (r: Vec<PriceLevel>)
        ensures
            r@ == first_n(levels_of(self@), n as int),
    {
        proof {
            use_type_invariant(self);
            self.lemma_levels();
        }
        let len = self.levels.len();
        let count: usize = if n < len { n } else { len };
        let mut r: Vec<PriceLevel> = Vec::new();
        let mut i: usize = 0;
        while i < count
            invariant
                i <= count <= self.levels@.len(),
                r@ == self.levels@.take(i as int),
            decreases count - i,
        {
            r.push(self.levels[i]);
            proof {
                assert(self.levels@.take(i as int).push(self.levels@[i as int]) =~= self.levels@.take(
                    i + 1,
                ));
            }
            i += 1;
        }
        proof {
            assert(self.levels@.take(count as int) =~= first_n(self.levels@, n as int));
        }
        r
    }

    /// The `n` levels with the highest prices, highest first; all levels where
    /// the side has fewer.
    pub fn highest_n(&self, n: usize) -> (r: Vec<PriceLevel>)
        ensures
            r@ == first_n(levels_of(self@).reverse(), n as int),
    {
        proof {
            use_type_invariant(self);
            self.lemma_levels();
        }
        let len = self.levels.len();
        let count: usize = if n < len { n } else { len };
        let ghost reversed = self.levels@.reverse();
        let mut r: Vec<PriceLevel> = Vec::new();
        let mut i: usize = 0;
        while i < count
            invariant
                i <= count <= len,
                len == self.levels@.len(),
                reversed == self.levels@.reverse(),
                r@ == reversed.take(i as int),
            decreases count - i,
        {
            r.push(self.levels[len - 1 - i]);
            proof {
                assert(reversed[i as int] == self.levels@[len - 1 - i]);
                assert(reversed.take(i as int).push(reversed[i as int]) =~= reversed.take(i + 1));
            }
            i += 1;
        }
        proof {
            assert(reversed.take(count as int) =~= first_n(reversed, n as int));
        }
        r
    }
}

} // verus!
