//! The book and the protocol that keeps it in step with the exchange: a
//! snapshot starts it, and each diff event is checked against the sequence of
//! update ids before it changes anything.

use crate::decimal::Decimal;
use crate::error::Error;
use crate::quoter::Quoter;
use crate::side::{apply_deltas, first_n, is_highest, is_lowest, levels_of, PriceLevel, Side};
use vstd::prelude::*;

verus! {

/// A full view of the book at one moment, tagged with the id of the last
/// update that it includes. Bids and asks are (price, quantity) pairs.
#[derive(Clone, Debug)]
pub struct Depth {
    pub last_update_id: u128,
    pub event_time: u64,
    pub transaction_time: u64,
    pub bids: Vec<(Decimal, Decimal)>,
    pub asks: Vec<(Decimal, Decimal)>,
}

/// One diff event of the feed: the levels that changed between the updates
/// `first_update_id` and `final_update_id`. A pair with quantity zero says
/// that the level at that price is gone.
#[derive(Clone, Debug)]
pub struct DepthUpdate {
    pub event_type: String,
    pub event_time: u64,
    pub transaction_time: u64,
    pub symbol: String,
    pub first_update_id: u128,
    pub final_update_id: u128,
    /// The `final_update_id` of the event that the feed sent before this one.
    pub last_stream_final_update_id: u128,
    pub bids: Vec<(Decimal, Decimal)>,
    pub asks: Vec<(Decimal, Decimal)>,
}

/// How prices and quantities of a symbol are to be rounded, as the exchange
/// publishes it for the symbol.
#[derive(Clone, Copy, Debug)]
pub struct Precision {
    pub price_decimal_points: u32,
    pub quantity_decimal_points: u32,
    pub tick_size: Decimal,
    pub step_size: Decimal,
}

/// The state of a book as plain mathematics.
pub struct BookState {
    pub symbol: Seq<char>,
    pub last_update_id: int,
    pub processed_events_count: int,
    pub bids: Map<int, PriceLevel>,
    pub asks: Map<int, PriceLevel>,
}

/// The state that a snapshot starts a book in.
pub open spec fn initial(symbol: Seq<char>, depth: Depth) -> BookState {
    BookState {
        symbol,
        last_update_id: depth.last_update_id as int,
        processed_events_count: 0,
        bids: apply_deltas(Map::empty(), depth.bids@),
        asks: apply_deltas(Map::empty(), depth.asks@),
    }
}

/// Whether the event continues the sequence that the state has seen. The
/// first event after the snapshot must bracket the snapshot's update id; each
/// later one must name the update id that the state is at as its predecessor.
pub open spec fn in_sync(s: BookState, event: DepthUpdate) -> bool {
    if s.processed_events_count == 0 {
        event.first_update_id <= s.last_update_id <= event.final_update_id
    } else {
        event.last_stream_final_update_id == s.last_update_id
    }
}

/// One step of the protocol: an event in sequence is applied whole, one out of
/// sequence is refused.
pub open spec fn step(s: BookState, event: DepthUpdate) -> Result<BookState, Error> {
    if in_sync(s, event) {
        Ok(
            BookState {
                symbol: s.symbol,
                last_update_id: event.final_update_id as int,
                processed_events_count: s.processed_events_count + 1,
                bids: apply_deltas(s.bids, event.bids@),
                asks: apply_deltas(s.asks, event.asks@),
            },
        )
    } else if s.processed_events_count == 0 {
        Err(Error::BootstrapDesync)
    } else {
        Err(Error::ChainDesync)
    }
}

/// What a run of events does to a state: each is applied in turn, and the
/// first that is out of sequence ends the run with its error.
pub open spec fn replay(s: BookState, events: Seq<DepthUpdate>) -> Result<BookState, Error>
    decreases events.len(),
{
    if events.len() == 0 {
        Ok(s)
    } else {
        match step(s, events.first()) {
            Ok(next) => replay(next, events.drop_first()),
            Err(e) => Err(e),
        }
    }
}

/// The events follow on the state and on each other: the first is in
/// sequence for the state, and each later one names the final update id of
/// the one before it as its predecessor.
pub open spec fn chained(s: BookState, events: Seq<DepthUpdate>) -> bool {
    &&& events.len() > 0 ==> in_sync(s, events.first())
    &&& forall|i: int|
        0 < i < events.len() ==> (#[trigger] events[i]).last_stream_final_update_id == events[i
            - 1].final_update_id
}

/// The bid deltas of an event, or its ask deltas.
pub open spec fn deltas_on(event: DepthUpdate, bid_side: bool) -> Seq<(Decimal, Decimal)> {
    if bid_side {
        event.bids@
    } else {
        event.asks@
    }
}

/// The bids of a state, or its asks.
pub open spec fn side_on(s: BookState, bid_side: bool) -> Map<int, PriceLevel> {
    if bid_side {
        s.bids
    } else {
        s.asks
    }
}

/// The quantity at each price of a side.
pub open spec fn quantities(m: Map<int, PriceLevel>) -> Map<int, Decimal> {
    m.map_values(|level: PriceLevel| level.quantity)
}

/// A plain map from price to quantity, kept up to date the plain way: a delta
/// with quantity zero removes the entry at its price, any other inserts its
/// quantity there.
pub open spec fn reference_apply(m: Map<int, Decimal>, deltas: Seq<(Decimal, Decimal)>) -> Map<
    int,
    Decimal,
>
    decreases deltas.len(),
{
    if deltas.len() == 0 {
        m
    } else {
        let before = reference_apply(m, deltas.drop_last());
        let (price, quantity) = deltas.last();
        if quantity.is_zero_spec() {
            before.remove(price.value())
        } else {
            before.insert(price.value(), quantity)
        }
    }
}

/// The plain map after the deltas of every event, in order, on one side.
pub open spec fn reference_replay(m: Map<int, Decimal>, events: Seq<DepthUpdate>, bid_side: bool) -> Map<
    int,
    Decimal,
>
    decreases events.len(),
{
    if events.len() == 0 {
        m
    } else {
        reference_replay(
            reference_apply(m, deltas_on(events.first(), bid_side)),
            events.drop_first(),
            bid_side,
        )
    }
}

/// Applying deltas to a side changes its quantities as it changes a plain map.
pub proof fn lemma_apply_matches_reference(m: Map<int, PriceLevel>, deltas: Seq<(Decimal, Decimal)>)
    ensures
        quantities(apply_deltas(m, deltas)) == reference_apply(quantities(m), deltas),
    decreases deltas.len(),
{
    if deltas.len() > 0 {
        lemma_apply_matches_reference(m, deltas.drop_last());
        let before = apply_deltas(m, deltas.drop_last());
        let (price, quantity) = deltas.last();
        let k = price.value();
        if quantity.is_zero_spec() {
            assert(quantities(before.remove(k)) =~= quantities(before).remove(k));
        } else if before.contains_key(k) {
            assert(quantities(before.insert(k, PriceLevel { price: before[k].price, quantity }))
                =~= quantities(before).insert(k, quantity));
        } else {
            assert(quantities(before.insert(k, PriceLevel { price, quantity })) =~= quantities(
                before,
            ).insert(k, quantity));
        }
    }
}

/// Every run of events that follow on the state and on each other is applied
/// to the end, and leaves on each side the quantities that a plain map holds
/// after the same deltas.
pub proof fn lemma_replay_matches_reference(s: BookState, events: Seq<DepthUpdate>, bid_side: bool)
    requires
        s.processed_events_count >= 0,
        chained(s, events),
    ensures
        replay(s, events) is Ok,
        quantities(side_on(replay(s, events)->Ok_0, bid_side)) == reference_replay(
            quantities(side_on(s, bid_side)),
            events,
            bid_side,
        ),
        events.len() > 0 ==> replay(s, events)->Ok_0.last_update_id == events.last().final_update_id,
        replay(s, events)->Ok_0.processed_events_count == s.processed_events_count + events.len(),
    decreases events.len(),
{
    if events.len() > 0 {
        let first = events.first();
        let next = step(s, first)->Ok_0;
        let rest = events.drop_first();
        lemma_apply_matches_reference(side_on(s, bid_side), deltas_on(first, bid_side));
        assert(chained(next, rest)) by {
            if rest.len() > 0 {
                assert(rest.first() == events[1]);
            }
            assert forall|i: int| 0 < i < rest.len() implies
                (#[trigger] rest[i]).last_stream_final_update_id == rest[i - 1].final_update_id
            by {
                assert(rest[i] == events[i + 1]);
                assert(rest[i - 1] == events[i]);
            }
        }
        lemma_replay_matches_reference(next, rest, bid_side);
        if rest.len() > 0 {
            assert(rest.last() == events.last());
        }
    }
}

/// An applied event never moves the book's update id back, so long as its
/// own final update id is not below the id that it names as its predecessor.
pub proof fn lemma_update_id_does_not_decrease(s: BookState, event: DepthUpdate)
    requires
        s.processed_events_count != 0 ==> event.last_stream_final_update_id <= event.final_update_id,
    ensures
        step(s, event) matches Ok(next) ==> s.last_update_id <= next.last_update_id,
{
}

/// A book with two sides.
pub trait OrderBook {
    /// The bids, as a map from price to level.
    spec fn bid_levels(&self) -> Map<int, PriceLevel>;

    /// The asks, as a map from price to level.
    spec fn ask_levels(&self) -> Map<int, PriceLevel>;

    /// The precision of the symbol, where the book has been told it.
    spec fn precision_spec(&self) -> Option<Precision>;

    /// The number of digits after the point in a price.
    fn price_decimal_points(&self) -> (r: Option<u32>)
        ensures
            r == match self.precision_spec() {
                Some(p) => Some(p.price_decimal_points),
                None => None,
            },
    ;

    /// The number of digits after the point in a quantity.
    fn quantity_decimal_points(&self) -> (r: Option<u32>)
        ensures
            r == match self.precision_spec() {
                Some(p) => Some(p.quantity_decimal_points),
                None => None,
            },
    ;

    /// The smallest step between two prices.
    fn tick_size(&self) -> (r: Option<Decimal>)
        ensures
            r == match self.precision_spec() {
                Some(p) => Some(p.tick_size),
                None => None,
            },
    ;

    /// The smallest step between two quantities.
    fn step_size(&self) -> (r: Option<Decimal>)
        ensures
            r == match self.precision_spec() {
                Some(p) => Some(p.step_size),
                None => None,
            },
    ;

    /// The bid side.
    fn bids(&self) -> (r: &Side)
        ensures
            r@ == self.bid_levels(),
    ;

    /// The ask side.
    fn asks(&self) -> (r: &Side)
        ensures
            r@ == self.ask_levels(),
    ;

    /// The bid side, to change it: what the caller leaves in it is the bid
    /// side of the book from then on.
    fn bids_mut(&mut self) -> (r: &mut Side)
        ensures
            r@ == old(self).bid_levels(),
            final(self).bid_levels() == final(r)@,
            final(self).ask_levels() == old(self).ask_levels(),
            final(self).precision_spec() == old(self).precision_spec(),
    ;

    /// The ask side, to change it.
    fn asks_mut(&mut self) -> (r: &mut Side)
        ensures
            r@ == old(self).ask_levels(),
            final(self).ask_levels() == final(r)@,
            final(self).bid_levels() == old(self).bid_levels(),
            final(self).precision_spec() == old(self).precision_spec(),
    ;

    /// The bid with the highest price, or `EmptyBook` where there is no bid.
    fn best_bid(&self) -> (r: Result<PriceLevel, Error>)
        ensures
            match r {
                Ok(level) => is_highest(self.bid_levels(), level),
                Err(e) => e == Error::EmptyBook && self.bid_levels() == Map::<int, PriceLevel>::empty(),
            },
    {
        let bids = self.bids();
        bids.highest()
    }

    /// The ask with the lowest price, or `EmptyBook` where there is no ask.
    fn best_ask(&self) -> (r: Result<PriceLevel, Error>)
        ensures
            match r {
                Ok(level) => is_lowest(self.ask_levels(), level),
                Err(e) => e == Error::EmptyBook && self.ask_levels() == Map::<int, PriceLevel>::empty(),
            },
    {
        let asks = self.asks();
        asks.lowest()
    }

    /// Applies the (price, quantity) pairs to a side, first to last: quantity
    /// zero removes the level, any other quantity sets it.
    fn update_book(book: &mut Side, update: Vec<(Decimal, Decimal)>)
        ensures
            final(book)@ == apply_deltas(old(book)@, update@),
    {
        book.apply(&update);
    }

    /// Applies the pairs to the ask side.
    fn update_asks(&mut self, asks: Vec<(Decimal, Decimal)>)
        ensures
            final(self).ask_levels() == apply_deltas(old(self).ask_levels(), asks@),
            final(self).bid_levels() == old(self).bid_levels(),
            final(self).precision_spec() == old(self).precision_spec(),
    {
        let book = self.asks_mut();
        Self::update_book(book, asks);
    }

    /// Applies the pairs to the bid side.
    fn update_bids(&mut self, bids: Vec<(Decimal, Decimal)>)
        ensures
            final(self).bid_levels() == apply_deltas(old(self).bid_levels(), bids@),
            final(self).ask_levels() == old(self).ask_levels(),
            final(self).precision_spec() == old(self).precision_spec(),
    {
        let book = self.bids_mut();
        Self::update_book(book, bids);
    }
}

/// The replica of one symbol's book.
#[derive(Debug)]
pub struct BinanceOrderBook {
    symbol: String,
    last_update_id: u128,
    processed_events_count: u128,
    bids: Side,
    asks: Side,
    precision: Option<Precision>,
}

impl View for BinanceOrderBook {
    type V = BookState;

    closed spec fn view(&self) -> BookState {
        BookState {
            symbol: self.symbol@,
            last_update_id: self.last_update_id as int,
            processed_events_count: self.processed_events_count as int,
            bids: self.bids@,
            asks: self.asks@,
        }
    }
}

impl BinanceOrderBook {
    /// The book as the snapshot shows it, with no event applied yet.
    pub fn new(symbol: String, depth: Depth) -> (r: Self)
        ensures
            r@ == initial(symbol@, depth),
            r.precision_spec() is None,
    {
        let Depth { bids, asks, last_update_id, .. } = depth;
        let bids = Side::from_deltas(&bids);
        let asks = Side::from_deltas(&asks);
        Self { symbol, bids, asks, last_update_id, processed_events_count: 0, precision: None }
    }

    /// Starts the book over from a fresh snapshot, as after a desync: the
    /// sides are loaded anew and no event counts as applied.
    pub fn initialize(&mut self, depth: Depth)
        ensures
            final(self)@ == initial(old(self)@.symbol, depth),
            final(self).precision_spec() == old(self).precision_spec(),
    {
        let Depth { bids, asks, last_update_id, .. } = depth;
        self.bids = Side::from_deltas(&bids);
        self.asks = Side::from_deltas(&asks);
        self.last_update_id = last_update_id;
        self.processed_events_count = 0;
    }

    /// The same book, told the precision of its symbol.
    pub fn with_precision(self, precision: Precision) -> (r: Self)
        ensures
            r@ == self@,
            r.precision_spec() == Some(precision),
    {
        let mut r = self;
        r.precision = Some(precision);
        r
    }

    /// Applies one diff event, if it continues the sequence; one that does
    /// not is refused and changes nothing.
    pub fn update(&mut self, depth_update: DepthUpdate) -> (r: Result<(), Error>)
        requires
            old(self)@.processed_events_count < u128::MAX,
        ensures
            match step(old(self)@, depth_update) {
                Ok(s) => r is Ok && final(self)@ == s && final(self).precision_spec() == old(
                    self,
                ).precision_spec(),
                Err(e) => r == Err::<(), Error>(e) && *final(self) == *old(self),
            },
    {
        let DepthUpdate { first_update_id, final_update_id, last_stream_final_update_id, bids, asks, .. } =
            depth_update;

        if self.processed_events_count == 0 {
            if self.last_update_id < first_update_id || final_update_id < self.last_update_id {
                return Err(Error::BootstrapDesync);
            }
        } else {
            if self.last_update_id != last_stream_final_update_id {
                return Err(Error::ChainDesync);
            }
        }

        self.update_asks(asks);
        self.update_bids(bids);

        self.last_update_id = final_update_id;
        self.processed_events_count += 1;

        Ok(())
    }

    /// The first `levels` bids, highest price first, and the first `levels`
    /// asks, lowest price first: the top of the book as it is shown.
    pub fn top_levels(&self, levels: usize) -> (r: (Vec<PriceLevel>, Vec<PriceLevel>))
        ensures
            r.0@ == first_n(levels_of(self@.bids).reverse(), levels as int),
            r.1@ == first_n(levels_of(self@.asks), levels as int),
    {
        (self.bids.highest_n(levels), self.asks.lowest_n(levels))
    }

    /// The symbol that the book is of.
    pub fn symbol(&self) -> (r: &String)
        ensures
            r@ == self@.symbol,
    {
        &self.symbol
    }

    /// The id of the last update that the book includes.
    pub fn last_update_id(&self) -> (r: u128)
        ensures
            r == self@.last_update_id,
    {
        self.last_update_id
    }

    /// The number of diff events applied since the snapshot.
    pub fn processed_events_count(&self) -> (r: u128)
        ensures
            r == self@.processed_events_count,
    {
        self.processed_events_count
    }

    /// The precision of the symbol, where the book has been told it.
    pub fn precision(&self) -> (r: Option<Precision>)
        ensures
            r == self.precision_spec(),
    {
        self.precision
    }
}

impl OrderBook for BinanceOrderBook {
    open spec fn bid_levels(&self) -> Map<int, PriceLevel> {
        self@.bids
    }

    open spec fn ask_levels(&self) -> Map<int, PriceLevel> {
        self@.asks
    }

    closed spec fn precision_spec(&self) -> Option<Precision> {
        self.precision
    }

    fn price_decimal_points(&self) -> (r: Option<u32>) {
        match self.precision {
            Some(p) => Some(p.price_decimal_points),
            None => None,
        }
    }

    fn quantity_decimal_points(&self) -> (r: Option<u32>) {
        match self.precision {
            Some(p) => Some(p.quantity_decimal_points),
            None => None,
        }
    }

    fn tick_size(&self) -> (r: Option<Decimal>) {
        match self.precision {
            Some(p) => Some(p.tick_size),
            None => None,
        }
    }

    fn step_size(&self) -> (r: Option<Decimal>) {
        match self.precision {
            Some(p) => Some(p.step_size),
            None => None,
        }
    }

    fn bids(&self) -> (r: &Side) {
        &self.bids
    }

    fn asks(&self) -> (r: &Side) {
        &self.asks
    }

    /// Nothing but the bids changes with what the caller does to them.
    fn bids_mut(&mut self) -> (r: &mut Side)
        ensures
            final(self)@ == (BookState { bids: final(r)@, ..old(self)@ }),
    {
        &mut self.bids
    }

    /// Nothing but the asks changes with what the caller does to them.
    fn asks_mut(&mut self) -> (r: &mut Side)
        ensures
            final(self)@ == (BookState { asks: final(r)@, ..old(self)@ }),
    {
        &mut self.asks
    }

    /// Nothing but the asks changes.
    fn update_asks(&mut self, asks: Vec<(Decimal, Decimal)>)
        ensures
            final(self)@ == (BookState { asks: apply_deltas(old(self)@.asks, asks@), ..old(self)@ }),
    {
        let book = self.asks_mut();
        Self::update_book(book, asks);
    }

    /// Nothing but the bids changes.
    fn update_bids(&mut self, bids: Vec<(Decimal, Decimal)>)
        ensures
            final(self)@ == (BookState { bids: apply_deltas(old(self)@.bids, bids@), ..old(self)@ }),
    {
        let book = self.bids_mut();
        Self::update_book(book, bids);
    }
}

impl Quoter for BinanceOrderBook {
    /// A buy walks the asks from the lowest price up.
    open spec fn buy_levels(&self) -> Seq<PriceLevel> {
        levels_of(self@.asks)
    }

    /// A sell walks the bids from the highest price down.
    open spec fn sell_levels(&self) -> Seq<PriceLevel> {
        levels_of(self@.bids).reverse()
    }

    fn buy(&self, size: &Decimal) -> (r: Result<Decimal, Error>) {
        let book = self.asks.ascending();
        Self::quote(size, book)
    }

    fn sell(&self, size: &Decimal) -> (r: Result<Decimal, Error>) {
        let book = self.bids.descending();
        Self::quote(size, &book)
    }
}

} // verus!
