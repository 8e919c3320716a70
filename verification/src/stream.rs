//! A book that is polled with everything its feed had ready at once.

use crate::book::{initial, BinanceOrderBook, Depth, OrderBook};
use crate::error::Error;
use crate::managed::{drain, poll, FeedEvent, FeedState, PollOutcome};
use vstd::prelude::*;

verus! {

/// A book and whether its feed has ended. Each poll is handed the events that
/// were ready, in the order of their arrival.
#[derive(Debug)]
pub struct OrderBookStream {
    pub binance_order_book: BinanceOrderBook,
    pub ended: bool,
}

impl View for OrderBookStream {
    type V = FeedState;

    /// Between polls no update is waiting to be reported.
    open spec fn view(&self) -> FeedState {
        FeedState { book: self.binance_order_book@, updated: false, ended: self.ended }
    }
}

impl OrderBookStream {
    /// A book started from a snapshot, with its feed still open.
    pub fn new(symbol: String, depth: Depth) -> (r: Self)
        ensures
            r@ == (FeedState { book: initial(symbol@, depth), updated: false, ended: false }),
            r.binance_order_book.precision_spec() is None,
    {
        let binance_order_book = BinanceOrderBook::new(symbol, depth);
        Self { binance_order_book, ended: false }
    }

    /// The book as it stands.
    pub fn book(&self) -> (r: &BinanceOrderBook)
        ensures
            *r == self.binance_order_book,
    {
        &self.binance_order_book
    }

    /// One poll: applies the diffs among `ready` in order, up to the first
    /// event that ends the poll, and reports `Updated` if it applied any.
    pub fn poll_next(&mut self, ready: Vec<FeedEvent>) -> (r: Result<PollOutcome, Error>)
        requires
            old(self)@.book.processed_events_count + ready@.len() <= u128::MAX,
        ensures
            r == poll(old(self)@, ready@).1,
            final(self)@.book == poll(old(self)@, ready@).0.book,
            final(self)@.ended == poll(old(self)@, ready@).0.ended,
            final(self).binance_order_book.precision_spec() == old(
                self,
            ).binance_order_book.precision_spec(),
    {
        if self.ended {
            return Ok(PollOutcome::Ended);
        }
        let ghost events = ready@;
        let ghost goal = drain(FeedState { updated: false, ..self@ }, events);
        let mut next = false;
        proof {
            assert(events.skip(0) =~= events);
        }
        for event in it: ready
            invariant
                it.seq() == events,
                goal == poll(old(self)@, ready@),
                self.binance_order_book.precision_spec() == old(self).binance_order_book.precision_spec(),
                goal == drain(
                    FeedState { book: self.binance_order_book@, updated: next, ended: self.ended },
                    events.skip(it.index() as int),
                ),
                self.binance_order_book@.processed_events_count + events.len() - it.index()
                    <= u128::MAX,
        {
            proof {
                assert(events.skip(it.index() as int).first() == event);
                assert(events.skip(it.index() as int).drop_first() =~= events.skip(it.index() + 1));
            }
            match event {
                FeedEvent::NotReady => {
                    return Ok(if next { PollOutcome::Updated } else { PollOutcome::Pending });
                },
                FeedEvent::Closed => {
                    self.ended = true;
                    return Ok(if next { PollOutcome::Updated } else { PollOutcome::Ended });
                },
                FeedEvent::Other => {},
                FeedEvent::Malformed => {
                    return Err(Error::MalformedMessage);
                },
                FeedEvent::Diff(depth_update) => {
                    match self.binance_order_book.update(depth_update) {
                        Ok(()) => {
                            next = true;
                        },
                        Err(e) => {
                            return Err(e);
                        },
                    }
                },
            }
        }
        proof {
            assert(events.skip(events.len() as int) =~= Seq::<FeedEvent>::empty());
        }
        if next {
            Ok(PollOutcome::Updated)
        } else {
            Ok(PollOutcome::Pending)
        }
    }
}

} // verus!
