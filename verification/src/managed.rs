//! A book that follows a live feed of diff events.
//!
//! The feed itself lives outside this library. Whoever owns it asks it for
//! messages and hands each answer to the book as a [`FeedEvent`]; the book
//! says whether to ask again or what the poll has come to.

use crate::book::{initial, replay, step, BinanceOrderBook, BookState, Depth, DepthUpdate, OrderBook};
use crate::error::Error;
use vstd::prelude::*;

verus! {

/// What the feed answers when it is asked for its next message.
#[derive(Clone, Debug)]
pub enum FeedEvent {
    /// No message is ready yet.
    NotReady,
    /// The feed has ended.
    Closed,
    /// A message that carries no diff; it is passed over.
    Other,
    /// A message that cannot be read as a diff, or a failure of the transport.
    Malformed,
    /// A diff event.
    Diff(DepthUpdate),
}

/// What one poll of the book comes to.
#[derive(Clone, Copy, Debug, PartialEq, Eq, Structural)]
pub enum PollOutcome {
    /// Nothing was ready: ask again later.
    Pending,
    /// At least one diff was applied.
    Updated,
    /// The feed has ended and no update is left to report.
    Ended,
}

/// What to do after an event: ask the feed again, or end the poll.
#[derive(Clone, Copy, Debug, PartialEq, Eq)]
pub enum Step {
    /// The poll goes on: ask the feed for its next message.
    Continue,
    /// The poll has ended, with this outcome.
    Done(Result<PollOutcome, Error>),
}

/// The state of a book that follows a feed.
pub struct FeedState {
    pub book: BookState,
    /// Whether the poll under way has applied a diff.
    pub updated: bool,
    /// Whether the feed has ended.
    pub ended: bool,
}

/// What a poll reports when the feed has nothing more for it.
pub open spec fn report(updated: bool, otherwise: PollOutcome) -> PollOutcome {
    if updated {
        PollOutcome::Updated
    } else {
        otherwise
    }
}

/// How the book reacts to one event. A diff in sequence is applied and the
/// poll goes on; a diff out of sequence or a malformed message ends the poll
/// with the error and changes nothing, so that what earlier events of the
/// same poll did stays done. When the feed has nothing ready or has ended,
/// the poll ends and reports whether it applied anything.
pub open spec fn react(s: FeedState, event: FeedEvent) -> (FeedState, Step) {
    match event {
        FeedEvent::NotReady => (s, Step::Done(Ok(report(s.updated, PollOutcome::Pending)))),
        FeedEvent::Closed => (
            FeedState { ended: true, ..s },
            Step::Done(Ok(report(s.updated, PollOutcome::Ended))),
        ),
        FeedEvent::Other => (s, Step::Continue),
        FeedEvent::Malformed => (s, Step::Done(Err(Error::MalformedMessage))),
        FeedEvent::Diff(diff) => match step(s.book, diff) {
            Ok(book) => (FeedState { book, updated: true, ..s }, Step::Continue),
            Err(e) => (s, Step::Done(Err(e))),
        },
    }
}

/// A poll that is handed, in the order of their arrival, the events that the
/// feed had ready: it reacts to each in turn until one ends it, and ends as on
/// `NotReady` when they run out.
pub open spec fn drain(s: FeedState, events: Seq<FeedEvent>) -> (FeedState, Result<PollOutcome, Error>)
    decreases events.len(),
{
    if events.len() == 0 {
        (s, Ok(report(s.updated, PollOutcome::Pending)))
    } else {
        let (next, step) = react(s, events.first());
        match step {
            Step::Done(r) => (next, r),
            Step::Continue => drain(next, events.drop_first()),
        }
    }
}

/// The diff events as the feed hands them over.
pub open spec fn as_feed(events: Seq<DepthUpdate>) -> Seq<FeedEvent> {
    events.map_values(|event: DepthUpdate| FeedEvent::Diff(event))
}

/// To drain a batch of diffs is to replay them. Where every diff is in
/// sequence the book ends as the replay does and the poll reports an update
/// if there was any diff; where one is not, the poll ends with the error of
/// the replay.
pub proof fn lemma_drain_replays(s: FeedState, events: Seq<DepthUpdate>)
    ensures
        match replay(s.book, events) {
            Ok(book) => drain(s, as_feed(events)) == (
                FeedState { book, updated: s.updated || events.len() > 0, ended: s.ended },
                Ok::<PollOutcome, Error>(report(s.updated || events.len() > 0, PollOutcome::Pending)),
            ),
            Err(e) => drain(s, as_feed(events)).1 == Err::<PollOutcome, Error>(e),
        },
    decreases events.len(),
{
    if events.len() > 0 {
        let feed = as_feed(events);
        assert(feed.first() == FeedEvent::Diff(events.first()));
        assert(feed.drop_first() =~= as_feed(events.drop_first()));
        match step(s.book, events.first()) {
            Ok(book) => {
                lemma_drain_replays(FeedState { book, updated: true, ..s }, events.drop_first());
            },
            Err(_) => {},
        }
    }
}

/// A whole poll: a feed that has ended is not asked again.
pub open spec fn poll(s: FeedState, events: Seq<FeedEvent>) -> (FeedState, Result<PollOutcome, Error>) {
    if s.ended {
        (s, Ok(PollOutcome::Ended))
    } else {
        drain(FeedState { updated: false, ..s }, events)
    }
}

/// A book together with what it knows of its feed. Its owner starts each poll
/// with `begin_poll` and then hands it the feed's answers, one by one, with
/// `on_event`, until that returns `Step::Done`.
#[derive(Debug)]
pub struct ManagedBinanceOrderBook {
    pub binance_order_book: BinanceOrderBook,
    pub updated: bool,
    pub ended: bool,
}

impl View for ManagedBinanceOrderBook {
    type V = FeedState;

    open spec fn view(&self) -> FeedState {
        FeedState { book: self.binance_order_book@, updated: self.updated, ended: self.ended }
    }
}

impl ManagedBinanceOrderBook {
    /// A book started from a snapshot, with its feed still open.
    pub fn new(symbol: String, depth: Depth) -> (r: Self)
        ensures
            r@ == (FeedState { book: initial(symbol@, depth), updated: false, ended: false }),
            r.binance_order_book.precision_spec() is None,
    {
        let binance_order_book = BinanceOrderBook::new(symbol, depth);
        Self { binance_order_book, updated: false, ended: false }
    }

    /// The book as it stands.
    pub fn book(&self) -> (r: &BinanceOrderBook)
        ensures
            *r == self.binance_order_book,
    {
        &self.binance_order_book
    }

    /// Starts a poll. Returns `Some(Ended)` where the feed has ended: then
    /// there is nothing to ask it. Returns `None` where the poll is to go on
    /// with the feed's answers.
    pub fn begin_poll(&mut self) -> (r: Option<PollOutcome>)
        ensures
            final(self).binance_order_book == old(self).binance_order_book,
            final(self).ended == old(self).ended,
            old(self).ended ==> r == Some(PollOutcome::Ended) && final(self).updated == old(self).updated,
            !old(self).ended ==> r is None && !final(self).updated,
    {
        if self.ended {
            Some(PollOutcome::Ended)
        } else {
            self.updated = false;
            None
        }
    }

    /// Reacts to one answer of the feed.
    pub fn on_event(&mut self, event: FeedEvent) -> (r: Step)
        requires
            event is Diff ==> old(self)@.book.processed_events_count < u128::MAX,
        ensures
            (final(self)@, r) == react(old(self)@, event),
            final(self).binance_order_book.precision_spec() == old(
                self,
            ).binance_order_book.precision_spec(),
            !(event is Diff) ==> final(self).binance_order_book == old(self).binance_order_book,
            r matches Step::Done(Err(_)) ==> *final(self) == *old(self),
    {
        match event {
            FeedEvent::NotReady => {
                if self.updated {
                    Step::Done(Ok(PollOutcome::Updated))
                } else {
                    Step::Done(Ok(PollOutcome::Pending))
                }
            },
            FeedEvent::Closed => {
                self.ended = true;
                if self.updated {
                    Step::Done(Ok(PollOutcome::Updated))
                } else {
                    Step::Done(Ok(PollOutcome::Ended))
                }
            },
            FeedEvent::Other => Step::Continue,
            FeedEvent::Malformed => Step::Done(Err(Error::MalformedMessage)),
            FeedEvent::Diff(depth_update) => {
                match self.binance_order_book.update(depth_update) {
                    Ok(()) => {
                        self.updated = true;
                        Step::Continue
                    },
                    Err(e) => Step::Done(Err(e)),
                }
            },
        }
    }
}

} // verus!
