use managed_order_book::decimal::Decimal;
use managed_order_book::managed::{FeedEvent, ManagedBinanceOrderBook, PollOutcome, Step};
use managed_order_book::side::PriceLevel;
use managed_order_book::stream::OrderBookStream;
use managed_order_book::{Depth, DepthUpdate, Error, OrderBook};
use std::str::FromStr;

fn dec(text: &str) -> Decimal {
    let d = rust_decimal::Decimal::from_str(text).unwrap();
    Decimal::new(d.mantissa(), d.scale()).unwrap()
}

fn text(d: Decimal) -> String {
    rust_decimal::Decimal::from_i128_with_scale(d.mantissa(), d.scale()).to_string()
}

fn shown(levels: &[PriceLevel]) -> Vec<(String, String)> {
    levels.iter().map(|l| (text(l.price), text(l.quantity))).collect()
}

fn pairs(items: &[(&str, &str)]) -> Vec<(String, String)> {
    items.iter().map(|(p, q)| (p.to_string(), q.to_string())).collect()
}

fn deltas(items: &[(&str, &str)]) -> Vec<(Decimal, Decimal)> {
    items.iter().map(|(p, q)| (dec(p), dec(q))).collect()
}

fn snapshot() -> Depth {
    Depth {
        last_update_id: 100,
        event_time: 0,
        transaction_time: 0,
        bids: deltas(&[("10", "5")]),
        asks: deltas(&[("11", "5")]),
    }
}

fn diff(first: u128, last: u128, previous: u128, bids: &[(&str, &str)]) -> FeedEvent {
    FeedEvent::Diff(DepthUpdate {
        event_type: "depthUpdate".to_string(),
        event_time: 0,
        transaction_time: 0,
        symbol: "X".to_string(),
        first_update_id: first,
        final_update_id: last,
        last_stream_final_update_id: previous,
        bids: deltas(bids),
        asks: Vec::new(),
    })
}

#[test]
fn poll_with_nothing_ready_is_pending() {
    let mut managed = ManagedBinanceOrderBook::new("X".to_string(), snapshot());
    assert_eq!(managed.begin_poll(), None);
    assert_eq!(managed.on_event(FeedEvent::NotReady), Step::Done(Ok(PollOutcome::Pending)));
    assert_eq!(managed.book().last_update_id(), 100);
}

#[test]
fn poll_drains_what_is_ready_and_reports_once() {
    let mut managed = ManagedBinanceOrderBook::new("X".to_string(), snapshot());
    assert_eq!(managed.begin_poll(), None);
    assert_eq!(managed.on_event(diff(95, 101, 90, &[("10", "6")])), Step::Continue);
    assert_eq!(managed.on_event(FeedEvent::Other), Step::Continue);
    assert_eq!(managed.on_event(diff(102, 103, 101, &[("9", "1")])), Step::Continue);
    assert_eq!(managed.on_event(FeedEvent::NotReady), Step::Done(Ok(PollOutcome::Updated)));
    assert_eq!(shown(managed.book().bids().ascending()), pairs(&[("9", "1"), ("10", "6")]));
    assert_eq!(managed.book().processed_events_count(), 2);
    // The next poll starts afresh.
    assert_eq!(managed.begin_poll(), None);
    assert_eq!(managed.on_event(FeedEvent::NotReady), Step::Done(Ok(PollOutcome::Pending)));
}

#[test]
fn messages_without_a_diff_are_no_update() {
    let mut managed = ManagedBinanceOrderBook::new("X".to_string(), snapshot());
    assert_eq!(managed.begin_poll(), None);
    assert_eq!(managed.on_event(FeedEvent::Other), Step::Continue);
    assert_eq!(managed.on_event(FeedEvent::Other), Step::Continue);
    assert_eq!(managed.on_event(FeedEvent::NotReady), Step::Done(Ok(PollOutcome::Pending)));
}

#[test]
fn desync_ends_the_poll_and_keeps_what_was_applied() {
    let mut managed = ManagedBinanceOrderBook::new("X".to_string(), snapshot());
    assert_eq!(managed.begin_poll(), None);
    assert_eq!(managed.on_event(diff(95, 101, 90, &[("10", "6")])), Step::Continue);
    assert_eq!(
        managed.on_event(diff(106, 110, 105, &[("10", "9")])),
        Step::Done(Err(Error::ChainDesync))
    );
    assert_eq!(shown(managed.book().bids().ascending()), pairs(&[("10", "6")]));
    assert_eq!(managed.book().last_update_id(), 101);
}

#[test]
fn bootstrap_desync_is_reported() {
    let mut managed = ManagedBinanceOrderBook::new("X".to_string(), snapshot());
    assert_eq!(managed.begin_poll(), None);
    assert_eq!(
        managed.on_event(diff(101, 105, 100, &[("10", "6")])),
        Step::Done(Err(Error::BootstrapDesync))
    );
    assert_eq!(shown(managed.book().bids().ascending()), pairs(&[("10", "5")]));
}

#[test]
fn malformed_message_is_reported() {
    let mut managed = ManagedBinanceOrderBook::new("X".to_string(), snapshot());
    assert_eq!(managed.begin_poll(), None);
    assert_eq!(managed.on_event(diff(95, 101, 90, &[("10", "6")])), Step::Continue);
    assert_eq!(managed.on_event(FeedEvent::Malformed), Step::Done(Err(Error::MalformedMessage)));
    assert_eq!(shown(managed.book().bids().ascending()), pairs(&[("10", "6")]));
}

#[test]
fn the_end_of_the_feed_is_reported_after_the_last_update() {
    let mut managed = ManagedBinanceOrderBook::new("X".to_string(), snapshot());
    assert_eq!(managed.begin_poll(), None);
    assert_eq!(managed.on_event(diff(95, 101, 90, &[("10", "6")])), Step::Continue);
    assert_eq!(managed.on_event(FeedEvent::Closed), Step::Done(Ok(PollOutcome::Updated)));
    assert_eq!(managed.begin_poll(), Some(PollOutcome::Ended));
    assert_eq!(managed.begin_poll(), Some(PollOutcome::Ended));
    let mut managed = ManagedBinanceOrderBook::new("X".to_string(), snapshot());
    assert_eq!(managed.begin_poll(), None);
    assert_eq!(managed.on_event(FeedEvent::Closed), Step::Done(Ok(PollOutcome::Ended)));
    assert_eq!(managed.begin_poll(), Some(PollOutcome::Ended));
}

#[test]
fn stream_poll_applies_a_batch_in_order() {
    let mut stream = OrderBookStream::new("X".to_string(), snapshot());
    assert_eq!(stream.poll_next(Vec::new()), Ok(PollOutcome::Pending));
    let ready = vec![
        diff(95, 101, 90, &[("10", "6")]),
        FeedEvent::Other,
        diff(102, 103, 101, &[("10", "7"), ("9", "1")]),
    ];
    assert_eq!(stream.poll_next(ready), Ok(PollOutcome::Updated));
    assert_eq!(shown(stream.book().bids().ascending()), pairs(&[("9", "1"), ("10", "7")]));
    assert_eq!(stream.book().last_update_id(), 103);
    assert_eq!(stream.poll_next(vec![FeedEvent::Other]), Ok(PollOutcome::Pending));
}

#[test]
fn stream_poll_stops_at_the_first_error() {
    let mut stream = OrderBookStream::new("X".to_string(), snapshot());
    let ready = vec![
        diff(95, 101, 90, &[("10", "6")]),
        diff(106, 110, 105, &[("10", "9")]),
        diff(102, 103, 101, &[("10", "7")]),
    ];
    assert_eq!(stream.poll_next(ready), Err(Error::ChainDesync));
    assert_eq!(shown(stream.book().bids().ascending()), pairs(&[("10", "6")]));
    assert_eq!(stream.book().last_update_id(), 101);
    let ready = vec![diff(102, 103, 101, &[("10", "7")]), FeedEvent::Malformed];
    assert_eq!(stream.poll_next(ready), Err(Error::MalformedMessage));
    assert_eq!(shown(stream.book().bids().ascending()), pairs(&[("10", "7")]));
}

#[test]
fn stream_poll_ends_with_the_feed() {
    let mut stream = OrderBookStream::new("X".to_string(), snapshot());
    let ready = vec![diff(95, 101, 90, &[("10", "6")]), FeedEvent::Closed, diff(102, 103, 101, &[("10", "7")])];
    assert_eq!(stream.poll_next(ready), Ok(PollOutcome::Updated));
    assert_eq!(shown(stream.book().bids().ascending()), pairs(&[("10", "6")]));
    assert_eq!(stream.poll_next(vec![diff(102, 103, 101, &[("10", "7")])]), Ok(PollOutcome::Ended));
    assert_eq!(shown(stream.book().bids().ascending()), pairs(&[("10", "6")]));
    let mut stream = OrderBookStream::new("X".to_string(), snapshot());
    assert_eq!(stream.poll_next(vec![FeedEvent::Closed]), Ok(PollOutcome::Ended));
}
