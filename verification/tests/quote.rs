use managed_order_book::decimal::{Decimal, MAX_MANTISSA};
use managed_order_book::quoter::Quoter;
use managed_order_book::side::PriceLevel;
use managed_order_book::{BinanceOrderBook, Depth, Error};
use std::str::FromStr;

fn dec(text: &str) -> Decimal {
    let d = rust_decimal::Decimal::from_str(text).unwrap();
    Decimal::new(d.mantissa(), d.scale()).unwrap()
}

fn number(d: Decimal) -> rust_decimal::Decimal {
    rust_decimal::Decimal::from_i128_with_scale(d.mantissa(), d.scale())
}

fn exactly(text: &str) -> rust_decimal::Decimal {
    rust_decimal::Decimal::from_str(text).unwrap()
}

fn deltas(items: &[(&str, &str)]) -> Vec<(Decimal, Decimal)> {
    items.iter().map(|(p, q)| (dec(p), dec(q))).collect()
}

fn levels(items: &[(&str, &str)]) -> Vec<PriceLevel> {
    items.iter().map(|(p, q)| PriceLevel { price: dec(p), quantity: dec(q) }).collect()
}

fn book(bids: &[(&str, &str)], asks: &[(&str, &str)]) -> BinanceOrderBook {
    BinanceOrderBook::new(
        "X".to_string(),
        Depth { last_update_id: 1, event_time: 0, transaction_time: 0, bids: deltas(bids), asks: deltas(asks) },
    )
}

fn quote(size: &str, book: &[(&str, &str)]) -> Result<Decimal, Error> {
    <BinanceOrderBook as Quoter>::quote(&dec(size), &levels(book))
}

#[test]
fn buy_walks_the_asks_upwards() {
    let book = book(&[], &[("12", "5"), ("11", "5")]);
    // 5 at 11 and 3 at 12.
    assert_eq!(number(book.buy(&dec("8")).unwrap()), exactly("11.375"));
}

#[test]
fn buy_beyond_the_liquidity_divides_by_the_whole_size() {
    let book = book(&[], &[("11", "5"), ("12", "5")]);
    // All 10 are taken, and the notional of 115 is spread over 20.
    assert_eq!(number(book.buy(&dec("20")).unwrap()), exactly("5.75"));
}

#[test]
fn sell_walks_the_bids_downwards() {
    let book = book(&[("9", "5"), ("10", "5"), ("8", "100")], &[("11", "5")]);
    // 5 at 10 and 3 at 9.
    assert_eq!(number(book.sell(&dec("8")).unwrap()), exactly("9.625"));
    // 5 at 10, 5 at 9 and 2 at 8.
    assert_eq!(number(book.sell(&dec("12")).unwrap()), exactly("9.25"));
}

#[test]
fn quote_of_a_size_inside_the_best_level_is_its_price() {
    let book = book(&[("10", "5")], &[("11", "5"), ("12", "5")]);
    assert_eq!(number(book.buy(&dec("0.5")).unwrap()), exactly("11"));
    assert_eq!(number(book.buy(&dec("5")).unwrap()), exactly("11"));
    assert_eq!(number(book.sell(&dec("5")).unwrap()), exactly("10"));
}

#[test]
fn quote_that_takes_whole_levels_is_their_weighted_average() {
    let book = book(&[], &[("10", "1"), ("20", "3"), ("40", "4"), ("1000", "9")]);
    // (1*10 + 3*20 + 4*40) / 8
    assert_eq!(number(book.buy(&dec("8")).unwrap()), exactly("28.75"));
}

#[test]
fn quote_does_not_look_behind_the_level_that_fills_it() {
    let shallow = quote("8", &[("11", "5"), ("12", "5")]).unwrap();
    let deep = quote("8", &[("11", "5"), ("12", "5"), ("13", "1"), ("99", "1000")]).unwrap();
    assert_eq!(number(shallow), number(deep));
    assert_eq!(number(deep), exactly("11.375"));
    // Not even where what lies behind would overflow.
    let top = Decimal::new(MAX_MANTISSA, 0).unwrap();
    let mut book = levels(&[("11", "5"), ("12", "5")]);
    book.push(PriceLevel { price: top, quantity: top });
    let r = <BinanceOrderBook as Quoter>::quote(&dec("10"), &book);
    assert_eq!(number(r.unwrap()), exactly("11.5"));
}

#[test]
fn quote_against_no_levels_is_zero() {
    assert_eq!(number(quote("3", &[]).unwrap()), exactly("0"));
    let book = book(&[], &[]);
    assert_eq!(number(book.buy(&dec("1")).unwrap()), exactly("0"));
    assert_eq!(number(book.sell(&dec("1")).unwrap()), exactly("0"));
}

#[test]
fn quote_refuses_a_size_that_is_not_positive() {
    let book = book(&[("10", "5")], &[("11", "5")]);
    assert_eq!(book.buy(&dec("0")).err(), Some(Error::InvalidQuoteSize));
    assert_eq!(book.buy(&dec("0.000")).err(), Some(Error::InvalidQuoteSize));
    assert_eq!(book.buy(&dec("-1")).err(), Some(Error::InvalidQuoteSize));
    assert_eq!(book.sell(&dec("0")).err(), Some(Error::InvalidQuoteSize));
    assert_eq!(book.sell(&dec("-0.5")).err(), Some(Error::InvalidQuoteSize));
    assert_eq!(quote("0", &[]).err(), Some(Error::InvalidQuoteSize));
}

#[test]
fn quote_reports_overflow() {
    let top = Decimal::new(MAX_MANTISSA, 0).unwrap();
    // The product of quantity and price does not fit.
    let r = <BinanceOrderBook as Quoter>::quote(&top, &vec![PriceLevel { price: dec("2"), quantity: top }]);
    assert_eq!(r.err(), Some(Error::Overflow));
    // The sum of two notionals does not fit.
    let r = <BinanceOrderBook as Quoter>::quote(
        &dec("2"),
        &vec![PriceLevel { price: top, quantity: dec("1") }, PriceLevel { price: top, quantity: dec("1") }],
    );
    assert_eq!(r.err(), Some(Error::Overflow));
    // What remains after a negative quantity does not fit.
    let r = <BinanceOrderBook as Quoter>::quote(
        &top,
        &vec![PriceLevel { price: dec("1"), quantity: Decimal::new(-MAX_MANTISSA, 0).unwrap() }],
    );
    assert_eq!(r.err(), Some(Error::Overflow));
    // The quotient does not fit.
    let tiny = Decimal::new(1, 28).unwrap();
    let r = <BinanceOrderBook as Quoter>::quote(&tiny, &vec![PriceLevel { price: top, quantity: dec("1") }]);
    assert_eq!(number(r.unwrap()), number(top));
    let r = <BinanceOrderBook as Quoter>::quote(&tiny, &vec![PriceLevel { price: top, quantity: dec("-1") }]);
    assert_eq!(r.err(), Some(Error::Overflow));
}

#[test]
fn quote_agrees_with_the_same_walk_in_rust_decimal() {
    let book = [
        ("1.664500", "40.3"),
        ("1.664700", "10.0"),
        ("1.664800", "133.9"),
        ("1.664900", "214.9"),
        ("1.665000", "110.2"),
    ];
    for size in ["0.1", "40.3", "40.31", "100", "399.1", "509.3", "509.4", "100000"] {
        let size_number = exactly(size);
        let mut remaining = size_number;
        let mut amount = rust_decimal::Decimal::ZERO;
        for (p, q) in book {
            let (price, quantity) = (exactly(p), exactly(q));
            let min = if remaining < quantity { remaining } else { quantity };
            amount += min * price;
            remaining -= min;
            if remaining.is_zero() {
                break;
            }
        }
        let expected = amount / size_number;
        assert_eq!(number(quote(size, &book).unwrap()), expected);
        assert_eq!(number(quote(size, &book).unwrap()).to_string(), expected.to_string());
    }
}
