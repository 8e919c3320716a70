//! A local replica of an exchange limit order book: an ordered price-level
//! store per side, a reconciliation protocol that keeps the replica in step
//! with a stream of diff events, and volume-weighted quoting against it.

pub mod book;
pub mod decimal;
pub mod error;
pub mod managed;
pub mod quoter;
pub mod side;
pub mod stream;

pub use book::{BinanceOrderBook, Depth, DepthUpdate, OrderBook, Precision};
pub use error::Error;
