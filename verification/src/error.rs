//! The ways in which an operation on the book can fail.

use vstd::prelude::*;

verus! {

#[derive(Clone, Copy, Debug, PartialEq, Eq, Structural)]
pub enum Error {
    /// A snapshot or a diff message could not be parsed.
    MalformedMessage,
    /// The first diff after a snapshot does not bracket the snapshot's update id.
    BootstrapDesync,
    /// A diff does not continue where the previous one ended.
    ChainDesync,
    /// A quote was asked for a size that is not positive.
    InvalidQuoteSize,
    /// The side of the book has no levels.
    EmptyBook,
    /// A price or a quantity left the range that a decimal can hold.
    Overflow,
}

impl Error {
    /// The error in words.
    pub open spec fn message_spec(&self) -> Seq<char> {
        match self {
            Error::MalformedMessage => "Malformed message"@,
            Error::BootstrapDesync => "First event out of sync"@,
            Error::ChainDesync => "Event out of sync"@,
            Error::InvalidQuoteSize => "Quote size is not positive"@,
            Error::EmptyBook => "Side of the book is empty"@,
            Error::Overflow => "Decimal overflow"@,
        }
    }

    /// The error in words.
    pub fn message(&self) -> (r: &'static str)
        ensures
            r@ == self.message_spec(),
    {
        match self {
            Error::MalformedMessage => "Malformed message",
            Error::BootstrapDesync => "First event out of sync",
            Error::ChainDesync => "Event out of sync",
            Error::InvalidQuoteSize => "Quote size is not positive",
            Error::EmptyBook => "Side of the book is empty",
            Error::Overflow => "Decimal overflow",
        }
    }
}

} // verus!
