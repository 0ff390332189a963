//! Error taxonomy of the decoder and the query operations.

use vstd::prelude::*;

verus! {

/// Everything that can go wrong while decoding a TZif buffer or answering a
/// query about a decoded zone.
#[derive(Debug, PartialEq, Eq, Clone, Copy, Structural)]
pub enum TzError {
    /// A requested zone name could not be derived.
    InvalidTimezone,
    /// The buffer does not begin with the fixed 4-byte tag.
    InvalidMagic,
    /// The abbreviation blob is not valid UTF-8.
    BadUtf8String,
    /// The version byte does not identify the 64-bit layout.
    UnsupportedFormat,
    /// No transition matched the request.
    NoData,
    /// A record's index points outside the table it refers to, or the header
    /// holds no local-time type at all.
    ParseError,
    /// The abbreviation blob does not end with its required NUL terminator.
    EmptyString,
    /// The buffer is shorter than the field ranges computed from the header.
    BoundsError,
}

/// The text `message` returns for each error.
pub open spec fn spec_message(e: TzError) -> Seq<char> {
    match e {
        TzError::InvalidTimezone => "Invalid timezone"@,
        TzError::InvalidMagic => "Invalid TZfile"@,
        TzError::BadUtf8String => "Bad utf8 string"@,
        TzError::UnsupportedFormat => "Only V2 format is supported"@,
        TzError::NoData => "No data matched the request"@,
        TzError::ParseError => "Parsing error"@,
        TzError::EmptyString => "Empty string"@,
        TzError::BoundsError => "Data out of bounds"@,
    }
}

impl TzError {
    /// A short description of the error, for display.
    pub fn message(&self) -> (r: String)
        ensures
            r@ == spec_message(*self),
    {
        match self {
            TzError::InvalidTimezone => String::from_str("Invalid timezone"),
            TzError::InvalidMagic => String::from_str("Invalid TZfile"),
            TzError::BadUtf8String => String::from_str("Bad utf8 string"),
            TzError::UnsupportedFormat => String::from_str("Only V2 format is supported"),
            TzError::NoData => String::from_str("No data matched the request"),
            TzError::ParseError => String::from_str("Parsing error"),
            TzError::EmptyString => String::from_str("Empty string"),
            TzError::BoundsError => String::from_str("Data out of bounds"),
        }
    }
}

} // verus!
