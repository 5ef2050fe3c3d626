use vstd::prelude::*;

use crate::parsing::ReaderError;
use crate::rr_type::RRType;

verus! {

/// Why a message, or a part of one, could not be decoded.
#[derive(Debug)]
pub enum ParseError {
    /// The input ended early, or held text that is not UTF-8.
    BufferReadError(ReaderError),
    Question,
    Answer,
    Authority,
    Additional,
    /// A malformed domain name, with the labels decoded before the fault.
    DomainNameError(Vec<String>),
    /// Record data of a type that has no decoder.
    UnsupportedType(RRType),
}

pub type ParseResult<T> = Result<T, ParseError>;

/// Why decoding failed, as the contracts state it.
pub enum DecodeError {
    BufferRead,
    DomainName(Seq<Seq<char>>),
    Unsupported(RRType),
    Question,
    Answer,
    Authority,
    Additional,
}

/// What decoding a value of view `V` from some offset comes to: the value
/// and the offset after it, or the failure.
pub type Decoded<V> = Result<(V, int), DecodeError>;

/// Whether `e` is the error that `d` describes.
pub open spec fn error_matches(e: ParseError, d: DecodeError) -> bool {
    match d {
        DecodeError::BufferRead => e is BufferReadError,
        DecodeError::DomainName(labels) => e is DomainNameError
            && e->DomainNameError_0.deep_view() == labels,
        DecodeError::Unsupported(t) => e is UnsupportedType && e->UnsupportedType_0 == t,
        DecodeError::Question => e is Question,
        DecodeError::Answer => e is Answer,
        DecodeError::Authority => e is Authority,
        DecodeError::Additional => e is Additional,
    }
}

/// Whether a parse result is what decoding came to.
pub open spec fn parse_matches<T: View>(r: ParseResult<T>, d: Decoded<T::V>) -> bool {
    match d {
        Ok((v, _)) => r is Ok && r->Ok_0@ == v,
        Err(e) => r is Err && error_matches(r->Err_0, e),
    }
}

} // verus!
