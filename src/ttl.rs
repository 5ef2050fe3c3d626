use vstd::prelude::*;

use crate::parse_error::ParseError;
use crate::parse_error::ParseResult;
use crate::parsing::Reader;
use crate::parsing::be_at;
use crate::serializing::Writer;
use crate::serializing::be_bytes;

verus! {

/// How long a record may be cached.
#[derive(Debug, Clone, Copy, PartialEq, Eq, Structural)]
pub enum TTL {
    /// The record should not be cached (wire value 0).
    NoCache,
    /// The record may be cached for this many seconds.
    Cache(u32),
}

/// The TTL that a wire value stands for.
pub open spec fn ttl_of_seconds(seconds: u32) -> TTL {
    if seconds == 0 {
        TTL::NoCache
    } else {
        TTL::Cache(seconds)
    }
}

/// The wire value of a TTL.
pub open spec fn seconds_of_ttl(t: TTL) -> u32 {
    match t {
        TTL::NoCache => 0,
        TTL::Cache(s) => s,
    }
}

impl TTL {
    /// `Cache` holds a positive number of seconds.
    pub open spec fn well_formed(&self) -> bool {
        match self {
            TTL::NoCache => true,
            TTL::Cache(s) => *s > 0,
        }
    }

    pub fn parse(reader: &mut Reader) -> (r: ParseResult<TTL>)
        ensures
            final(reader).data() == old(reader).data(),
            old(reader).fits(4) ==> r == Ok::<TTL, ParseError>(
                ttl_of_seconds(be_at(old(reader).data(), old(reader).pos(), 4) as u32),
            ) && final(reader).pos() == old(reader).pos() + 4,
            !old(reader).fits(4) ==> r is Err && r->Err_0 is BufferReadError,
    {
        let seconds = match reader.read_u32() {
            Ok(v) => v,
            Err(e) => {
                return Err(ParseError::BufferReadError(e));
            },
        };
        if seconds == 0 {
            Ok(TTL::NoCache)
        } else {
            Ok(TTL::Cache(seconds))
        }
    }

    pub fn serialize(&self, writer: &mut Writer)
        ensures
            final(writer)@ == old(writer)@ + be_bytes(seconds_of_ttl(*self) as nat, 4),
            forall|k: Seq<char>| #[trigger] final(writer).label_offset(k) == old(writer).label_offset(k),
    {
        writer.write_u32(self.seconds_until_expiration());
    }

    /// The seconds for which the record may be cached; 0 for `NoCache`.
    pub fn seconds_until_expiration(&self) -> (r: u32)
        ensures
            r == seconds_of_ttl(*self),
    {
        match self {
            TTL::NoCache => 0,
            TTL::Cache(s) => *s,
        }
    }

    /// The TTL for a remaining number of seconds: `NoCache` when none remain.
    pub fn from_seconds(seconds: u32) -> (r: TTL)
        ensures
            r == ttl_of_seconds(seconds),
            r.well_formed(),
    {
        if seconds == 0 {
            TTL::NoCache
        } else {
            TTL::Cache(seconds)
        }
    }
}

/// A well-formed TTL decodes from its wire value, and every wire value is the
/// value of the TTL it decodes to.
pub proof fn lemma_ttl_round_trip(t: TTL, seconds: u32)
    requires
        t.well_formed(),
    ensures
        ttl_of_seconds(seconds_of_ttl(t)) == t,
        seconds_of_ttl(ttl_of_seconds(seconds)) == seconds,
        ttl_of_seconds(seconds).well_formed(),
        ttl_of_seconds(0) == TTL::NoCache,
{
}

} // verus!
