use vstd::prelude::*;

use crate::flags::Flags;
use crate::flags::QR;
use crate::flags::flags_of_word;
use crate::flags::lemma_flags_round_trip;
use crate::flags::word_of_flags;
use crate::parse_error::ParseError;
use crate::parse_error::ParseResult;
use crate::parsing::Reader;
use crate::parsing::be_at;
use crate::parsing::lemma_pow256_small;
use crate::serializing::Writer;
use crate::serializing::be_bytes;
use crate::serializing::lemma_be_round_trip;

verus! {

/// The fixed twelve bytes that open every message.
#[derive(Debug, Clone, Copy, PartialEq, Eq, Structural)]
pub struct MessageHeader {
    pub id: u16,
    pub flags: Flags,
    pub qd_count: u16,
    pub an_count: u16,
    pub ns_count: u16,
    pub ar_count: u16,
}

/// The header that twelve bytes of `data` from `pos` on hold.
pub open spec fn header_at(data: Seq<u8>, pos: int) -> MessageHeader {
    MessageHeader {
        id: be_at(data, pos, 2) as u16,
        flags: flags_of_word(be_at(data, pos + 2, 2) as u16),
        qd_count: be_at(data, pos + 4, 2) as u16,
        an_count: be_at(data, pos + 6, 2) as u16,
        ns_count: be_at(data, pos + 8, 2) as u16,
        ar_count: be_at(data, pos + 10, 2) as u16,
    }
}

/// The bytes written for a header.
pub open spec fn header_bytes(h: MessageHeader) -> Seq<u8> {
    be_bytes(h.id as nat, 2) + be_bytes(word_of_flags(h.flags) as nat, 2) + be_bytes(
        h.qd_count as nat,
        2,
    ) + be_bytes(h.an_count as nat, 2) + be_bytes(h.ns_count as nat, 2) + be_bytes(
        h.ar_count as nat,
        2,
    )
}

/// Relies on rand::random: some 16-bit value, drawn from the thread's
/// generator.
#[verifier::external_body]
fn random_id() -> (r: u16) {
    rand::random::<u16>()
}

impl MessageHeader {
    /// The header of a query with the given ID: one question, no records.
    pub open spec fn new_query_with_id_spec(id: u16, recurse: bool) -> MessageHeader {
        MessageHeader {
            id,
            flags: Flags::new_query_spec(recurse),
            qd_count: 1,
            an_count: 0,
            ns_count: 0,
            ar_count: 0,
        }
    }

    /// The header of the response to `query`, with the given section sizes.
    pub open spec fn new_response_spec(
        query: MessageHeader,
        num_answers: u16,
        num_authoritive_answers: u16,
        num_additionals: u16,
    ) -> MessageHeader {
        MessageHeader {
            id: query.id,
            flags: Flags::new_response_spec(query.flags),
            qd_count: query.qd_count,
            an_count: num_answers,
            ns_count: num_authoritive_answers,
            ar_count: num_additionals,
        }
    }

    pub fn parse(reader: &mut Reader) -> (r: ParseResult<MessageHeader>)
        ensures
            final(reader).data() == old(reader).data(),
            old(reader).fits(12) ==> r == Ok::<MessageHeader, ParseError>(
                header_at(old(reader).data(), old(reader).pos()),
            ) && final(reader).pos() == old(reader).pos() + 12,
            !old(reader).fits(12) ==> r is Err && r->Err_0 is BufferReadError,
    {
        let id = match reader.read_u16() {
            Ok(v) => v,
            Err(e) => {
                return Err(ParseError::BufferReadError(e));
            },
        };
        let flags = match Flags::parse(reader) {
            Ok(f) => f,
            Err(e) => {
                return Err(e);
            },
        };
        let qd_count = match reader.read_u16() {
            Ok(v) => v,
            Err(e) => {
                return Err(ParseError::BufferReadError(e));
            },
        };
        let an_count = match reader.read_u16() {
            Ok(v) => v,
            Err(e) => {
                return Err(ParseError::BufferReadError(e));
            },
        };
        let ns_count = match reader.read_u16() {
            Ok(v) => v,
            Err(e) => {
                return Err(ParseError::BufferReadError(e));
            },
        };
        let ar_count = match reader.read_u16() {
            Ok(v) => v,
            Err(e) => {
                return Err(ParseError::BufferReadError(e));
            },
        };
        Ok(MessageHeader { id, flags, qd_count, an_count, ns_count, ar_count })
    }

    pub fn serialize(&self, writer: &mut Writer)
        ensures
            final(writer)@ == old(writer)@ + header_bytes(*self),
            forall|k: Seq<char>| #[trigger] final(writer).label_offset(k) == old(writer).label_offset(k),
    {
        writer.write_u16(self.id);
        self.flags.serialize(writer);
        writer.write_u16(self.qd_count);
        writer.write_u16(self.an_count);
        writer.write_u16(self.ns_count);
        writer.write_u16(self.ar_count);
        assert(final(writer)@ =~= old(writer)@ + header_bytes(*self));
    }

    pub fn new_query_with_id(id: u16, recurse: bool) -> (r: Self)
        ensures
            r == Self::new_query_with_id_spec(id, recurse),
    {
        Self {
            id,
            flags: Flags::new_query(recurse),
            qd_count: 1,
            an_count: 0,
            ns_count: 0,
            ar_count: 0,
        }
    }

    /// The header of a query with a random ID: one question, no records.
    pub fn new_query(recurse: bool) -> (r: Self)
        ensures
            r == Self::new_query_with_id_spec(r.id, recurse),
    {
        Self::new_query_with_id(random_id(), recurse)
    }

    pub fn new_response(
        query: &MessageHeader,
        num_answers: u16,
        num_authoritive_answers: u16,
        num_additionals: u16,
    ) -> (r: Self)
        ensures
            r == Self::new_response_spec(
                *query,
                num_answers,
                num_authoritive_answers,
                num_additionals,
            ),
    {
        Self {
            id: query.id,
            flags: Flags::new_response(&query.flags),
            qd_count: query.qd_count,
            an_count: num_answers,
            ns_count: num_authoritive_answers,
            ar_count: num_additionals,
        }
    }

    pub fn is_query(&self) -> (r: bool)
        ensures
            r == (self.flags.qr == QR::Query),
    {
        self.flags.is_query()
    }

    pub fn do_recursion(&self) -> (r: bool)
        ensures
            r == self.flags.rd,
    {
        self.flags.recurse()
    }
}

/// A header with canonical flags decodes from the bytes written for it,
/// wherever they stand.
pub proof fn lemma_header_round_trip(data: Seq<u8>, pos: int, h: MessageHeader)
    requires
        h.flags.canonical(),
        0 <= pos,
        pos + 12 <= data.len(),
        data.subrange(pos, pos + 12) == header_bytes(h),
    ensures
        header_bytes(h).len() == 12,
        header_at(data, pos) == h,
{
    lemma_pow256_small();
    let w = word_of_flags(h.flags);
    lemma_be_round_trip(h.id as nat, 2);
    lemma_be_round_trip(w as nat, 2);
    lemma_be_round_trip(h.qd_count as nat, 2);
    lemma_be_round_trip(h.an_count as nat, 2);
    lemma_be_round_trip(h.ns_count as nat, 2);
    lemma_be_round_trip(h.ar_count as nat, 2);
    lemma_flags_round_trip(h.flags);
    let hb = header_bytes(h);
    assert(data.subrange(pos, pos + 2) =~= hb.subrange(0, 2));
    assert(hb.subrange(0, 2) =~= be_bytes(h.id as nat, 2));
    assert(data.subrange(pos + 2, pos + 4) =~= hb.subrange(2, 4));
    assert(hb.subrange(2, 4) =~= be_bytes(w as nat, 2));
    assert(data.subrange(pos + 4, pos + 6) =~= hb.subrange(4, 6));
    assert(hb.subrange(4, 6) =~= be_bytes(h.qd_count as nat, 2));
    assert(data.subrange(pos + 6, pos + 8) =~= hb.subrange(6, 8));
    assert(hb.subrange(6, 8) =~= be_bytes(h.an_count as nat, 2));
    assert(data.subrange(pos + 8, pos + 10) =~= hb.subrange(8, 10));
    assert(hb.subrange(8, 10) =~= be_bytes(h.ns_count as nat, 2));
    assert(data.subrange(pos + 10, pos + 12) =~= hb.subrange(10, 12));
    assert(hb.subrange(10, 12) =~= be_bytes(h.ar_count as nat, 2));
}

/// A new query's header, once written and decoded again, is still a query
/// for one question with no records, and keeps its ID; the response built
/// from that decoded header keeps the ID and the question count.
pub proof fn lemma_query_response_ids(id: u16, recurse: bool, data: Seq<u8>, an: u16)
    requires
        12 <= data.len(),
        data.subrange(0, 12) == header_bytes(MessageHeader::new_query_with_id_spec(id, recurse)),
    ensures
        header_at(data, 0) == MessageHeader::new_query_with_id_spec(id, recurse),
        MessageHeader::new_response_spec(header_at(data, 0), an, 0, 0).id == id,
        MessageHeader::new_response_spec(header_at(data, 0), an, 0, 0).qd_count == 1,
{
    lemma_header_round_trip(data, 0, MessageHeader::new_query_with_id_spec(id, recurse));
}

} // verus!
