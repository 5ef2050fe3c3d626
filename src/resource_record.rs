use vstd::prelude::*;

use crate::class::Class;
use crate::class::class_of_code;
use crate::class::code_of_class;
use crate::class::lemma_class_round_trip;
use crate::class::QClass;
use crate::domain_name::DomainName;
use crate::domain_name::labels_fit;
use crate::domain_name::labels_well_formed;
use crate::domain_name::lemma_name_round_trip;
use crate::domain_name::MAX_POINTER_JUMPS;
use crate::domain_name::name_at;
use crate::domain_name::name_bytes;
use crate::domain_name::name_result;
use crate::parse_error::DecodeError;
use crate::parse_error::Decoded;
use crate::parse_error::ParseError;
use crate::parse_error::ParseResult;
use crate::parse_error::parse_matches;
use crate::parsing::Reader;
use crate::parsing::be_at;
use crate::parsing::lemma_pow256_small;
use crate::rr_data::RRData;
use crate::rr_data::RRDataModel;
use crate::rr_data::rdata_at;
use crate::rr_data::rdata_bytes;
use crate::rr_data::rdata_fits;
use crate::rr_data::rdata_well_formed;
use crate::rr_data::lemma_rdata_round_trip;
use crate::rr_data::lemma_u32_at;
use crate::rr_data::type_of_data;
use crate::rr_type::RRType;
use crate::rr_type::code_of_rr_type;
use crate::rr_type::rr_type_of_code;
use crate::rr_type::lemma_rr_type_round_trip;
use crate::serializing::Writer;
use crate::serializing::be_bytes;
use crate::serializing::lemma_be_round_trip;
use crate::ttl::TTL;
use crate::ttl::seconds_of_ttl;
use crate::ttl::ttl_of_seconds;
use crate::ttl::lemma_ttl_round_trip;

verus! {

/// One record of the answer, authority or additional section.
#[derive(Debug)]
pub struct ResourceRecord {
    pub name: DomainName,
    pub record_type: RRType,
    pub class: Class,
    pub ttl: TTL,
    /// The data length that was declared on the wire.
    pub rd_length: u16,
    pub rdata: RRData,
}

pub struct RecordModel {
    pub name: Seq<Seq<char>>,
    pub record_type: RRType,
    pub class: Class,
    pub ttl: TTL,
    pub rd_length: u16,
    pub rdata: RRDataModel,
}

impl View for ResourceRecord {
    type V = RecordModel;

    open spec fn view(&self) -> RecordModel {
        RecordModel {
            name: self.name@,
            record_type: self.record_type,
            class: self.class,
            ttl: self.ttl,
            rd_length: self.rd_length,
            rdata: self.rdata@,
        }
    }
}

impl Clone for ResourceRecord {
    fn clone(&self) -> (r: Self)
        ensures
            r@ == self@,
    {
        ResourceRecord {
            name: self.name.clone(),
            record_type: self.record_type,
            class: self.class,
            ttl: self.ttl,
            rd_length: self.rd_length,
            rdata: self.rdata.clone(),
        }
    }
}

/// The record at `pos` of the message `data`.
pub open spec fn record_at(data: Seq<u8>, pos: int) -> Decoded<RecordModel> {
    match name_result(name_at(data, pos)) {
        Err(e) => Err(e),
        Ok((name, p)) => if p + 10 > data.len() {
            Err(DecodeError::BufferRead)
        } else {
            let record_type = rr_type_of_code(be_at(data, p, 2) as u16);
            let rd_length = be_at(data, p + 8, 2) as u16;
            match rdata_at(data, p + 10, record_type, rd_length) {
                Err(e) => Err(e),
                Ok((rdata, q)) => Ok(
                    (
                        RecordModel {
                            name,
                            record_type,
                            class: class_of_code(be_at(data, p + 2, 2) as u16),
                            ttl: ttl_of_seconds(be_at(data, p + 4, 4) as u32),
                            rd_length,
                            rdata,
                        },
                        q,
                    ),
                ),
            }
        },
    }
}

/// The bytes written for a record: the data length is that of the data
/// written, whatever `rd_length` holds.
pub open spec fn record_bytes(r: RecordModel) -> Seq<u8> {
    name_bytes(r.name) + be_bytes(code_of_rr_type(r.record_type) as nat, 2) + be_bytes(
        code_of_class(r.class) as nat,
        2,
    ) + be_bytes(seconds_of_ttl(r.ttl) as nat, 4) + be_bytes(rdata_bytes(r.rdata).len(), 2)
        + rdata_bytes(r.rdata)
}

/// The record can be written: its names fit the length octets and its data
/// fits a 16-bit length.
pub open spec fn record_fits(r: RecordModel) -> bool {
    labels_fit(r.name) && rdata_fits(r.rdata) && rdata_bytes(r.rdata).len() <= 0xffff
}

impl ResourceRecord {
    pub fn parse(reader: &mut Reader) -> (r: ParseResult<ResourceRecord>)
        ensures
            final(reader).data() == old(reader).data(),
            parse_matches(r, record_at(old(reader).data(), old(reader).pos())),
            r is Ok ==> final(reader).pos() == record_at(old(reader).data(), old(reader).pos())->Ok_0.1,
    {
        let name = match DomainName::parse(reader) {
            Ok(n) => n,
            Err(e) => {
                return Err(e);
            },
        };
        let record_type = match RRType::parse(reader) {
            Ok(t) => t,
            Err(e) => {
                return Err(e);
            },
        };
        let class = match Class::parse(reader) {
            Ok(c) => c,
            Err(e) => {
                return Err(e);
            },
        };
        let ttl = match TTL::parse(reader) {
            Ok(t) => t,
            Err(e) => {
                return Err(e);
            },
        };
        let rd_length = match reader.read_u16() {
            Ok(v) => v,
            Err(e) => {
                return Err(ParseError::BufferReadError(e));
            },
        };
        let rdata = match RRData::parse(reader, &record_type, rd_length) {
            Ok(d) => d,
            Err(e) => {
                return Err(e);
            },
        };
        Ok(Self { name, record_type, class, ttl, rd_length, rdata })
    }

    /// Writes the record; the data is written to a buffer of its own first,
    /// so that its length can precede it.
    pub fn serialize(&self, writer: &mut Writer)
        requires
            record_fits(self@),
        ensures
            final(writer)@ == old(writer)@ + record_bytes(self@),
    {
        self.name.serialize(writer);
        self.record_type.serialize(writer);
        self.class.serialize(writer);
        self.ttl.serialize(writer);

        let mut inner_writer = Writer::new();
        self.rdata.serialize(&mut inner_writer);

        writer.write_u16(inner_writer.len() as u16);
        writer.merge(&mut inner_writer);
        assert(final(writer)@ =~= old(writer)@ + record_bytes(self@));
    }

    /// Whether the record can be written, as `serialize` needs.
    pub fn is_encodable(&self) -> (r: bool)
        ensures
            r == record_fits(self@),
    {
        let names_fit = match &self.rdata {
            RRData::CNAME(n) => n.is_encodable(),
            RRData::SOA(s) => s.m_name.is_encodable() && s.r_name.is_encodable(),
            _ => true,
        };
        if !names_fit || !self.name.is_encodable() {
            return false;
        }
        let mut inner_writer = Writer::new();
        self.rdata.serialize(&mut inner_writer);
        inner_writer.len() <= 0xffff
    }

    pub fn get_query_name_type(&self) -> (r: (DomainName, RRType))
        ensures
            r.0@ == self.name@,
            r.1 == self.record_type,
    {
        (self.name.clone(), self.record_type)
    }

    pub fn seconds_until_expiration(&self) -> (r: u32)
        ensures
            r == seconds_of_ttl(self.ttl),
    {
        self.ttl.seconds_until_expiration()
    }

    /// Replaces the TTL by one of `seconds` (`NoCache` for none).
    pub fn set_ttl(&mut self, seconds: u32)
        ensures
            final(self)@ == (RecordModel { ttl: ttl_of_seconds(seconds), ..old(self)@ }),
    {
        self.ttl = TTL::from_seconds(seconds);
    }
}

/// The record is as `parse` gives it for data that `serialize` wrote: a
/// well-formed name and TTL, a type that matches the data, and the declared
/// length that of the data.
pub open spec fn record_well_formed(r: RecordModel) -> bool {
    &&& labels_well_formed(r.name)
    &&& r.ttl.well_formed()
    &&& r.record_type == type_of_data(r.rdata)
    &&& rdata_well_formed(r.rdata)
    &&& rdata_bytes(r.rdata).len() <= 0xffff
    &&& r.rd_length == rdata_bytes(r.rdata).len()
}

/// The two bytes from `pos` read as the integer `v` that they were written
/// from.
pub proof fn lemma_u16_at(data: Seq<u8>, pos: int, v: u16)
    requires
        0 <= pos,
        pos + 2 <= data.len(),
        data.subrange(pos, pos + 2) == be_bytes(v as nat, 2),
    ensures
        be_at(data, pos, 2) == v,
{
    lemma_pow256_small();
    lemma_be_round_trip(v as nat, 2);
}

/// A well-formed record decodes from the bytes written for it, wherever they
/// stand.
pub proof fn lemma_record_round_trip(data: Seq<u8>, pos: int, r: RecordModel)
    requires
        record_well_formed(r),
        0 <= pos,
        pos + record_bytes(r).len() <= data.len(),
        data.subrange(pos, pos + record_bytes(r).len()) == record_bytes(r),
    ensures
        record_at(data, pos) == Ok::<(RecordModel, int), DecodeError>(
            (r, pos + record_bytes(r).len()),
        ),
{
    lemma_pow256_small();
    let rb = record_bytes(r);
    let nb = name_bytes(r.name);
    let db = rdata_bytes(r.rdata);
    let n = nb.len() as int;
    let p = pos + n;
    let tc = code_of_rr_type(r.record_type);
    let cc = code_of_class(r.class);
    let secs = seconds_of_ttl(r.ttl);
    let len = db.len() as u16;
    lemma_be_round_trip(tc as nat, 2);
    lemma_be_round_trip(cc as nat, 2);
    lemma_be_round_trip(secs as nat, 4);
    lemma_be_round_trip(len as nat, 2);
    assert(rb.len() == n + 10 + db.len());
    assert(data.subrange(pos, p) =~= rb.subrange(0, n));
    assert(rb.subrange(0, n) =~= nb);
    lemma_name_round_trip(data, pos, r.name, MAX_POINTER_JUMPS as nat, seq![]);
    assert(Seq::<Seq<char>>::empty() + r.name =~= r.name);
    assert(data.subrange(p, p + 2) =~= rb.subrange(n, n + 2));
    assert(rb.subrange(n, n + 2) =~= be_bytes(tc as nat, 2));
    lemma_u16_at(data, p, tc);
    lemma_rr_type_round_trip(r.record_type);
    assert(data.subrange(p + 2, p + 4) =~= rb.subrange(n + 2, n + 4));
    assert(rb.subrange(n + 2, n + 4) =~= be_bytes(cc as nat, 2));
    lemma_u16_at(data, p + 2, cc);
    lemma_class_round_trip(r.class, QClass::IN);
    assert(data.subrange(p + 4, p + 8) =~= rb.subrange(n + 4, n + 8));
    assert(rb.subrange(n + 4, n + 8) =~= be_bytes(secs as nat, 4));
    lemma_u32_at(data, p + 4, secs);
    lemma_ttl_round_trip(r.ttl, secs);
    assert(data.subrange(p + 8, p + 10) =~= rb.subrange(n + 8, n + 10));
    assert(rb.subrange(n + 8, n + 10) =~= be_bytes(len as nat, 2));
    lemma_u16_at(data, p + 8, len);
    assert(data.subrange(p + 10, p + 10 + db.len()) =~= rb.subrange(n + 10, rb.len() as int));
    assert(rb.subrange(n + 10, rb.len() as int) =~= db);
    lemma_rdata_round_trip(data, p + 10, r.rdata);
}

} // verus!
