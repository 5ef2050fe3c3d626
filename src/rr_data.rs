use vstd::prelude::*;
use vstd::utf8::decode_utf8;
use vstd::utf8::encode_utf8;
use vstd::utf8::encode_utf8_decode_utf8;
use vstd::utf8::encode_utf8_valid_utf8;
use vstd::utf8::valid_utf8;

use crate::domain_name::DomainName;
use crate::domain_name::labels_fit;
use crate::domain_name::labels_well_formed;
use crate::domain_name::lemma_name_round_trip;
use crate::domain_name::name_at;
use crate::domain_name::name_bytes;
use crate::domain_name::name_result;
use crate::parse_error::DecodeError;
use crate::parse_error::Decoded;
use crate::parse_error::ParseError;
use crate::parse_error::ParseResult;
use crate::parse_error::parse_matches;
use crate::parsing::Reader;
use crate::parsing::be_at;
use crate::parsing::lemma_pow256_small;
use crate::rr_type::RRType;
use crate::serializing::Writer;
use crate::serializing::be_bytes;
use crate::serializing::lemma_be_round_trip;

verus! {

/// An IPv4 address as its 32-bit number.
#[derive(Debug, Clone, Copy, PartialEq, Eq, Structural)]
pub struct IPV4Address {
    pub address: u32,
}

impl IPV4Address {
    pub fn parse(reader: &mut Reader) -> (r: ParseResult<Self>)
        ensures
            final(reader).data() == old(reader).data(),
            old(reader).fits(4) ==> r is Ok && r->Ok_0.address == be_at(
                old(reader).data(),
                old(reader).pos(),
                4,
            ) && final(reader).pos() == old(reader).pos() + 4,
            !old(reader).fits(4) ==> r is Err && r->Err_0 is BufferReadError,
    {
        match reader.read_u32() {
            Ok(address) => Ok(IPV4Address { address }),
            Err(e) => Err(ParseError::BufferReadError(e)),
        }
    }

    /// The four octets, most significant first.
    pub fn octets(&self) -> (r: [u8; 4])
        ensures
            r@ == be_bytes(self.address as nat, 4),
    {
        let a = self.address;
        let r = [(a / 0x100_0000) as u8, (a / 0x1_0000 % 256) as u8, (a / 256 % 256) as u8, (a
            % 256) as u8];
        let ghost v = a as nat;
        assert(v / 256 / 256 == v / 0x1_0000 && v / 0x1_0000 / 256 == v / 0x100_0000 && v
            / 0x100_0000 % 256 == v / 0x100_0000) by (nonlinear_arith)
            requires
                v < 0x1_0000_0000,
        ;
        assert(r@ =~= be_bytes(v, 4)) by {
            reveal_with_fuel(be_bytes, 5);
        }
        r
    }
}

/// The data of an A record: an IPv4 address.
#[derive(Debug, Clone, Copy, PartialEq, Eq, Structural)]
pub struct A {
    pub address: IPV4Address,
}

impl A {
    pub fn parse(reader: &mut Reader) -> (r: ParseResult<Self>)
        ensures
            final(reader).data() == old(reader).data(),
            old(reader).fits(4) ==> r is Ok && r->Ok_0.address.address == be_at(
                old(reader).data(),
                old(reader).pos(),
                4,
            ) && final(reader).pos() == old(reader).pos() + 4,
            !old(reader).fits(4) ==> r is Err && r->Err_0 is BufferReadError,
    {
        match IPV4Address::parse(reader) {
            Ok(address) => Ok(A { address }),
            Err(e) => Err(e),
        }
    }

    pub fn serialize(&self, writer: &mut Writer)
        ensures
            final(writer)@ == old(writer)@ + be_bytes(self.address.address as nat, 4),
    {
        writer.write_u32(self.address.address);
    }
}

/// The data of an AAAA record: an IPv6 address as its sixteen octets.
#[derive(Debug, Clone, Copy)]
pub struct AAAA {
    pub address: [u8; 16],
}

impl AAAA {
    pub fn parse(reader: &mut Reader) -> (r: ParseResult<Self>)
        ensures
            final(reader).data() == old(reader).data(),
            old(reader).fits(16) ==> r is Ok && r->Ok_0.address@ == old(reader).data().subrange(
                old(reader).pos(),
                old(reader).pos() + 16,
            ) && final(reader).pos() == old(reader).pos() + 16,
            !old(reader).fits(16) ==> r is Err && r->Err_0 is BufferReadError,
    {
        match reader.read_array::<16>() {
            Ok(address) => Ok(AAAA { address }),
            Err(e) => Err(ParseError::BufferReadError(e)),
        }
    }

    pub fn serialize(&self, writer: &mut Writer)
        ensures
            final(writer)@ == old(writer)@ + self.address@,
    {
        writer.write_bytes(self.address.as_slice());
    }
}

/// The start of a zone of authority.
#[derive(Debug)]
pub struct SOA {
    pub m_name: DomainName,
    pub r_name: DomainName,
    pub serial: u32,
    pub refresh: u32,
    pub retry: u32,
    pub expire: u32,
    pub minimum: u32,
}

pub struct SoaModel {
    pub m_name: Seq<Seq<char>>,
    pub r_name: Seq<Seq<char>>,
    pub serial: u32,
    pub refresh: u32,
    pub retry: u32,
    pub expire: u32,
    pub minimum: u32,
}

impl View for SOA {
    type V = SoaModel;

    open spec fn view(&self) -> SoaModel {
        SoaModel {
            m_name: self.m_name@,
            r_name: self.r_name@,
            serial: self.serial,
            refresh: self.refresh,
            retry: self.retry,
            expire: self.expire,
            minimum: self.minimum,
        }
    }
}

/// The SOA data at `pos` of the message `data`.
pub open spec fn soa_at(data: Seq<u8>, pos: int) -> Decoded<SoaModel> {
    match name_result(name_at(data, pos)) {
        Err(e) => Err(e),
        Ok((m_name, p)) => match name_result(name_at(data, p)) {
            Err(e) => Err(e),
            Ok((r_name, q)) => if q + 20 > data.len() {
                Err(DecodeError::BufferRead)
            } else {
                Ok(
                    (
                        SoaModel {
                            m_name,
                            r_name,
                            serial: be_at(data, q, 4) as u32,
                            refresh: be_at(data, q + 4, 4) as u32,
                            retry: be_at(data, q + 8, 4) as u32,
                            expire: be_at(data, q + 12, 4) as u32,
                            minimum: be_at(data, q + 16, 4) as u32,
                        },
                        q + 20,
                    ),
                )
            },
        },
    }
}

/// The bytes written for SOA data.
pub open spec fn soa_bytes(s: SoaModel) -> Seq<u8> {
    name_bytes(s.m_name) + name_bytes(s.r_name) + be_bytes(s.serial as nat, 4) + be_bytes(
        s.refresh as nat,
        4,
    ) + be_bytes(s.retry as nat, 4) + be_bytes(s.expire as nat, 4) + be_bytes(s.minimum as nat, 4)
}

impl Clone for SOA {
    fn clone(&self) -> (r: Self)
        ensures
            r@ == self@,
    {
        SOA {
            m_name: self.m_name.clone(),
            r_name: self.r_name.clone(),
            serial: self.serial,
            refresh: self.refresh,
            retry: self.retry,
            expire: self.expire,
            minimum: self.minimum,
        }
    }
}

impl SOA {
    pub fn parse(reader: &mut Reader) -> (r: ParseResult<Self>)
        ensures
            final(reader).data() == old(reader).data(),
            parse_matches(r, soa_at(old(reader).data(), old(reader).pos())),
            r is Ok ==> final(reader).pos() == soa_at(old(reader).data(), old(reader).pos())->Ok_0.1,
    {
        let m_name = match DomainName::parse(reader) {
            Ok(n) => n,
            Err(e) => {
                return Err(e);
            },
        };
        let r_name = match DomainName::parse(reader) {
            Ok(n) => n,
            Err(e) => {
                return Err(e);
            },
        };
        let serial = match reader.read_u32() {
            Ok(v) => v,
            Err(e) => {
                return Err(ParseError::BufferReadError(e));
            },
        };
        let refresh = match reader.read_u32() {
            Ok(v) => v,
            Err(e) => {
                return Err(ParseError::BufferReadError(e));
            },
        };
        let retry = match reader.read_u32() {
            Ok(v) => v,
            Err(e) => {
                return Err(ParseError::BufferReadError(e));
            },
        };
        let expire = match reader.read_u32() {
            Ok(v) => v,
            Err(e) => {
                return Err(ParseError::BufferReadError(e));
            },
        };
        let minimum = match reader.read_u32() {
            Ok(v) => v,
            Err(e) => {
                return Err(ParseError::BufferReadError(e));
            },
        };
        Ok(SOA { m_name, r_name, serial, refresh, retry, expire, minimum })
    }

    pub fn serialize(&self, writer: &mut Writer)
        requires
            labels_fit(self.m_name@),
            labels_fit(self.r_name@),
        ensures
            final(writer)@ == old(writer)@ + soa_bytes(self@),
    {
        self.m_name.serialize(writer);
        self.r_name.serialize(writer);
        writer.write_u32(self.serial);
        writer.write_u32(self.refresh);
        writer.write_u32(self.retry);
        writer.write_u32(self.expire);
        writer.write_u32(self.minimum);
        assert(final(writer)@ =~= old(writer)@ + soa_bytes(self@));
    }
}

/// The data of a resource record, by type.
#[derive(Debug)]
pub enum RRData {
    CNAME(DomainName),
    A(A),
    AAAA(AAAA),
    SOA(SOA),
    TXT(String),
}

pub enum RRDataModel {
    CNAME(Seq<Seq<char>>),
    A(u32),
    AAAA(Seq<u8>),
    SOA(SoaModel),
    TXT(Seq<char>),
}

impl View for RRData {
    type V = RRDataModel;

    open spec fn view(&self) -> RRDataModel {
        match self {
            RRData::CNAME(n) => RRDataModel::CNAME(n@),
            RRData::A(a) => RRDataModel::A(a.address.address),
            RRData::AAAA(a) => RRDataModel::AAAA(a.address@),
            RRData::SOA(s) => RRDataModel::SOA(s@),
            RRData::TXT(t) => RRDataModel::TXT(t@),
        }
    }
}

impl Clone for RRData {
    fn clone(&self) -> (r: Self)
        ensures
            r@ == self@,
    {
        match self {
            RRData::CNAME(n) => RRData::CNAME(n.clone()),
            RRData::A(a) => RRData::A(*a),
            RRData::AAAA(a) => RRData::AAAA(*a),
            RRData::SOA(s) => RRData::SOA(s.clone()),
            RRData::TXT(t) => RRData::TXT(t.clone()),
        }
    }
}

/// The record type whose data `d` is.
pub open spec fn type_of_data(d: RRDataModel) -> RRType {
    match d {
        RRDataModel::CNAME(_) => RRType::CNAME,
        RRDataModel::A(_) => RRType::A,
        RRDataModel::AAAA(_) => RRType::AAAA,
        RRDataModel::SOA(_) => RRType::SOA,
        RRDataModel::TXT(_) => RRType::TXT,
    }
}

/// Whether the record data of type `t` can be decoded.
pub open spec fn has_data_decoder(t: RRType) -> bool {
    t == RRType::CNAME || t == RRType::A || t == RRType::AAAA || t == RRType::SOA || t
        == RRType::TXT
}

/// The record data of type `t` and declared length `length` at `pos` of
/// the message `data`.
pub open spec fn rdata_at(data: Seq<u8>, pos: int, t: RRType, length: u16) -> Decoded<
    RRDataModel,
> {
    match t {
        RRType::CNAME => match name_result(name_at(data, pos)) {
            Err(e) => Err(e),
            Ok((n, p)) => Ok((RRDataModel::CNAME(n), p)),
        },
        RRType::A => if pos + 4 > data.len() {
            Err(DecodeError::BufferRead)
        } else {
            Ok((RRDataModel::A(be_at(data, pos, 4) as u32), pos + 4))
        },
        RRType::AAAA => if pos + 16 > data.len() {
            Err(DecodeError::BufferRead)
        } else {
            Ok((RRDataModel::AAAA(data.subrange(pos, pos + 16)), pos + 16))
        },
        RRType::SOA => match soa_at(data, pos) {
            Err(e) => Err(e),
            Ok((s, p)) => Ok((RRDataModel::SOA(s), p)),
        },
        RRType::TXT => if pos + length > data.len() || !valid_utf8(
            data.subrange(pos, pos + length),
        ) {
            Err(DecodeError::BufferRead)
        } else {
            Ok((RRDataModel::TXT(decode_utf8(data.subrange(pos, pos + length))), pos + length))
        },
        _ => Err(DecodeError::Unsupported(t)),
    }
}

/// The bytes written for record data.
pub open spec fn rdata_bytes(d: RRDataModel) -> Seq<u8> {
    match d {
        RRDataModel::CNAME(n) => name_bytes(n),
        RRDataModel::A(a) => be_bytes(a as nat, 4),
        RRDataModel::AAAA(a) => a,
        RRDataModel::SOA(s) => soa_bytes(s),
        RRDataModel::TXT(t) => encode_utf8(t),
    }
}

/// Every name in the data fits the length octets.
pub open spec fn rdata_fits(d: RRDataModel) -> bool {
    match d {
        RRDataModel::CNAME(n) => labels_fit(n),
        RRDataModel::SOA(s) => labels_fit(s.m_name) && labels_fit(s.r_name),
        _ => true,
    }
}

impl RRData {
    /// Decodes the data of a record of type `rr_type` whose declared data
    /// length is `length`; types without a decoder are refused.
    pub fn parse(reader: &mut Reader, rr_type: &RRType, length: u16) -> (r: ParseResult<RRData>)
        ensures
            final(reader).data() == old(reader).data(),
            parse_matches(r, rdata_at(old(reader).data(), old(reader).pos(), *rr_type, length)),
            r is Ok ==> final(reader).pos() == rdata_at(
                old(reader).data(),
                old(reader).pos(),
                *rr_type,
                length,
            )->Ok_0.1,
    {
        match rr_type {
            RRType::CNAME => match DomainName::parse(reader) {
                Ok(n) => Ok(RRData::CNAME(n)),
                Err(e) => Err(e),
            },
            RRType::A => match A::parse(reader) {
                Ok(a) => Ok(RRData::A(a)),
                Err(e) => Err(e),
            },
            RRType::AAAA => match AAAA::parse(reader) {
                Ok(a) => Ok(RRData::AAAA(a)),
                Err(e) => Err(e),
            },
            RRType::SOA => match SOA::parse(reader) {
                Ok(s) => Ok(RRData::SOA(s)),
                Err(e) => Err(e),
            },
            RRType::TXT => match reader.read_string(length as usize) {
                Ok(t) => Ok(RRData::TXT(t)),
                Err(e) => Err(ParseError::BufferReadError(e)),
            },
            t => Err(ParseError::UnsupportedType(*t)),
        }
    }

    pub fn serialize(&self, writer: &mut Writer)
        requires
            rdata_fits(self@),
        ensures
            final(writer)@ == old(writer)@ + rdata_bytes(self@),
    {
        match self {
            RRData::CNAME(name) => name.serialize(writer),
            RRData::A(a) => a.serialize(writer),
            RRData::AAAA(aaaa) => aaaa.serialize(writer),
            RRData::SOA(soa) => soa.serialize(writer),
            RRData::TXT(txt) => writer.write_bytes(txt.as_str().as_bytes()),
        }
    }

    /// The record type of this data.
    pub fn rr_type(&self) -> (r: RRType)
        ensures
            r == type_of_data(self@),
    {
        match self {
            RRData::CNAME(_) => RRType::CNAME,
            RRData::A(_) => RRType::A,
            RRData::AAAA(_) => RRType::AAAA,
            RRData::SOA(_) => RRType::SOA,
            RRData::TXT(_) => RRType::TXT,
        }
    }
}

/// The data is as `parse` gives it: names with well-formed labels, and an
/// IPv6 address of sixteen octets.
pub open spec fn rdata_well_formed(d: RRDataModel) -> bool {
    match d {
        RRDataModel::CNAME(n) => labels_well_formed(n),
        RRDataModel::AAAA(a) => a.len() == 16,
        RRDataModel::SOA(s) => labels_well_formed(s.m_name) && labels_well_formed(s.r_name),
        _ => true,
    }
}

/// The four bytes from `pos` read as the integer `v` that they were written
/// from.
pub proof fn lemma_u32_at(data: Seq<u8>, pos: int, v: u32)
    requires
        0 <= pos,
        pos + 4 <= data.len(),
        data.subrange(pos, pos + 4) == be_bytes(v as nat, 4),
    ensures
        be_at(data, pos, 4) == v,
{
    lemma_pow256_small();
    lemma_be_round_trip(v as nat, 4);
}

/// SOA data decodes from the bytes written for it, wherever they stand.
pub proof fn lemma_soa_round_trip(data: Seq<u8>, pos: int, s: SoaModel)
    requires
        labels_well_formed(s.m_name),
        labels_well_formed(s.r_name),
        0 <= pos,
        pos + soa_bytes(s).len() <= data.len(),
        data.subrange(pos, pos + soa_bytes(s).len()) == soa_bytes(s),
    ensures
        soa_at(data, pos) == Ok::<(SoaModel, int), DecodeError>((s, pos + soa_bytes(s).len())),
{
    lemma_pow256_small();
    let sb = soa_bytes(s);
    let mb = name_bytes(s.m_name);
    let rb = name_bytes(s.r_name);
    let p = pos + mb.len();
    let q = p + rb.len();
    let t = (mb.len() + rb.len()) as int;
    lemma_be_round_trip(s.serial as nat, 4);
    lemma_be_round_trip(s.refresh as nat, 4);
    lemma_be_round_trip(s.retry as nat, 4);
    lemma_be_round_trip(s.expire as nat, 4);
    lemma_be_round_trip(s.minimum as nat, 4);
    assert(sb.len() == t + 20);
    assert(data.subrange(pos, p) =~= sb.subrange(0, mb.len() as int));
    assert(sb.subrange(0, mb.len() as int) =~= mb);
    lemma_name_round_trip(data, pos, s.m_name, crate::domain_name::MAX_POINTER_JUMPS as nat, seq![]);
    assert(Seq::<Seq<char>>::empty() + s.m_name =~= s.m_name);
    assert(data.subrange(p, q) =~= sb.subrange(mb.len() as int, t));
    assert(sb.subrange(mb.len() as int, t) =~= rb);
    lemma_name_round_trip(data, p, s.r_name, crate::domain_name::MAX_POINTER_JUMPS as nat, seq![]);
    assert(Seq::<Seq<char>>::empty() + s.r_name =~= s.r_name);
    assert(data.subrange(q, q + 4) =~= sb.subrange(t, t + 4));
    assert(sb.subrange(t, t + 4) =~= be_bytes(s.serial as nat, 4));
    lemma_u32_at(data, q, s.serial);
    assert(data.subrange(q + 4, q + 8) =~= sb.subrange(t + 4, t + 8));
    assert(sb.subrange(t + 4, t + 8) =~= be_bytes(s.refresh as nat, 4));
    lemma_u32_at(data, q + 4, s.refresh);
    assert(data.subrange(q + 8, q + 12) =~= sb.subrange(t + 8, t + 12));
    assert(sb.subrange(t + 8, t + 12) =~= be_bytes(s.retry as nat, 4));
    lemma_u32_at(data, q + 8, s.retry);
    assert(data.subrange(q + 12, q + 16) =~= sb.subrange(t + 12, t + 16));
    assert(sb.subrange(t + 12, t + 16) =~= be_bytes(s.expire as nat, 4));
    lemma_u32_at(data, q + 12, s.expire);
    assert(data.subrange(q + 16, q + 20) =~= sb.subrange(t + 16, t + 20));
    assert(sb.subrange(t + 16, t + 20) =~= be_bytes(s.minimum as nat, 4));
    lemma_u32_at(data, q + 16, s.minimum);
}

/// Record data of every implemented type decodes from the bytes written for
/// it, given its type and their length, wherever they stand.
pub proof fn lemma_rdata_round_trip(data: Seq<u8>, pos: int, d: RRDataModel)
    requires
        rdata_well_formed(d),
        rdata_bytes(d).len() <= 0xffff,
        0 <= pos,
        pos + rdata_bytes(d).len() <= data.len(),
        data.subrange(pos, pos + rdata_bytes(d).len()) == rdata_bytes(d),
    ensures
        rdata_at(data, pos, type_of_data(d), rdata_bytes(d).len() as u16) == Ok::<
            (RRDataModel, int),
            DecodeError,
        >((d, pos + rdata_bytes(d).len())),
{
    match d {
        RRDataModel::CNAME(n) => {
            lemma_name_round_trip(data, pos, n, crate::domain_name::MAX_POINTER_JUMPS as nat, seq![]);
            assert(Seq::<Seq<char>>::empty() + n =~= n);
        },
        RRDataModel::A(a) => {
            lemma_pow256_small();
            lemma_be_round_trip(a as nat, 4);
            lemma_u32_at(data, pos, a);
        },
        RRDataModel::AAAA(a) => {},
        RRDataModel::SOA(s) => {
            lemma_soa_round_trip(data, pos, s);
        },
        RRDataModel::TXT(t) => {
            encode_utf8_valid_utf8(t);
            encode_utf8_decode_utf8(t);
        },
    }
}

} // verus!
