use vstd::prelude::*;

use crate::parse_error::ParseError;
use crate::parse_error::ParseResult;
use crate::parsing::Reader;
use crate::parsing::be_at;
use crate::serializing::Writer;
use crate::serializing::be_bytes;

verus! {

#[derive(Debug, Clone, Copy, PartialEq, Eq, Structural)]
pub enum QR {
    Query,
    Response,
}

#[derive(Debug, Clone, Copy, PartialEq, Eq, Structural)]
pub enum OpCode {
    Query,
    IQuery,
    Status,
    /// Codes 3 to 15, reserved for future use; written as 3.
    Reserved,
}

#[derive(Debug, Clone, Copy, PartialEq, Eq, Structural)]
pub enum RCode {
    NoError,
    FormatError,
    ServerFailure,
    NameError,
    NotImplemented,
    Refused,
    /// Codes 6 to 15, reserved for future use; written as 6.
    Reserved,
}

/// The header's flag word, field by field.
#[derive(Debug, Clone, Copy, PartialEq, Eq, Structural)]
pub struct Flags {
    pub qr: QR,
    pub op_code: OpCode,
    pub aa: bool,
    pub tc: bool,
    pub rd: bool,
    pub ra: bool,
    /// Reserved bit as decoded; always written as 0.
    pub z: u8,
    pub ad: bool,
    pub cd: bool,
    pub r_code: RCode,
}

pub open spec fn qr_of_bit(b: u16) -> QR {
    if b == 1 {
        QR::Response
    } else {
        QR::Query
    }
}

pub open spec fn bit_of_qr(q: QR) -> u16 {
    match q {
        QR::Query => 0,
        QR::Response => 1,
    }
}

pub open spec fn op_code_of(n: u16) -> OpCode {
    if n == 0 {
        OpCode::Query
    } else if n == 1 {
        OpCode::IQuery
    } else if n == 2 {
        OpCode::Status
    } else {
        OpCode::Reserved
    }
}

pub open spec fn code_of_op_code(o: OpCode) -> u16 {
    match o {
        OpCode::Query => 0,
        OpCode::IQuery => 1,
        OpCode::Status => 2,
        OpCode::Reserved => 3,
    }
}

pub open spec fn r_code_of(n: u16) -> RCode {
    if n == 0 {
        RCode::NoError
    } else if n == 1 {
        RCode::FormatError
    } else if n == 2 {
        RCode::ServerFailure
    } else if n == 3 {
        RCode::NameError
    } else if n == 4 {
        RCode::NotImplemented
    } else if n == 5 {
        RCode::Refused
    } else {
        RCode::Reserved
    }
}

pub open spec fn code_of_r_code(r: RCode) -> u16 {
    match r {
        RCode::NoError => 0,
        RCode::FormatError => 1,
        RCode::ServerFailure => 2,
        RCode::NameError => 3,
        RCode::NotImplemented => 4,
        RCode::Refused => 5,
        RCode::Reserved => 6,
    }
}

pub open spec fn bit_of(b: bool) -> u16 {
    if b {
        1
    } else {
        0
    }
}

/// The flags that a 16-bit flag word holds.
pub open spec fn flags_of_word(w: u16) -> Flags {
    Flags {
        qr: qr_of_bit((w >> 15) & 1),
        op_code: op_code_of((w >> 11) & 0xf),
        aa: (w >> 10) & 1 == 1,
        tc: (w >> 9) & 1 == 1,
        rd: (w >> 8) & 1 == 1,
        ra: (w >> 7) & 1 == 1,
        z: ((w >> 6) & 1) as u8,
        ad: (w >> 5) & 1 == 1,
        cd: (w >> 4) & 1 == 1,
        r_code: r_code_of(w & 0xf),
    }
}

/// The word packed from the numeric fields; bit 6 (Z) stays 0.
pub open spec fn pack(
    qr: u16,
    op: u16,
    aa: u16,
    tc: u16,
    rd: u16,
    ra: u16,
    ad: u16,
    cd: u16,
    rc: u16,
) -> u16 {
    (qr << 15u16) | (op << 11u16) | (aa << 10u16) | (tc << 9u16) | (rd << 8u16) | (ra << 7u16) | (
    ad << 5u16) | (cd << 4u16) | rc
}

/// The flag word written for `f`.
pub open spec fn word_of_flags(f: Flags) -> u16 {
    pack(
        bit_of_qr(f.qr),
        code_of_op_code(f.op_code),
        bit_of(f.aa),
        bit_of(f.tc),
        bit_of(f.rd),
        bit_of(f.ra),
        bit_of(f.ad),
        bit_of(f.cd),
        code_of_r_code(f.r_code),
    )
}

proof fn lemma_unpack(
    qr: u16,
    op: u16,
    aa: u16,
    tc: u16,
    rd: u16,
    ra: u16,
    ad: u16,
    cd: u16,
    rc: u16,
)
    requires
        qr <= 1,
        op <= 15,
        aa <= 1,
        tc <= 1,
        rd <= 1,
        ra <= 1,
        ad <= 1,
        cd <= 1,
        rc <= 15,
    ensures
        (pack(qr, op, aa, tc, rd, ra, ad, cd, rc) >> 15u16) & 1 == qr,
        (pack(qr, op, aa, tc, rd, ra, ad, cd, rc) >> 11u16) & 0xf == op,
        (pack(qr, op, aa, tc, rd, ra, ad, cd, rc) >> 10u16) & 1 == aa,
        (pack(qr, op, aa, tc, rd, ra, ad, cd, rc) >> 9u16) & 1 == tc,
        (pack(qr, op, aa, tc, rd, ra, ad, cd, rc) >> 8u16) & 1 == rd,
        (pack(qr, op, aa, tc, rd, ra, ad, cd, rc) >> 7u16) & 1 == ra,
        (pack(qr, op, aa, tc, rd, ra, ad, cd, rc) >> 6u16) & 1 == 0,
        (pack(qr, op, aa, tc, rd, ra, ad, cd, rc) >> 5u16) & 1 == ad,
        (pack(qr, op, aa, tc, rd, ra, ad, cd, rc) >> 4u16) & 1 == cd,
        pack(qr, op, aa, tc, rd, ra, ad, cd, rc) & 0xf == rc,
{
    assert(((qr << 15u16) | (op << 11u16) | (aa << 10u16) | (tc << 9u16) | (rd << 8u16) | (ra
        << 7u16) | (ad << 5u16) | (cd << 4u16) | rc) >> 15u16 & 1 == qr && ((qr << 15u16) | (op
        << 11u16) | (aa << 10u16) | (tc << 9u16) | (rd << 8u16) | (ra << 7u16) | (ad << 5u16) | (
    cd << 4u16) | rc) >> 11u16 & 0xf == op && ((qr << 15u16) | (op << 11u16) | (aa << 10u16) | (
    tc << 9u16) | (rd << 8u16) | (ra << 7u16) | (ad << 5u16) | (cd << 4u16) | rc) >> 10u16 & 1
        == aa && ((qr << 15u16) | (op << 11u16) | (aa << 10u16) | (tc << 9u16) | (rd << 8u16) | (
    ra << 7u16) | (ad << 5u16) | (cd << 4u16) | rc) >> 9u16 & 1 == tc && ((qr << 15u16) | (op
        << 11u16) | (aa << 10u16) | (tc << 9u16) | (rd << 8u16) | (ra << 7u16) | (ad << 5u16) | (
    cd << 4u16) | rc) >> 8u16 & 1 == rd && ((qr << 15u16) | (op << 11u16) | (aa << 10u16) | (
    tc << 9u16) | (rd << 8u16) | (ra << 7u16) | (ad << 5u16) | (cd << 4u16) | rc) >> 7u16 & 1
        == ra && ((qr << 15u16) | (op << 11u16) | (aa << 10u16) | (tc << 9u16) | (rd << 8u16) | (
    ra << 7u16) | (ad << 5u16) | (cd << 4u16) | rc) >> 6u16 & 1 == 0 && ((qr << 15u16) | (op
        << 11u16) | (aa << 10u16) | (tc << 9u16) | (rd << 8u16) | (ra << 7u16) | (ad << 5u16) | (
    cd << 4u16) | rc) >> 5u16 & 1 == ad && ((qr << 15u16) | (op << 11u16) | (aa << 10u16) | (
    tc << 9u16) | (rd << 8u16) | (ra << 7u16) | (ad << 5u16) | (cd << 4u16) | rc) >> 4u16 & 1
        == cd && ((qr << 15u16) | (op << 11u16) | (aa << 10u16) | (tc << 9u16) | (rd << 8u16) | (
    ra << 7u16) | (ad << 5u16) | (cd << 4u16) | rc) & 0xf == rc) by (bit_vector)
        requires
            qr <= 1,
            op <= 15,
            aa <= 1,
            tc <= 1,
            rd <= 1,
            ra <= 1,
            ad <= 1,
            cd <= 1,
            rc <= 15,
    ;
}

impl Flags {
    /// The flags as a query or response would carry them: Z is 0.
    pub open spec fn canonical(&self) -> bool {
        self.z == 0
    }

    /// Flags of a new query: recursion desired as asked, all else clear.
    pub open spec fn new_query_spec(recurse: bool) -> Flags {
        Flags {
            qr: QR::Query,
            op_code: OpCode::Query,
            aa: false,
            tc: false,
            rd: recurse,
            ra: false,
            z: 0,
            ad: false,
            cd: false,
            r_code: RCode::NoError,
        }
    }

    /// Flags of the response to a query: its op code and recursion bit,
    /// recursion available, no error.
    pub open spec fn new_response_spec(query_flags: Flags) -> Flags {
        Flags {
            qr: QR::Response,
            op_code: query_flags.op_code,
            aa: false,
            tc: false,
            rd: query_flags.rd,
            ra: true,
            z: 0,
            ad: false,
            cd: false,
            r_code: RCode::NoError,
        }
    }

    pub fn parse(reader: &mut Reader) -> (r: ParseResult<Flags>)
        ensures
            final(reader).data() == old(reader).data(),
            old(reader).fits(2) ==> r == Ok::<Flags, ParseError>(
                flags_of_word(be_at(old(reader).data(), old(reader).pos(), 2) as u16),
            ) && final(reader).pos() == old(reader).pos() + 2,
            !old(reader).fits(2) ==> r is Err && r->Err_0 is BufferReadError,
    {
        let val = match reader.read_u16() {
            Ok(v) => v,
            Err(e) => {
                return Err(ParseError::BufferReadError(e));
            },
        };
        Ok(
            Flags {
                qr: QR::parse(val),
                op_code: OpCode::parse(val),
                aa: (val >> 10) & 1 == 1,
                tc: (val >> 9) & 1 == 1,
                rd: (val >> 8) & 1 == 1,
                ra: (val >> 7) & 1 == 1,
                z: ((val >> 6) & 1) as u8,
                ad: (val >> 5) & 1 == 1,
                cd: (val >> 4) & 1 == 1,
                r_code: RCode::parse(val),
            },
        )
    }

    /// The flag word that `serialize` writes.
    pub fn to_word(&self) -> (r: u16)
        ensures
            r == word_of_flags(*self),
    {
        let qr: u16 = match self.qr {
            QR::Query => 0,
            QR::Response => 1,
        };
        let op: u16 = match self.op_code {
            OpCode::Query => 0,
            OpCode::IQuery => 1,
            OpCode::Status => 2,
            OpCode::Reserved => 3,
        };
        let rc: u16 = match self.r_code {
            RCode::NoError => 0,
            RCode::FormatError => 1,
            RCode::ServerFailure => 2,
            RCode::NameError => 3,
            RCode::NotImplemented => 4,
            RCode::Refused => 5,
            RCode::Reserved => 6,
        };
        let aa: u16 = if self.aa { 1 } else { 0 };
        let tc: u16 = if self.tc { 1 } else { 0 };
        let rd: u16 = if self.rd { 1 } else { 0 };
        let ra: u16 = if self.ra { 1 } else { 0 };
        let ad: u16 = if self.ad { 1 } else { 0 };
        let cd: u16 = if self.cd { 1 } else { 0 };
        (qr << 15u16) | (op << 11u16) | (aa << 10u16) | (tc << 9u16) | (rd << 8u16) | (ra << 7u16)
            | (ad << 5u16) | (cd << 4u16) | rc
    }

    pub fn serialize(&self, writer: &mut Writer)
        ensures
            final(writer)@ == old(writer)@ + be_bytes(word_of_flags(*self) as nat, 2),
            forall|k: Seq<char>| #[trigger] final(writer).label_offset(k) == old(writer).label_offset(k),
    {
        writer.write_u16(self.to_word());
    }

    pub fn new_query(recurse: bool) -> (r: Self)
        ensures
            r == Flags::new_query_spec(recurse),
    {
        Self {
            qr: QR::Query,
            op_code: OpCode::Query,
            aa: false,
            tc: false,
            rd: recurse,
            ra: false,
            z: 0,
            ad: false,
            cd: false,
            r_code: RCode::NoError,
        }
    }

    pub fn new_response(query_flags: &Flags) -> (r: Self)
        ensures
            r == Flags::new_response_spec(*query_flags),
    {
        Self {
            qr: QR::Response,
            op_code: query_flags.op_code,
            aa: false,
            tc: false,
            rd: query_flags.rd,
            ra: true,
            z: 0,
            ad: false,
            cd: false,
            r_code: RCode::NoError,
        }
    }

    pub fn is_query(&self) -> (r: bool)
        ensures
            r == (self.qr == QR::Query),
    {
        match self.qr {
            QR::Query => true,
            QR::Response => false,
        }
    }

    pub fn recurse(&self) -> (r: bool)
        ensures
            r == self.rd,
    {
        self.rd
    }
}

impl QR {
    fn parse(val: u16) -> (r: QR)
        ensures
            r == qr_of_bit((val >> 15) & 1),
    {
        if (val >> 15) & 1 == 1 {
            QR::Response
        } else {
            QR::Query
        }
    }
}

impl OpCode {
    fn parse(val: u16) -> (r: OpCode)
        ensures
            r == op_code_of((val >> 11) & 0xf),
    {
        let num = (val >> 11) & 0xf;
        if num == 0 {
            OpCode::Query
        } else if num == 1 {
            OpCode::IQuery
        } else if num == 2 {
            OpCode::Status
        } else {
            OpCode::Reserved
        }
    }
}

impl RCode {
    fn parse(val: u16) -> (r: RCode)
        ensures
            r == r_code_of(val & 0xf),
    {
        let num = val & 0xf;
        if num == 0 {
            RCode::NoError
        } else if num == 1 {
            RCode::FormatError
        } else if num == 2 {
            RCode::ServerFailure
        } else if num == 3 {
            RCode::NameError
        } else if num == 4 {
            RCode::NotImplemented
        } else if num == 5 {
            RCode::Refused
        } else {
            RCode::Reserved
        }
    }
}

/// Decoding the word written for canonical flags gives the flags back.
pub proof fn lemma_flags_round_trip(f: Flags)
    requires
        f.canonical(),
    ensures
        flags_of_word(word_of_flags(f)) == f,
{
    lemma_unpack(
        bit_of_qr(f.qr),
        code_of_op_code(f.op_code),
        bit_of(f.aa),
        bit_of(f.tc),
        bit_of(f.rd),
        bit_of(f.ra),
        bit_of(f.ad),
        bit_of(f.cd),
        code_of_r_code(f.r_code),
    );
}

/// Decoding a flag word and writing it again gives the same bits, but for Z
/// (bit 6), which is written as 0. The op code must be one that has its own
/// variant or the first reserved one (at most 3), and likewise the reply code
/// (at most 6): other reserved codes are written as the first of their band.
pub proof fn lemma_flags_word_round_trip(w: u16)
    requires
        (w >> 11u16) & 0xf <= 3,
        w & 0xf <= 6,
    ensures
        word_of_flags(flags_of_word(w)) == w & 0xffbf,
{
    let f = flags_of_word(w);
    assert((w >> 15u16) & 1 <= 1 && (w >> 10u16) & 1 <= 1 && (w >> 9u16) & 1 <= 1 && (w >> 8u16)
        & 1 <= 1 && (w >> 7u16) & 1 <= 1 && (w >> 5u16) & 1 <= 1 && (w >> 4u16) & 1 <= 1)
        by (bit_vector);
    assert(bit_of_qr(f.qr) == (w >> 15u16) & 1);
    assert(code_of_op_code(f.op_code) == (w >> 11u16) & 0xf);
    assert(code_of_r_code(f.r_code) == w & 0xf);
    assert(bit_of(f.aa) == (w >> 10u16) & 1);
    assert(bit_of(f.tc) == (w >> 9u16) & 1);
    assert(bit_of(f.rd) == (w >> 8u16) & 1);
    assert(bit_of(f.ra) == (w >> 7u16) & 1);
    assert(bit_of(f.ad) == (w >> 5u16) & 1);
    assert(bit_of(f.cd) == (w >> 4u16) & 1);
    assert(((w >> 15u16) & 1) << 15u16 | ((w >> 11u16) & 0xf) << 11u16 | ((w >> 10u16) & 1)
        << 10u16 | ((w >> 9u16) & 1) << 9u16 | ((w >> 8u16) & 1) << 8u16 | ((w >> 7u16) & 1)
        << 7u16 | ((w >> 5u16) & 1) << 5u16 | ((w >> 4u16) & 1) << 4u16 | (w & 0xf) == w & 0xffbf)
        by (bit_vector);
}

} // verus!
