use vstd::prelude::*;

use crate::parse_error::ParseError;
use crate::parse_error::ParseResult;
use crate::parsing::Reader;
use crate::parsing::be_at;
use crate::serializing::Writer;
use crate::serializing::be_bytes;

verus! {

/// The class of a resource record.
#[derive(Debug, Clone, Copy, PartialEq, Eq, Structural)]
pub enum Class {
    Reserved,
    /// Internet
    IN,
    /// CSNET, obsolete
    CS,
    /// Chaos
    CH,
    /// Hesiod
    HS,
    Unassigned,
}

pub open spec fn class_of_code(code: u16) -> Class {
    match code {
        0 => Class::Reserved,
        1 => Class::IN,
        2 => Class::CS,
        3 => Class::CH,
        4 => Class::HS,
        _ => Class::Unassigned,
    }
}

/// The code written for a class; `Unassigned` is written as 5.
pub open spec fn code_of_class(c: Class) -> u16 {
    match c {
        Class::Reserved => 0,
        Class::IN => 1,
        Class::CS => 2,
        Class::CH => 3,
        Class::HS => 4,
        Class::Unassigned => 5,
    }
}

impl Class {
    pub fn parse(reader: &mut Reader) -> (r: ParseResult<Self>)
        ensures
            final(reader).data() == old(reader).data(),
            old(reader).fits(2) ==> r == Ok::<Class, ParseError>(
                class_of_code(be_at(old(reader).data(), old(reader).pos(), 2) as u16),
            ) && final(reader).pos() == old(reader).pos() + 2,
            !old(reader).fits(2) ==> r is Err && r->Err_0 is BufferReadError,
    {
        let num = match reader.read_u16() {
            Ok(v) => v,
            Err(e) => {
                return Err(ParseError::BufferReadError(e));
            },
        };
        Ok(
            match num {
                0 => Class::Reserved,
                1 => Class::IN,
                2 => Class::CS,
                3 => Class::CH,
                4 => Class::HS,
                _ => Class::Unassigned,
            },
        )
    }

    pub fn serialize(&self, writer: &mut Writer)
        ensures
            final(writer)@ == old(writer)@ + be_bytes(code_of_class(*self) as nat, 2),
            forall|k: Seq<char>| #[trigger] final(writer).label_offset(k) == old(writer).label_offset(k),
    {
        let val: u16 = match self {
            Class::Reserved => 0,
            Class::IN => 1,
            Class::CS => 2,
            Class::CH => 3,
            Class::HS => 4,
            Class::Unassigned => 5,
        };
        writer.write_u16(val);
    }
}

/// The class asked for in a question: a class, or one of the wildcards.
#[derive(Debug, Clone, Copy, PartialEq, Eq, Structural)]
pub enum QClass {
    Reserved,
    /// Internet
    IN,
    Unassigned,
    /// Chaos
    CH,
    /// Hesiod
    HS,
    /// The "none" wildcard class of dynamic updates (254).
    NoneClass,
    Any,
    PrivateUse,
}

pub open spec fn q_class_of_code(code: u16) -> QClass {
    match code {
        0 => QClass::Reserved,
        1 => QClass::IN,
        2 => QClass::Unassigned,
        3 => QClass::CH,
        4 => QClass::HS,
        254 => QClass::NoneClass,
        255 => QClass::Any,
        65535 => QClass::Reserved,
        _ => if 65280 <= code && code <= 65534 {
            QClass::PrivateUse
        } else {
            QClass::Unassigned
        },
    }
}

/// The code written for a query class; one representative for each band.
pub open spec fn code_of_q_class(c: QClass) -> u16 {
    match c {
        QClass::Reserved => 0,
        QClass::IN => 1,
        QClass::Unassigned => 2,
        QClass::CH => 3,
        QClass::HS => 4,
        QClass::NoneClass => 254,
        QClass::Any => 255,
        QClass::PrivateUse => 65280,
    }
}

impl QClass {
    pub fn parse(reader: &mut Reader) -> (r: ParseResult<QClass>)
        ensures
            final(reader).data() == old(reader).data(),
            old(reader).fits(2) ==> r == Ok::<QClass, ParseError>(
                q_class_of_code(be_at(old(reader).data(), old(reader).pos(), 2) as u16),
            ) && final(reader).pos() == old(reader).pos() + 2,
            !old(reader).fits(2) ==> r is Err && r->Err_0 is BufferReadError,
    {
        let num = match reader.read_u16() {
            Ok(v) => v,
            Err(e) => {
                return Err(ParseError::BufferReadError(e));
            },
        };
        Ok(
            match num {
                0 => QClass::Reserved,
                1 => QClass::IN,
                2 => QClass::Unassigned,
                3 => QClass::CH,
                4 => QClass::HS,
                254 => QClass::NoneClass,
                255 => QClass::Any,
                65535 => QClass::Reserved,
                _ => if 65280 <= num && num <= 65534 {
                    QClass::PrivateUse
                } else {
                    QClass::Unassigned
                },
            },
        )
    }

    pub fn serialize(&self, writer: &mut Writer)
        ensures
            final(writer)@ == old(writer)@ + be_bytes(code_of_q_class(*self) as nat, 2),
            forall|k: Seq<char>| #[trigger] final(writer).label_offset(k) == old(writer).label_offset(k),
    {
        let val: u16 = match self {
            QClass::Reserved => 0,
            QClass::IN => 1,
            QClass::Unassigned => 2,
            QClass::CH => 3,
            QClass::HS => 4,
            QClass::NoneClass => 254,
            QClass::Any => 255,
            QClass::PrivateUse => 65280,
        };
        writer.write_u16(val);
    }
}

/// Every class, and every query class, decodes from the code written for it.
pub proof fn lemma_class_round_trip(c: Class, q: QClass)
    ensures
        class_of_code(code_of_class(c)) == c,
        q_class_of_code(code_of_q_class(q)) == q,
{
}

} // verus!
