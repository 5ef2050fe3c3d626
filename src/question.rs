use vstd::prelude::*;

use crate::class::QClass;
use crate::class::code_of_q_class;
use crate::class::lemma_class_round_trip;
use crate::class::Class;
use crate::class::q_class_of_code;
use crate::domain_name::DomainName;
use crate::domain_name::labels_fit;
use crate::domain_name::labels_well_formed;
use crate::domain_name::lemma_name_round_trip;
use crate::domain_name::MAX_POINTER_JUMPS;
use crate::domain_name::name_at;
use crate::domain_name::name_bytes;
use crate::domain_name::name_result;
use crate::domain_name::split_dots;
use crate::parse_error::DecodeError;
use crate::parse_error::Decoded;
use crate::parse_error::ParseError;
use crate::parse_error::ParseResult;
use crate::parse_error::parse_matches;
use crate::parsing::Reader;
use crate::parsing::be_at;
use crate::rr_type::RRType;
use crate::rr_type::code_of_rr_type;
use crate::rr_type::rr_type_of_code;
use crate::rr_type::lemma_rr_type_round_trip;
use crate::resource_record::lemma_u16_at;
use crate::serializing::Writer;
use crate::serializing::be_bytes;

verus! {

/// One entry of the question section: a name, a type and a query class.
#[derive(Debug)]
pub struct Question {
    pub q_name: DomainName,
    pub q_type: RRType,
    pub q_class: QClass,
}

pub struct QuestionModel {
    pub q_name: Seq<Seq<char>>,
    pub q_type: RRType,
    pub q_class: QClass,
}

impl View for Question {
    type V = QuestionModel;

    open spec fn view(&self) -> QuestionModel {
        QuestionModel { q_name: self.q_name@, q_type: self.q_type, q_class: self.q_class }
    }
}

impl Clone for Question {
    fn clone(&self) -> (r: Self)
        ensures
            r@ == self@,
    {
        Question { q_name: self.q_name.clone(), q_type: self.q_type, q_class: self.q_class }
    }
}

/// The question at `pos` of the message `data`; a type or class cut short
/// is a question error.
pub open spec fn question_at(data: Seq<u8>, pos: int) -> Decoded<QuestionModel> {
    match name_result(name_at(data, pos)) {
        Err(e) => Err(e),
        Ok((q_name, p)) => if p + 4 > data.len() {
            Err(DecodeError::Question)
        } else {
            Ok(
                (
                    QuestionModel {
                        q_name,
                        q_type: rr_type_of_code(be_at(data, p, 2) as u16),
                        q_class: q_class_of_code(be_at(data, p + 2, 2) as u16),
                    },
                    p + 4,
                ),
            )
        },
    }
}

/// The bytes written for a question.
pub open spec fn question_bytes(q: QuestionModel) -> Seq<u8> {
    name_bytes(q.q_name) + be_bytes(code_of_rr_type(q.q_type) as nat, 2) + be_bytes(
        code_of_q_class(q.q_class) as nat,
        2,
    )
}

impl Question {
    pub fn parse(reader: &mut Reader) -> (r: ParseResult<Question>)
        ensures
            final(reader).data() == old(reader).data(),
            parse_matches(r, question_at(old(reader).data(), old(reader).pos())),
            r is Ok ==> final(reader).pos() == question_at(
                old(reader).data(),
                old(reader).pos(),
            )->Ok_0.1,
    {
        let name = match DomainName::parse(reader) {
            Ok(n) => n,
            Err(e) => {
                return Err(e);
            },
        };
        let q_type = match RRType::parse(reader) {
            Ok(t) => t,
            Err(_) => {
                return Err(ParseError::Question);
            },
        };
        let q_class = match QClass::parse(reader) {
            Ok(c) => c,
            Err(_) => {
                return Err(ParseError::Question);
            },
        };
        Ok(Question { q_name: name, q_type, q_class })
    }

    pub fn serialize(&self, writer: &mut Writer)
        requires
            labels_fit(self.q_name@),
        ensures
            final(writer)@ == old(writer)@ + question_bytes(self@),
    {
        self.q_name.serialize(writer);
        self.q_type.serialize(writer);
        self.q_class.serialize(writer);
        assert(final(writer)@ =~= old(writer)@ + question_bytes(self@));
    }

    /// A question of class IN for the dotted name `name`.
    pub fn new(name: &str, requested_type: RRType) -> (r: Self)
        ensures
            r@ == (QuestionModel {
                q_name: split_dots(name@),
                q_type: requested_type,
                q_class: QClass::IN,
            }),
    {
        Self { q_name: DomainName::from_string(name), q_type: requested_type, q_class: QClass::IN }
    }

    pub fn get_query_name_type(&self) -> (r: (DomainName, RRType))
        ensures
            r.0@ == self.q_name@,
            r.1 == self.q_type,
    {
        (self.q_name.clone(), self.q_type)
    }
}

/// A question whose name has well-formed labels decodes from the bytes
/// written for it, wherever they stand.
pub proof fn lemma_question_round_trip(data: Seq<u8>, pos: int, q: QuestionModel)
    requires
        labels_well_formed(q.q_name),
        0 <= pos,
        pos + question_bytes(q).len() <= data.len(),
        data.subrange(pos, pos + question_bytes(q).len()) == question_bytes(q),
    ensures
        question_at(data, pos) == Ok::<(QuestionModel, int), DecodeError>(
            (q, pos + question_bytes(q).len()),
        ),
{
    let qb = question_bytes(q);
    let nb = name_bytes(q.q_name);
    let n = nb.len() as int;
    let p = pos + n;
    let tc = code_of_rr_type(q.q_type);
    let cc = code_of_q_class(q.q_class);
    crate::parsing::lemma_pow256_small();
    crate::serializing::lemma_be_round_trip(tc as nat, 2);
    crate::serializing::lemma_be_round_trip(cc as nat, 2);
    assert(data.subrange(pos, p) =~= qb.subrange(0, n));
    assert(qb.subrange(0, n) =~= nb);
    lemma_name_round_trip(data, pos, q.q_name, MAX_POINTER_JUMPS as nat, seq![]);
    assert(Seq::<Seq<char>>::empty() + q.q_name =~= q.q_name);
    assert(data.subrange(p, p + 2) =~= qb.subrange(n, n + 2));
    assert(qb.subrange(n, n + 2) =~= be_bytes(tc as nat, 2));
    lemma_u16_at(data, p, tc);
    assert(data.subrange(p + 2, p + 4) =~= qb.subrange(n + 2, n + 4));
    assert(qb.subrange(n + 2, n + 4) =~= be_bytes(cc as nat, 2));
    lemma_u16_at(data, p + 2, cc);
    lemma_rr_type_round_trip(q.q_type);
    lemma_class_round_trip(Class::IN, q.q_class);
}

} // verus!
