use vstd::prelude::*;

use crate::domain_name::DomainName;
use crate::domain_name::labels_fit;
use crate::domain_name::split_dots;
use crate::flags::QR;
use crate::message_header::MessageHeader;
use crate::message_header::header_at;
use crate::message_header::header_bytes;
use crate::parse_error::DecodeError;
use crate::parse_error::Decoded;
use crate::parse_error::ParseError;
use crate::parse_error::ParseResult;
use crate::parse_error::error_matches;
use crate::parse_error::parse_matches;
use crate::parsing::Reader;
use crate::question::Question;
use crate::question::QuestionModel;
use crate::question::question_at;
use crate::question::question_bytes;
use crate::question::lemma_question_round_trip;
use crate::domain_name::labels_well_formed;
use crate::resource_record::RecordModel;
use crate::resource_record::ResourceRecord;
use crate::resource_record::record_at;
use crate::resource_record::record_bytes;
use crate::resource_record::record_fits;
use crate::resource_record::record_well_formed;
use crate::resource_record::lemma_record_round_trip;
use crate::message_header::lemma_header_round_trip;
use crate::rr_type::RRType;
use crate::serializing::Writer;

verus! {

/// A whole message: the header and its four sections.
#[derive(Debug)]
pub struct Message {
    pub header: MessageHeader,
    pub questions: Vec<Question>,
    pub answer: Vec<ResourceRecord>,
    pub authority: Vec<ResourceRecord>,
    pub additional: Vec<ResourceRecord>,
}

pub struct MessageModel {
    pub header: MessageHeader,
    pub questions: Seq<QuestionModel>,
    pub answer: Seq<RecordModel>,
    pub authority: Seq<RecordModel>,
    pub additional: Seq<RecordModel>,
}

/// The views of the items of `s`.
pub open spec fn views<T: View>(s: Seq<T>) -> Seq<T::V> {
    s.map_values(|x: T| x@)
}

impl View for Message {
    type V = MessageModel;

    open spec fn view(&self) -> MessageModel {
        MessageModel {
            header: self.header,
            questions: views(self.questions@),
            answer: views(self.answer@),
            authority: views(self.authority@),
            additional: views(self.additional@),
        }
    }
}

/// `d` with the items `a` put before what it decoded.
pub open spec fn prepend<V>(a: Seq<V>, d: Decoded<Seq<V>>) -> Decoded<Seq<V>> {
    match d {
        Ok((s, p)) => Ok((a + s, p)),
        Err(e) => Err(e),
    }
}

proof fn lemma_prepend_push<V>(a: Seq<V>, x: V, d: Decoded<Seq<V>>)
    ensures
        prepend(a.push(x), d) == prepend(a, prepend(seq![x], d)),
{
    if d is Ok {
        let s = d->Ok_0.0;
        assert(a.push(x) + s =~= a + (seq![x] + s));
    }
}

/// `n` questions one after the other from `pos` of the message `data`.
pub open spec fn questions_at(data: Seq<u8>, pos: int, n: nat) -> Decoded<Seq<QuestionModel>>
    decreases n,
{
    if n == 0 {
        Ok((seq![], pos))
    } else {
        match question_at(data, pos) {
            Err(e) => Err(e),
            Ok((q, p)) => prepend(seq![q], questions_at(data, p, (n - 1) as nat)),
        }
    }
}

/// `n` records one after the other from `pos` of the message `data`.
pub open spec fn records_at(data: Seq<u8>, pos: int, n: nat) -> Decoded<Seq<RecordModel>>
    decreases n,
{
    if n == 0 {
        Ok((seq![], pos))
    } else {
        match record_at(data, pos) {
            Err(e) => Err(e),
            Ok((r, p)) => prepend(seq![r], records_at(data, p, (n - 1) as nat)),
        }
    }
}

/// The message that `data` holds: a failure in a section is that
/// section's error.
pub open spec fn message_at(data: Seq<u8>) -> Result<MessageModel, DecodeError> {
    if data.len() < 12 {
        Err(DecodeError::BufferRead)
    } else {
        let header = header_at(data, 0);
        match questions_at(data, 12, header.qd_count as nat) {
            Err(_) => Err(DecodeError::Question),
            Ok((questions, p1)) => match records_at(data, p1, header.an_count as nat) {
                Err(_) => Err(DecodeError::Answer),
                Ok((answer, p2)) => match records_at(data, p2, header.ns_count as nat) {
                    Err(_) => Err(DecodeError::Authority),
                    Ok((authority, p3)) => match records_at(data, p3, header.ar_count as nat) {
                        Err(_) => Err(DecodeError::Additional),
                        Ok((additional, _)) => Ok(
                            MessageModel { header, questions, answer, authority, additional },
                        ),
                    },
                },
            },
        }
    }
}

/// The bytes written for the questions, in order.
pub open spec fn questions_bytes(qs: Seq<QuestionModel>) -> Seq<u8> {
    qs.map_values(|q: QuestionModel| question_bytes(q)).flatten()
}

/// The bytes written for the records, in order.
pub open spec fn records_bytes(rs: Seq<RecordModel>) -> Seq<u8> {
    rs.map_values(|r: RecordModel| record_bytes(r)).flatten()
}

/// The bytes written for a message.
pub open spec fn message_bytes(m: MessageModel) -> Seq<u8> {
    header_bytes(m.header) + questions_bytes(m.questions) + records_bytes(m.answer)
        + records_bytes(m.authority) + records_bytes(m.additional)
}

/// The header counts the sections as they are.
pub open spec fn counts_match(m: MessageModel) -> bool {
    &&& m.header.qd_count == m.questions.len()
    &&& m.header.an_count == m.answer.len()
    &&& m.header.ns_count == m.authority.len()
    &&& m.header.ar_count == m.additional.len()
}

/// The message can be written: its counts match its sections, and every
/// name and record fits.
pub open spec fn message_fits(m: MessageModel) -> bool {
    &&& counts_match(m)
    &&& forall|i: int| 0 <= i < m.questions.len() ==> labels_fit(#[trigger] m.questions[i].q_name)
    &&& forall|i: int| 0 <= i < m.answer.len() ==> record_fits(#[trigger] m.answer[i])
    &&& forall|i: int| 0 <= i < m.authority.len() ==> record_fits(#[trigger] m.authority[i])
    &&& forall|i: int| 0 <= i < m.additional.len() ==> record_fits(#[trigger] m.additional[i])
}

#[verifier::loop_isolation(false)]
fn parse_questions(reader: &mut Reader, count: u16) -> (r: ParseResult<Vec<Question>>)
    ensures
        final(reader).data() == old(reader).data(),
        ({
            let d = questions_at(old(reader).data(), old(reader).pos(), count as nat);
            &&& d is Ok ==> r is Ok && views(r->Ok_0@) == d->Ok_0.0 && final(reader).pos()
                == d->Ok_0.1
            &&& d is Err ==> r is Err && error_matches(r->Err_0, d->Err_0)
        }),
{
    let ghost data = old(reader).data();
    let ghost pos0 = old(reader).pos();
    let mut out: Vec<Question> = Vec::new();
    let mut i: u16 = 0;
    assert(views(out@) =~= Seq::<QuestionModel>::empty());
    assert(Seq::<QuestionModel>::empty() + questions_at(data, pos0, count as nat)->Ok_0.0
        =~= questions_at(data, pos0, count as nat)->Ok_0.0);
    while i < count
        invariant
            reader.data() == data,
            i <= count,
            prepend(views(out@), questions_at(data, reader.pos(), (count - i) as nat))
                == questions_at(data, pos0, count as nat),
        decreases count - i,
    {
        let ghost before = views(out@);
        let q = match Question::parse(reader) {
            Ok(q) => q,
            Err(e) => {
                return Err(e);
            },
        };
        proof {
            lemma_prepend_push(before, q@, questions_at(data, reader.pos(), (count - i - 1) as nat));
        }
        out.push(q);
        assert(views(out@) =~= before.push(q@));
        i = i + 1;
    }
    Ok(out)
}

#[verifier::loop_isolation(false)]
fn parse_records(reader: &mut Reader, count: u16) -> (r: ParseResult<Vec<ResourceRecord>>)
    ensures
        final(reader).data() == old(reader).data(),
        ({
            let d = records_at(old(reader).data(), old(reader).pos(), count as nat);
            &&& d is Ok ==> r is Ok && views(r->Ok_0@) == d->Ok_0.0 && final(reader).pos()
                == d->Ok_0.1
            &&& d is Err ==> r is Err && error_matches(r->Err_0, d->Err_0)
        }),
{
    let ghost data = old(reader).data();
    let ghost pos0 = old(reader).pos();
    let mut out: Vec<ResourceRecord> = Vec::new();
    let mut i: u16 = 0;
    assert(views(out@) =~= Seq::<RecordModel>::empty());
    assert(Seq::<RecordModel>::empty() + records_at(data, pos0, count as nat)->Ok_0.0
        =~= records_at(data, pos0, count as nat)->Ok_0.0);
    while i < count
        invariant
            reader.data() == data,
            i <= count,
            prepend(views(out@), records_at(data, reader.pos(), (count - i) as nat)) == records_at(
                data,
                pos0,
                count as nat,
            ),
        decreases count - i,
    {
        let ghost before = views(out@);
        let rec = match ResourceRecord::parse(reader) {
            Ok(rec) => rec,
            Err(e) => {
                return Err(e);
            },
        };
        proof {
            lemma_prepend_push(before, rec@, records_at(data, reader.pos(), (count - i - 1) as nat));
        }
        out.push(rec);
        assert(views(out@) =~= before.push(rec@));
        i = i + 1;
    }
    Ok(out)
}

proof fn lemma_questions_bytes_push(qs: Seq<QuestionModel>, q: QuestionModel)
    ensures
        questions_bytes(qs.push(q)) == questions_bytes(qs) + question_bytes(q),
{
    let m = qs.map_values(|q: QuestionModel| question_bytes(q));
    assert(qs.push(q).map_values(|q: QuestionModel| question_bytes(q)) =~= m.push(
        question_bytes(q),
    ));
    m.lemma_flatten_push(question_bytes(q));
}

proof fn lemma_records_bytes_push(rs: Seq<RecordModel>, r: RecordModel)
    ensures
        records_bytes(rs.push(r)) == records_bytes(rs) + record_bytes(r),
{
    let m = rs.map_values(|r: RecordModel| record_bytes(r));
    assert(rs.push(r).map_values(|r: RecordModel| record_bytes(r)) =~= m.push(record_bytes(r)));
    m.lemma_flatten_push(record_bytes(r));
}

fn write_questions(writer: &mut Writer, questions: &Vec<Question>)
    requires
        forall|i: int|
            0 <= i < questions@.len() ==> labels_fit(#[trigger] views(questions@)[i].q_name),
    ensures
        final(writer)@ == old(writer)@ + questions_bytes(views(questions@)),
{
    let mut i: usize = 0;
    while i < questions.len()
        invariant
            i <= questions@.len(),
            forall|j: int|
                0 <= j < questions@.len() ==> labels_fit(#[trigger] views(questions@)[j].q_name),
            writer@ == old(writer)@ + questions_bytes(views(questions@).take(i as int)),
        decreases questions@.len() - i,
    {
        assert(labels_fit(views(questions@)[i as int].q_name));
        questions[i].serialize(writer);
        proof {
            assert(views(questions@)[i as int] == questions@[i as int]@);
            lemma_questions_bytes_push(views(questions@).take(i as int), questions@[i as int]@);
            assert(views(questions@).take(i + 1) =~= views(questions@).take(i as int).push(
                questions@[i as int]@,
            ));
        }
        i = i + 1;
    }
    assert(views(questions@).take(i as int) =~= views(questions@));
}

fn write_records(writer: &mut Writer, records: &Vec<ResourceRecord>)
    requires
        forall|i: int| 0 <= i < records@.len() ==> record_fits(#[trigger] views(records@)[i]),
    ensures
        final(writer)@ == old(writer)@ + records_bytes(views(records@)),
{
    let mut i: usize = 0;
    while i < records.len()
        invariant
            i <= records@.len(),
            forall|j: int| 0 <= j < records@.len() ==> record_fits(#[trigger] views(records@)[j]),
            writer@ == old(writer)@ + records_bytes(views(records@).take(i as int)),
        decreases records@.len() - i,
    {
        assert(record_fits(views(records@)[i as int]));
        records[i].serialize(writer);
        proof {
            assert(views(records@)[i as int] == records@[i as int]@);
            lemma_records_bytes_push(views(records@).take(i as int), records@[i as int]@);
            assert(views(records@).take(i + 1) =~= views(records@).take(i as int).push(
                records@[i as int]@,
            ));
        }
        i = i + 1;
    }
    assert(views(records@).take(i as int) =~= views(records@));
}

fn clone_questions(questions: &Vec<Question>) -> (r: Vec<Question>)
    ensures
        views(r@) == views(questions@),
{
    let mut out: Vec<Question> = Vec::new();
    let mut i: usize = 0;
    while i < questions.len()
        invariant
            i <= questions@.len(),
            views(out@) == views(questions@).take(i as int),
        decreases questions@.len() - i,
    {
        let q = questions[i].clone();
        let ghost before = out@;
        out.push(q);
        assert(views(questions@)[i as int] == questions@[i as int]@);
        assert(views(out@) =~= views(before).push(q@));
        assert(views(out@) =~= views(questions@).take(i + 1));
        i = i + 1;
    }
    assert(views(questions@).take(i as int) =~= views(questions@));
    out
}

fn all_records_fit(records: &Vec<ResourceRecord>) -> (r: bool)
    ensures
        r == forall|i: int| 0 <= i < records@.len() ==> record_fits(#[trigger] views(records@)[i]),
{
    let mut i: usize = 0;
    while i < records.len()
        invariant
            i <= records@.len(),
            forall|j: int| 0 <= j < i ==> record_fits(#[trigger] views(records@)[j]),
        decreases records@.len() - i,
    {
        if !records[i].is_encodable() {
            assert(!record_fits(views(records@)[i as int]));
            return false;
        }
        i = i + 1;
    }
    true
}

impl Message {
    /// Decodes a whole message; a failure inside a section is reported as
    /// that section's error.
    pub fn parse(buf: &[u8]) -> (r: ParseResult<Message>)
        ensures
            match message_at(buf@) {
                Ok(m) => r is Ok && r->Ok_0@ == m,
                Err(e) => r is Err && error_matches(r->Err_0, e),
            },
    {
        let mut reader = Reader::new(buf);
        let header = match MessageHeader::parse(&mut reader) {
            Ok(h) => h,
            Err(e) => {
                return Err(e);
            },
        };
        let questions = match parse_questions(&mut reader, header.qd_count) {
            Ok(q) => q,
            Err(_) => {
                return Err(ParseError::Question);
            },
        };
        let answer = match parse_records(&mut reader, header.an_count) {
            Ok(a) => a,
            Err(_) => {
                return Err(ParseError::Answer);
            },
        };
        let authority = match parse_records(&mut reader, header.ns_count) {
            Ok(a) => a,
            Err(_) => {
                return Err(ParseError::Authority);
            },
        };
        let additional = match parse_records(&mut reader, header.ar_count) {
            Ok(a) => a,
            Err(_) => {
                return Err(ParseError::Additional);
            },
        };
        Ok(Message { header, questions, answer, authority, additional })
    }

    /// The message's bytes: the header, then the sections in order.
    pub fn serialize(&self) -> (r: Vec<u8>)
        requires
            message_fits(self@),
        ensures
            r@ == message_bytes(self@),
    {
        let mut writer = Writer::new();
        self.header.serialize(&mut writer);
        write_questions(&mut writer, &self.questions);
        write_records(&mut writer, &self.answer);
        write_records(&mut writer, &self.authority);
        write_records(&mut writer, &self.additional);
        assert(writer@ =~= message_bytes(self@));
        writer.get_serialized_message()
    }

    /// Whether the message can be written, as `serialize` needs.
    pub fn is_encodable(&self) -> (r: bool)
        ensures
            r == message_fits(self@),
    {
        if self.header.qd_count as usize != self.questions.len() || self.header.an_count as usize
            != self.answer.len() || self.header.ns_count as usize != self.authority.len()
            || self.header.ar_count as usize != self.additional.len() {
            return false;
        }
        let mut i: usize = 0;
        while i < self.questions.len()
            invariant
                i <= self.questions@.len(),
                forall|j: int| 0 <= j < i ==> labels_fit(#[trigger] self@.questions[j].q_name),
            decreases self.questions@.len() - i,
        {
            if !self.questions[i].q_name.is_encodable() {
                assert(!labels_fit(self@.questions[i as int].q_name));
                return false;
            }
            i = i + 1;
        }
        all_records_fit(&self.answer) && all_records_fit(&self.authority) && all_records_fit(
            &self.additional,
        )
    }

    /// A query, with the given ID, for the records of `record_type` at the
    /// dotted name `name`.
    pub fn new_query_with_id(id: u16, name: &str, record_type: RRType, recurse: bool) -> (r: Self)
        ensures
            r.header == MessageHeader::new_query_with_id_spec(id, recurse),
            r@.questions == seq![
                QuestionModel {
                    q_name: split_dots(name@),
                    q_type: record_type,
                    q_class: crate::class::QClass::IN,
                },
            ],
            r@.answer.len() == 0,
            r@.authority.len() == 0,
            r@.additional.len() == 0,
    {
        let r = Self {
            header: MessageHeader::new_query_with_id(id, recurse),
            questions: vec![Question::new(name, record_type)],
            answer: Vec::new(),
            authority: Vec::new(),
            additional: Vec::new(),
        };
        assert(r@.questions =~= seq![r.questions@[0]@]);
        r
    }

    /// A query, with a random ID, for the records of `record_type` at the
    /// dotted name `name`.
    pub fn new_query(name: &str, record_type: RRType, recurse: bool) -> (r: Self)
        ensures
            r.header == MessageHeader::new_query_with_id_spec(r.header.id, recurse),
            r@.questions == seq![
                QuestionModel {
                    q_name: split_dots(name@),
                    q_type: record_type,
                    q_class: crate::class::QClass::IN,
                },
            ],
            r@.answer.len() == 0,
            r@.authority.len() == 0,
            r@.additional.len() == 0,
    {
        let header = MessageHeader::new_query(recurse);
        Self::new_query_with_id(header.id, name, record_type, recurse)
    }

    pub fn is_query(&self) -> (r: bool)
        ensures
            r == (self.header.flags.qr == QR::Query),
    {
        self.header.is_query()
    }

    pub fn do_recursion(&self) -> (r: bool)
        ensures
            r == self.header.flags.rd,
    {
        self.header.do_recursion()
    }

    /// The name and type of each question, in order.
    pub fn question_names(&self) -> (r: Vec<(DomainName, RRType)>)
        ensures
            r@.len() == self.questions@.len(),
            forall|i: int|
                0 <= i < r@.len() ==> (#[trigger] r@[i]).0@ == self.questions@[i].q_name@ && r@[i].1
                    == self.questions@[i].q_type,
    {
        let mut out: Vec<(DomainName, RRType)> = Vec::new();
        let mut i: usize = 0;
        while i < self.questions.len()
            invariant
                i <= self.questions@.len(),
                out@.len() == i,
                forall|j: int|
                    0 <= j < i ==> (#[trigger] out@[j]).0@ == self.questions@[j].q_name@ && out@[j].1
                        == self.questions@[j].q_type,
            decreases self.questions@.len() - i,
        {
            out.push(self.questions[i].get_query_name_type());
            i = i + 1;
        }
        out
    }

    /// The response to `query` that carries `answers`: the query's ID and
    /// questions, response flags, no authority or additional records.
    pub fn new_response(query: &Message, answers: Vec<ResourceRecord>) -> (r: Self)
        requires
            answers@.len() <= 0xffff,
        ensures
            r.header == MessageHeader::new_response_spec(
                query.header,
                answers@.len() as u16,
                0,
                0,
            ),
            r@.questions == query@.questions,
            r@.answer == views(answers@),
            r@.authority.len() == 0,
            r@.additional.len() == 0,
    {
        let authority: Vec<ResourceRecord> = Vec::new();
        let additional: Vec<ResourceRecord> = Vec::new();
        Self {
            header: MessageHeader::new_response(
                &query.header,
                answers.len() as u16,
                authority.len() as u16,
                additional.len() as u16,
            ),
            questions: clone_questions(&query.questions),
            answer: answers,
            authority,
            additional,
        }
    }
}

/// The message is as `parse` gives it for bytes that `serialize` wrote: the
/// counts match the sections, the flags are canonical, and every question
/// and record is well-formed.
pub open spec fn message_well_formed(m: MessageModel) -> bool {
    &&& counts_match(m)
    &&& m.header.flags.canonical()
    &&& forall|i: int|
        0 <= i < m.questions.len() ==> labels_well_formed(#[trigger] m.questions[i].q_name)
    &&& forall|i: int| 0 <= i < m.answer.len() ==> record_well_formed(#[trigger] m.answer[i])
    &&& forall|i: int| 0 <= i < m.authority.len() ==> record_well_formed(#[trigger] m.authority[i])
    &&& forall|i: int|
        0 <= i < m.additional.len() ==> record_well_formed(#[trigger] m.additional[i])
}

pub proof fn lemma_questions_round_trip(data: Seq<u8>, pos: int, qs: Seq<QuestionModel>)
    requires
        forall|i: int| 0 <= i < qs.len() ==> labels_well_formed(#[trigger] qs[i].q_name),
        0 <= pos,
        pos + questions_bytes(qs).len() <= data.len(),
        data.subrange(pos, pos + questions_bytes(qs).len()) == questions_bytes(qs),
    ensures
        questions_at(data, pos, qs.len()) == Ok::<(Seq<QuestionModel>, int), DecodeError>(
            (qs, pos + questions_bytes(qs).len()),
        ),
    decreases qs.len(),
{
    if qs.len() == 0 {
        assert(qs =~= seq![]);
    } else {
        let f = |q: QuestionModel| question_bytes(q);
        let m = qs.map_values(f);
        let rest = qs.drop_first();
        assert(m.drop_first() =~= rest.map_values(f));
        let qb = question_bytes(qs[0]);
        let all = questions_bytes(qs);
        assert(all == qb + questions_bytes(rest));
        assert(data.subrange(pos, pos + qb.len()) =~= all.subrange(0, qb.len() as int));
        assert(all.subrange(0, qb.len() as int) =~= qb);
        assert(labels_well_formed(qs[0].q_name));
        lemma_question_round_trip(data, pos, qs[0]);
        let p = pos + qb.len();
        assert(data.subrange(p, p + questions_bytes(rest).len()) =~= all.subrange(
            qb.len() as int,
            all.len() as int,
        ));
        assert(all.subrange(qb.len() as int, all.len() as int) =~= questions_bytes(rest));
        assert forall|i: int| 0 <= i < rest.len() implies labels_well_formed(
            #[trigger] rest[i].q_name,
        ) by {
            assert(rest[i] == qs[i + 1]);
        }
        lemma_questions_round_trip(data, p, rest);
        assert(seq![qs[0]] + rest =~= qs);
    }
}

pub proof fn lemma_records_round_trip(data: Seq<u8>, pos: int, rs: Seq<RecordModel>)
    requires
        forall|i: int| 0 <= i < rs.len() ==> record_well_formed(#[trigger] rs[i]),
        0 <= pos,
        pos + records_bytes(rs).len() <= data.len(),
        data.subrange(pos, pos + records_bytes(rs).len()) == records_bytes(rs),
    ensures
        records_at(data, pos, rs.len()) == Ok::<(Seq<RecordModel>, int), DecodeError>(
            (rs, pos + records_bytes(rs).len()),
        ),
    decreases rs.len(),
{
    if rs.len() == 0 {
        assert(rs =~= seq![]);
    } else {
        let f = |r: RecordModel| record_bytes(r);
        let m = rs.map_values(f);
        let rest = rs.drop_first();
        assert(m.drop_first() =~= rest.map_values(f));
        let rb = record_bytes(rs[0]);
        let all = records_bytes(rs);
        assert(all == rb + records_bytes(rest));
        assert(data.subrange(pos, pos + rb.len()) =~= all.subrange(0, rb.len() as int));
        assert(all.subrange(0, rb.len() as int) =~= rb);
        assert(record_well_formed(rs[0]));
        lemma_record_round_trip(data, pos, rs[0]);
        let p = pos + rb.len();
        assert(data.subrange(p, p + records_bytes(rest).len()) =~= all.subrange(
            rb.len() as int,
            all.len() as int,
        ));
        assert(all.subrange(rb.len() as int, all.len() as int) =~= records_bytes(rest));
        assert forall|i: int| 0 <= i < rest.len() implies record_well_formed(#[trigger] rest[i]) by {
            assert(rest[i] == rs[i + 1]);
        }
        lemma_records_round_trip(data, p, rest);
        assert(seq![rs[0]] + rest =~= rs);
    }
}

/// A well-formed message decodes from the bytes written for it.
pub proof fn lemma_message_round_trip(m: MessageModel)
    requires
        message_well_formed(m),
    ensures
        message_at(message_bytes(m)) == Ok::<MessageModel, DecodeError>(m),
{
    let data = message_bytes(m);
    let hb = header_bytes(m.header);
    let qb = questions_bytes(m.questions);
    let ab = records_bytes(m.answer);
    let nb = records_bytes(m.authority);
    let db = records_bytes(m.additional);
    let p1 = 12 + qb.len() as int;
    let p2 = p1 + ab.len() as int;
    let p3 = p2 + nb.len() as int;
    crate::parsing::lemma_pow256_small();
    crate::serializing::lemma_be_round_trip(m.header.id as nat, 2);
    crate::serializing::lemma_be_round_trip(crate::flags::word_of_flags(m.header.flags) as nat, 2);
    crate::serializing::lemma_be_round_trip(m.header.qd_count as nat, 2);
    crate::serializing::lemma_be_round_trip(m.header.an_count as nat, 2);
    crate::serializing::lemma_be_round_trip(m.header.ns_count as nat, 2);
    crate::serializing::lemma_be_round_trip(m.header.ar_count as nat, 2);
    assert(hb.len() == 12);
    assert(data.subrange(0, 12) =~= hb);
    lemma_header_round_trip(data, 0, m.header);
    assert(data.subrange(12, p1) =~= qb);
    lemma_questions_round_trip(data, 12, m.questions);
    assert(data.subrange(p1, p2) =~= ab);
    lemma_records_round_trip(data, p1, m.answer);
    assert(data.subrange(p2, p3) =~= nb);
    lemma_records_round_trip(data, p2, m.authority);
    assert(data.subrange(p3, p3 + db.len()) =~= db);
    lemma_records_round_trip(data, p3, m.additional);
}

} // verus!
