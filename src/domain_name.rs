use vstd::prelude::*;
use vstd::utf8::decode_utf8;
use vstd::utf8::encode_utf8;
use vstd::utf8::encode_utf8_decode_utf8;
use vstd::utf8::encode_utf8_valid_utf8;
use vstd::utf8::valid_utf8;

use crate::parse_error::DecodeError;
use crate::parse_error::Decoded;
use crate::parse_error::ParseError;
use crate::parse_error::parse_matches;
use crate::parse_error::ParseResult;
use crate::parsing::Reader;
use crate::serializing::Writer;

verus! {

/// How many compression pointers one name may follow; a longer chain (a
/// loop among pointers, say) is a malformed name.
pub const MAX_POINTER_JUMPS: u32 = 64;

/// A domain name: its labels in order, the root label left implicit.
#[derive(Debug)]
pub struct DomainName {
    pub parts: Vec<String>,
}

impl View for DomainName {
    type V = Seq<Seq<char>>;

    open spec fn view(&self) -> Seq<Seq<char>> {
        self.parts.deep_view()
    }
}

impl Clone for DomainName {
    fn clone(&self) -> (r: Self)
        ensures
            r@ == self@,
    {
        let parts = self.parts.clone();
        proof {
            assert(parts.deep_view() =~= self.parts.deep_view());
        }
        DomainName { parts }
    }
}

/// What decoding a name from some offset comes to.
pub enum NameDecode {
    /// The labels, and the offset just after the name.
    Done(Seq<Seq<char>>, int),
    /// The input ended inside a length octet or a pointer.
    Truncated,
    /// A bad prefix, a label past the end or not UTF-8, or too many pointers;
    /// with the labels decoded before.
    Malformed(Seq<Seq<char>>),
}

/// Decodes the name at `pos` of the message `data`, after the labels `acc`,
/// following at most `jumps` compression pointers.
pub open spec fn name_from(data: Seq<u8>, pos: int, jumps: nat, acc: Seq<Seq<char>>) -> NameDecode
    decreases jumps, data.len() - pos,
{
    if pos < 0 || pos >= data.len() {
        NameDecode::Truncated
    } else {
        let oct = data[pos];
        if oct == 0 {
            NameDecode::Done(acc, pos + 1)
        } else if oct >> 6u8 == 0 {
            let start = pos + 1;
            let end = start + oct as int;
            if end > data.len() {
                NameDecode::Malformed(acc)
            } else if !valid_utf8(data.subrange(start, end)) {
                NameDecode::Malformed(acc)
            } else {
                name_from(data, end, jumps, acc.push(decode_utf8(data.subrange(start, end))))
            }
        } else if oct >> 6u8 == 3 {
            if pos + 1 >= data.len() {
                NameDecode::Truncated
            } else if jumps == 0 {
                NameDecode::Malformed(acc)
            } else {
                let target = (oct & 0x3fu8) as int * 256 + data[pos + 1] as int;
                match name_from(data, target, (jumps - 1) as nat, acc) {
                    NameDecode::Done(labels, _) => NameDecode::Done(labels, pos + 2),
                    other => other,
                }
            }
        } else {
            NameDecode::Malformed(acc)
        }
    }
}

/// The name at `pos` of the message `data`.
pub open spec fn name_at(data: Seq<u8>, pos: int) -> NameDecode {
    name_from(data, pos, MAX_POINTER_JUMPS as nat, seq![])
}

/// The decoded name as a `Decoded` value.
pub open spec fn name_result(d: NameDecode) -> Decoded<Seq<Seq<char>>> {
    match d {
        NameDecode::Done(labels, end) => Ok((labels, end)),
        NameDecode::Truncated => Err(DecodeError::BufferRead),
        NameDecode::Malformed(labels) => Err(DecodeError::DomainName(labels)),
    }
}

/// The length octet and the bytes of one label.
pub open spec fn label_bytes(s: Seq<char>) -> Seq<u8> {
    seq![encode_utf8(s).len() as u8] + encode_utf8(s)
}

/// The labels, each with its length octet, without the terminating zero.
pub open spec fn labels_bytes(labels: Seq<Seq<char>>) -> Seq<u8>
    decreases labels.len(),
{
    if labels.len() == 0 {
        seq![]
    } else {
        label_bytes(labels[0]) + labels_bytes(labels.drop_first())
    }
}

/// The bytes written for a name: its labels, then a zero octet.
pub open spec fn name_bytes(labels: Seq<Seq<char>>) -> Seq<u8> {
    labels_bytes(labels).push(0)
}

/// Every label fits the six bits of a length octet.
pub open spec fn labels_fit(labels: Seq<Seq<char>>) -> bool {
    forall|i: int| 0 <= i < labels.len() ==> #[trigger] encode_utf8(labels[i]).len() <= 63
}

/// Every label fits a length octet and is not empty, so that the name is
/// decoded as it was written.
pub open spec fn labels_well_formed(labels: Seq<Seq<char>>) -> bool {
    forall|i: int|
        0 <= i < labels.len() ==> 1 <= #[trigger] encode_utf8(labels[i]).len() <= 63
}

/// The labels of `s` between dots, as `str::split('.')` gives them.
pub open spec fn split_dots(s: Seq<char>) -> Seq<Seq<char>>
    decreases s.len(),
{
    if s.len() == 0 {
        seq![seq![]]
    } else {
        let rest = split_dots(s.drop_first());
        if s[0] == '.' {
            seq![Seq::<char>::empty()] + rest
        } else {
            rest.update(0, seq![s[0]] + rest[0])
        }
    }
}

/// The labels joined by dots.
pub open spec fn join_dots(labels: Seq<Seq<char>>) -> Seq<char>
    decreases labels.len(),
{
    if labels.len() == 0 {
        seq![]
    } else if labels.len() == 1 {
        labels[0]
    } else {
        join_dots(labels.drop_last()) + seq!['.'] + labels.last()
    }
}

/// Relies on str::split: the pieces of `s` between the separators '.', in
/// order, empty ones included.
#[verifier::external_body]
fn split_on_dots(s: &str) -> (r: Vec<String>)
    ensures
        r.deep_view() == split_dots(s@),
{
    s.split('.').map(|p| p.to_string()).collect()
}

/// Reads the label of `length` bytes that follows; `None` when the input is
/// shorter or the bytes are not UTF-8.
fn parse_label(reader: &mut Reader, length: u8) -> (r: Option<String>)
    ensures
        final(reader).data() == old(reader).data(),
        ({
            let start = old(reader).pos();
            let end = start + length;
            let bytes = old(reader).data().subrange(start, end);
            &&& end <= old(reader).data().len() && valid_utf8(bytes) ==> r is Some && r->Some_0@
                == decode_utf8(bytes) && final(reader).pos() == end
            &&& !(end <= old(reader).data().len() && valid_utf8(bytes)) ==> r is None
        }),
{
    match reader.read_string(length as usize) {
        Ok(s) => Some(s),
        Err(_) => None,
    }
}

/// Decodes labels from the reader's offset onto `parts`, following at most
/// `jumps_left` pointers; the reader ends after the name.
#[verifier::loop_isolation(false)]
fn parse_parts(reader: &mut Reader, jumps_left: u32, parts: &mut Vec<String>) -> (r: ParseResult<
    (),
>)
    ensures
        final(reader).data() == old(reader).data(),
        ({
            let d = name_from(
                old(reader).data(),
                old(reader).pos(),
                jumps_left as nat,
                old(parts).deep_view(),
            );
            &&& d is Done ==> r is Ok && final(parts).deep_view() == d->Done_0 && final(reader).pos()
                == d->Done_1
            &&& d is Truncated ==> r is Err && r->Err_0 is BufferReadError
            &&& d is Malformed ==> r is Err && r->Err_0 is DomainNameError
                && r->Err_0->DomainNameError_0.deep_view() == d->Malformed_0
        }),
    decreases jumps_left,
{
    let ghost data = old(reader).data();
    let ghost pos0 = old(reader).pos();
    let ghost acc0 = old(parts).deep_view();
    loop
        invariant
            reader.data() == data,
            name_from(data, pos0, jumps_left as nat, acc0) == name_from(
                data,
                reader.pos(),
                jumps_left as nat,
                parts.deep_view(),
            ),
        decreases data.len() - reader.pos(),
    {
        proof {
            reader.lemma_bounds();
        }
        let ghost pos = reader.pos();
        let ghost acc = parts.deep_view();
        let oct = match reader.read_u8() {
            Ok(b) => b,
            Err(e) => {
                return Err(ParseError::BufferReadError(e));
            },
        };
        if oct == 0 {
            return Ok(());
        }
        let prefix = oct >> 6u8;
        if prefix == 0 {
            match parse_label(reader, oct) {
                Some(label) => {
                    parts.push(label);
                    proof {
                        assert(parts.deep_view() =~= acc.push(decode_utf8(
                            data.subrange(pos + 1, pos + 1 + oct),
                        )));
                    }
                },
                None => {
                    return Err(ParseError::DomainNameError(parts.clone()));
                },
            }
        } else if prefix == 3 {
            let second_byte = match reader.read_u8() {
                Ok(b) => b,
                Err(e) => {
                    return Err(ParseError::BufferReadError(e));
                },
            };
            if jumps_left == 0 {
                return Err(ParseError::DomainNameError(parts.clone()));
            }
            let new_index = ((oct & 0x3fu8) as usize) * 256 + second_byte as usize;
            let old_index = reader.get_index();
            reader.set_index(new_index);
            let inner = parse_parts(reader, jumps_left - 1, parts);
            reader.set_index(old_index);
            // A pointer always ends the name.
            return inner;
        } else {
            return Err(ParseError::DomainNameError(parts.clone()));
        }
    }
}

impl DomainName {
    pub fn parse(reader: &mut Reader) -> (r: ParseResult<DomainName>)
        ensures
            final(reader).data() == old(reader).data(),
            parse_matches(r, name_result(name_at(old(reader).data(), old(reader).pos()))),
            r is Ok ==> final(reader).pos() == name_at(old(reader).data(), old(reader).pos())->Done_1,
    {
        let mut parts: Vec<String> = Vec::new();
        proof {
            assert(parts.deep_view() =~= Seq::<Seq<char>>::empty());
        }
        match parse_parts(reader, MAX_POINTER_JUMPS, &mut parts) {
            Ok(()) => Ok(DomainName { parts }),
            Err(e) => Err(e),
        }
    }

    /// Writes each label with its length octet, then the zero octet; no
    /// compression is written.
    pub fn serialize(&self, writer: &mut Writer)
        requires
            labels_fit(self@),
        ensures
            final(writer)@ == old(writer)@ + name_bytes(self@),
            forall|k: Seq<char>| #[trigger] final(writer).label_offset(k) == old(writer).label_offset(k),
    {
        let mut i: usize = 0;
        while i < self.parts.len()
            invariant
                i <= self.parts@.len(),
                labels_fit(self@),
                writer@ == old(writer)@ + labels_bytes(self@.take(i as int)),
                forall|k: Seq<char>| #[trigger] writer.label_offset(k) == old(writer).label_offset(k),
            decreases self.parts@.len() - i,
        {
            let part = &self.parts[i];
            let bytes = part.as_str().as_bytes();
            assert(encode_utf8(self@[i as int]).len() <= 63);
            let len = bytes.len();
            writer.write_u8(len as u8);
            writer.write_bytes(bytes);
            proof {
                lemma_labels_bytes_push(self@.take(i as int), self@[i as int]);
                assert(self@.take(i + 1) =~= self@.take(i as int).push(self@[i as int]));
            }
            i = i + 1;
        }
        writer.write_u8(0);
        assert(self@.take(i as int) =~= self@);
    }

    /// Whether every label fits a length octet, as `serialize` needs.
    pub fn is_encodable(&self) -> (r: bool)
        ensures
            r == labels_fit(self@),
    {
        let mut i: usize = 0;
        while i < self.parts.len()
            invariant
                i <= self.parts@.len(),
                forall|j: int| 0 <= j < i ==> #[trigger] encode_utf8(self@[j]).len() <= 63,
            decreases self.parts@.len() - i,
        {
            assert(self@[i as int] == self.parts@[i as int]@);
            if self.parts[i].as_str().as_bytes().len() > 63 {
                return false;
            }
            i = i + 1;
        }
        true
    }

    /// The name whose labels are the pieces of `name` between dots.
    pub fn from_string(name: &str) -> (r: Self)
        ensures
            r@ == split_dots(name@),
    {
        Self { parts: split_on_dots(name) }
    }

    /// The labels joined by dots.
    pub fn to_dotted(&self) -> (r: String)
        ensures
            r@ == join_dots(self@),
    {
        let mut out = String::new();
        let mut i: usize = 0;
        while i < self.parts.len()
            invariant
                i <= self.parts@.len(),
                out@ == join_dots(self@.take(i as int)),
            decreases self.parts@.len() - i,
        {
            let ghost before = self@.take(i as int);
            let ghost after = self@.take(i + 1);
            assert(after.drop_last() =~= before);
            if i > 0 {
                out = out.concat(".");
            }
            out = out.concat(self.parts[i].as_str());
            proof {
                if i == 0 {
                    assert(after =~= seq![self@[0]]);
                }
                reveal_strlit(".");
                assert(out@ =~= join_dots(after));
            }
            i = i + 1;
        }
        assert(self@.take(i as int) =~= self@);
        out
    }
}

pub proof fn lemma_labels_bytes_push(labels: Seq<Seq<char>>, s: Seq<char>)
    ensures
        labels_bytes(labels.push(s)) == labels_bytes(labels) + label_bytes(s),
    decreases labels.len(),
{
    if labels.len() == 0 {
        assert(labels.push(s).drop_first() =~= Seq::<Seq<char>>::empty());
        assert(labels_bytes(labels.push(s).drop_first()) =~= Seq::<u8>::empty());
        assert(labels_bytes(labels.push(s)) =~= label_bytes(s));
    } else {
        assert(labels.push(s).drop_first() =~= labels.drop_first().push(s));
        lemma_labels_bytes_push(labels.drop_first(), s);
        assert(labels_bytes(labels.push(s)) =~= labels_bytes(labels) + label_bytes(s));
    }
}

/// A name written by `serialize` (well-formed labels, no compression) decodes
/// to its labels, wherever it stands in the message, and the decoder stops
/// right after it.
pub proof fn lemma_name_round_trip(
    data: Seq<u8>,
    pos: int,
    labels: Seq<Seq<char>>,
    jumps: nat,
    acc: Seq<Seq<char>>,
)
    requires
        labels_well_formed(labels),
        0 <= pos,
        pos + name_bytes(labels).len() <= data.len(),
        data.subrange(pos, pos + name_bytes(labels).len()) == name_bytes(labels),
    ensures
        name_from(data, pos, jumps, acc) == NameDecode::Done(
            acc + labels,
            pos + name_bytes(labels).len(),
        ),
    decreases labels.len(),
{
    let nb = name_bytes(labels);
    assert(data[pos] == nb[0]);
    if labels.len() == 0 {
        assert(acc + labels =~= acc);
    } else {
        let s = labels[0];
        let e = encode_utf8(s);
        let n = e.len() as int;
        assert(1 <= encode_utf8(labels[0]).len() <= 63);
        let oct = n as u8;
        assert(nb[0] == oct);
        assert(oct != 0 && oct >> 6u8 == 0) by (bit_vector)
            requires
                1 <= oct <= 63,
        ;
        let rest = labels.drop_first();
        let rb = name_bytes(rest);
        assert(nb =~= seq![oct] + e + rb);
        assert(data.subrange(pos + 1, pos + 1 + n) =~= nb.subrange(1, 1 + n));
        assert(nb.subrange(1, 1 + n) =~= e);
        encode_utf8_valid_utf8(s);
        encode_utf8_decode_utf8(s);
        assert(data.subrange(pos + 1 + n, pos + 1 + n + rb.len()) =~= nb.subrange(
            1 + n,
            nb.len() as int,
        ));
        assert(nb.subrange(1 + n, nb.len() as int) =~= rb);
        assert forall|i: int| 0 <= i < rest.len() implies 1 <= #[trigger] encode_utf8(rest[i]).len()
            <= 63 by {
            assert(rest[i] == labels[i + 1]);
        }
        lemma_name_round_trip(data, pos + 1 + n, rest, jumps, acc.push(s));
        assert(acc.push(s) + rest =~= acc + labels);
    }
}

/// A compression pointer stands for the labels at its target: the name that
/// holds it decodes to what decoding from the target gives, and ends after
/// the pointer's two bytes.
pub proof fn lemma_pointer_flattens(data: Seq<u8>, pos: int, jumps: nat, acc: Seq<Seq<char>>)
    requires
        0 <= pos,
        pos + 1 < data.len(),
        data[pos] >> 6u8 == 3,
        jumps > 0,
    ensures
        ({
            let target = (data[pos] & 0x3fu8) as int * 256 + data[pos + 1] as int;
            let inner = name_from(data, target, (jumps - 1) as nat, acc);
            &&& inner is Done ==> name_from(data, pos, jumps, acc) == NameDecode::Done(
                inner->Done_0,
                pos + 2,
            )
            &&& !(inner is Done) ==> name_from(data, pos, jumps, acc) == inner
        }),
{
    let oct = data[pos];
    assert(oct >> 6u8 == 3 ==> oct != 0) by (bit_vector);
}

} // verus!
