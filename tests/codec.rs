use vdns::class::{Class, QClass};
use vdns::domain_name::DomainName;
use vdns::flags::{Flags, OpCode, RCode, QR};
use vdns::message::Message;
use vdns::message_header::MessageHeader;
use vdns::parse_error::ParseError;
use vdns::parsing::{Reader, ReaderError};
use vdns::question::Question;
use vdns::resource_record::ResourceRecord;
use vdns::rr_data::{IPV4Address, RRData, A, AAAA, SOA};
use vdns::rr_type::RRType;
use vdns::serializing::{write_u16, write_u32, write_u8, Writer};
use vdns::ttl::TTL;

fn name(s: &str) -> DomainName {
    DomainName::from_string(s)
}

fn labels(n: &DomainName) -> Vec<String> {
    n.parts.clone()
}

fn rdata_round_trip(data: &RRData) -> RRData {
    let mut writer = Writer::new();
    data.serialize(&mut writer);
    let bytes = writer.get_serialized_message();
    let mut reader = Reader::new(&bytes);
    let parsed = RRData::parse(&mut reader, &data.rr_type(), bytes.len() as u16).unwrap();
    assert_eq!(reader.get_index(), bytes.len());
    parsed
}

#[test]
fn reader_reads_big_endian_integers() {
    let buf: Vec<u8> = (1..=31).collect();
    let mut reader = Reader::new(&buf);
    assert_eq!(reader.read_u8().unwrap(), 1);
    assert_eq!(reader.read_u16().unwrap(), 0x0203);
    assert_eq!(reader.read_u32().unwrap(), 0x0405_0607);
    assert_eq!(reader.read_u64().unwrap(), 0x0809_0a0b_0c0d_0e0f);
    assert_eq!(
        reader.read_u128().unwrap(),
        0x1011_1213_1415_1617_1819_1a1b_1c1d_1e1f
    );
    assert_eq!(reader.get_index(), 31);
    assert!(matches!(reader.read_u8(), Err(ReaderError::U8)));
    assert_eq!(reader.peek_remaining_bytes().len(), 0);
}

#[test]
fn reader_reports_truncated_reads() {
    let buf = [1u8, 2, 3];
    let mut reader = Reader::new(&buf);
    assert!(matches!(reader.read_u32(), Err(ReaderError::U32)));
    assert_eq!(reader.get_index(), 0);
    assert!(matches!(reader.read_u64(), Err(ReaderError::U64)));
    assert!(matches!(reader.read_u128(), Err(ReaderError::U128)));
    assert!(matches!(reader.read_vec(4), Err(ReaderError::Vec)));
    assert!(matches!(reader.read_string(4), Err(ReaderError::String)));
    assert!(matches!(reader.read_array::<4>(), Err(ReaderError::Array)));
    assert_eq!(reader.read_u16().unwrap(), 0x0102);
    assert!(matches!(reader.read_u16(), Err(ReaderError::U16)));
    assert_eq!(reader.peek_remaining_bytes(), &[3u8][..]);
    reader.set_index(10);
    assert_eq!(reader.peek_remaining_bytes().len(), 0);
    assert!(matches!(reader.read_u8(), Err(ReaderError::U8)));
}

#[test]
fn reader_reads_vectors_and_text() {
    let buf = [b'h', b'i', 0xff, 0xfe, 7];
    let mut reader = Reader::new(&buf);
    assert_eq!(reader.read_array::<1>().unwrap(), [b'h']);
    reader.set_index(0);
    assert_eq!(reader.read_string(2).unwrap(), "hi");
    assert!(matches!(reader.read_string(2), Err(ReaderError::StringParse(_))));
    assert_eq!(reader.get_index(), 4);
    assert_eq!(reader.read_vec(1).unwrap(), vec![7]);
    assert_eq!(reader.read_vec(0).unwrap(), Vec::<u8>::new());
}

#[test]
fn writer_writes_big_endian_integers() {
    let mut writer = Writer::new();
    writer.write_u8(0xab);
    writer.write_u16(0x0102);
    writer.write_u32(0x0304_0506);
    assert_eq!(writer.len(), 7);
    let mut other = Writer::new();
    other.write_u16(0xfffe);
    writer.merge(&mut other);
    assert_eq!(
        writer.get_serialized_message(),
        vec![0xab, 1, 2, 3, 4, 5, 6, 0xff, 0xfe]
    );
    assert_eq!(other.get_serialized_message(), vec![0xff, 0xfe]);

    let mut buf = vec![9u8];
    write_u8(&mut buf, 1);
    write_u16(&mut buf, 0x0a0b);
    write_u32(&mut buf, 0xdead_beef);
    assert_eq!(buf, vec![9, 1, 0x0a, 0x0b, 0xde, 0xad, 0xbe, 0xef]);
}

#[test]
fn writer_tracks_label_offsets() {
    let mut writer = Writer::new();
    assert_eq!(writer.lookup_label(&"com".to_string()), None);
    writer.write_u16(7);
    writer.track_label("com".to_string());
    writer.write_u8(1);
    writer.track_label("org".to_string());
    assert_eq!(writer.lookup_label(&"com".to_string()), Some(2));
    assert_eq!(writer.lookup_label(&"org".to_string()), Some(3));
    writer.track_label("com".to_string());
    assert_eq!(writer.lookup_label(&"com".to_string()), Some(3));
    assert_eq!(writer.lookup_label(&"net".to_string()), None);
}

#[test]
fn rr_type_codes() {
    assert_eq!(RRType::from_code(1), RRType::A);
    assert_eq!(RRType::from_code(28), RRType::AAAA);
    assert_eq!(RRType::from_code(32768), RRType::TA);
    assert_eq!(RRType::from_code(32769), RRType::DLV);
    assert_eq!(RRType::from_code(0), RRType::Reserved);
    assert_eq!(RRType::from_code(65535), RRType::Reserved);
    assert_eq!(RRType::from_code(54), RRType::Unassigned);
    assert_eq!(RRType::from_code(100), RRType::UINFO);
    assert_eq!(RRType::from_code(200), RRType::Unassigned);
    assert_eq!(RRType::from_code(65300), RRType::PrivateUse);
    assert_eq!(RRType::TA.code(), 32768);
    assert_eq!(RRType::DLV.code(), 32769);
    assert_eq!(RRType::Unassigned.code(), 54);
    assert_eq!(RRType::PrivateUse.code(), 65280);
    assert_eq!(RRType::CAA.code(), 257);
    for code in 0..=u16::MAX {
        let t = RRType::from_code(code);
        assert_eq!(RRType::from_code(t.code()), t);
    }
}

#[test]
fn rr_type_mnemonics() {
    assert_eq!(RRType::NsapPtr.mnemonic(), "NsapPtr");
    assert_eq!(RRType::from_mnemonic("AAAA"), Some(RRType::AAAA));
    assert_eq!(RRType::from_mnemonic("TXT"), Some(RRType::TXT));
    assert_eq!(RRType::from_mnemonic("aaaa"), None);
    assert_eq!(RRType::from_mnemonic(""), None);
}

#[test]
fn class_codes_round_trip() {
    for code in 0..=u16::MAX {
        let buf = code.to_be_bytes();
        let class = Class::parse(&mut Reader::new(&buf)).unwrap();
        let q_class = QClass::parse(&mut Reader::new(&buf)).unwrap();
        let mut w = Writer::new();
        class.serialize(&mut w);
        let again = Class::parse(&mut Reader::new(&w.get_serialized_message())).unwrap();
        assert_eq!(again, class);
        let mut w = Writer::new();
        q_class.serialize(&mut w);
        let again = QClass::parse(&mut Reader::new(&w.get_serialized_message())).unwrap();
        assert_eq!(again, q_class);
    }
    assert_eq!(Class::parse(&mut Reader::new(&[0, 1])).unwrap(), Class::IN);
    assert_eq!(Class::parse(&mut Reader::new(&[0, 9])).unwrap(), Class::Unassigned);
    assert_eq!(QClass::parse(&mut Reader::new(&[0, 254])).unwrap(), QClass::NoneClass);
    assert_eq!(QClass::parse(&mut Reader::new(&[0, 255])).unwrap(), QClass::Any);
    assert_eq!(QClass::parse(&mut Reader::new(&[0xff, 0x00])).unwrap(), QClass::PrivateUse);
    assert_eq!(QClass::parse(&mut Reader::new(&[0xff, 0xff])).unwrap(), QClass::Reserved);
    assert!(matches!(
        Class::parse(&mut Reader::new(&[1])),
        Err(ParseError::BufferReadError(ReaderError::U16))
    ));
}

#[test]
fn flags_word_round_trip_for_all_words() {
    for w in 0..=u16::MAX {
        let buf = w.to_be_bytes();
        let flags = Flags::parse(&mut Reader::new(&buf)).unwrap();
        let mut writer = Writer::new();
        flags.serialize(&mut writer);
        let out = writer.get_serialized_message();
        let written = u16::from_be_bytes([out[0], out[1]]);
        let op = (w >> 11) & 0xf;
        let rc = w & 0xf;
        let expected_op = if op <= 3 { op } else { 3 };
        let expected_rc = if rc <= 6 { rc } else { 6 };
        let expected = (w & 0x87b0) | (expected_op << 11) | expected_rc;
        assert_eq!(written, expected, "word {w:#06x}");
        if op <= 3 && rc <= 6 {
            assert_eq!(written, w & 0xffbf);
        }
        assert_eq!(flags.z as u16, (w >> 6) & 1);
    }
}

#[test]
fn flags_fields_and_constructors() {
    let flags = Flags::parse(&mut Reader::new(&[0x81, 0x80])).unwrap();
    assert_eq!(flags.qr, QR::Response);
    assert_eq!(flags.op_code, OpCode::Query);
    assert!(flags.rd && flags.ra && !flags.aa && !flags.tc);
    assert_eq!(flags.r_code, RCode::NoError);
    let odd = Flags::parse(&mut Reader::new(&[0x7f, 0x7f])).unwrap();
    assert_eq!(odd.op_code, OpCode::Reserved);
    assert_eq!(odd.r_code, RCode::Reserved);
    assert_eq!(odd.z, 1);
    assert!(odd.ad && odd.cd);

    let q = Flags::new_query(true);
    assert!(q.is_query() && q.recurse());
    assert_eq!(q.to_word(), 0x0100);
    let r = Flags::new_response(&Flags { op_code: OpCode::Status, ..q });
    assert!(!r.is_query());
    assert_eq!(r.op_code, OpCode::Status);
    assert!(r.rd && r.ra && !r.aa && !r.ad && !r.cd);
    assert_eq!(r.r_code, RCode::NoError);
    assert_eq!(r.to_word(), 0x9180);
}

#[test]
fn header_new_query_and_response() {
    let q = MessageHeader::new_query(true);
    assert_eq!((q.qd_count, q.an_count, q.ns_count, q.ar_count), (1, 0, 0, 0));
    assert!(q.is_query() && q.do_recursion());
    let fixed = MessageHeader::new_query_with_id(0x1234, false);
    assert_eq!(fixed.id, 0x1234);
    assert!(!fixed.do_recursion());
    let resp = MessageHeader::new_response(&q, 3, 1, 2);
    assert_eq!(resp.id, q.id);
    assert_eq!(resp.qd_count, q.qd_count);
    assert_eq!((resp.an_count, resp.ns_count, resp.ar_count), (3, 1, 2));
    assert!(!resp.is_query() && resp.do_recursion() && resp.flags.ra);
}

#[test]
fn header_round_trip() {
    let h = MessageHeader::new_query_with_id(0xbeef, true);
    let mut writer = Writer::new();
    h.serialize(&mut writer);
    let bytes = writer.get_serialized_message();
    assert_eq!(bytes, vec![0xbe, 0xef, 0x01, 0x00, 0, 1, 0, 0, 0, 0, 0, 0]);
    let back = MessageHeader::parse(&mut Reader::new(&bytes)).unwrap();
    assert_eq!(back, h);
}

#[test]
fn header_only_response_buffer() {
    let buf = [0xa8, 0x20, 0x81, 0x80, 0x00, 0x01, 0x00, 0x02, 0x00, 0x00, 0x00, 0x00];
    let header = MessageHeader::parse(&mut Reader::new(&buf)).unwrap();
    assert_eq!(header.id, 0xa820);
    assert_eq!(header.flags.qr, QR::Response);
    assert!(header.flags.ra);
    assert_eq!(header.flags.r_code, RCode::NoError);
    assert_eq!(header.qd_count, 1);
    assert_eq!(header.an_count, 2);
    assert_eq!(header.ns_count, 0);
    assert_eq!(header.ar_count, 0);
    assert!(matches!(
        MessageHeader::parse(&mut Reader::new(&buf[..11])),
        Err(ParseError::BufferReadError(_))
    ));
    // With no sections behind it, the whole message fails in its questions.
    assert!(matches!(Message::parse(&buf), Err(ParseError::Question)));
}

#[test]
fn query_for_duckduckgo() {
    let mut buf = vec![0x12, 0x34, 0x01, 0x00, 0, 1, 0, 0, 0, 0, 0, 0];
    buf.extend_from_slice(&[
        0x0a, 0x64, 0x75, 0x63, 0x6b, 0x64, 0x75, 0x63, 0x6b, 0x67, 0x6f, 0x03, 0x63, 0x6f, 0x6d,
        0x00, 0x00, 0x01, 0x00, 0x01,
    ]);
    let message = Message::parse(&buf).unwrap();
    assert!(message.is_query());
    assert!(message.do_recursion());
    assert_eq!(message.questions.len(), 1);
    let q = &message.questions[0];
    assert_eq!(q.q_name.to_dotted(), "duckduckgo.com");
    assert_eq!(labels(&q.q_name), vec!["duckduckgo", "com"]);
    assert_eq!(q.q_type, RRType::A);
    assert_eq!(q.q_class, QClass::IN);
    let names = message.question_names();
    assert_eq!(names.len(), 1);
    assert_eq!(names[0].0.to_dotted(), "duckduckgo.com");
    assert_eq!(names[0].1, RRType::A);
    // Written again, the message is the same bytes.
    assert!(message.is_encodable());
    assert_eq!(message.serialize(), buf);
}

#[test]
fn name_compression_pointer() {
    let mut buf = vec![0u8; 12];
    buf.extend_from_slice(&[1, b'a', 0]); // "a" at offset 12
    buf.extend_from_slice(&[0xc0, 0x0c]); // pointer at offset 15
    let mut reader = Reader::new(&buf);
    reader.set_index(15);
    let n = DomainName::parse(&mut reader).unwrap();
    assert_eq!(labels(&n), vec!["a"]);
    assert_eq!(reader.get_index(), 17);
}

#[test]
fn name_compression_two_level_chain() {
    let mut buf = vec![0u8; 12];
    buf.extend_from_slice(&[1, b'a', 1, b'b', 0]); // "a.b" at offset 12
    buf.extend_from_slice(&[1, b'x', 0xc0, 0x0c]); // "x" then pointer, at offset 17
    buf.extend_from_slice(&[1, b'y', 0xc0, 0x11]); // "y" then pointer to 17, at offset 21
    let mut reader = Reader::new(&buf);
    reader.set_index(21);
    let chained = DomainName::parse(&mut reader).unwrap();
    assert_eq!(reader.get_index(), 25);

    let full = [1, b'y', 1, b'x', 1, b'a', 1, b'b', 0];
    let written_out = DomainName::parse(&mut Reader::new(&full)).unwrap();
    assert_eq!(labels(&chained), labels(&written_out));
    assert_eq!(chained.to_dotted(), "y.x.a.b");
}

#[test]
fn name_pointer_loop_is_malformed() {
    let buf = [1, b'a', 0xc0, 0x00];
    match DomainName::parse(&mut Reader::new(&buf)) {
        Err(ParseError::DomainNameError(so_far)) => assert_eq!(so_far[0], "a"),
        other => panic!("unexpected {other:?}"),
    }
    let self_pointer = [0xc0, 0x00];
    assert!(matches!(
        DomainName::parse(&mut Reader::new(&self_pointer)),
        Err(ParseError::DomainNameError(_))
    ));
}

#[test]
fn name_errors() {
    // 0b01 prefix
    match DomainName::parse(&mut Reader::new(&[2, b'o', b'k', 0x40, 0])) {
        Err(ParseError::DomainNameError(so_far)) => assert_eq!(so_far, vec!["ok".to_string()]),
        other => panic!("unexpected {other:?}"),
    }
    // label past the end
    assert!(matches!(
        DomainName::parse(&mut Reader::new(&[5, b'a', b'b'])),
        Err(ParseError::DomainNameError(_))
    ));
    // label that is not UTF-8
    assert!(matches!(
        DomainName::parse(&mut Reader::new(&[2, 0xff, 0xfe, 0])),
        Err(ParseError::DomainNameError(_))
    ));
    // no terminating octet
    assert!(matches!(
        DomainName::parse(&mut Reader::new(&[1, b'a'])),
        Err(ParseError::BufferReadError(ReaderError::U8))
    ));
    // pointer cut short
    assert!(matches!(
        DomainName::parse(&mut Reader::new(&[0xc0])),
        Err(ParseError::BufferReadError(ReaderError::U8))
    ));
}

#[test]
fn name_serialize_and_split() {
    let n = name("www.example.com");
    assert_eq!(labels(&n), vec!["www", "example", "com"]);
    assert!(n.is_encodable());
    let mut writer = Writer::new();
    n.serialize(&mut writer);
    let bytes = writer.get_serialized_message();
    assert_eq!(
        bytes,
        vec![3, b'w', b'w', b'w', 7, b'e', b'x', b'a', b'm', b'p', b'l', b'e', 3, b'c', b'o', b'm', 0]
    );
    let back = DomainName::parse(&mut Reader::new(&bytes)).unwrap();
    assert_eq!(labels(&back), labels(&n));
    assert_eq!(labels(&name("a..b.")), vec!["a", "", "b", ""]);
    assert_eq!(labels(&name("")), vec![""]);
    let long = "x".repeat(64);
    assert!(!name(&long).is_encodable());
    assert!(name(&"x".repeat(63)).is_encodable());
    assert_eq!(n.clone().to_dotted(), "www.example.com");
}

#[test]
fn ttl_zero_is_no_cache() {
    assert_eq!(TTL::parse(&mut Reader::new(&[0, 0, 0, 0])).unwrap(), TTL::NoCache);
    assert_eq!(TTL::parse(&mut Reader::new(&[0, 0, 1, 0])).unwrap(), TTL::Cache(256));
    assert_eq!(TTL::parse(&mut Reader::new(&[0xff; 4])).unwrap(), TTL::Cache(u32::MAX));
    assert_eq!(TTL::NoCache.seconds_until_expiration(), 0);
    assert_eq!(TTL::from_seconds(0), TTL::NoCache);
    assert_eq!(TTL::from_seconds(9), TTL::Cache(9));
    let mut w = Writer::new();
    TTL::Cache(300).serialize(&mut w);
    TTL::NoCache.serialize(&mut w);
    assert_eq!(w.get_serialized_message(), vec![0, 0, 1, 44, 0, 0, 0, 0]);
}

#[test]
fn rdata_a_round_trip() {
    for address in [0u32, u32::MAX, 0x7f00_0001] {
        let data = RRData::A(A { address: IPV4Address { address } });
        match rdata_round_trip(&data) {
            RRData::A(a) => assert_eq!(a.address.address, address),
            other => panic!("unexpected {other:?}"),
        }
    }
    assert_eq!(IPV4Address { address: 0xc0a8_0101 }.octets(), [192, 168, 1, 1]);
}

#[test]
fn rdata_aaaa_round_trip() {
    let mut loopback = [0u8; 16];
    loopback[15] = 1;
    let data = RRData::AAAA(AAAA { address: loopback });
    match rdata_round_trip(&data) {
        RRData::AAAA(a) => assert_eq!(a.address, loopback),
        other => panic!("unexpected {other:?}"),
    }
}

#[test]
fn rdata_txt_round_trip() {
    for text in [String::new(), "t".repeat(255), "héllo".to_string()] {
        let data = RRData::TXT(text.clone());
        match rdata_round_trip(&data) {
            RRData::TXT(t) => assert_eq!(t, text),
            other => panic!("unexpected {other:?}"),
        }
    }
}

#[test]
fn rdata_soa_and_cname_round_trip() {
    for (serial, refresh, retry, expire, minimum) in
        [(0, 0, 0, 0, 0), (u32::MAX, 1, 0x8000_0000, 7200, 3600), (1, 2, 3, 4, 5)]
    {
        let soa = SOA {
            m_name: name("ns1.example.com"),
            r_name: name("hostmaster.example.com"),
            serial,
            refresh,
            retry,
            expire,
            minimum,
        };
        match rdata_round_trip(&RRData::SOA(soa)) {
            RRData::SOA(s) => {
                assert_eq!(labels(&s.m_name), vec!["ns1", "example", "com"]);
                assert_eq!(labels(&s.r_name), vec!["hostmaster", "example", "com"]);
                assert_eq!(
                    (s.serial, s.refresh, s.retry, s.expire, s.minimum),
                    (serial, refresh, retry, expire, minimum)
                );
            }
            other => panic!("unexpected {other:?}"),
        }
    }
    match rdata_round_trip(&RRData::CNAME(name("alias.example.org"))) {
        RRData::CNAME(n) => assert_eq!(n.to_dotted(), "alias.example.org"),
        other => panic!("unexpected {other:?}"),
    }
}

#[test]
fn unsupported_record_type_is_an_error() {
    let mut reader = Reader::new(&[1, 2, 3, 4]);
    assert!(matches!(
        RRData::parse(&mut reader, &RRType::NS, 4),
        Err(ParseError::UnsupportedType(RRType::NS))
    ));
    // A whole NS record in the answer section.
    let mut buf = vec![0, 7, 0x81, 0x80, 0, 0, 0, 1, 0, 0, 0, 0];
    buf.extend_from_slice(&[0, 0, 2, 0, 1, 0, 0, 0, 60, 0, 1, 0]);
    let mut reader = Reader::new(&buf[12..]);
    assert!(matches!(
        ResourceRecord::parse(&mut reader),
        Err(ParseError::UnsupportedType(RRType::NS))
    ));
    assert!(matches!(Message::parse(&buf), Err(ParseError::Answer)));
}

fn a_record(n: &str, ttl: u32, address: u32) -> Vec<u8> {
    let mut w = Writer::new();
    name(n).serialize(&mut w);
    w.write_u16(1);
    w.write_u16(1);
    w.write_u32(ttl);
    w.write_u16(4);
    w.write_u32(address);
    w.get_serialized_message()
}

#[test]
fn resource_record_parse_and_serialize() {
    let bytes = a_record("example.com", 300, 0x5db8_d822);
    let mut reader = Reader::new(&bytes);
    let rec = ResourceRecord::parse(&mut reader).unwrap();
    assert_eq!(reader.get_index(), bytes.len());
    assert_eq!(rec.record_type, RRType::A);
    assert_eq!(rec.class, Class::IN);
    assert_eq!(rec.ttl, TTL::Cache(300));
    assert_eq!(rec.rd_length, 4);
    assert_eq!(rec.seconds_until_expiration(), 300);
    let (n, t) = rec.get_query_name_type();
    assert_eq!(n.to_dotted(), "example.com");
    assert_eq!(t, RRType::A);
    assert!(rec.is_encodable());
    let mut w = Writer::new();
    rec.serialize(&mut w);
    assert_eq!(w.get_serialized_message(), bytes);
    let mut rec = rec;
    rec.set_ttl(12);
    assert_eq!(rec.ttl, TTL::Cache(12));
    rec.set_ttl(0);
    assert_eq!(rec.ttl, TTL::NoCache);
}

#[test]
fn message_sections_and_errors() {
    let mut buf = vec![0, 9, 0x81, 0x80, 0, 1, 0, 1, 0, 1, 0, 1];
    let mut q = Writer::new();
    Question::new("example.com", RRType::A).serialize(&mut q);
    buf.extend(q.get_serialized_message());
    buf.extend(a_record("example.com", 60, 1));
    buf.extend(a_record("example.com", 0, 2));
    buf.extend(a_record("other.example.com", 5, 3));
    let message = Message::parse(&buf).unwrap();
    assert_eq!(message.answer.len(), 1);
    assert_eq!(message.authority.len(), 1);
    assert_eq!(message.additional.len(), 1);
    assert_eq!(message.authority[0].ttl, TTL::NoCache);
    assert_eq!(message.serialize(), buf);

    let cut = |n: usize| Message::parse(&buf[..buf.len() - n]);
    assert!(matches!(cut(1), Err(ParseError::Additional)));
    let additional_len = a_record("other.example.com", 5, 3).len();
    assert!(matches!(cut(additional_len + 1), Err(ParseError::Authority)));
    assert!(matches!(cut(additional_len + 30), Err(ParseError::Answer)));
    assert!(matches!(Message::parse(&buf[..14]), Err(ParseError::Question)));
    assert!(matches!(Message::parse(&buf[..3]), Err(ParseError::BufferReadError(_))));
}

#[test]
fn message_query_and_response() {
    let query = Message::new_query_with_id(0x4242, "example.com", RRType::AAAA, true);
    assert_eq!(query.header.id, 0x4242);
    assert!(query.is_query() && query.do_recursion());
    let bytes = query.serialize();
    let back = Message::parse(&bytes).unwrap();
    assert_eq!(back.header, query.header);
    assert_eq!(back.questions[0].q_type, RRType::AAAA);
    assert_eq!(back.questions[0].q_class, QClass::IN);

    let random = Message::new_query("example.com", RRType::A, false);
    assert_eq!(random.header.qd_count, 1);
    assert!(!random.do_recursion());

    let answers = vec![ResourceRecord::parse(&mut Reader::new(&a_record("example.com", 9, 7))).unwrap()];
    let resp = Message::new_response(&back, answers);
    assert_eq!(resp.header.id, 0x4242);
    assert_eq!(resp.header.qd_count, 1);
    assert_eq!(resp.header.an_count, 1);
    assert!(!resp.is_query());
    assert_eq!(resp.questions.len(), 1);
    assert_eq!(resp.questions[0].q_name.to_dotted(), "example.com");
    let again = Message::parse(&resp.serialize()).unwrap();
    assert_eq!(again.answer.len(), 1);
    assert_eq!(again.header, resp.header);
}

#[test]
fn message_with_mismatched_counts_is_not_encodable() {
    let mut query = Message::new_query_with_id(1, "example.com", RRType::A, true);
    assert!(query.is_encodable());
    query.header.an_count = 1;
    assert!(!query.is_encodable());
    let long = Message::new_query_with_id(1, &"y".repeat(64), RRType::A, true);
    assert!(!long.is_encodable());
}
