use vdns::cache::{cache_entries, cached_record, get_id};
use vdns::domain_name::DomainName;
use vdns::flags::RCode;
use vdns::message::Message;
use vdns::parsing::Reader;
use vdns::resolver::accepted_answers;
use vdns::resource_record::ResourceRecord;
use vdns::rr_data::RRData;
use vdns::rr_type::RRType;
use vdns::serializing::Writer;
use vdns::ttl::TTL;

fn record(name: &str, ttl: u32, address: u32) -> ResourceRecord {
    let mut w = Writer::new();
    DomainName::from_string(name).serialize(&mut w);
    w.write_u16(1);
    w.write_u16(1);
    w.write_u32(ttl);
    w.write_u16(4);
    w.write_u32(address);
    ResourceRecord::parse(&mut Reader::new(&w.get_serialized_message())).unwrap()
}

fn response_with(answers: Vec<ResourceRecord>) -> Message {
    let query = Message::new_query_with_id(5, "example.com", RRType::A, true);
    Message::new_response(&query, answers)
}

#[test]
fn cache_key_is_type_and_lower_case_name() {
    let upper = DomainName::from_string("Example.COM");
    let lower = DomainName::from_string("example.com");
    assert_eq!(get_id(&upper, &RRType::A), "A@example.com");
    assert_eq!(get_id(&upper, &RRType::A), get_id(&lower, &RRType::A));
    assert_eq!(get_id(&lower, &RRType::AAAA), "AAAA@example.com");
    assert_ne!(get_id(&lower, &RRType::A), get_id(&lower, &RRType::AAAA));
}

#[test]
fn cached_under_lower_case_found_for_mixed_case() {
    let response = response_with(vec![record("example.com", 300, 0x0102_0304)]);
    let entries = cache_entries(&response);
    assert_eq!(entries.len(), 1);
    let looked_up = get_id(&DomainName::from_string("Example.COM"), &RRType::A);
    assert_eq!(entries[0].key, looked_up);
    let hit = cached_record(&entries[0].value, 120).unwrap();
    match hit.rdata {
        RRData::A(a) => assert_eq!(a.address.address, 0x0102_0304),
        other => panic!("unexpected {other:?}"),
    }
}

#[test]
fn cache_entries_skip_uncacheable_answers() {
    let response = response_with(vec![
        record("a.example.com", 0, 1),
        record("b.example.com", 60, 2),
        record("c.example.com", 0, 3),
        record("D.example.com", 1, 4),
    ]);
    let entries = cache_entries(&response);
    assert_eq!(entries.len(), 2);
    assert_eq!(entries[0].key, "A@b.example.com");
    assert_eq!(entries[0].seconds, 60);
    assert_eq!(entries[1].key, "A@d.example.com");
    assert_eq!(entries[1].seconds, 1);
    for e in entries.iter() {
        assert!(e.seconds > 0);
    }
    let mut w = Writer::new();
    response.answer[1].serialize(&mut w);
    assert_eq!(entries[0].value, w.get_serialized_message());
    assert!(cache_entries(&response_with(vec![record("x.org", 0, 9)])).is_empty());
}

#[test]
fn cached_record_takes_remaining_ttl() {
    let mut w = Writer::new();
    record("example.com", 3600, 7).serialize(&mut w);
    let stored = w.get_serialized_message();
    let rec = cached_record(&stored, 42).unwrap();
    assert_eq!(rec.ttl, TTL::Cache(42));
    assert_eq!(rec.name.to_dotted(), "example.com");
    assert_eq!(cached_record(&stored, 0).unwrap().ttl, TTL::NoCache);
    assert!(cached_record(&stored[..5], 42).is_none());
    assert!(cached_record(&[], 42).is_none());
}

#[test]
fn upstream_answers_kept_only_without_error() {
    let ok = response_with(vec![record("example.com", 10, 1), record("example.com", 10, 2)]);
    assert_eq!(accepted_answers(ok).len(), 2);
    let mut failed = response_with(vec![record("example.com", 10, 1)]);
    failed.header.flags.r_code = RCode::NameError;
    assert!(accepted_answers(failed).is_empty());
}
