use vstd::prelude::*;

use crate::domain_name::DomainName;
use crate::domain_name::join_dots;
use crate::message::Message;
use crate::message::views;
use crate::parsing::Reader;
use crate::resource_record::RecordModel;
use crate::resource_record::ResourceRecord;
use crate::resource_record::record_at;
use crate::resource_record::record_bytes;
use crate::resource_record::record_fits;
use crate::rr_type::RRType;
use crate::rr_type::rr_type_mnemonic;
use crate::serializing::Writer;
use crate::ttl::seconds_of_ttl;
use crate::ttl::ttl_of_seconds;

verus! {

/// The lower-case form of a text, as `str::to_lowercase` gives it.
pub uninterp spec fn lower_of(s: Seq<char>) -> Seq<char>;

/// Relies on str::to_lowercase: the lower-case form of the text, which
/// depends on the text alone.
#[verifier::external_body]
fn lowercase(s: &str) -> (r: String)
    ensures
        r@ == lower_of(s@),
{
    s.to_lowercase()
}

/// The store key of the records of type `t` at the name `name`: the type's
/// mnemonic, '@', and the dotted name in lower case, so that names that
/// differ only in case share a key.
pub open spec fn cache_key_of(name: Seq<Seq<char>>, t: RRType) -> Seq<char> {
    rr_type_mnemonic(t) + seq!['@'] + lower_of(join_dots(name))
}

/// The answers that are stored: those that may be cached for some seconds.
pub open spec fn cacheable(answers: Seq<RecordModel>) -> Seq<RecordModel> {
    answers.filter(|r: RecordModel| seconds_of_ttl(r.ttl) > 0)
}

/// One write to the store: the value under the key, expiring after
/// `seconds`.
pub struct CacheEntry {
    pub key: String,
    pub value: Vec<u8>,
    pub seconds: u32,
}

/// Whether `e` is the write for the answer `r`: its key, its bytes, and its
/// TTL as the expiry.
pub open spec fn entry_for(e: CacheEntry, r: RecordModel) -> bool {
    &&& e.key@ == cache_key_of(r.name, r.record_type)
    &&& e.value@ == record_bytes(r)
    &&& e.seconds == seconds_of_ttl(r.ttl)
}

/// The store key for the records of `rr_type` at `name`.
pub fn get_id(name: &DomainName, rr_type: &RRType) -> (r: String)
    ensures
        r@ == cache_key_of(name@, *rr_type),
{
    let lower_name = lowercase(name.to_dotted().as_str());
    let key = rr_type.mnemonic().to_owned().concat("@");
    proof {
        reveal_strlit("@");
    }
    key.concat(lower_name.as_str())
}

/// The writes that store the answers of `response`: one for each answer
/// that may be cached, in order; an answer with no seconds to live is left
/// out.
pub fn cache_entries(response: &Message) -> (r: Vec<CacheEntry>)
    requires
        forall|i: int| 0 <= i < response@.answer.len() ==> record_fits(#[trigger] response@.answer[i]),
    ensures
        r@.len() == cacheable(response@.answer).len(),
        forall|i: int| 0 <= i < r@.len() ==> entry_for(#[trigger] r@[i], cacheable(response@.answer)[i]),
        forall|i: int| 0 <= i < r@.len() ==> #[trigger] r@[i].seconds > 0,
{
    let ghost answers = response@.answer;
    let ghost pred = |r: RecordModel| seconds_of_ttl(r.ttl) > 0;
    let mut out: Vec<CacheEntry> = Vec::new();
    let mut i: usize = 0;
    proof {
        reveal(Seq::filter);
        assert(answers.take(0).filter(pred).len() == 0);
    }
    while i < response.answer.len()
        invariant
            i <= answers.len(),
            answers == views(response.answer@),
            pred == (|r: RecordModel| seconds_of_ttl(r.ttl) > 0),
            forall|j: int| 0 <= j < answers.len() ==> record_fits(#[trigger] answers[j]),
            out@.len() == answers.take(i as int).filter(pred).len(),
            forall|j: int|
                0 <= j < out@.len() ==> entry_for(#[trigger] out@[j], answers.take(i as int).filter(pred)[j]),
        decreases answers.len() - i,
    {
        let answer = &response.answer[i];
        let ghost prefix = answers.take(i as int);
        assert(answers.take(i + 1).drop_last() =~= prefix);
        assert(answers[i as int] == answer@);
        let seconds_left = answer.seconds_until_expiration();
        if seconds_left > 0 {
            let (name, rr_type) = answer.get_query_name_type();
            let id = get_id(&name, &rr_type);
            let mut writer = Writer::new();
            answer.serialize(&mut writer);
            let value = writer.get_serialized_message();
            out.push(CacheEntry { key: id, value, seconds: seconds_left });
        }
        proof {
            reveal(Seq::filter);
            assert(answers.take(i + 1).filter(pred) == if pred(answer@) {
                prefix.filter(pred).push(answer@)
            } else {
                prefix.filter(pred)
            });
        }
        i = i + 1;
    }
    assert(answers.take(i as int) =~= answers);
    proof {
        assert forall|j: int| 0 <= j < out@.len() implies #[trigger] out@[j].seconds > 0 by {
            answers.lemma_filter_pred(pred, j);
        }
    }
    out
}

/// The record that the store held as `stored`, with the store's remaining
/// seconds as its TTL; `None` when the bytes do not decode to a record.
pub fn cached_record(stored: &[u8], remaining: u32) -> (r: Option<ResourceRecord>)
    ensures
        match record_at(stored@, 0) {
            Ok((m, _)) => r is Some && r->Some_0@ == (RecordModel {
                ttl: ttl_of_seconds(remaining),
                ..m
            }),
            Err(_) => r is None,
        },
{
    let mut reader = Reader::new(stored);
    match ResourceRecord::parse(&mut reader) {
        Ok(mut record) => {
            record.set_ttl(remaining);
            Some(record)
        },
        Err(_) => None,
    }
}

/// Names whose dotted forms agree but for case get the same store key, so a
/// lookup finds what was stored under either spelling.
pub proof fn lemma_cache_key_ignores_case(
    stored_name: Seq<Seq<char>>,
    looked_up_name: Seq<Seq<char>>,
    t: RRType,
)
    requires
        lower_of(join_dots(stored_name)) == lower_of(join_dots(looked_up_name)),
    ensures
        cache_key_of(stored_name, t) == cache_key_of(looked_up_name, t),
{
}

} // verus!
