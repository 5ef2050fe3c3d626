use vstd::prelude::*;

use crate::flags::RCode;
use crate::message::Message;
use crate::message::views;
use crate::resource_record::ResourceRecord;

verus! {

/// The answers of an upstream response that the server passes on: all of
/// them when the upstream reported no error, none otherwise.
pub fn accepted_answers(response: Message) -> (r: Vec<ResourceRecord>)
    ensures
        response.header.flags.r_code == RCode::NoError ==> views(r@) == response@.answer,
        response.header.flags.r_code != RCode::NoError ==> r@.len() == 0,
{
    if response.header.flags.r_code == RCode::NoError {
        response.answer
    } else {
        Vec::new()
    }
}

} // verus!
