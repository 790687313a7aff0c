//! The durable sink record for an accepted haiku: a content-identifier
//! line, the haiku text, and a blank-line separator. A record is built as
//! one byte string so that an appender can write it in a single exclusive
//! append, keeping concurrent writers from interleaving records.

use vstd::prelude::*;
use crate::text::{append_bytes, starts_with};

verus! {

/// The label that opens every sink record.
pub open spec fn cid_label() -> Seq<u8> {
    seq![67u8, 73u8, 68u8, 58u8, 32u8]
}

/// One sink record: the label and content identifier, a line feed, the
/// text, and a blank line.
pub open spec fn sink_record_of(cid: Seq<u8>, text: Seq<u8>) -> Seq<u8> {
    cid_label() + cid + seq![10u8] + text + seq![10u8, 10u8]
}

/// Build the bytes of one sink record.
pub fn sink_record(cid: &Vec<u8>, text: &Vec<u8>) -> (r: Vec<u8>)
    ensures
        r@ == sink_record_of(cid@, text@),
{
    let mut v: Vec<u8> = Vec::new();
    v.push(67); v.push(73); v.push(68); v.push(58); v.push(32);
    append_bytes(&mut v, cid);
    v.push(10);
    append_bytes(&mut v, text);
    v.push(10);
    v.push(10);
    proof {
        assert(v@ =~~= sink_record_of(cid@, text@));
    }
    v
}

/// A sink record is self-delimited: it opens with the label, carries the
/// content identifier and the text at fixed offsets, and closes with a
/// blank line, so whole-record appends reproduce every record exactly.
pub proof fn lemma_sink_record_shape(cid: Seq<u8>, text: Seq<u8>)
    ensures
        sink_record_of(cid, text).len() == cid.len() + text.len() + 8,
        starts_with(sink_record_of(cid, text), cid_label()),
        sink_record_of(cid, text).subrange(5, 5 + cid.len() as int) == cid,
        sink_record_of(cid, text)[5 + cid.len() as int] == 10u8,
        sink_record_of(cid, text).subrange(6 + cid.len() as int, 6 + cid.len() + text.len() as int) == text,
        sink_record_of(cid, text)[sink_record_of(cid, text).len() - 2] == 10u8,
        sink_record_of(cid, text)[sink_record_of(cid, text).len() - 1] == 10u8,
{
    let r = sink_record_of(cid, text);
    assert(r.subrange(0, 5) =~~= cid_label());
    assert(r.subrange(5, 5 + cid.len() as int) =~~= cid);
    assert(r.subrange(6 + cid.len() as int, 6 + cid.len() + text.len() as int) =~~= text);
}

} // verus!
