//! The commit payload and its content archive, modelled as plain values:
//! operations with action, path and content-identifier string, and blocks
//! as content-identifier and bytes pairs. The outside codecs that produce
//! them stand behind trusted wrappers.

use vstd::prelude::*;
use atrium_api::app::bsky::feed::{like, post, repost};
use atrium_api::app::bsky::graph::follow;
use atrium_api::com::atproto::sync::subscribe_repos::Commit;

verus! {

/// One repository mutation: its action, its collection path, and the
/// string form of its referenced content identifier, if any.
pub struct OpData {
    pub action: Vec<u8>,
    pub path: Vec<u8>,
    pub cid: Option<Vec<u8>>,
}

impl DeepView for OpData {
    type V = (Seq<u8>, Seq<u8>, Option<Seq<u8>>);

    open spec fn deep_view(&self) -> (Seq<u8>, Seq<u8>, Option<Seq<u8>>) {
        (
            self.action@,
            self.path@,
            match self.cid {
                Some(c) => Some(c@),
                None => None,
            },
        )
    }
}

/// A decoded commit: its operations in order and its raw content archive.
pub struct CommitData {
    pub ops: Vec<OpData>,
    pub blocks: Vec<u8>,
}

impl View for CommitData {
    type V = (Seq<(Seq<u8>, Seq<u8>, Option<Seq<u8>>)>, Seq<u8>);

    open spec fn view(&self) -> (Seq<(Seq<u8>, Seq<u8>, Option<Seq<u8>>)>, Seq<u8>) {
        (self.ops.deep_view(), self.blocks@)
    }
}

/// The commit encoded by a data frame, if it decodes; a function of the
/// bytes alone.
pub uninterp spec fn commit_of(data: Seq<u8>) -> Option<(Seq<(Seq<u8>, Seq<u8>, Option<Seq<u8>>)>, Seq<u8>)>;

/// Relies on serde_ipld_dagcbor::from_slice decoding the stream's commit
/// record: its operation list and archive bytes are functions of the frame.
#[verifier::external_body]
pub(crate) fn decode_commit(data: &[u8]) -> (r: Option<CommitData>)
    ensures
        match r {
            Some(c) => commit_of(data@) == Some(c@),
            None => commit_of(data@) is None,
        },
{
    let c: Commit = match serde_ipld_dagcbor::from_slice(data) {
        Ok(c) => c,
        Err(_) => return None,
    };
    let mut ops: Vec<OpData> = Vec::new();
    for o in c.data.ops {
        ops.push(OpData {
            action: o.data.action.into_bytes(),
            path: o.data.path.into_bytes(),
            cid: o.data.cid.map(|l| l.0.to_string().into_bytes()),
        });
    }
    Some(CommitData { ops, blocks: c.data.blocks })
}

/// One content block: the string form of its content identifier, and its bytes.
pub struct Block {
    pub cid: Vec<u8>,
    pub data: Vec<u8>,
}

impl DeepView for Block {
    type V = (Seq<u8>, Seq<u8>);

    open spec fn deep_view(&self) -> (Seq<u8>, Seq<u8>) {
        (self.cid@, self.data@)
    }
}

/// The primary text of a post record, if the block decodes as one; a
/// function of the block bytes alone.
pub uninterp spec fn post_text_of(block: Seq<u8>) -> Option<Seq<u8>>;

/// Relies on serde_ipld_dagcbor::from_slice decoding a post record; the
/// record's primary text is a function of the block bytes.
#[verifier::external_body]
pub(crate) fn decode_post_text(block: &[u8]) -> (r: Option<Vec<u8>>)
    ensures
        match r {
            Some(t) => post_text_of(block@) == Some(t@),
            None => post_text_of(block@) is None,
        },
{
    match serde_ipld_dagcbor::from_slice::<post::Record>(block) {
        Ok(rec) => Some(rec.data.text.into_bytes()),
        Err(_) => None,
    }
}

/// The subject URI of a like record, if the block decodes as one; a
/// function of the block bytes alone.
pub uninterp spec fn like_uri_of(block: Seq<u8>) -> Option<Seq<u8>>;

/// Relies on serde_ipld_dagcbor::from_slice decoding a like record; the
/// subject URI is a function of the block bytes.
#[verifier::external_body]
pub(crate) fn decode_like_uri(block: &[u8]) -> (r: Option<Vec<u8>>)
    ensures
        match r {
            Some(u) => like_uri_of(block@) == Some(u@),
            None => like_uri_of(block@) is None,
        },
{
    match serde_ipld_dagcbor::from_slice::<like::Record>(block) {
        Ok(rec) => Some(rec.data.subject.data.uri.into_bytes()),
        Err(_) => None,
    }
}

/// The subject URI of a repost record, if the block decodes as one; a
/// function of the block bytes alone.
pub uninterp spec fn repost_uri_of(block: Seq<u8>) -> Option<Seq<u8>>;

/// Relies on serde_ipld_dagcbor::from_slice decoding a repost record; the
/// subject URI is a function of the block bytes.
#[verifier::external_body]
pub(crate) fn decode_repost_uri(block: &[u8]) -> (r: Option<Vec<u8>>)
    ensures
        match r {
            Some(u) => repost_uri_of(block@) == Some(u@),
            None => repost_uri_of(block@) is None,
        },
{
    match serde_ipld_dagcbor::from_slice::<repost::Record>(block) {
        Ok(rec) => Some(rec.data.subject.data.uri.into_bytes()),
        Err(_) => None,
    }
}

/// The subject account reference of a follow record, if the block decodes
/// as one; a function of the block bytes alone.
pub uninterp spec fn follow_subject_of(block: Seq<u8>) -> Option<Seq<u8>>;

/// Relies on serde_ipld_dagcbor::from_slice decoding a follow record; the
/// subject account identifier is a function of the block bytes.
#[verifier::external_body]
pub(crate) fn decode_follow_subject(block: &[u8]) -> (r: Option<Vec<u8>>)
    ensures
        match r {
            Some(s) => follow_subject_of(block@) == Some(s@),
            None => follow_subject_of(block@) is None,
        },
{
    match serde_ipld_dagcbor::from_slice::<follow::Record>(block) {
        Ok(rec) => Some(rec.data.subject.as_str().as_bytes().to_vec()),
        Err(_) => None,
    }
}

} // verus!
