//! The operation dispatcher and the message pipeline: for each creation
//! operation of a commit, classify its collection, resolve its block,
//! decode the record, and classify post text; every failure is contained
//! at the smallest scope, per operation or per message.

use vstd::prelude::*;
use crate::archive::{load_blocks, loaded_blocks_of};
use crate::commit::{
    commit_of, decode_commit, decode_follow_subject, decode_like_uri, decode_post_text,
    decode_repost_uri, follow_subject_of, like_uri_of, post_text_of, repost_uri_of, Block,
    CommitData, OpData,
};
use crate::envelope::{
    classify_envelope, decode_envelope, envelope_of, gate_of, split_frames, split_of, Gate,
};
use crate::haiku::{accepts_haiku, classify_haiku};
use crate::text::{bytes_eq, copy_range, starts_with, starts_with_bytes};

verus! {

/// The known record collections, by path prefix, and everything else.
#[derive(Debug, PartialEq, Eq, Structural, Clone, Copy)]
pub enum Collection {
    Post,
    Like,
    Repost,
    Follow,
    Unknown,
}

pub open spec fn post_prefix() -> Seq<u8> {
    seq![97u8, 112u8, 112u8, 46u8, 98u8, 115u8, 107u8, 121u8, 46u8, 102u8, 101u8, 101u8, 100u8, 46u8, 112u8, 111u8, 115u8, 116u8]
}

pub open spec fn like_prefix() -> Seq<u8> {
    seq![97u8, 112u8, 112u8, 46u8, 98u8, 115u8, 107u8, 121u8, 46u8, 102u8, 101u8, 101u8, 100u8, 46u8, 108u8, 105u8, 107u8, 101u8]
}

pub open spec fn repost_prefix() -> Seq<u8> {
    seq![97u8, 112u8, 112u8, 46u8, 98u8, 115u8, 107u8, 121u8, 46u8, 102u8, 101u8, 101u8, 100u8, 46u8, 114u8, 101u8, 112u8, 111u8, 115u8, 116u8]
}

pub open spec fn follow_prefix() -> Seq<u8> {
    seq![97u8, 112u8, 112u8, 46u8, 98u8, 115u8, 107u8, 121u8, 46u8, 103u8, 114u8, 97u8, 112u8, 104u8, 46u8, 102u8, 111u8, 108u8, 108u8, 111u8, 119u8]
}

pub open spec fn create_action() -> Seq<u8> {
    seq![99u8, 114u8, 101u8, 97u8, 116u8, 101u8]
}

/// The bytes of `app.bsky.feed.post`.
fn post_prefix_vec() -> (r: Vec<u8>)
    ensures
        r@ == post_prefix(),
{
    let mut v: Vec<u8> = Vec::new();
    v.push(97); v.push(112); v.push(112); v.push(46); v.push(98); v.push(115); v.push(107);
    v.push(121); v.push(46); v.push(102); v.push(101); v.push(101); v.push(100); v.push(46);
    v.push(112); v.push(111); v.push(115); v.push(116);
    proof {
        assert(v@ =~~= post_prefix());
    }
    v
}

/// The bytes of `app.bsky.feed.like`.
fn like_prefix_vec() -> (r: Vec<u8>)
    ensures
        r@ == like_prefix(),
{
    let mut v: Vec<u8> = Vec::new();
    v.push(97); v.push(112); v.push(112); v.push(46); v.push(98); v.push(115); v.push(107);
    v.push(121); v.push(46); v.push(102); v.push(101); v.push(101); v.push(100); v.push(46);
    v.push(108); v.push(105); v.push(107); v.push(101);
    proof {
        assert(v@ =~~= like_prefix());
    }
    v
}

/// The bytes of `app.bsky.feed.repost`.
fn repost_prefix_vec() -> (r: Vec<u8>)
    ensures
        r@ == repost_prefix(),
{
    let mut v: Vec<u8> = Vec::new();
    v.push(97); v.push(112); v.push(112); v.push(46); v.push(98); v.push(115); v.push(107);
    v.push(121); v.push(46); v.push(102); v.push(101); v.push(101); v.push(100); v.push(46);
    v.push(114); v.push(101); v.push(112); v.push(111); v.push(115); v.push(116);
    proof {
        assert(v@ =~~= repost_prefix());
    }
    v
}

/// The bytes of `app.bsky.graph.follow`.
fn follow_prefix_vec() -> (r: Vec<u8>)
    ensures
        r@ == follow_prefix(),
{
    let mut v: Vec<u8> = Vec::new();
    v.push(97); v.push(112); v.push(112); v.push(46); v.push(98); v.push(115); v.push(107);
    v.push(121); v.push(46); v.push(103); v.push(114); v.push(97); v.push(112); v.push(104);
    v.push(46); v.push(102); v.push(111); v.push(108); v.push(108); v.push(111); v.push(119);
    proof {
        assert(v@ =~~= follow_prefix());
    }
    v
}

/// The bytes of `create`.
fn create_action_vec() -> (r: Vec<u8>)
    ensures
        r@ == create_action(),
{
    let mut v: Vec<u8> = Vec::new();
    v.push(99); v.push(114); v.push(101); v.push(97); v.push(116); v.push(101);
    proof {
        assert(v@ =~~= create_action());
    }
    v
}

/// The collection a path belongs to, by its prefix.
pub open spec fn collection_of(path: Seq<u8>) -> Collection {
    if starts_with(path, post_prefix()) {
        Collection::Post
    } else if starts_with(path, like_prefix()) {
        Collection::Like
    } else if starts_with(path, repost_prefix()) {
        Collection::Repost
    } else if starts_with(path, follow_prefix()) {
        Collection::Follow
    } else {
        Collection::Unknown
    }
}

pub fn classify_path(path: &Vec<u8>) -> (c: Collection)
    ensures
        c == collection_of(path@),
{
    let post = post_prefix_vec();
    let like = like_prefix_vec();
    let repost = repost_prefix_vec();
    let follow = follow_prefix_vec();
    if starts_with_bytes(path.as_slice(), post.as_slice()) {
        Collection::Post
    } else if starts_with_bytes(path.as_slice(), like.as_slice()) {
        Collection::Like
    } else if starts_with_bytes(path.as_slice(), repost.as_slice()) {
        Collection::Repost
    } else if starts_with_bytes(path.as_slice(), follow.as_slice()) {
        Collection::Follow
    } else {
        Collection::Unknown
    }
}

/// The data of the first block whose content identifier equals `c`.
pub open spec fn find_block(blocks: Seq<(Seq<u8>, Seq<u8>)>, c: Seq<u8>) -> Option<Seq<u8>>
    decreases blocks.len(),
{
    if blocks.len() == 0 {
        None
    } else if blocks[0].0 == c {
        Some(blocks[0].1)
    } else {
        find_block(blocks.drop_first(), c)
    }
}

/// Resolution of an operation's referenced block: an operation without a
/// content identifier resolves to nothing.
pub open spec fn resolve_block(blocks: Seq<(Seq<u8>, Seq<u8>)>, cid: Option<Seq<u8>>) -> Option<Seq<u8>> {
    match cid {
        None => None,
        Some(c) => find_block(blocks, c),
    }
}

/// Linear scan for the first block whose content identifier equals `c`.
pub fn find_block_exec<'a>(blocks: &'a Vec<Block>, c: &Vec<u8>) -> (r: Option<&'a Vec<u8>>)
    ensures
        match r {
            Some(d) => find_block(blocks.deep_view(), c@) == Some(d@),
            None => find_block(blocks.deep_view(), c@) is None,
        },
{
    let ghost dv = blocks.deep_view();
    let mut i: usize = 0;
    proof {
        assert(dv.skip(0) =~~= dv);
    }
    while i < blocks.len()
        invariant
            i <= blocks@.len(),
            dv == blocks.deep_view(),
            find_block(dv, c@) == find_block(dv.skip(i as int), c@),
        decreases blocks@.len() - i,
    {
        proof {
            assert(dv.skip(i as int)[0] == dv[i as int]);
            assert(dv.skip(i as int).drop_first() =~~= dv.skip(i + 1));
        }
        let b = &blocks[i];
        if bytes_eq(b.cid.as_slice(), c.as_slice()) {
            return Some(&b.data);
        }
        i = i + 1;
    }
    proof {
        assert(dv.skip(i as int) =~~= Seq::<(Seq<u8>, Seq<u8>)>::empty());
    }
    None
}

/// What became of one operation, at the specification level.
pub enum OpOutcomeSpec {
    /// Not a creation: skipped without further inspection.
    Skipped,
    /// A collection outside the known set: logged as unknown, no record.
    UnknownCollection { path: Seq<u8> },
    /// No block matches the operation's content identifier: soft failure.
    MissingBlock { cid: Option<Seq<u8>> },
    /// The resolved block does not decode as the implied record: soft failure.
    DecodeFailed { cid: Seq<u8> },
    /// A decoded post, with the haiku classification of its text.
    Post { cid: Seq<u8>, text: Seq<u8>, haiku: bool },
    /// A decoded like, summarised by its subject URI.
    Like { cid: Seq<u8>, uri: Seq<u8> },
    /// A decoded repost, summarised by its subject URI.
    Repost { cid: Seq<u8>, uri: Seq<u8> },
    /// A decoded follow, summarised by its subject account.
    Follow { cid: Seq<u8>, subject: Seq<u8> },
}

/// What became of one operation.
#[derive(Debug)]
pub enum OpOutcome {
    Skipped,
    UnknownCollection { path: Vec<u8> },
    MissingBlock { cid: Option<Vec<u8>> },
    DecodeFailed { cid: Vec<u8> },
    Post { cid: Vec<u8>, text: Vec<u8>, haiku: bool },
    Like { cid: Vec<u8>, uri: Vec<u8> },
    Repost { cid: Vec<u8>, uri: Vec<u8> },
    Follow { cid: Vec<u8>, subject: Vec<u8> },
}

impl DeepView for OpOutcome {
    type V = OpOutcomeSpec;

    open spec fn deep_view(&self) -> OpOutcomeSpec {
        match self {
            OpOutcome::Skipped => OpOutcomeSpec::Skipped,
            OpOutcome::UnknownCollection { path } => OpOutcomeSpec::UnknownCollection {
                path: path@,
            },
            OpOutcome::MissingBlock { cid } => OpOutcomeSpec::MissingBlock {
                cid: match cid {
                    Some(c) => Some(c@),
                    None => None,
                },
            },
            OpOutcome::DecodeFailed { cid } => OpOutcomeSpec::DecodeFailed { cid: cid@ },
            OpOutcome::Post { cid, text, haiku } => OpOutcomeSpec::Post {
                cid: cid@,
                text: text@,
                haiku: *haiku,
            },
            OpOutcome::Like { cid, uri } => OpOutcomeSpec::Like { cid: cid@, uri: uri@ },
            OpOutcome::Repost { cid, uri } => OpOutcomeSpec::Repost { cid: cid@, uri: uri@ },
            OpOutcome::Follow { cid, subject } => OpOutcomeSpec::Follow {
                cid: cid@,
                subject: subject@,
            },
        }
    }
}

/// The outcome of one operation against the commit's blocks: skip
/// non-creations, report unknown collections, resolve the block, decode
/// the record the collection implies, and classify post text.
pub open spec fn op_outcome_spec(
    op: (Seq<u8>, Seq<u8>, Option<Seq<u8>>),
    blocks: Seq<(Seq<u8>, Seq<u8>)>,
) -> OpOutcomeSpec {
    if op.0 != create_action() {
        OpOutcomeSpec::Skipped
    } else if collection_of(op.1) is Unknown {
        OpOutcomeSpec::UnknownCollection { path: op.1 }
    } else {
        match resolve_block(blocks, op.2) {
            None => OpOutcomeSpec::MissingBlock { cid: op.2 },
            Some(data) => {
                let cid = op.2->Some_0;
                match collection_of(op.1) {
                    Collection::Post => match post_text_of(data) {
                        None => OpOutcomeSpec::DecodeFailed { cid },
                        Some(text) => OpOutcomeSpec::Post {
                            cid,
                            text,
                            haiku: accepts_haiku(text),
                        },
                    },
                    Collection::Like => match like_uri_of(data) {
                        None => OpOutcomeSpec::DecodeFailed { cid },
                        Some(uri) => OpOutcomeSpec::Like { cid, uri },
                    },
                    Collection::Repost => match repost_uri_of(data) {
                        None => OpOutcomeSpec::DecodeFailed { cid },
                        Some(uri) => OpOutcomeSpec::Repost { cid, uri },
                    },
                    Collection::Follow => match follow_subject_of(data) {
                        None => OpOutcomeSpec::DecodeFailed { cid },
                        Some(subject) => OpOutcomeSpec::Follow { cid, subject },
                    },
                    Collection::Unknown => OpOutcomeSpec::UnknownCollection { path: op.1 },
                }
            },
        }
    }
}

/// Copy of a byte vector.
fn clone_bytes(v: &Vec<u8>) -> (r: Vec<u8>)
    ensures
        r@ == v@,
{
    let r = copy_range(v.as_slice(), 0, v.len());
    proof {
        assert(v@.subrange(0, v@.len() as int) =~~= v@);
    }
    r
}

/// Process one operation of a commit against the loaded blocks.
pub fn process_op(op: &OpData, blocks: &Vec<Block>) -> (r: OpOutcome)
    ensures
        r.deep_view() == op_outcome_spec(op.deep_view(), blocks.deep_view()),
{
    let create = create_action_vec();
    if !bytes_eq(op.action.as_slice(), create.as_slice()) {
        return OpOutcome::Skipped;
    }
    let col = classify_path(&op.path);
    if matches!(col, Collection::Unknown) {
        return OpOutcome::UnknownCollection { path: clone_bytes(&op.path) };
    }
    let cid = match &op.cid {
        None => {
            return OpOutcome::MissingBlock { cid: None };
        },
        Some(c) => c,
    };
    let data = match find_block_exec(blocks, cid) {
        None => {
            return OpOutcome::MissingBlock { cid: Some(clone_bytes(cid)) };
        },
        Some(d) => d,
    };
    match col {
        Collection::Post => match decode_post_text(data.as_slice()) {
            None => OpOutcome::DecodeFailed { cid: clone_bytes(cid) },
            Some(text) => {
                let haiku = classify_haiku(&text);
                OpOutcome::Post { cid: clone_bytes(cid), text, haiku }
            },
        },
        Collection::Like => match decode_like_uri(data.as_slice()) {
            None => OpOutcome::DecodeFailed { cid: clone_bytes(cid) },
            Some(uri) => OpOutcome::Like { cid: clone_bytes(cid), uri },
        },
        Collection::Repost => match decode_repost_uri(data.as_slice()) {
            None => OpOutcome::DecodeFailed { cid: clone_bytes(cid) },
            Some(uri) => OpOutcome::Repost { cid: clone_bytes(cid), uri },
        },
        Collection::Follow => match decode_follow_subject(data.as_slice()) {
            None => OpOutcome::DecodeFailed { cid: clone_bytes(cid) },
            Some(subject) => OpOutcome::Follow { cid: clone_bytes(cid), subject },
        },
        Collection::Unknown => OpOutcome::UnknownCollection { path: clone_bytes(&op.path) },
    }
}

/// The outcomes of a commit's operations, in commit order.
pub open spec fn outcomes_spec(
    ops: Seq<(Seq<u8>, Seq<u8>, Option<Seq<u8>>)>,
    blocks: Seq<(Seq<u8>, Seq<u8>)>,
) -> Seq<OpOutcomeSpec> {
    ops.map_values(|o: (Seq<u8>, Seq<u8>, Option<Seq<u8>>)| op_outcome_spec(o, blocks))
}

/// Process every operation of a commit, in order; each outcome depends
/// only on its own operation and the blocks.
pub fn process_commit(commit: &CommitData, blocks: &Vec<Block>) -> (r: Vec<OpOutcome>)
    ensures
        r.deep_view() == outcomes_spec(commit@.0, blocks.deep_view()),
{
    let ghost ops = commit@.0;
    let ghost bv = blocks.deep_view();
    let mut out: Vec<OpOutcome> = Vec::new();
    let mut i: usize = 0;
    proof {
        assert(out.deep_view() =~~= outcomes_spec(ops.take(0), bv));
    }
    while i < commit.ops.len()
        invariant
            i <= commit.ops@.len(),
            ops == commit@.0,
            bv == blocks.deep_view(),
            out.deep_view() == outcomes_spec(ops.take(i as int), bv),
        decreases commit.ops@.len() - i,
    {
        let ghost out0 = out.deep_view();
        let o = process_op(&commit.ops[i], blocks);
        proof {
            assert(commit.ops@[i as int].deep_view() == ops[i as int]);
        }
        out.push(o);
        proof {
            assert(ops.take(i + 1) =~~= ops.take(i as int).push(ops[i as int]));
            assert(out.deep_view() =~~= out0.push(op_outcome_spec(ops[i as int], bv)));
            assert(outcomes_spec(ops.take(i + 1), bv) =~~= outcomes_spec(ops.take(i as int), bv).push(op_outcome_spec(ops[i as int], bv)));
        }
        i = i + 1;
    }
    proof {
        assert(ops.take(i as int) =~~= ops);
    }
    out
}

/// What became of one transport message.
pub enum MessageOutcomeSpec {
    /// The buffer does not split into two frames: the message is dropped.
    NoSplit,
    /// The envelope is missing or mistypes a required field: dropped.
    MalformedEnvelope,
    /// The server signalled an error: dropped, no payload decode.
    ServerError,
    /// A message type out of scope: dropped silently.
    Ignored,
    /// The data frame does not decode as a commit: dropped.
    BadCommit,
    /// The commit's content archive does not parse: dropped.
    BadBlocks,
    /// A processed commit, with one outcome per operation, in order.
    Processed(Seq<OpOutcomeSpec>),
}

/// What became of one transport message.
#[derive(Debug)]
pub enum MessageOutcome {
    NoSplit,
    MalformedEnvelope,
    ServerError,
    Ignored,
    BadCommit,
    BadBlocks,
    Processed(Vec<OpOutcome>),
}

impl DeepView for MessageOutcome {
    type V = MessageOutcomeSpec;

    open spec fn deep_view(&self) -> MessageOutcomeSpec {
        match self {
            MessageOutcome::NoSplit => MessageOutcomeSpec::NoSplit,
            MessageOutcome::MalformedEnvelope => MessageOutcomeSpec::MalformedEnvelope,
            MessageOutcome::ServerError => MessageOutcomeSpec::ServerError,
            MessageOutcome::Ignored => MessageOutcomeSpec::Ignored,
            MessageOutcome::BadCommit => MessageOutcomeSpec::BadCommit,
            MessageOutcome::BadBlocks => MessageOutcomeSpec::BadBlocks,
            MessageOutcome::Processed(outs) => MessageOutcomeSpec::Processed(outs.deep_view()),
        }
    }
}

/// Whether loaded blocks have their content addressing re-verified:
/// off, the permissive mode, trusting the upstream transport.
pub const VALIDATE_BLOCKS: bool = false;

/// The outcome of one transport message: split, gate on the envelope,
/// decode the commit, load its blocks permissively, and dispatch its
/// operations in order.
pub open spec fn message_outcome_spec(data: Seq<u8>) -> MessageOutcomeSpec {
    match split_of(data) {
        None => MessageOutcomeSpec::NoSplit,
        Some(frames) => match envelope_of(frames.0) {
            None => MessageOutcomeSpec::MalformedEnvelope,
            Some(env) => match gate_of(env) {
                Gate::Malformed => MessageOutcomeSpec::MalformedEnvelope,
                Gate::ServerError => MessageOutcomeSpec::ServerError,
                Gate::OtherType => MessageOutcomeSpec::Ignored,
                Gate::Commit => match commit_of(frames.1) {
                    None => MessageOutcomeSpec::BadCommit,
                    Some(c) => match loaded_blocks_of(c.1, VALIDATE_BLOCKS) {
                        None => MessageOutcomeSpec::BadBlocks,
                        Some(bs) => MessageOutcomeSpec::Processed(outcomes_spec(c.0, bs)),
                    },
                },
            },
        },
    }
}

/// Envelope gating: for an envelope that signals a server error the
/// message is dropped as such, and for a type tag other than the commit
/// tag it is dropped silently; in neither case is the payload decoded, so
/// no operation outcome and no record is ever produced.
pub proof fn lemma_envelope_gating(data: Seq<u8>)
    ensures
        (split_of(data) matches Some(f) && envelope_of(f.0) matches Some(env) && env.0
            == Some(-1i128)) ==> message_outcome_spec(data) == MessageOutcomeSpec::ServerError,
        (split_of(data) matches Some(f) && envelope_of(f.0) matches Some(env) && env.0 is Some
            && env.0 != Some(-1i128) && env.1 is Some && env.1 != Some(crate::envelope::commit_tag()))
            ==> message_outcome_spec(data) == MessageOutcomeSpec::Ignored,
{
}

/// Operation filtering: an operation whose action is not a creation is
/// skipped; its path, its identifier and the blocks are never consulted.
pub proof fn lemma_operation_filtering(
    op: (Seq<u8>, Seq<u8>, Option<Seq<u8>>),
    blocks: Seq<(Seq<u8>, Seq<u8>)>,
)
    ensures
        op.0 != create_action() ==> op_outcome_spec(op, blocks) == OpOutcomeSpec::Skipped,
{
}

/// Soft-failure isolation: each operation's outcome is a function of that
/// operation and the blocks alone, so a failing operation never changes a
/// sibling's outcome.
pub proof fn lemma_soft_failure_isolation(
    ops: Seq<(Seq<u8>, Seq<u8>, Option<Seq<u8>>)>,
    others: Seq<(Seq<u8>, Seq<u8>, Option<Seq<u8>>)>,
    blocks: Seq<(Seq<u8>, Seq<u8>)>,
    i: int,
)
    requires
        0 <= i < ops.len(),
        ops.len() == others.len(),
        ops[i] == others[i],
    ensures
        outcomes_spec(ops, blocks).len() == ops.len(),
        outcomes_spec(ops, blocks)[i] == op_outcome_spec(ops[i], blocks),
        outcomes_spec(ops, blocks)[i] == outcomes_spec(others, blocks)[i],
{
}

/// Unknown collections: a creation whose path is outside the known set
/// yields the unknown-event outcome and no record, whatever the blocks hold.
pub proof fn lemma_unknown_collection(
    op: (Seq<u8>, Seq<u8>, Option<Seq<u8>>),
    blocks: Seq<(Seq<u8>, Seq<u8>)>,
)
    ensures
        op.0 == create_action() && collection_of(op.1) is Unknown ==> op_outcome_spec(op, blocks)
            == (OpOutcomeSpec::UnknownCollection { path: op.1 }),
{
}

/// Process one transport message end to end.
pub fn process_message(data: &[u8]) -> (r: MessageOutcome)
    ensures
        r.deep_view() == message_outcome_spec(data@),
{
    let frames = match split_frames(data) {
        None => {
            return MessageOutcome::NoSplit;
        },
        Some(f) => f,
    };
    let env = match decode_envelope(frames.0.as_slice()) {
        None => {
            return MessageOutcome::MalformedEnvelope;
        },
        Some(e) => e,
    };
    match classify_envelope(&env) {
        Gate::Malformed => MessageOutcome::MalformedEnvelope,
        Gate::ServerError => MessageOutcome::ServerError,
        Gate::OtherType => MessageOutcome::Ignored,
        Gate::Commit => {
            let commit = match decode_commit(frames.1.as_slice()) {
                None => {
                    return MessageOutcome::BadCommit;
                },
                Some(c) => c,
            };
            let blocks = match load_blocks(commit.blocks.as_slice(), VALIDATE_BLOCKS) {
                None => {
                    return MessageOutcome::BadBlocks;
                },
                Some(bs) => bs,
            };
            let outs = process_commit(&commit, &blocks);
            MessageOutcome::Processed(outs)
        },
    }
}

} // verus!
