//! Frame demultiplexing and envelope gating: a transport message holds two
//! consecutive self-describing binary values; the first is the envelope,
//! whose `op` and `t` fields decide whether the second is decoded at all.

use vstd::prelude::*;
use crate::text::bytes_eq;
use ipld_core::ipld::Ipld;

verus! {

/// Byte length of the first self-describing value of `data`, if one
/// decodes; a function of the bytes alone.
pub uninterp spec fn frame_boundary_of(data: Seq<u8>) -> Option<usize>;

/// Relies on serde_ipld_dagcbor::from_reader_once over a cursor: it decodes
/// exactly one value, leaves trailing bytes unread, and the cursor position
/// is then the consumed length, which is at most the buffer length.
#[verifier::external_body]
fn frame_boundary(data: &[u8]) -> (r: Option<usize>)
    ensures
        r == frame_boundary_of(data@),
        r matches Some(n) ==> n <= data@.len(),
{
    let mut cursor = std::io::Cursor::new(data);
    match serde_ipld_dagcbor::de::from_reader_once::<Ipld, _>(&mut cursor) {
        Ok(_) => Some(cursor.position() as usize),
        Err(_) => None,
    }
}

/// The two frames of a message: the bytes of the first value, and the rest.
/// There is no split when no leading value decodes or when nothing follows
/// the first value.
pub open spec fn split_of(data: Seq<u8>) -> Option<(Seq<u8>, Seq<u8>)> {
    match frame_boundary_of(data) {
        Some(n) => if n < data.len() {
            Some((data.subrange(0, n as int), data.subrange(n as int, data.len() as int)))
        } else {
            None
        },
        None => None,
    }
}

/// Split a message into its metadata frame and its data frame. The two
/// frames always concatenate back to the whole message.
pub fn split_frames(data: &[u8]) -> (r: Option<(Vec<u8>, Vec<u8>)>)
    ensures
        match r {
            Some(frames) => {
                &&& split_of(data@) == Some((frames.0@, frames.1@))
                &&& frames.0@ + frames.1@ == data@
                &&& frames.0@.len() < data@.len()
            },
            None => split_of(data@) is None,
        },
{
    match frame_boundary(data) {
        Some(n) => {
            if n < data.len() {
                let meta = crate::text::copy_range(data, 0, n);
                let payload = crate::text::copy_range(data, n, data.len());
                proof {
                    assert(meta@ + payload@ =~~= data@);
                }
                Some((meta, payload))
            } else {
                None
            }
        },
        None => None,
    }
}

/// The two envelope fields the classifier reads: the integer `op` and the
/// string `t`, each absent when missing or of another type.
pub struct EnvelopeFields {
    pub op: Option<i128>,
    pub t: Option<Vec<u8>>,
}

impl View for EnvelopeFields {
    type V = (Option<i128>, Option<Seq<u8>>);

    open spec fn view(&self) -> (Option<i128>, Option<Seq<u8>>) {
        (
            self.op,
            match self.t {
                Some(v) => Some(v@),
                None => None,
            },
        )
    }
}

/// The envelope fields encoded by a metadata frame, if it decodes to a map;
/// a function of the bytes alone.
pub uninterp spec fn envelope_of(meta: Seq<u8>) -> Option<(Option<i128>, Option<Seq<u8>>)>;

/// Relies on serde_ipld_dagcbor::from_slice decoding a generic value and on
/// map lookup of the "op" and "t" entries; both are functions of the bytes.
#[verifier::external_body]
pub(crate) fn decode_envelope(meta: &[u8]) -> (r: Option<EnvelopeFields>)
    ensures
        match r {
            Some(e) => envelope_of(meta@) == Some(e@),
            None => envelope_of(meta@) is None,
        },
{
    match serde_ipld_dagcbor::from_slice::<Ipld>(meta) {
        Ok(Ipld::Map(m)) => {
            let op = match m.get("op") {
                Some(Ipld::Integer(i)) => Some(*i),
                _ => None,
            };
            let t = match m.get("t") {
                Some(Ipld::String(s)) => Some(s.clone().into_bytes()),
                _ => None,
            };
            Some(EnvelopeFields { op, t })
        },
        _ => None,
    }
}

/// The message type tag that is processed further.
pub open spec fn commit_tag() -> Seq<u8> {
    seq![35u8, 99u8, 111u8, 109u8, 109u8, 105u8, 116u8]
}

/// The bytes of `#commit`.
pub fn commit_tag_vec() -> (r: Vec<u8>)
    ensures
        r@ == commit_tag(),
{
    let mut v: Vec<u8> = Vec::new();
    v.push(35); v.push(99); v.push(111); v.push(109); v.push(109); v.push(105); v.push(116);
    proof {
        assert(v@ =~~= commit_tag());
    }
    v
}

/// What the envelope tells the pipeline to do with the message.
#[derive(Debug, PartialEq, Eq, Structural, Clone, Copy)]
pub enum Gate {
    /// A required field is missing or of the wrong type: drop with an error.
    Malformed,
    /// The server signalled an error: drop, decode no payload.
    ServerError,
    /// A message type out of scope: drop silently.
    OtherType,
    /// A commit: decode the data frame.
    Commit,
}

/// How envelope fields are classified: a missing or mistyped `op` is
/// malformed; `op` of -1 is a server error and `t` is not consulted; then a
/// missing or mistyped `t` is malformed; only the commit tag is processed.
pub open spec fn gate_of(env: (Option<i128>, Option<Seq<u8>>)) -> Gate {
    match env.0 {
        None => Gate::Malformed,
        Some(op) => if op == -1 {
            Gate::ServerError
        } else {
            match env.1 {
                None => Gate::Malformed,
                Some(t) => if t == commit_tag() {
                    Gate::Commit
                } else {
                    Gate::OtherType
                },
            }
        },
    }
}

pub fn classify_envelope(env: &EnvelopeFields) -> (r: Gate)
    ensures
        r == gate_of(env@),
{
    match &env.op {
        None => Gate::Malformed,
        Some(op) => {
            if *op == -1 {
                Gate::ServerError
            } else {
                match &env.t {
                    None => Gate::Malformed,
                    Some(t) => {
                        let tag = commit_tag_vec();
                        if bytes_eq(t.as_slice(), tag.as_slice()) {
                            Gate::Commit
                        } else {
                            Gate::OtherType
                        }
                    },
                }
            }
        },
    }
}

} // verus!
