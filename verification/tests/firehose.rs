use std::collections::BTreeMap;

use atrium_api::com::atproto::sync::subscribe_repos::{Commit, CommitData, RepoOp, RepoOpData};
use atrium_api::types::string::{Datetime, Did, Tid};
use atrium_api::types::CidLink;
use ipld_core::cid::multihash::Multihash;
use ipld_core::cid::Cid;
use ipld_core::ipld::Ipld;

use firehose_haiku::dispatch::{classify_path, process_message, Collection, MessageOutcome, OpOutcome};
use firehose_haiku::envelope::{classify_envelope, split_frames, EnvelopeFields, Gate};
use firehose_haiku::haiku::{classify_haiku, is_english, is_haiku};
use firehose_haiku::sink::sink_record;
use firehose_haiku::text::{segment_text, split_lines, split_words};

fn enc(v: &Ipld) -> Vec<u8> {
    serde_ipld_dagcbor::to_vec(v).unwrap()
}

fn envelope(op: Option<Ipld>, t: Option<Ipld>) -> Vec<u8> {
    let mut m: BTreeMap<String, Ipld> = BTreeMap::new();
    if let Some(op) = op {
        m.insert("op".to_string(), op);
    }
    if let Some(t) = t {
        m.insert("t".to_string(), t);
    }
    enc(&Ipld::Map(m))
}

fn commit_envelope() -> Vec<u8> {
    envelope(Some(Ipld::Integer(1)), Some(Ipld::String("#commit".to_string())))
}

fn varint(mut n: u64) -> Vec<u8> {
    let mut out = Vec::new();
    loop {
        let b = (n & 0x7f) as u8;
        n >>= 7;
        if n == 0 {
            out.push(b);
            return out;
        }
        out.push(b | 0x80);
    }
}

fn make_cid(seed: u8) -> Cid {
    let digest = [seed; 32];
    let mh = Multihash::<64>::wrap(0x12, &digest).unwrap();
    Cid::new_v1(0x71, mh)
}

fn car_bytes(blocks: &[(Cid, Vec<u8>)]) -> Vec<u8> {
    let mut header: BTreeMap<String, Ipld> = BTreeMap::new();
    header.insert("roots".to_string(), Ipld::List(vec![Ipld::Link(make_cid(0))]));
    header.insert("version".to_string(), Ipld::Integer(1));
    let header_bytes = enc(&Ipld::Map(header));
    let mut out = varint(header_bytes.len() as u64);
    out.extend_from_slice(&header_bytes);
    for (cid, data) in blocks {
        let cid_bytes = cid.to_bytes();
        out.extend_from_slice(&varint((cid_bytes.len() + data.len()) as u64));
        out.extend_from_slice(&cid_bytes);
        out.extend_from_slice(data);
    }
    out
}

fn post_block(text: &str) -> Vec<u8> {
    let rec: atrium_api::app::bsky::feed::post::Record =
        atrium_api::app::bsky::feed::post::RecordData {
            created_at: Datetime::now(),
            embed: None,
            entities: None,
            facets: None,
            labels: None,
            langs: None,
            reply: None,
            tags: None,
            text: text.to_string(),
        }
        .into();
    serde_ipld_dagcbor::to_vec(&rec).unwrap()
}

fn strong_ref(uri: &str) -> atrium_api::com::atproto::repo::strong_ref::Main {
    atrium_api::com::atproto::repo::strong_ref::MainData {
        cid: atrium_api::types::string::Cid::new(make_cid(9)),
        uri: uri.to_string(),
    }
    .into()
}

fn like_block(uri: &str) -> Vec<u8> {
    let rec: atrium_api::app::bsky::feed::like::Record =
        atrium_api::app::bsky::feed::like::RecordData {
            created_at: Datetime::now(),
            subject: strong_ref(uri),
            via: None,
        }
        .into();
    serde_ipld_dagcbor::to_vec(&rec).unwrap()
}

fn repost_block(uri: &str) -> Vec<u8> {
    let rec: atrium_api::app::bsky::feed::repost::Record =
        atrium_api::app::bsky::feed::repost::RecordData {
            created_at: Datetime::now(),
            subject: strong_ref(uri),
            via: None,
        }
        .into();
    serde_ipld_dagcbor::to_vec(&rec).unwrap()
}

fn follow_block(did: &str) -> Vec<u8> {
    let rec: atrium_api::app::bsky::graph::follow::Record =
        atrium_api::app::bsky::graph::follow::RecordData {
            created_at: Datetime::now(),
            subject: Did::new(did.to_string()).unwrap(),
        }
        .into();
    serde_ipld_dagcbor::to_vec(&rec).unwrap()
}

fn op(action: &str, path: &str, cid: Option<Cid>) -> RepoOp {
    RepoOpData {
        action: action.to_string(),
        cid: cid.map(CidLink),
        path: path.to_string(),
        prev: None,
    }
    .into()
}

fn commit_payload(ops: Vec<RepoOp>, car: Vec<u8>) -> Vec<u8> {
    let commit: Commit = CommitData {
        blobs: vec![],
        blocks: car,
        commit: CidLink(make_cid(0)),
        ops,
        prev_data: None,
        rebase: false,
        repo: Did::new("did:plc:ewvi7nxzyoun6zhxrhs64oiz".to_string()).unwrap(),
        rev: Tid::new("3jzfcijpj2z2a".to_string()).unwrap(),
        seq: 1,
        since: None,
        time: Datetime::now(),
        too_big: false,
    }
    .into();
    serde_ipld_dagcbor::to_vec(&commit).unwrap()
}

fn message(ops: Vec<RepoOp>, blocks: &[(Cid, Vec<u8>)]) -> Vec<u8> {
    let mut msg = commit_envelope();
    msg.extend_from_slice(&commit_payload(ops, car_bytes(blocks)));
    msg
}

const POND: &str = "An old silent pond\nA frog jumps into the pond\nSplash! Silence again";

#[test]
fn frame_split_round_trip() {
    let mut first: BTreeMap<String, Ipld> = BTreeMap::new();
    first.insert("op".to_string(), Ipld::Integer(1));
    first.insert("t".to_string(), Ipld::String("#commit".to_string()));
    let first = Ipld::Map(first);
    let second = Ipld::List(vec![Ipld::Integer(42), Ipld::String("payload".to_string())]);
    let mut buf = enc(&first);
    buf.extend_from_slice(&enc(&second));
    let (meta, payload) = split_frames(&buf).expect("two concatenated values must split");
    let mut rejoined = meta.clone();
    rejoined.extend_from_slice(&payload);
    assert_eq!(rejoined, buf);
    let first_back: Ipld = serde_ipld_dagcbor::from_slice(&meta).unwrap();
    let second_back: Ipld = serde_ipld_dagcbor::from_slice(&payload).unwrap();
    assert_eq!(first_back, first);
    assert_eq!(second_back, second);
}

#[test]
fn frame_split_rejects_single_value() {
    let only = envelope(Some(Ipld::Integer(1)), Some(Ipld::String("#commit".to_string())));
    assert!(split_frames(&only).is_none());
}

#[test]
fn frame_split_rejects_garbage() {
    let garbage = vec![0xff, 0xff, 0xff];
    assert!(split_frames(&garbage).is_none());
}

#[test]
fn server_error_envelope_is_dropped() {
    let mut msg = envelope(Some(Ipld::Integer(-1)), Some(Ipld::String("#commit".to_string())));
    msg.extend_from_slice(&commit_payload(vec![], car_bytes(&[])));
    assert!(matches!(process_message(&msg), MessageOutcome::ServerError));
}

#[test]
fn other_type_envelope_is_ignored() {
    let mut msg = envelope(Some(Ipld::Integer(1)), Some(Ipld::String("#identity".to_string())));
    msg.extend_from_slice(&commit_payload(vec![], car_bytes(&[])));
    assert!(matches!(process_message(&msg), MessageOutcome::Ignored));
}

#[test]
fn missing_op_is_malformed() {
    let mut msg = envelope(None, Some(Ipld::String("#commit".to_string())));
    msg.extend_from_slice(&commit_payload(vec![], car_bytes(&[])));
    assert!(matches!(process_message(&msg), MessageOutcome::MalformedEnvelope));
}

#[test]
fn mistyped_op_is_malformed() {
    let mut msg = envelope(
        Some(Ipld::String("1".to_string())),
        Some(Ipld::String("#commit".to_string())),
    );
    msg.extend_from_slice(&commit_payload(vec![], car_bytes(&[])));
    assert!(matches!(process_message(&msg), MessageOutcome::MalformedEnvelope));
}

#[test]
fn missing_t_is_malformed() {
    let mut msg = envelope(Some(Ipld::Integer(1)), None);
    msg.extend_from_slice(&commit_payload(vec![], car_bytes(&[])));
    assert!(matches!(process_message(&msg), MessageOutcome::MalformedEnvelope));
}

#[test]
fn server_error_wins_over_missing_t() {
    let env = EnvelopeFields { op: Some(-1), t: None };
    assert_eq!(classify_envelope(&env), Gate::ServerError);
}

#[test]
fn gate_precedence() {
    let malformed = EnvelopeFields { op: None, t: Some(b"#commit".to_vec()) };
    assert_eq!(classify_envelope(&malformed), Gate::Malformed);
    let commit = EnvelopeFields { op: Some(1), t: Some(b"#commit".to_vec()) };
    assert_eq!(classify_envelope(&commit), Gate::Commit);
    let other = EnvelopeFields { op: Some(1), t: Some(b"#account".to_vec()) };
    assert_eq!(classify_envelope(&other), Gate::OtherType);
}

#[test]
fn bad_commit_payload_is_dropped() {
    let mut msg = commit_envelope();
    msg.extend_from_slice(&envelope(Some(Ipld::Integer(7)), None));
    assert!(matches!(process_message(&msg), MessageOutcome::BadCommit));
}

#[test]
fn bad_archive_is_dropped() {
    let cid = make_cid(1);
    let msg = {
        let mut m = commit_envelope();
        m.extend_from_slice(&commit_payload(
            vec![op("create", "app.bsky.feed.post/3jzfcijpj2z2a", Some(cid))],
            vec![0xde, 0xad, 0xbe, 0xef],
        ));
        m
    };
    assert!(matches!(process_message(&msg), MessageOutcome::BadBlocks));
}

#[test]
fn mixed_actions_only_create_dispatches() {
    let c1 = make_cid(1);
    let c2 = make_cid(2);
    let c3 = make_cid(3);
    let msg = message(
        vec![
            op("create", "app.bsky.feed.post/aaa", Some(c1)),
            op("update", "app.bsky.feed.post/bbb", Some(c2)),
            op("delete", "app.bsky.feed.post/ccc", Some(c3)),
        ],
        &[
            (c1, post_block("hello from the stream")),
            (c2, post_block("never read")),
            (c3, post_block("never read either")),
        ],
    );
    match process_message(&msg) {
        MessageOutcome::Processed(outs) => {
            assert_eq!(outs.len(), 3);
            match &outs[0] {
                OpOutcome::Post { text, .. } => {
                    assert_eq!(text, b"hello from the stream".as_slice());
                }
                other => panic!("expected a post outcome, got {:?}", other),
            }
            assert!(matches!(outs[1], OpOutcome::Skipped));
            assert!(matches!(outs[2], OpOutcome::Skipped));
        }
        other => panic!("expected a processed commit, got {:?}", other),
    }
}

#[test]
fn missing_block_is_isolated() {
    let c1 = make_cid(1);
    let c2 = make_cid(2);
    let c3 = make_cid(3);
    let msg = message(
        vec![
            op("create", "app.bsky.feed.post/aaa", Some(c1)),
            op("create", "app.bsky.feed.post/bbb", Some(c2)),
            op("create", "app.bsky.feed.post/ccc", Some(c3)),
        ],
        &[
            (c1, post_block("first post")),
            (c3, post_block("third post")),
        ],
    );
    match process_message(&msg) {
        MessageOutcome::Processed(outs) => {
            assert_eq!(outs.len(), 3);
            match &outs[0] {
                OpOutcome::Post { text, .. } => assert_eq!(text, b"first post".as_slice()),
                other => panic!("expected a post outcome, got {:?}", other),
            }
            match &outs[1] {
                OpOutcome::MissingBlock { cid } => {
                    assert_eq!(cid.as_ref().unwrap(), make_cid(2).to_string().as_bytes());
                }
                other => panic!("expected a missing-block outcome, got {:?}", other),
            }
            match &outs[2] {
                OpOutcome::Post { text, .. } => assert_eq!(text, b"third post".as_slice()),
                other => panic!("expected a post outcome, got {:?}", other),
            }
        }
        other => panic!("expected a processed commit, got {:?}", other),
    }
}

#[test]
fn unknown_collection_is_isolated() {
    let c1 = make_cid(1);
    let c2 = make_cid(2);
    let msg = message(
        vec![
            op("create", "app.bsky.unknown.thing/xyz", Some(c1)),
            op("create", "app.bsky.feed.post/bbb", Some(c2)),
        ],
        &[(c1, post_block("never read")), (c2, post_block("sibling post"))],
    );
    match process_message(&msg) {
        MessageOutcome::Processed(outs) => {
            assert_eq!(outs.len(), 2);
            match &outs[0] {
                OpOutcome::UnknownCollection { path } => {
                    assert_eq!(path, b"app.bsky.unknown.thing/xyz".as_slice());
                }
                other => panic!("expected an unknown-collection outcome, got {:?}", other),
            }
            match &outs[1] {
                OpOutcome::Post { text, .. } => assert_eq!(text, b"sibling post".as_slice()),
                other => panic!("expected a post outcome, got {:?}", other),
            }
        }
        other => panic!("expected a processed commit, got {:?}", other),
    }
}

#[test]
fn undecodable_block_is_soft_failure() {
    let c1 = make_cid(1);
    let c2 = make_cid(2);
    let msg = message(
        vec![
            op("create", "app.bsky.feed.post/aaa", Some(c1)),
            op("create", "app.bsky.feed.post/bbb", Some(c2)),
        ],
        &[(c1, vec![0x01, 0x02, 0x03]), (c2, post_block("still fine"))],
    );
    match process_message(&msg) {
        MessageOutcome::Processed(outs) => {
            match &outs[0] {
                OpOutcome::DecodeFailed { cid } => {
                    assert_eq!(cid, make_cid(1).to_string().as_bytes());
                }
                other => panic!("expected a decode-failed outcome, got {:?}", other),
            }
            match &outs[1] {
                OpOutcome::Post { text, .. } => assert_eq!(text, b"still fine".as_slice()),
                other => panic!("expected a post outcome, got {:?}", other),
            }
        }
        other => panic!("expected a processed commit, got {:?}", other),
    }
}

#[test]
fn like_repost_follow_summaries() {
    let c1 = make_cid(1);
    let c2 = make_cid(2);
    let c3 = make_cid(3);
    let msg = message(
        vec![
            op("create", "app.bsky.feed.like/aaa", Some(c1)),
            op("create", "app.bsky.feed.repost/bbb", Some(c2)),
            op("create", "app.bsky.graph.follow/ccc", Some(c3)),
        ],
        &[
            (c1, like_block("at://did:plc:abc/app.bsky.feed.post/xyz")),
            (c2, repost_block("at://did:plc:def/app.bsky.feed.post/uvw")),
            (c3, follow_block("did:plc:ewvi7nxzyoun6zhxrhs64oiz")),
        ],
    );
    match process_message(&msg) {
        MessageOutcome::Processed(outs) => {
            match &outs[0] {
                OpOutcome::Like { uri, cid } => {
                    assert_eq!(uri, b"at://did:plc:abc/app.bsky.feed.post/xyz".as_slice());
                    assert_eq!(cid, c1.to_string().as_bytes());
                }
                other => panic!("expected a like outcome, got {:?}", other),
            }
            match &outs[1] {
                OpOutcome::Repost { uri, .. } => {
                    assert_eq!(uri, b"at://did:plc:def/app.bsky.feed.post/uvw".as_slice());
                }
                other => panic!("expected a repost outcome, got {:?}", other),
            }
            match &outs[2] {
                OpOutcome::Follow { subject, .. } => {
                    assert_eq!(subject, b"did:plc:ewvi7nxzyoun6zhxrhs64oiz".as_slice());
                }
                other => panic!("expected a follow outcome, got {:?}", other),
            }
        }
        other => panic!("expected a processed commit, got {:?}", other),
    }
}

fn raw_car_message(car: Vec<u8>) -> Vec<u8> {
    let mut msg = commit_envelope();
    msg.extend_from_slice(&commit_payload(
        vec![op("create", "app.bsky.feed.post/aaa", Some(make_cid(1)))],
        car,
    ));
    msg
}

#[test]
fn unknown_cid_version_archive_dropped() {
    let mut car = car_bytes(&[]);
    car.extend_from_slice(&varint(3));
    car.extend_from_slice(&[0x05, 0x55, 0x00]);
    assert!(matches!(process_message(&raw_car_message(car)), MessageOutcome::BadBlocks));
}

#[test]
fn oversized_multihash_archive_dropped() {
    let mut car = car_bytes(&[]);
    car.extend_from_slice(&varint(5));
    car.extend_from_slice(&[0x01, 0x71, 0x12, 0xc8, 0x01]);
    assert!(matches!(process_message(&raw_car_message(car)), MessageOutcome::BadBlocks));
}

#[test]
fn short_block_length_archive_dropped() {
    let mut car = car_bytes(&[]);
    car.extend_from_slice(&varint(2));
    car.extend_from_slice(&[0x12, 0x20]);
    car.extend_from_slice(&[0xaa; 32]);
    assert!(matches!(process_message(&raw_car_message(car)), MessageOutcome::BadBlocks));
}

#[test]
fn version_two_archive_dropped() {
    let mut header: BTreeMap<String, Ipld> = BTreeMap::new();
    header.insert("version".to_string(), Ipld::Integer(2));
    let header_bytes = enc(&Ipld::Map(header));
    let mut car = varint(header_bytes.len() as u64);
    car.extend_from_slice(&header_bytes);
    assert!(matches!(process_message(&raw_car_message(car)), MessageOutcome::BadBlocks));
}

#[test]
fn truncated_final_block_archive_dropped() {
    let cid = make_cid(1);
    let mut car = car_bytes(&[]);
    let cid_bytes = cid.to_bytes();
    car.extend_from_slice(&varint((cid_bytes.len() + 100) as u64));
    car.extend_from_slice(&cid_bytes);
    car.extend_from_slice(&[0x00; 10]);
    assert!(matches!(process_message(&raw_car_message(car)), MessageOutcome::BadBlocks));
}

#[test]
fn haiku_positive_is_accepted() {
    let text = POND.as_bytes().to_vec();
    assert!(is_english(&text));
    assert!(is_haiku(&text));
    assert!(classify_haiku(&text));
}

#[test]
fn haiku_detected_through_pipeline() {
    let c1 = make_cid(1);
    let msg = message(
        vec![op("create", "app.bsky.feed.post/aaa", Some(c1))],
        &[(c1, post_block(POND))],
    );
    match process_message(&msg) {
        MessageOutcome::Processed(outs) => match &outs[0] {
            OpOutcome::Post { text, haiku, cid } => {
                assert_eq!(text, POND.as_bytes());
                assert!(*haiku);
                assert_eq!(cid, c1.to_string().as_bytes());
            }
            other => panic!("expected a post outcome, got {:?}", other),
        },
        other => panic!("expected a processed commit, got {:?}", other),
    }
}

#[test]
fn haiku_four_lines_rejected() {
    let text = format!("{}\nOne line too many", POND).into_bytes();
    assert!(!is_haiku(&text));
}

#[test]
fn haiku_wrong_counts_rejected() {
    let text = b"An old silent pond\nA frog jumps into the pond\nSplash! Silence again now".to_vec();
    assert!(!is_haiku(&text));
}

#[test]
fn haiku_non_english_rejected() {
    let text = "Un estanque viejo\nUna rana salta dentro\nEl sonido del agua".as_bytes().to_vec();
    assert!(!is_english(&text));
    assert!(!classify_haiku(&text));
}

#[test]
fn haiku_short_fallback_rejected() {
    let text = b"the old pond sits very quiet in the warm sun".to_vec();
    assert!(!is_haiku(&text));
}

#[test]
fn fallback_chunking_can_accept() {
    let text = b"an old pond sits still one frog jumping into it then silence again".to_vec();
    assert!(is_haiku(&text));
}

#[test]
fn chunking_without_newlines() {
    let text = b"one two three four five six seven eight nine ten eleven twelve";
    let segs = segment_text(text);
    assert_eq!(segs.len(), 3);
    assert_eq!(segs[0], b"one two three four five".to_vec());
    assert_eq!(segs[1], b"six seven eight nine ten".to_vec());
    assert_eq!(segs[2], b"eleven twelve".to_vec());
}

#[test]
fn line_splitting_mirrors_line_iterator() {
    let text = b"alpha\r\nbeta\n\ngamma\n";
    let lines = split_lines(text);
    let expected: Vec<&[u8]> = text.split(|b| *b == b'\n').collect();
    assert_eq!(expected.len(), 5);
    assert_eq!(lines.len(), 4);
    assert_eq!(lines[0], b"alpha".to_vec());
    assert_eq!(lines[1], b"beta".to_vec());
    assert_eq!(lines[2], b"".to_vec());
    assert_eq!(lines[3], b"gamma".to_vec());
}

#[test]
fn final_line_keeps_lone_carriage_return() {
    let lines = split_lines(b"alpha\r\nbeta\r");
    assert_eq!(lines.len(), 2);
    assert_eq!(lines[0], b"alpha".to_vec());
    assert_eq!(lines[1], b"beta\r".to_vec());
}

#[test]
fn word_splitting_skips_repeated_whitespace() {
    let words = split_words(b"  old  \t pond \r frog ");
    assert_eq!(words.len(), 3);
    assert_eq!(words[0], b"old".to_vec());
    assert_eq!(words[1], b"pond".to_vec());
    assert_eq!(words[2], b"frog".to_vec());
}

#[test]
fn word_splitting_matches_unicode_whitespace() {
    let text = "old\u{a0}pond\u{2003}frog\u{b}jumps\u{3000}in";
    let words = split_words(text.as_bytes());
    let expected: Vec<&str> = text.split_whitespace().collect();
    assert_eq!(expected, vec!["old", "pond", "frog", "jumps", "in"]);
    assert_eq!(words.len(), expected.len());
    for (word, exp) in words.iter().zip(expected.iter()) {
        assert_eq!(word, exp.as_bytes());
    }
}

#[test]
fn sink_record_exact_bytes() {
    let rec = sink_record(&b"bafyexample".to_vec(), &POND.as_bytes().to_vec());
    let expected = format!("CID: bafyexample\n{}\n\n", POND).into_bytes();
    assert_eq!(rec, expected);
}

#[test]
fn sink_records_do_not_interleave() {
    let mut store: Vec<u8> = Vec::new();
    let mut records: Vec<Vec<u8>> = Vec::new();
    for i in 0..5 {
        let cid = format!("cid{}", i).into_bytes();
        let text = format!("line one {}\nline two {}\nline three {}", i, i, i).into_bytes();
        let rec = sink_record(&cid, &text);
        records.push(rec.clone());
        store.extend_from_slice(&rec);
    }
    let mut offset = 0;
    for rec in &records {
        assert_eq!(&store[offset..offset + rec.len()], rec.as_slice());
        offset += rec.len();
    }
    assert_eq!(offset, store.len());
    let starts = store.windows(5).filter(|w| *w == b"CID: ".as_slice()).count();
    assert_eq!(starts, 5);
}

#[test]
fn classify_path_prefixes() {
    assert_eq!(classify_path(&b"app.bsky.feed.post/abc".to_vec()), Collection::Post);
    assert_eq!(classify_path(&b"app.bsky.feed.like/abc".to_vec()), Collection::Like);
    assert_eq!(classify_path(&b"app.bsky.feed.repost/abc".to_vec()), Collection::Repost);
    assert_eq!(classify_path(&b"app.bsky.graph.follow/abc".to_vec()), Collection::Follow);
    assert_eq!(classify_path(&b"app.bsky.unknown.thing/abc".to_vec()), Collection::Unknown);
}
