//! Loading the content archive, guarded by a verified pre-scan of its
//! framing. The outside archive reader panics, rather than erring, on a
//! few malformed shapes: a block content identifier whose version field is
//! unknown, a multihash whose declared digest size exceeds the reader's
//! 64-byte buffer, a declared block length shorter than the block's
//! content identifier, and the offset arithmetic of version-2 archives.
//! The pre-scan accepts every archive the reader loads successfully and
//! rejects every panicking shape, so the loader refuses unsafe archives
//! before the call and a corrupt archive always ends as a dropped message.

use vstd::prelude::*;
use vstd::slice::{slice_index_get, slice_subrange};
use crate::commit::Block;
use ipld_core::ipld::Ipld;

verus! {

/// One varint decode outcome, as the archive reader sees it.
pub enum VarintResult {
    /// A complete varint: its value and its encoded byte length.
    Value(u64, int),
    /// The bytes end before the varint does.
    Eof,
    /// Ten continuation bytes: the reader gives up.
    TooLong,
}

/// The reader's varint decoding, byte `i` onward: little-endian seven-bit
/// groups, at most ten bytes, ending at the first byte whose high bit is
/// clear; the value wraps at sixty-four bits as the reader's does.
pub open spec fn varint_step(s: Seq<u8>, pos: int, i: int, acc: u64) -> VarintResult
    decreases 10 - i,
{
    if i >= 10 {
        VarintResult::TooLong
    } else if pos + i < 0 || pos + i >= s.len() {
        VarintResult::Eof
    } else {
        let b = s[pos + i];
        let acc2 = acc | (((b & 0x7f) as u64) << ((7 * i) as u64));
        if b & 0x80 == 0 {
            VarintResult::Value(acc2, i + 1)
        } else {
            varint_step(s, pos, i + 1, acc2)
        }
    }
}

/// The varint at `pos`.
pub open spec fn varint_at(s: Seq<u8>, pos: int) -> VarintResult {
    varint_step(s, pos, 0, 0)
}

/// One varint decode outcome, for the scanner.
enum VarintRead {
    Value(u64, usize),
    Eof,
    TooLong,
}

/// Decode one varint exactly as the archive reader does.
fn read_varint(s: &[u8], pos: usize) -> (r: VarintRead)
    requires
        pos <= s@.len(),
    ensures
        match r {
            VarintRead::Value(v, l) => {
                &&& varint_at(s@, pos as int) == VarintResult::Value(v, l as int)
                &&& 1 <= l <= 10
                &&& pos + l <= s@.len()
            },
            VarintRead::Eof => varint_at(s@, pos as int) is Eof,
            VarintRead::TooLong => varint_at(s@, pos as int) is TooLong,
        },
{
    let mut i: usize = 0;
    let mut acc: u64 = 0;
    while i < 10
        invariant
            i <= 10,
            pos <= s@.len(),
            pos + i <= s@.len(),
            varint_at(s@, pos as int) == varint_step(s@, pos as int, i as int, acc),
        decreases 10 - i,
    {
        if i >= s.len() - pos {
            return VarintRead::Eof;
        }
        let b = *slice_index_get(s, pos + i);
        let sh: u64 = 7 * (i as u64);
        acc = acc | (((b & 0x7f) as u64) << sh);
        if b & 0x80 == 0 {
            return VarintRead::Value(acc, i + 1);
        }
        i = i + 1;
    }
    VarintRead::TooLong
}

/// The byte length of the block content identifier at `pos`, when the
/// reader parses it without panicking and its digest lies within the
/// bytes; nothing otherwise, for the reader's clean errors and for its
/// panic shapes alike. The v0 marker is two fixed bytes before a 32-byte
/// digest; a v1 identifier is codec, multihash code and digest size
/// varints, the size at most the reader's 64-byte buffer.
pub open spec fn cid_scan(s: Seq<u8>, pos: int) -> Option<int> {
    match varint_at(s, pos) {
        VarintResult::Value(v, vl) => match varint_at(s, pos + vl) {
            VarintResult::Value(c, cl) => {
                if v == 0x12 && c == 0x20 {
                    if pos + vl + cl + 32 <= s.len() {
                        Some(vl + cl + 32)
                    } else {
                        None
                    }
                } else if v == 1 {
                    match varint_at(s, pos + vl + cl) {
                        VarintResult::Value(code, codel) => match varint_at(
                            s,
                            pos + vl + cl + codel,
                        ) {
                            VarintResult::Value(size, sizel) => {
                                if size <= 64 && pos + vl + cl + codel + sizel + size as int
                                    <= s.len() {
                                    Some(vl + cl + codel + sizel + size as int)
                                } else {
                                    None
                                }
                            },
                            _ => None,
                        },
                        _ => None,
                    }
                } else {
                    None
                }
            },
            _ => None,
        },
        _ => None,
    }
}

/// Scan one block content identifier.
fn cid_scan_exec(s: &[u8], pos: usize) -> (r: Option<usize>)
    requires
        pos <= s@.len(),
    ensures
        match r {
            Some(c) => cid_scan(s@, pos as int) == Some(c as int) && pos + c <= s@.len(),
            None => cid_scan(s@, pos as int) is None,
        },
{
    let n = s.len();
    let (v, vl) = match read_varint(s, pos) {
        VarintRead::Value(v, l) => (v, l),
        _ => {
            return None;
        },
    };
    proof {
        assert(pos + vl <= n);
    }
    let (c, cl) = match read_varint(s, pos + vl) {
        VarintRead::Value(v, l) => (v, l),
        _ => {
            return None;
        },
    };
    proof {
        assert(pos + vl + cl <= n);
    }
    let p2 = pos + vl + cl;
    if v == 0x12 && c == 0x20 {
        if 32 <= s.len() - p2 {
            Some(vl + cl + 32)
        } else {
            None
        }
    } else if v == 1 {
        let (_code, codel) = match read_varint(s, p2) {
            VarintRead::Value(v, l) => (v, l),
            _ => {
                return None;
            },
        };
        proof {
            assert(p2 + codel <= n);
        }
        let (size, sizel) = match read_varint(s, p2 + codel) {
            VarintRead::Value(v, l) => (v, l),
            _ => {
                return None;
            },
        };
        proof {
            assert(p2 + codel + sizel <= n);
        }
        let p4 = p2 + codel + sizel;
        if size <= 64 {
            let size_us = size as usize;
            if size_us <= s.len() - p4 {
                Some(vl + cl + codel + sizel + size_us)
            } else {
                None
            }
        } else {
            None
        }
    } else {
        None
    }
}

/// The block framing from `pos` onward is safe for the reader: either the
/// bytes end at a block boundary (possibly inside the length varint, where
/// the reader ends the stream), or a complete block with a safe content
/// identifier no longer than its declared length lies here and the rest is
/// safe in turn.
pub open spec fn blocks_safe(s: Seq<u8>, pos: int) -> bool
    decreases s.len() - pos,
{
    match varint_at(s, pos) {
        VarintResult::Eof => true,
        VarintResult::TooLong => false,
        VarintResult::Value(len, vl) => if len == 0 || len > 1073741824 {
            false
        } else {
            match cid_scan(s, pos + vl) {
                None => false,
                Some(cid_len) => if cid_len <= len as int && 1 <= vl && pos + vl + len as int
                    <= s.len() {
                    blocks_safe(s, pos + vl + len as int)
                } else {
                    false
                },
            }
        },
    }
}

/// Walk the block framing from `start` as the reader would.
fn blocks_walk(s: &[u8], start: usize) -> (r: bool)
    requires
        start <= s@.len(),
    ensures
        r == blocks_safe(s@, start as int),
{
    let mut pos = start;
    loop
        invariant
            pos <= s@.len(),
            blocks_safe(s@, start as int) == blocks_safe(s@, pos as int),
        decreases s@.len() - pos,
    {
        let (len, vl) = match read_varint(s, pos) {
            VarintRead::Value(v, l) => (v, l),
            VarintRead::Eof => {
                return true;
            },
            VarintRead::TooLong => {
                return false;
            },
        };
        if len == 0 || len > 1073741824 {
            return false;
        }
        proof {
            assert(pos + vl <= s@.len() && s@.len() == s.len());
        }
        let cid_len = match cid_scan_exec(s, pos + vl) {
            Some(c) => c,
            None => {
                return false;
            },
        };
        let len_us = len as usize;
        if cid_len > len_us {
            return false;
        }
        if len_us > s.len() - (pos + vl) {
            return false;
        }
        proof {
            assert(blocks_safe(s@, pos as int) == blocks_safe(s@, pos + vl + len_us));
        }
        pos = pos + vl + len_us;
    }
}

/// Whether a header block is one the reader accepts for a version-1
/// archive: a map whose version is one and whose roots are a list of
/// links; a function of the header bytes alone.
pub uninterp spec fn car_header_ok_of(header: Seq<u8>) -> bool;

/// Relies on serde_ipld_dagcbor::from_reader decoding the archive's header
/// block, as the archive reader itself does: whether it is a map whose
/// version integer is one (after the reader's 64-bit truncation) and whose
/// roots entry is a list of links is a function of the header bytes.
#[verifier::external_body]
fn car_header_ok(header: &[u8]) -> (r: bool)
    ensures
        r == car_header_ok_of(header@),
{
    let m = match serde_ipld_dagcbor::from_reader::<Ipld, _>(header) {
        Ok(Ipld::Map(m)) => m,
        _ => return false,
    };
    let roots_ok = match m.get("roots") {
        Some(Ipld::List(roots)) => roots.iter().all(|r| matches!(r, Ipld::Link(_))),
        _ => false,
    };
    let version_ok = matches!(m.get("version"), Some(Ipld::Integer(i)) if *i as u64 == 1);
    roots_ok && version_ok
}

/// The archive's framing is safe for the reader: a bounded, present
/// header block that the reader accepts as version one, followed by safe
/// block framing. Only version-1 archives are accepted: the stream's
/// archives are version 1, and the version-2 path has panic shapes of its
/// own, so a version-2 archive ends as a dropped message.
pub open spec fn car_safe(s: Seq<u8>) -> bool {
    match varint_at(s, 0) {
        VarintResult::Value(hlen, hvl) => hlen <= 1048576 && hvl + hlen as int <= s.len()
            && car_header_ok_of(s.subrange(hvl, hvl + hlen as int)) && blocks_safe(
            s,
            hvl + hlen as int,
        ),
        _ => false,
    }
}

/// Whether the archive's framing is safe for the outside reader.
pub fn car_preflight(s: &[u8]) -> (r: bool)
    ensures
        r == car_safe(s@),
{
    let (hlen, hvl) = match read_varint(s, 0) {
        VarintRead::Value(v, l) => (v, l),
        _ => {
            return false;
        },
    };
    if hlen > 1048576 {
        return false;
    }
    let hlen_us = hlen as usize;
    if hlen_us > s.len() - hvl {
        return false;
    }
    let header = slice_subrange(s, hvl, hvl + hlen_us);
    if !car_header_ok(header) {
        return false;
    }
    blocks_walk(s, hvl + hlen_us)
}

/// The blocks bundled in a content archive, in order, if the reader loads
/// it; a function of the archive bytes and the verification flag alone.
pub uninterp spec fn car_blocks_of(archive: Seq<u8>, validate: bool) -> Option<Seq<(Seq<u8>, Seq<u8>)>>;

/// Relies on rs_car::car_read_all, run to completion over the in-memory
/// archive: the content-addressed blocks are a function of the archive
/// bytes and of whether block hashes are re-verified. The reader panics
/// rather than erring on a block content identifier with an unknown
/// version, a multihash size over its 64-byte buffer, a declared block
/// length shorter than the content identifier, and version-2 offset
/// arithmetic; `car_safe` excludes all of those (and some shapes the
/// reader refuses cleanly), so the call is made only on archives the
/// pre-scan accepted.
#[verifier::external_body]
fn read_car_blocks(archive: &[u8], validate: bool) -> (r: Option<Vec<Block>>)
    requires
        car_safe(archive@),
    ensures
        match r {
            Some(bs) => car_blocks_of(archive@, validate) == Some(bs.deep_view()),
            None => car_blocks_of(archive@, validate) is None,
        },
{
    let mut reader = archive;
    match futures_executor::block_on(rs_car::car_read_all(&mut reader, validate)) {
        Ok((items, _header)) => {
            let mut out: Vec<Block> = Vec::new();
            for (cid, bytes) in items {
                out.push(Block { cid: cid.to_string().into_bytes(), data: bytes });
            }
            Some(out)
        },
        Err(_) => None,
    }
}

/// The blocks a load yields: those the reader finds, when the pre-scan
/// shows the framing is safe; nothing otherwise.
pub open spec fn loaded_blocks_of(archive: Seq<u8>, validate: bool) -> Option<
    Seq<(Seq<u8>, Seq<u8>)>,
> {
    if car_safe(archive) {
        car_blocks_of(archive, validate)
    } else {
        None
    }
}

/// Load a content archive: pre-scan its framing, then read its blocks.
pub fn load_blocks(archive: &[u8], validate: bool) -> (r: Option<Vec<Block>>)
    ensures
        match r {
            Some(bs) => loaded_blocks_of(archive@, validate) == Some(bs.deep_view()),
            None => loaded_blocks_of(archive@, validate) is None,
        },
{
    if car_preflight(archive) {
        read_car_blocks(archive, validate)
    } else {
        None
    }
}

} // verus!
