//! Byte-level text segmentation: newline splitting with the usual
//! line-iterator semantics, word splitting on whitespace characters (the
//! ASCII ones and the UTF-8 encodings of the others), and the five-word
//! chunking fallback used when a post has no explicit line breaks.

use vstd::prelude::*;
use vstd::slice::{slice_index_get, slice_subrange, slice_to_vec};

verus! {

/// ASCII whitespace: space, tab, line feed, vertical tab, form feed,
/// carriage return.
pub open spec fn is_ws(b: u8) -> bool {
    b == 32 || b == 9 || b == 10 || b == 11 || b == 12 || b == 13
}

/// The third byte of a three-byte whitespace character, after its first
/// two: the ogham space mark, the en-quad through hair-space range, the
/// line and paragraph separators, the narrow and medium mathematical
/// spaces, and the ideographic space.
pub open spec fn is_ws3(a: u8, b: u8, c: u8) -> bool {
    (a == 0xe1 && b == 0x9a && c == 0x80) || (a == 0xe2 && b == 0x80 && (0x80 <= c <= 0x8a || c
        == 0xa8 || c == 0xa9 || c == 0xaf)) || (a == 0xe2 && b == 0x81 && c == 0x9f) || (a == 0xe3
        && b == 0x80 && c == 0x80)
}

/// Byte length of the whitespace character starting at `i`: an ASCII
/// whitespace byte, or the UTF-8 encoding of one of the other whitespace
/// characters (the next line and no-break space two-byte encodings, and
/// the three-byte encodings of `is_ws3`); zero when none starts here.
pub open spec fn ws_at(s: Seq<u8>, i: int) -> int {
    if 0 <= i < s.len() && is_ws(s[i]) {
        1
    } else if 0 <= i && i + 2 <= s.len() && s[i] == 0xc2 && (s[i + 1] == 0x85 || s[i + 1]
        == 0xa0) {
        2
    } else if 0 <= i && i + 3 <= s.len() && is_ws3(s[i], s[i + 1], s[i + 2]) {
        3
    } else {
        0
    }
}

/// `ws_at` looks only at the bytes from `i` on, so it shifts with a suffix.
pub proof fn lemma_ws_at_shift(s: Seq<u8>, k: int, j: int)
    requires
        0 <= k <= s.len(),
        0 <= j,
    ensures
        ws_at(s.subrange(k, s.len() as int), j) == ws_at(s, k + j),
{
    let u = s.subrange(k, s.len() as int);
    if k + j < s.len() {
        assert(u[j] == s[k + j]);
        if k + j + 1 < s.len() {
            assert(u[j + 1] == s[k + j + 1]);
        }
        if k + j + 2 < s.len() {
            assert(u[j + 2] == s[k + j + 2]);
        }
    }
}

/// Index of the first position where a whitespace character starts, or
/// the length if none does.
pub open spec fn first_ws_idx(s: Seq<u8>) -> int
    decreases s.len(),
{
    if s.len() == 0 {
        0
    } else if ws_at(s, 0) > 0 {
        0
    } else {
        1 + first_ws_idx(s.subrange(1, s.len() as int))
    }
}

/// The first whitespace start is determined by: none before it, and one
/// (or the end) at it.
pub proof fn lemma_first_ws_idx_unique(s: Seq<u8>, i: int)
    requires
        0 <= i <= s.len(),
        forall|j: int| 0 <= j < i ==> ws_at(s, j) == 0,
        i < s.len() ==> ws_at(s, i) > 0,
    ensures
        first_ws_idx(s) == i,
    decreases s.len(),
{
    if s.len() == 0 {
    } else if ws_at(s, 0) > 0 {
    } else {
        let t = s.subrange(1, s.len() as int);
        assert forall|j: int| 0 <= j < i - 1 implies ws_at(t, j) == 0 by {
            lemma_ws_at_shift(s, 1, j);
        }
        assert(i - 1 < t.len() ==> ws_at(t, i - 1) > 0) by {
            if i - 1 < t.len() {
                lemma_ws_at_shift(s, 1, i - 1);
            }
        }
        lemma_first_ws_idx_unique(t, i - 1);
    }
}

pub open spec fn is_nl(b: u8) -> bool {
    b == 10
}

pub open spec fn contains_nl(s: Seq<u8>) -> bool {
    exists|i: int| 0 <= i < s.len() && s[i] == 10
}

/// Index of the first byte satisfying `p`, or `s.len()` if none does.
pub open spec fn first_where(s: Seq<u8>, p: spec_fn(u8) -> bool) -> int
    decreases s.len(),
{
    if s.len() == 0 {
        0
    } else if p(s[0]) {
        0
    } else {
        1 + first_where(s.subrange(1, s.len() as int), p)
    }
}

/// The first index is determined by: no hit before it, and a hit (or the end) at it.
pub proof fn lemma_first_where_unique(s: Seq<u8>, p: spec_fn(u8) -> bool, i: int)
    requires
        0 <= i <= s.len(),
        forall|j: int| 0 <= j < i ==> !p(s[j]),
        i < s.len() ==> p(s[i]),
    ensures
        first_where(s, p) == i,
    decreases s.len(),
{
    if s.len() == 0 {
    } else if p(s[0]) {
    } else {
        let t = s.subrange(1, s.len() as int);
        assert(forall|j: int| 0 <= j < i - 1 ==> t[j] == s[j + 1] && !p(t[j]));
        assert(i - 1 < t.len() ==> p(t[i - 1]));
        lemma_first_where_unique(t, p, i - 1);
    }
}

/// Drop one trailing carriage return from a line-feed-terminated line.
pub open spec fn strip_cr(l: Seq<u8>) -> Seq<u8> {
    if l.len() > 0 && l[l.len() - 1] == 13 {
        l.drop_last()
    } else {
        l
    }
}

/// The lines of `s`, with line-iterator semantics: segments split at line
/// feeds, a carriage return before each line feed removed, no final empty
/// line for a trailing line feed, and a final segment without a line feed
/// kept as it stands.
pub open spec fn lines_of(s: Seq<u8>) -> Seq<Seq<u8>>
    decreases s.len(),
{
    if s.len() == 0 {
        Seq::empty()
    } else {
        let i = first_where(s, |b: u8| is_nl(b));
        if 0 <= i && i < s.len() {
            seq![strip_cr(s.subrange(0, i))] + lines_of(s.subrange(i + 1, s.len() as int))
        } else {
            seq![s]
        }
    }
}

/// Maximal runs between whitespace characters, in order: each word ends
/// where a whitespace character starts, and the next begins after it.
pub open spec fn words_of(s: Seq<u8>) -> Seq<Seq<u8>>
    decreases s.len(),
{
    if s.len() == 0 {
        Seq::empty()
    } else {
        let w = ws_at(s, 0);
        if 1 <= w && w <= s.len() {
            words_of(s.subrange(w, s.len() as int))
        } else {
            let i = first_ws_idx(s);
            if 1 <= i && i < s.len() {
                seq![s.subrange(0, i)] + words_of(s.subrange(i, s.len() as int))
            } else {
                seq![s]
            }
        }
    }
}

/// The words joined with single spaces.
pub open spec fn join_words(ws: Seq<Seq<u8>>) -> Seq<u8>
    decreases ws.len(),
{
    if ws.len() == 0 {
        Seq::empty()
    } else if ws.len() == 1 {
        ws[0]
    } else {
        ws[0] + seq![32u8] + join_words(ws.drop_first())
    }
}

/// Groups of five words, each group rejoined with single spaces; the final
/// group may be shorter.
pub open spec fn chunks5_join(ws: Seq<Seq<u8>>) -> Seq<Seq<u8>>
    decreases ws.len(),
{
    if ws.len() == 0 {
        Seq::empty()
    } else if ws.len() <= 5 {
        seq![join_words(ws)]
    } else {
        seq![join_words(ws.take(5))] + chunks5_join(ws.skip(5))
    }
}

/// The verse segmentation of a post: explicit lines where the text has a
/// line break, otherwise five-word chunks of its whitespace tokenization.
pub open spec fn segments_of(s: Seq<u8>) -> Seq<Seq<u8>> {
    if contains_nl(s) {
        lines_of(s)
    } else {
        chunks5_join(words_of(s))
    }
}

/// A finder's answer pins down `first_where` on the suffix it searched.
proof fn lemma_found_first(s: Seq<u8>, from: int, r: int, p: spec_fn(u8) -> bool)
    requires
        0 <= from <= r <= s.len(),
        r < s.len() ==> p(s[r]),
        forall|j: int| from <= j < r ==> !p(s[j]),
    ensures
        first_where(s.subrange(from, s.len() as int), p) == r - from,
{
    let u = s.subrange(from, s.len() as int);
    assert(forall|j: int| 0 <= j < r - from ==> u[j] == s[j + from] && !p(u[j]));
    lemma_first_where_unique(u, p, r - from);
}

/// Copy of `s[a..b]`.
pub fn copy_range(s: &[u8], a: usize, b: usize) -> (r: Vec<u8>)
    requires
        a <= b <= s@.len(),
    ensures
        r@ == s@.subrange(a as int, b as int),
{
    slice_to_vec(slice_subrange(s, a, b))
}

/// Index of the first line feed at or after `from`, or the length.
fn find_nl(s: &[u8], from: usize) -> (r: usize)
    requires
        from <= s@.len(),
    ensures
        from <= r <= s@.len(),
        r < s@.len() ==> is_nl(s@[r as int]),
        forall|j: int| from <= j < r ==> !is_nl(s@[j]),
{
    let mut i = from;
    while i < s.len()
        invariant
            from <= i <= s@.len(),
            forall|j: int| from <= j < i ==> !is_nl(s@[j]),
        decreases s@.len() - i,
    {
        if *slice_index_get(s, i) == 10 {
            return i;
        }
        i = i + 1;
    }
    i
}

/// Remove one trailing carriage return.
fn strip_cr_vec(v: Vec<u8>) -> (r: Vec<u8>)
    ensures
        r@ == strip_cr(v@),
{
    let ghost orig = v@;
    let mut v = v;
    if v.len() > 0 && v[v.len() - 1] == 13 {
        v.pop();
        proof {
            assert(v@ =~~= strip_cr(orig));
        }
    }
    v
}

/// The lines of `s`, as the line iterator would give them: split on line
/// feeds, no final empty line for a trailing line feed, a carriage return
/// removed before each line feed, a final unterminated segment kept whole.
pub fn split_lines(s: &[u8]) -> (r: Vec<Vec<u8>>)
    ensures
        r.deep_view() == lines_of(s@),
{
    let mut out: Vec<Vec<u8>> = Vec::new();
    let mut pos: usize = 0;
    proof {
        assert(s@.subrange(0, s@.len() as int) =~~= s@);
        assert(out.deep_view() =~~= Seq::<Seq<u8>>::empty());
        assert(lines_of(s@) =~~= out.deep_view() + lines_of(s@.subrange(pos as int, s@.len() as int)));
    }
    while pos < s.len()
        invariant
            pos <= s@.len(),
            lines_of(s@) == out.deep_view() + lines_of(s@.subrange(pos as int, s@.len() as int)),
        decreases s@.len() - pos,
    {
        let ghost out0 = out.deep_view();
        let ghost u = s@.subrange(pos as int, s@.len() as int);
        let j = find_nl(s, pos);
        let line = copy_range(s, pos, j);
        let line = if j < s.len() {
            strip_cr_vec(line)
        } else {
            line
        };
        proof {
            lemma_found_first(s@, pos as int, j as int, |b: u8| is_nl(b));
            if j < s@.len() {
                assert(u.subrange(0, j - pos) =~~= s@.subrange(pos as int, j as int));
                assert(u.subrange(j - pos + 1, u.len() as int) =~~= s@.subrange(j + 1, s@.len() as int));
                assert(lines_of(u) == seq![strip_cr(s@.subrange(pos as int, j as int))] + lines_of(s@.subrange(j + 1, s@.len() as int)));
            } else {
                assert(u =~~= s@.subrange(pos as int, j as int));
                assert(first_where(u, |b: u8| is_nl(b)) == u.len());
                assert(lines_of(u) == seq![u]);
                assert(s@.subrange(j as int, s@.len() as int) =~~= Seq::<u8>::empty());
                assert(lines_of(s@.subrange(j as int, s@.len() as int)) =~~= Seq::<Seq<u8>>::empty());
            }
        }
        out.push(line);
        proof {
            assert(out.deep_view() =~~= out0 + seq![line@]);
        }
        if j < s.len() {
            pos = j + 1;
        } else {
            pos = j;
        }
        proof {
            assert(out.deep_view() + lines_of(s@.subrange(pos as int, s@.len() as int)) =~~= lines_of(s@));
        }
    }
    proof {
        assert(s@.subrange(pos as int, s@.len() as int) =~~= Seq::<u8>::empty());
        assert(lines_of(Seq::<u8>::empty()) =~~= Seq::<Seq<u8>>::empty());
        assert(lines_of(s@) =~~= out.deep_view());
    }
    out
}

/// Byte length of the whitespace character starting at `i`, or zero.
fn ws_at_exec(s: &[u8], i: usize) -> (r: usize)
    requires
        i <= s@.len(),
    ensures
        r as int == ws_at(s@, i as int),
{
    let n = s.len();
    if i < n {
        let a = *slice_index_get(s, i);
        if a == 32 || a == 9 || a == 10 || a == 11 || a == 12 || a == 13 {
            return 1;
        }
        if n - i >= 2 && a == 0xc2 {
            let b = *slice_index_get(s, i + 1);
            if b == 0x85 || b == 0xa0 {
                return 2;
            }
        }
        if n - i >= 3 && (a == 0xe1 || a == 0xe2 || a == 0xe3) {
            let b = *slice_index_get(s, i + 1);
            let c = *slice_index_get(s, i + 2);
            if a == 0xe1 && b == 0x9a && c == 0x80 {
                return 3;
            }
            if a == 0xe2 && b == 0x80 && (0x80 <= c && c <= 0x8a || c == 0xa8 || c == 0xa9 || c
                == 0xaf) {
                return 3;
            }
            if a == 0xe2 && b == 0x81 && c == 0x9f {
                return 3;
            }
            if a == 0xe3 && b == 0x80 && c == 0x80 {
                return 3;
            }
        }
    }
    0
}

/// Index of the first whitespace character start at or after `from`, or
/// the length.
fn find_ws_start(s: &[u8], from: usize) -> (r: usize)
    requires
        from <= s@.len(),
    ensures
        from <= r <= s@.len(),
        r < s@.len() ==> ws_at(s@, r as int) > 0,
        forall|j: int| from <= j < r ==> ws_at(s@, j) == 0,
{
    let mut i = from;
    while i < s.len()
        invariant
            from <= i <= s@.len(),
            forall|j: int| from <= j < i ==> ws_at(s@, j) == 0,
        decreases s@.len() - i,
    {
        if ws_at_exec(s, i) > 0 {
            return i;
        }
        i = i + 1;
    }
    i
}

/// The words of `s`: the maximal runs between whitespace characters.
pub fn split_words(s: &[u8]) -> (r: Vec<Vec<u8>>)
    ensures
        r.deep_view() == words_of(s@),
{
    let mut out: Vec<Vec<u8>> = Vec::new();
    let mut pos: usize = 0;
    proof {
        assert(s@.subrange(0, s@.len() as int) =~~= s@);
        assert(out.deep_view() =~~= Seq::<Seq<u8>>::empty());
    }
    while pos < s.len()
        invariant
            pos <= s@.len(),
            words_of(s@) == out.deep_view() + words_of(s@.subrange(pos as int, s@.len() as int)),
        decreases s@.len() - pos,
    {
        let ghost out0 = out.deep_view();
        let ghost u = s@.subrange(pos as int, s@.len() as int);
        let w = ws_at_exec(s, pos);
        proof {
            lemma_ws_at_shift(s@, pos as int, 0);
            assert(ws_at(u, 0) == w as int);
        }
        if w > 0 {
            proof {
                assert(w <= u.len());
                assert(u.subrange(w as int, u.len() as int) =~~= s@.subrange(
                    pos + w,
                    s@.len() as int,
                ));
                assert(words_of(u) == words_of(s@.subrange(pos + w, s@.len() as int)));
            }
            pos = pos + w;
        } else {
            let j = find_ws_start(s, pos);
            let word = copy_range(s, pos, j);
            proof {
                assert forall|j2: int| 0 <= j2 < j - pos implies ws_at(u, j2) == 0 by {
                    lemma_ws_at_shift(s@, pos as int, j2);
                }
                assert(j - pos < u.len() ==> ws_at(u, j - pos) > 0) by {
                    if j < s@.len() {
                        lemma_ws_at_shift(s@, pos as int, j - pos);
                    }
                }
                lemma_first_ws_idx_unique(u, j - pos);
                assert(j > pos);
                if j < s@.len() {
                    assert(u.subrange(0, j - pos) =~~= s@.subrange(pos as int, j as int));
                    assert(u.subrange(j - pos, u.len() as int) =~~= s@.subrange(
                        j as int,
                        s@.len() as int,
                    ));
                    assert(words_of(u) == seq![s@.subrange(pos as int, j as int)] + words_of(
                        s@.subrange(j as int, s@.len() as int),
                    ));
                } else {
                    assert(u =~~= s@.subrange(pos as int, j as int));
                    assert(words_of(u) == seq![u]);
                    assert(s@.subrange(j as int, s@.len() as int) =~~= Seq::<u8>::empty());
                }
            }
            out.push(word);
            proof {
                assert(out.deep_view() =~~= out0 + seq![s@.subrange(pos as int, j as int)]);
            }
            pos = j;
        }
    }
    proof {
        assert(s@.subrange(pos as int, s@.len() as int) =~~= Seq::<u8>::empty());
        assert(words_of(s@) =~~= out.deep_view());
    }
    out
}

/// Appending one more word to a single-space join adds a space and the word.
proof fn lemma_join_push(xs: Seq<Seq<u8>>, x: Seq<u8>)
    ensures
        xs.len() == 0 ==> join_words(xs.push(x)) == x,
        xs.len() > 0 ==> join_words(xs.push(x)) == join_words(xs) + seq![32u8] + x,
    decreases xs.len(),
{
    let p = xs.push(x);
    if xs.len() == 0 {
        assert(p.len() == 1);
        assert(p[0] == x);
    } else {
        assert(p.len() >= 2);
        assert(p[0] == xs[0]);
        assert(p.drop_first() =~~= xs.drop_first().push(x));
        lemma_join_push(xs.drop_first(), x);
        if xs.len() == 1 {
            assert(join_words(p) == xs[0] + seq![32u8] + x);
            assert(join_words(xs) == xs[0]);
        } else {
            assert(join_words(p) == xs[0] + seq![32u8] + (join_words(xs.drop_first()) + seq![32u8] + x));
            assert(join_words(xs) == xs[0] + seq![32u8] + join_words(xs.drop_first()));
            assert(xs[0] + seq![32u8] + (join_words(xs.drop_first()) + seq![32u8] + x) =~~= (xs[0] + seq![32u8] + join_words(xs.drop_first())) + seq![32u8] + x);
        }
    }
}

/// Push every byte of `w` onto `r`.
pub fn append_bytes(r: &mut Vec<u8>, w: &Vec<u8>)
    ensures
        final(r)@ == old(r)@ + w@,
{
    let ghost base = r@;
    let mut t: usize = 0;
    while t < w.len()
        invariant
            t <= w@.len(),
            r@ == base + w@.subrange(0, t as int),
        decreases w@.len() - t,
    {
        let b = w[t];
        r.push(b);
        proof {
            assert(base + w@.subrange(0, t as int) + seq![w@[t as int]] =~~= base + w@.subrange(0, t + 1));
        }
        t = t + 1;
    }
    proof {
        assert(w@.subrange(0, w@.len() as int) =~~= w@);
    }
}

/// The words `ws[a..b]` joined with single spaces.
fn join_range(ws: &Vec<Vec<u8>>, a: usize, b: usize) -> (r: Vec<u8>)
    requires
        a <= b <= ws@.len(),
    ensures
        r@ == join_words(ws.deep_view().subrange(a as int, b as int)),
{
    let ghost dv = ws.deep_view();
    let mut r: Vec<u8> = Vec::new();
    let mut k = a;
    proof {
        assert(dv.subrange(a as int, a as int) =~~= Seq::<Seq<u8>>::empty());
        assert(r@ =~~= join_words(dv.subrange(a as int, a as int)));
    }
    while k < b
        invariant
            a <= k <= b <= ws@.len(),
            dv == ws.deep_view(),
            r@ == join_words(dv.subrange(a as int, k as int)),
        decreases b - k,
    {
        if k > a {
            r.push(32);
        }
        let w = &ws[k];
        append_bytes(&mut r, w);
        proof {
            lemma_join_push(dv.subrange(a as int, k as int), dv[k as int]);
            assert(dv.subrange(a as int, k + 1) =~~= dv.subrange(a as int, k as int).push(dv[k as int]));
            assert(w@ == dv[k as int]);
            if k > a {
                assert(r@ =~~= join_words(dv.subrange(a as int, k as int)) + seq![32u8] + dv[k as int]);
            }
        }
        k = k + 1;
    }
    r
}

/// The five-word chunks of `ws`, each joined with single spaces.
pub fn chunk_words(ws: &Vec<Vec<u8>>) -> (r: Vec<Vec<u8>>)
    ensures
        r.deep_view() == chunks5_join(ws.deep_view()),
{
    let ghost dv = ws.deep_view();
    let n = ws.len();
    let mut out: Vec<Vec<u8>> = Vec::new();
    let mut k: usize = 0;
    proof {
        assert(dv.skip(0) =~~= dv);
        assert(out.deep_view() =~~= Seq::<Seq<u8>>::empty());
    }
    while k < n
        invariant
            k <= n == ws@.len(),
            dv == ws.deep_view(),
            chunks5_join(dv) == out.deep_view() + chunks5_join(dv.skip(k as int)),
        decreases n - k,
    {
        let ghost out0 = out.deep_view();
        let ghost u = dv.skip(k as int);
        let b = if n - k <= 5 { n } else { k + 5 };
        let chunk = join_range(ws, k, b);
        proof {
            if n - k <= 5 {
                assert(u =~~= dv.subrange(k as int, b as int));
                assert(chunks5_join(u) == seq![join_words(u)]);
                assert(dv.skip(b as int) =~~= Seq::<Seq<u8>>::empty());
            } else {
                assert(u.take(5) =~~= dv.subrange(k as int, b as int));
                assert(u.skip(5) =~~= dv.skip(b as int));
                assert(chunks5_join(u) == seq![join_words(u.take(5))] + chunks5_join(u.skip(5)));
            }
        }
        out.push(chunk);
        proof {
            assert(out.deep_view() =~~= out0 + seq![chunk@]);
        }
        k = b;
    }
    proof {
        assert(dv.skip(k as int) =~~= Seq::<Seq<u8>>::empty());
        assert(chunks5_join(dv) =~~= out.deep_view());
    }
    out
}

/// Whether `s` holds a line feed.
pub fn has_nl(s: &[u8]) -> (r: bool)
    ensures
        r == contains_nl(s@),
{
    let j = find_nl(s, 0);
    j < s.len()
}

/// The verse segmentation of a post: explicit lines where the text has a
/// line break, otherwise five-word chunks of its whitespace tokenization.
pub fn segment_text(s: &[u8]) -> (r: Vec<Vec<u8>>)
    ensures
        r.deep_view() == segments_of(s@),
{
    if has_nl(s) {
        split_lines(s)
    } else {
        let ws = split_words(s);
        chunk_words(&ws)
    }
}

/// Whether the two byte strings are equal.
pub fn bytes_eq(a: &[u8], b: &[u8]) -> (r: bool)
    ensures
        r == (a@ == b@),
{
    if a.len() != b.len() {
        proof {
            assert(a@ != b@);
        }
        return false;
    }
    let mut i: usize = 0;
    while i < a.len()
        invariant
            i <= a@.len() == b@.len(),
            forall|j: int| 0 <= j < i ==> a@[j] == b@[j],
        decreases a@.len() - i,
    {
        if *slice_index_get(a, i) != *slice_index_get(b, i) {
            proof {
                assert(a@ != b@);
            }
            return false;
        }
        i = i + 1;
    }
    proof {
        assert(a@ =~~= b@);
    }
    true
}

/// `pre` is an initial segment of `s`.
pub open spec fn starts_with(s: Seq<u8>, pre: Seq<u8>) -> bool {
    pre.len() <= s.len() && s.subrange(0, pre.len() as int) == pre
}

/// Whether `s` starts with the bytes of `pre`.
pub fn starts_with_bytes(s: &[u8], pre: &[u8]) -> (r: bool)
    ensures
        r == starts_with(s@, pre@),
{
    if pre.len() > s.len() {
        return false;
    }
    let head = slice_subrange(s, 0, pre.len());
    bytes_eq(head, pre)
}

} // verus!
