//! The haiku heuristic: a post is accepted when its detected language is
//! English and its verse segmentation has exactly three lines whose
//! estimated syllable counts are five, seven, five, in order.

use vstd::prelude::*;
use crate::text::{chunks5_join, segments_of, segment_text, split_words, words_of};

verus! {

/// Syllable count the estimator assigns to one word; a function of the
/// word's bytes alone.
pub uninterp spec fn syllable_estimate(word: Seq<u8>) -> usize;

/// Language code the detector assigns to a text, if it detects one; a
/// function of the text's bytes alone.
pub uninterp spec fn lang_code_of(text: Seq<u8>) -> Option<Seq<u8>>;

/// Relies on syllarust::count_syllables: a deterministic per-word count
/// from an embedded pronouncing dictionary with a heuristic fallback.
#[verifier::external_body]
fn word_syllables(word: &Vec<u8>) -> (r: usize)
    ensures
        r == syllable_estimate(word@),
{
    match core::str::from_utf8(word.as_slice()) {
        Ok(w) => syllarust::count_syllables(w),
        Err(_) => 0,
    }
}

/// Relies on whatlang::detect: the top detected language, if any, is a
/// deterministic function of the text; its code is a three-letter tag.
#[verifier::external_body]
fn detect_lang_code(text: &Vec<u8>) -> (r: Option<Vec<u8>>)
    ensures
        match r {
            Some(c) => lang_code_of(text@) == Some(c@),
            None => lang_code_of(text@) is None,
        },
{
    match core::str::from_utf8(text.as_slice()) {
        Ok(t) => match whatlang::detect(t) {
            Some(info) => Some(info.lang().code().as_bytes().to_vec()),
            None => None,
        },
        Err(_) => None,
    }
}

/// The language tag for English.
pub open spec fn eng_code() -> Seq<u8> {
    seq![101u8, 110u8, 103u8]
}

/// The dominant detected language is English; an indeterminate detection
/// counts as not English.
pub open spec fn is_english_spec(text: Seq<u8>) -> bool {
    lang_code_of(text) == Some(eng_code())
}

pub fn is_english(text: &Vec<u8>) -> (r: bool)
    ensures
        r == is_english_spec(text@),
{
    match detect_lang_code(text) {
        Some(code) => {
            if code.len() == 3 && code[0] == 101 && code[1] == 110 && code[2] == 103 {
                proof {
                    assert(code@ =~~= eng_code());
                }
                true
            } else {
                proof {
                    assert(code@ != eng_code());
                }
                false
            }
        },
        None => false,
    }
}

/// Total estimated syllables of a word list.
pub open spec fn sum_syllables(ws: Seq<Seq<u8>>) -> nat
    decreases ws.len(),
{
    if ws.len() == 0 {
        0
    } else {
        syllable_estimate(ws[0]) as nat + sum_syllables(ws.drop_first())
    }
}

/// Estimated syllables of a line: the sum over its whitespace tokens.
pub open spec fn line_syllables(line: Seq<u8>) -> nat {
    sum_syllables(words_of(line))
}

proof fn lemma_sum_push(ws: Seq<Seq<u8>>, x: Seq<u8>)
    ensures
        sum_syllables(ws.push(x)) == sum_syllables(ws) + syllable_estimate(x),
    decreases ws.len(),
{
    let p = ws.push(x);
    assert(p.len() > 0);
    assert(sum_syllables(p) == syllable_estimate(p[0]) as nat + sum_syllables(p.drop_first()));
    if ws.len() == 0 {
        assert(p.drop_first() =~~= Seq::<Seq<u8>>::empty());
        assert(sum_syllables(p.drop_first()) == 0);
        assert(p[0] == x);
    } else {
        assert(p[0] == ws[0]);
        assert(p.drop_first() =~~= ws.drop_first().push(x));
        lemma_sum_push(ws.drop_first(), x);
        assert(sum_syllables(ws) == syllable_estimate(ws[0]) as nat + sum_syllables(ws.drop_first()));
    }
}

proof fn lemma_sum_split(ws: Seq<Seq<u8>>, i: int)
    requires
        0 <= i <= ws.len(),
    ensures
        sum_syllables(ws) == sum_syllables(ws.take(i)) + sum_syllables(ws.skip(i)),
    decreases i,
{
    if i == 0 {
        assert(ws.take(0) =~~= Seq::<Seq<u8>>::empty());
        assert(ws.skip(0) =~~= ws);
    } else {
        lemma_sum_split(ws, i - 1);
        assert(ws.take(i) =~~= ws.take(i - 1).push(ws[i - 1]));
        lemma_sum_push(ws.take(i - 1), ws[i - 1]);
        assert(ws.skip(i - 1) =~~= seq![ws[i - 1]] + ws.skip(i));
        assert(ws.skip(i - 1).drop_first() =~~= ws.skip(i));
        assert(sum_syllables(ws.skip(i - 1)) == syllable_estimate(ws[i - 1]) + sum_syllables(ws.skip(i)));
    }
}

/// Whether the line's estimated syllable total is exactly `target`.
fn line_matches(line: &Vec<u8>, target: usize) -> (r: bool)
    ensures
        r == (line_syllables(line@) == target as nat),
{
    let ws = split_words(line.as_slice());
    let ghost dv = ws.deep_view();
    let mut acc: usize = 0;
    let mut k: usize = 0;
    proof {
        assert(dv.take(0) =~~= Seq::<Seq<u8>>::empty());
    }
    while k < ws.len()
        invariant
            k <= ws@.len(),
            dv == ws.deep_view(),
            line_syllables(line@) == sum_syllables(dv),
            acc <= target,
            acc as nat == sum_syllables(dv.take(k as int)),
        decreases ws@.len() - k,
    {
        let n = word_syllables(&ws[k]);
        proof {
            assert(ws@[k as int]@ == dv[k as int]);
            assert(dv.take(k + 1) =~~= dv.take(k as int).push(dv[k as int]));
            lemma_sum_push(dv.take(k as int), dv[k as int]);
            lemma_sum_split(dv, k + 1);
        }
        if n > target - acc {
            proof {
                assert(sum_syllables(dv) >= acc + n > target);
            }
            return false;
        }
        acc = acc + n;
        k = k + 1;
    }
    proof {
        assert(dv.take(k as int) =~~= dv);
    }
    acc == target
}

/// A text is haiku-form when its segmentation has exactly three lines
/// whose estimated syllable counts are five, seven, five, in order.
pub open spec fn is_haiku_spec(text: Seq<u8>) -> bool {
    let segs = segments_of(text);
    segs.len() == 3 && line_syllables(segs[0]) == 5 && line_syllables(segs[1]) == 7
        && line_syllables(segs[2]) == 5
}

pub fn is_haiku(text: &Vec<u8>) -> (r: bool)
    ensures
        r == is_haiku_spec(text@),
{
    let segs = segment_text(text.as_slice());
    proof {
        assert(segs.deep_view() == segments_of(text@));
    }
    if segs.len() != 3 {
        return false;
    }
    proof {
        assert(segs@[0]@ == segments_of(text@)[0]);
        assert(segs@[1]@ == segments_of(text@)[1]);
        assert(segs@[2]@ == segments_of(text@)[2]);
    }
    line_matches(&segs[0], 5) && line_matches(&segs[1], 7) && line_matches(&segs[2], 5)
}

/// A post is kept as a haiku when it is detected as English and has the
/// haiku form.
pub open spec fn accepts_haiku(text: Seq<u8>) -> bool {
    is_english_spec(text) && is_haiku_spec(text)
}

pub fn classify_haiku(text: &Vec<u8>) -> (r: bool)
    ensures
        r == accepts_haiku(text@),
{
    is_english(text) && is_haiku(text)
}

/// What acceptance demands: only English-detected text whose segmentation
/// has exactly three lines with estimated counts five, seven, five, in
/// order, is ever accepted.
pub proof fn lemma_haiku_requirements(text: Seq<u8>)
    ensures
        accepts_haiku(text) ==> {
            &&& is_english_spec(text)
            &&& segments_of(text).len() == 3
            &&& line_syllables(segments_of(text)[0]) == 5
            &&& line_syllables(segments_of(text)[1]) == 7
            &&& line_syllables(segments_of(text)[2]) == 5
        },
{
}

/// The number of five-word chunks is the word count rounded up in fives.
proof fn lemma_chunks_len(ws: Seq<Seq<u8>>)
    ensures
        chunks5_join(ws).len() == (ws.len() + 4) / 5,
    decreases ws.len(),
{
    if ws.len() == 0 {
    } else if ws.len() <= 5 {
    } else {
        lemma_chunks_len(ws.skip(5));
    }
}

/// A post without line breaks and with at most ten whitespace tokens
/// cannot form three verse chunks, so it is never haiku-form.
pub proof fn lemma_short_fallback_rejected(text: Seq<u8>)
    ensures
        !crate::text::contains_nl(text) && words_of(text).len() <= 10 ==> !is_haiku_spec(text),
{
    lemma_chunks_len(words_of(text));
}

} // verus!
