use unicode_segmentation::UnicodeSegmentation;
use vstd::prelude::*;

use crate::text::{chars_of, prefix_before, spec_prefix_before, str_eq, string_from_chars};

verus! {

/// Number of words that `unicode-segmentation` finds in `s` (word boundaries of UAX #29,
/// keeping the segments that hold an alphanumeric character).
pub uninterp spec fn spec_unicode_word_count(s: Seq<char>) -> nat;

/// Counts the words of `s` with `UnicodeSegmentation::unicode_words`.
/// The count is named by `spec_unicode_word_count`; every word holds at least one character
/// and words do not overlap, so there are no more words than characters.
#[verifier::external_body]
fn unicode_word_count(s: &str) -> (n: usize)
    ensures
        n == spec_unicode_word_count(s@),
        n <= s@.len(),
{
    s.unicode_words().count()
}

/// Whether `c` has the Unicode `Alphabetic` property.
pub uninterp spec fn spec_is_alphabetic(c: char) -> bool;

/// Calls `char::is_alphabetic`; its result is named by `spec_is_alphabetic`.
#[verifier::external_body]
fn is_alphabetic(c: char) -> (b: bool)
    ensures
        b == spec_is_alphabetic(c),
{
    c.is_alphabetic()
}

/// Whether a code fence "```" starts at position `i` of `s`.
pub open spec fn fence_at(s: Seq<char>, i: int) -> bool {
    0 <= i && i + 3 <= s.len() && s[i] == '`' && s[i + 1] == '`' && s[i + 2] == '`'
}

/// The pieces of `s[start..]` between code fences, scanning from position `i`
/// (`start <= i`, and `s[start..i]` holds no fence).
pub open spec fn split_fences_from(s: Seq<char>, start: int, i: int) -> Seq<Seq<char>>
    decreases s.len() - i,
{
    if i >= s.len() {
        seq![s.subrange(start, s.len() as int)]
    } else if fence_at(s, i) {
        seq![s.subrange(start, i)] + split_fences_from(s, i + 3, i + 3)
    } else {
        split_fences_from(s, start, i + 1)
    }
}

/// The pieces of `s` separated by code fences, as `str::split("```")` yields them.
pub open spec fn split_fences(s: Seq<char>) -> Seq<Seq<char>> {
    split_fences_from(s, 0, 0)
}

/// Number of alphabetic characters of `s`.
pub open spec fn alphabetic_count(s: Seq<char>) -> nat
    decreases s.len(),
{
    if s.len() == 0 {
        0
    } else {
        alphabetic_count(s.drop_last()) + (if spec_is_alphabetic(s.last()) { 1nat } else { 0nat })
    }
}

/// What is counted in a piece of text: characters for Chinese and Japanese, words otherwise.
pub open spec fn piece_count(p: Seq<char>, cjk: bool) -> nat {
    if cjk { alphabetic_count(p) } else { spec_unicode_word_count(p) }
}

/// The count over the pieces at even positions, that is the text outside code fences.
pub open spec fn unfenced_count(pieces: Seq<Seq<char>>, cjk: bool) -> nat
    decreases pieces.len(),
{
    if pieces.len() == 0 {
        0
    } else {
        unfenced_count(pieces.drop_last(), cjk) + (if (pieces.len() - 1) % 2 == 0 {
            piece_count(pieces.last(), cjk)
        } else {
            0nat
        })
    }
}

/// The primary language subtag: what comes before the first `-`.
pub open spec fn primary_subtag(lang: Seq<char>) -> Seq<char> {
    spec_prefix_before(lang, '-')
}

/// Reading speed for a primary language: characters per minute for `zh` and `ja`,
/// words per minute otherwise.
pub open spec fn reading_rate(primary: Seq<char>) -> nat {
    if primary == "zh"@ { 439 }
    else if primary == "ja"@ { 653 }
    else if primary == "en"@ { 238 }
    else if primary == "ko"@ { 202 }
    else { 200 }
}

/// Word (or character) count and reading time in minutes, rounded up.
pub open spec fn spec_reading_analytics(content: Seq<char>, lang: Seq<char>) -> (nat, nat) {
    let p = primary_subtag(lang);
    let cjk = p == "zh"@ || p == "ja"@;
    let count = unfenced_count(split_fences(content), cjk);
    let rate = reading_rate(p);
    (count, (count + rate - 1) as nat / rate)
}

/// The string made of the characters `v[lo..hi]`.
fn string_of_range(v: &Vec<char>, lo: usize, hi: usize) -> (s: String)
    requires
        lo <= hi <= v@.len(),
    ensures
        s@ == v@.subrange(lo as int, hi as int),
{
    let mut piece: Vec<char> = Vec::new();
    let mut k = lo;
    while k < hi
        invariant
            lo <= k <= hi <= v@.len(),
            piece@ == v@.subrange(lo as int, k as int),
        decreases hi - k,
    {
        piece.push(v[k]);
        assert(v@.subrange(lo as int, k as int).push(v@[k as int]) =~= v@.subrange(lo as int, k + 1));
        k += 1;
    }
    string_from_chars(piece.as_slice())
}

/// Number of alphabetic characters among `v[lo..hi]`.
fn count_alphabetic(v: &Vec<char>, lo: usize, hi: usize) -> (n: usize)
    requires
        lo <= hi <= v@.len(),
    ensures
        n == alphabetic_count(v@.subrange(lo as int, hi as int)),
        n <= hi - lo,
{
    let mut n: usize = 0;
    let mut k = lo;
    while k < hi
        invariant
            lo <= k <= hi <= v@.len(),
            n == alphabetic_count(v@.subrange(lo as int, k as int)),
            n <= k - lo,
        decreases hi - k,
    {
        assert(v@.subrange(lo as int, k + 1).drop_last() =~= v@.subrange(lo as int, k as int));
        if is_alphabetic(v[k]) {
            n += 1;
        }
        k += 1;
    }
    n
}

/// Counts the characters (`cjk`) or words of `v[lo..hi]`.
fn count_piece(v: &Vec<char>, lo: usize, hi: usize, cjk: bool) -> (n: usize)
    requires
        lo <= hi <= v@.len(),
    ensures
        n == piece_count(v@.subrange(lo as int, hi as int), cjk),
        n <= hi - lo,
{
    if cjk {
        count_alphabetic(v, lo, hi)
    } else {
        let s = string_of_range(v, lo, hi);
        unicode_word_count(s.as_str())
    }
}

proof fn lemma_unfenced_push(pieces: Seq<Seq<char>>, p: Seq<char>, cjk: bool)
    ensures
        unfenced_count(pieces.push(p), cjk) == unfenced_count(pieces, cjk) + (if pieces.len() % 2 == 0 {
            piece_count(p, cjk)
        } else {
            0nat
        }),
{
    assert(pieces.push(p).drop_last() =~= pieces);
}

/// Get word count and estimated reading time.
///
/// Rates are silent-reading speeds of young adults for non-fiction text:
/// `zh` (439) and `ja` (653) count characters per minute; other languages count words per
/// minute with `en` at 238, `ko` at 202 and any other language at 200.
/// Text between a code fence "```" and the next one is not counted.
pub fn get_reading_analytics(content: &str, lang: &str) -> (r: (usize, usize))
    ensures
        r.0 == spec_reading_analytics(content@, lang@).0,
        r.1 == spec_reading_analytics(content@, lang@).1,
{
    let primary = prefix_before(lang, '-');
    let is_zh = str_eq(primary.as_str(), "zh");
    let is_ja = str_eq(primary.as_str(), "ja");
    let cjk = is_zh || is_ja;
    let rate: usize = if is_zh {
        439
    } else if is_ja {
        653
    } else if str_eq(primary.as_str(), "en") {
        238
    } else if str_eq(primary.as_str(), "ko") {
        202
    } else {
        200
    };
    let v = chars_of(content);
    let ghost s = content@;
    let ghost mut done: Seq<Seq<char>> = Seq::empty();
    let mut count: usize = 0;
    let mut n_pieces: usize = 0;
    let mut start: usize = 0;
    let mut i: usize = 0;
    while i < v.len()
        invariant
            v@ == s,
            start <= i <= v@.len(),
            n_pieces == done.len(),
            done + split_fences_from(s, start as int, i as int) == split_fences(s),
            count == unfenced_count(done, cjk),
            count <= start,
            n_pieces <= start,
        decreases v.len() - i,
    {
        if v.len() - i >= 3 && v[i] == '`' && v[i + 1] == '`' && v[i + 2] == '`' {
            let c = if n_pieces % 2 == 0 { count_piece(&v, start, i, cjk) } else { 0 };
            proof {
                lemma_unfenced_push(done, s.subrange(start as int, i as int), cjk);
                assert(done.push(s.subrange(start as int, i as int)) + split_fences_from(s, i + 3, i + 3)
                    =~= done + split_fences_from(s, start as int, i as int));
                done = done.push(s.subrange(start as int, i as int));
            }
            count = count + c;
            n_pieces = n_pieces + 1;
            i = i + 3;
            start = i;
        } else {
            i = i + 1;
        }
    }
    let c = if n_pieces % 2 == 0 { count_piece(&v, start, i, cjk) } else { 0 };
    proof {
        lemma_unfenced_push(done, s.subrange(start as int, s.len() as int), cjk);
        assert(done + split_fences_from(s, start as int, i as int) =~= done.push(
            s.subrange(start as int, s.len() as int),
        ));
    }
    count = count + c;
    let minutes = count / rate + if count % rate == 0 { 0 } else { 1 };
    proof {
        assert(primary@ == primary_subtag(lang@));
        assert((count + rate - 1) as nat / rate as nat == count / rate + if count % rate == 0 { 0nat } else { 1nat }) by (nonlinear_arith)
            requires
                rate > 0,
        ;
    }
    (count, minutes)
}

/// Chinese and Japanese are read by characters, not words: for a language whose primary
/// subtag is `ja` (or `zh`) the count is the number of alphabetic characters outside code
/// fences, the same for both languages, and the reading time is that count divided by 653
/// characters a minute for Japanese (439 for Chinese), rounded up.
pub proof fn lemma_cjk_reading(content: Seq<char>, lang: Seq<char>, other: Seq<char>)
    requires
        primary_subtag(lang) == "ja"@ || primary_subtag(lang) == "zh"@,
        primary_subtag(other) == "ja"@ || primary_subtag(other) == "zh"@,
    ensures
        spec_reading_analytics(content, lang).0 == unfenced_count(split_fences(content), true),
        spec_reading_analytics(content, lang).0 == spec_reading_analytics(content, other).0,
        primary_subtag(lang) == "ja"@ ==> {
            let (count, minutes) = spec_reading_analytics(content, lang);
            &&& minutes * 653 >= count
            &&& count > (minutes - 1) * 653
        },
        primary_subtag(lang) == "zh"@ ==> {
            let (count, minutes) = spec_reading_analytics(content, lang);
            &&& minutes * 439 >= count
            &&& count > (minutes - 1) * 439
        },
{
    reveal_strlit("ja");
    reveal_strlit("zh");
    assert("ja"@[0] != "zh"@[0]);
    let (count, minutes) = spec_reading_analytics(content, lang);
    if primary_subtag(lang) == "ja"@ {
        assert(minutes == (count + 652) / 653);
        assert(minutes * 653 >= count && count > (minutes - 1) * 653) by (nonlinear_arith)
            requires minutes == (count + 652) / 653, count >= 0;
    } else {
        assert(minutes == (count + 438) / 439);
        assert(minutes * 439 >= count && count > (minutes - 1) * 439) by (nonlinear_arith)
            requires minutes == (count + 438) / 439, count >= 0;
    }
}

} // verus!
