//! Ordering pages by date, title or weight, and finding the neighbours of each page.
use core::cmp::Ordering;
use rayon::slice::ParallelSliceMut;
use slotmap::DefaultKey;
use vstd::prelude::*;

use crate::content::front_matter::SortBy;
use crate::text::chars_of;

verus! {

#[verifier::external_type_specification]
#[verifier::external_body]
pub struct ExDefaultKey(DefaultKey);

/// Whether `a` comes strictly before `b` in lexicographic order of their characters, which is
/// the order of `str` (UTF-8 bytes compare as the code points they encode).
pub open spec fn lex_lt(a: Seq<char>, b: Seq<char>) -> bool
    decreases a.len(),
{
    if b.len() == 0 {
        false
    } else if a.len() == 0 {
        true
    } else if a[0] != b[0] {
        (a[0] as u32) < (b[0] as u32)
    } else {
        lex_lt(a.drop_first(), b.drop_first())
    }
}

/// Distinct characters have distinct code points.
proof fn lemma_char_code(a: char, b: char)
    ensures
        a != b ==> (a as u32) != (b as u32),
{
}

/// Lexicographic order is a strict total order.
pub proof fn lemma_lex_order(a: Seq<char>, b: Seq<char>, c: Seq<char>)
    ensures
        !lex_lt(a, a),
        lex_lt(a, b) ==> !lex_lt(b, a),
        !lex_lt(a, b) && !lex_lt(b, a) ==> a == b,
        lex_lt(a, b) && lex_lt(b, c) ==> lex_lt(a, c),
    decreases a.len(),
{
    if a.len() > 0 && b.len() > 0 && c.len() > 0 {
        lemma_lex_order(a.drop_first(), b.drop_first(), c.drop_first());
    }
    if a.len() > 0 && b.len() > 0 {
        lemma_char_code(a[0], b[0]);
        lemma_lex_order(a.drop_first(), b.drop_first(), b.drop_first());
        if a[0] == b[0] && a.drop_first() == b.drop_first() {
            assert(a =~= seq![a[0]] + a.drop_first());
            assert(b =~= seq![b[0]] + b.drop_first());
        }
    }
    if a.len() > 0 {
        lemma_lex_order(a.drop_first(), a.drop_first(), a.drop_first());
    }
    if a.len() == 0 && b.len() == 0 {
        assert(a =~= b);
    }
}

/// The length of the longest common prefix of `x` and `y`.
fn common_prefix_len(x: &Vec<char>, y: &Vec<char>) -> (i: usize)
    ensures
        i <= x@.len(),
        i <= y@.len(),
        x@.take(i as int) == y@.take(i as int),
        i < x@.len() && i < y@.len() ==> x@[i as int] != y@[i as int],
{
    let mut i: usize = 0;
    while i < x.len() && i < y.len() && x[i] == y[i]
        invariant
            i <= x@.len(),
            i <= y@.len(),
            x@.take(i as int) == y@.take(i as int),
        decreases x.len() - i,
    {
        assert(x@.take(i + 1) =~= x@.take(i as int).push(x@[i as int]));
        assert(y@.take(i + 1) =~= y@.take(i as int).push(y@[i as int]));
        i += 1;
    }
    i
}

/// Lexicographic order is decided at the end of the common prefix.
proof fn lemma_lex_at(x: Seq<char>, y: Seq<char>, i: usize)
    requires
        i <= x.len(),
        i <= y.len(),
        x.take(i as int) == y.take(i as int),
        i < x.len() && i < y.len() ==> x[i as int] != y[i as int],
    ensures
        i < x.len() && i < y.len() ==> lex_lt(x, y) == ((x[i as int] as u32) < (y[i as int] as u32))
            && lex_lt(y, x) == ((y[i as int] as u32) < (x[i as int] as u32)) && x != y
            && (x[i as int] as u32) != (y[i as int] as u32),
        !(i < x.len() && i < y.len()) ==> lex_lt(x, y) == (x.len() < y.len())
            && lex_lt(y, x) == (y.len() < x.len()) && (x == y) == (x.len() == y.len()),
    decreases i,
{
    if i > 0 {
        assert(x[0] == x.take(i as int)[0]);
        assert(y[0] == y.take(i as int)[0]);
        assert(x.drop_first().take(i - 1) =~= x.take(i as int).drop_first());
        assert(y.drop_first().take(i - 1) =~= y.take(i as int).drop_first());
        lemma_lex_at(x.drop_first(), y.drop_first(), (i - 1) as usize);
        if x.drop_first() == y.drop_first() {
            assert(x =~= seq![x[0]] + x.drop_first());
            assert(y =~= seq![y[0]] + y.drop_first());
        }
    } else {
        if x.len() == 0 && y.len() == 0 {
            assert(x =~= y);
        }
    }
    if i < x.len() && i < y.len() {
        lemma_char_code(x[i as int], y[i as int]);
    }
}

/// Compares two character sequences in the order of `str`.
fn compare_chars(x: &Vec<char>, y: &Vec<char>) -> (r: Ordering)
    ensures
        r == Ordering::Less <==> lex_lt(x@, y@),
        r == Ordering::Greater <==> lex_lt(y@, x@),
        r == Ordering::Equal <==> x@ == y@,
{
    let i = common_prefix_len(x, y);
    proof {
        lemma_lex_at(x@, y@, i);
    }
    if i < x.len() && i < y.len() {
        if char_less(x[i], y[i]) {
            Ordering::Less
        } else {
            Ordering::Greater
        }
    } else if x.len() < y.len() {
        Ordering::Less
    } else if x.len() > y.len() {
        Ordering::Greater
    } else {
        Ordering::Equal
    }
}

/// Whether the code point of `a` is below that of `b`.
fn char_less(a: char, b: char) -> (r: bool)
    ensures
        r == ((a as u32) < (b as u32)),
{
    (a as u32) < (b as u32)
}

/// Compares two strings in the order of `str`.
pub fn compare_strs(a: &str, b: &str) -> (r: Ordering)
    ensures
        r == Ordering::Less <==> lex_lt(a@, b@),
        r == Ordering::Greater <==> lex_lt(b@, a@),
        r == Ordering::Equal <==> a@ == b@,
{
    let x = chars_of(a);
    let y = chars_of(b);
    compare_chars(&x, &y)
}

} // verus!

verus! {

/// Whether every element of `s` is ordered before or with each later one: no later element is
/// strictly before an earlier one.
pub open spec fn sorted_by<T>(s: Seq<T>, lt: spec_fn(T, T) -> bool) -> bool {
    forall|i: int, j: int| 0 <= i < j < s.len() ==> !lt(s[j], s[i])
}

/// A sequence sorted by an order that tells apart any two of its distinct elements is the
/// only sorted arrangement of its elements: two such arrangements of the same elements are
/// equal.
pub proof fn lemma_sorted_unique<T>(a: Seq<T>, b: Seq<T>, lt: spec_fn(T, T) -> bool)
    requires
        a.to_multiset() == b.to_multiset(),
        sorted_by(a, lt),
        sorted_by(b, lt),
        forall|x: T, y: T| a.contains(x) && a.contains(y) && x != y ==> lt(x, y) || lt(y, x),
    ensures
        a == b,
    decreases a.len(),
{
    vstd::seq_lib::to_multiset_len(a);
    vstd::seq_lib::to_multiset_len(b);
    if a.len() == 0 {
        assert(b.len() == 0);
        assert(a =~= b);
    } else {
        assert(b.len() == a.len());
        let x = a[0];
        let y = b[0];
        assert(a.contains(x));
        assert(b.contains(y));
        vstd::seq_lib::to_multiset_contains(a, x);
        vstd::seq_lib::to_multiset_contains(b, x);
        vstd::seq_lib::to_multiset_contains(a, y);
        vstd::seq_lib::to_multiset_contains(b, y);
        assert(b.contains(x));
        assert(a.contains(y));
        if x != y {
            let j = choose|j: int| 0 <= j < a.len() && a[j] == y;
            let k = choose|k: int| 0 <= k < b.len() && b[k] == x;
            assert(j != 0 && k != 0);
            assert(!lt(a[j], a[0]));
            assert(!lt(b[k], b[0]));
            assert(false);
        }
        vstd::seq_lib::to_multiset_remove(a, 0);
        vstd::seq_lib::to_multiset_remove(b, 0);
        let a1 = a.drop_first();
        let b1 = b.drop_first();
        assert(a.remove(0) =~= a1);
        assert(b.remove(0) =~= b1);
        assert forall|i: int, j: int| 0 <= i < j < a1.len() implies !lt(a1[j], a1[i]) by {
            assert(a1[j] == a[j + 1] && a1[i] == a[i + 1]);
        }
        assert forall|i: int, j: int| 0 <= i < j < b1.len() implies !lt(b1[j], b1[i]) by {
            assert(b1[j] == b[j + 1] && b1[i] == b[i + 1]);
        }
        assert forall|u: T, v: T| a1.contains(u) && a1.contains(v) && u != v implies lt(u, v) || lt(v, u) by {
            let p = choose|p: int| 0 <= p < a1.len() && a1[p] == u;
            let q = choose|q: int| 0 <= q < a1.len() && a1[q] == v;
            assert(a[p + 1] == u && a[q + 1] == v);
            assert(a.contains(u) && a.contains(v));
        }
        lemma_sorted_unique(a1, b1, lt);
        assert forall|i: int| 0 <= i < a.len() implies a[i] == b[i] by {
            if i > 0 {
                assert(a[i] == a1[i - 1] && b[i] == b1[i - 1]);
            }
        }
        assert(a =~= b);
    }
}

/// The keys of a sequence of entries.
pub open spec fn entry_keys<A, B>(s: Seq<(DefaultKey, A, B)>) -> Seq<DefaultKey> {
    s.map_values(|e: (DefaultKey, A, B)| e.0)
}

/// The keys of the pages that lack the sorting field, in their order.
pub open spec fn unsortable_keys<'a, T>(pages: Seq<(&'a DefaultKey, Option<T>, &'a str)>) -> Seq<DefaultKey>
    decreases pages.len(),
{
    if pages.len() == 0 {
        Seq::empty()
    } else {
        let rest = unsortable_keys(pages.drop_last());
        match pages.last().1 {
            Some(_) => rest,
            None => rest.push(*pages.last().0),
        }
    }
}

/// The pages that have the sorting field, as (key, field, permalink), in their order.
pub open spec fn sortable_entries<'a, T>(pages: Seq<(&'a DefaultKey, Option<T>, &'a str)>) -> Seq<(DefaultKey, T, &'a str)>
    decreases pages.len(),
{
    if pages.len() == 0 {
        Seq::empty()
    } else {
        let rest = sortable_entries(pages.drop_last());
        match pages.last().1 {
            Some(v) => rest.push((*pages.last().0, v, pages.last().2)),
            None => rest,
        }
    }
}

/// Splits pages into those with the sorting field, as entries, and the keys of the others,
/// both in their original order.
fn partition_pages<'a, T: Copy>(pages: &Vec<(&'a DefaultKey, Option<T>, &'a str)>) -> (r: (Vec<(DefaultKey, T, &'a str)>, Vec<DefaultKey>))
    ensures
        r.0@ == sortable_entries(pages@),
        r.1@ == unsortable_keys(pages@),
{
    let mut can: Vec<(DefaultKey, T, &'a str)> = Vec::new();
    let mut cannot: Vec<DefaultKey> = Vec::new();
    let mut i: usize = 0;
    while i < pages.len()
        invariant
            i <= pages@.len(),
            can@ == sortable_entries(pages@.take(i as int)),
            cannot@ == unsortable_keys(pages@.take(i as int)),
        decreases pages.len() - i,
    {
        let p = pages[i];
        proof {
            assert(pages@.take(i + 1).drop_last() =~= pages@.take(i as int));
            assert(pages@.take(i + 1).last() == p);
        }
        match p.1 {
            Some(v) => can.push((*p.0, v, p.2)),
            None => cannot.push(*p.0),
        }
        i += 1;
    }
    assert(pages@.take(pages@.len() as int) =~= pages@);
    (can, cannot)
}

/// The keys of the entries, in order.
fn keys_of<A, B>(entries: &Vec<(DefaultKey, A, B)>) -> (r: Vec<DefaultKey>)
    ensures
        r@ == entry_keys(entries@),
{
    let mut keys: Vec<DefaultKey> = Vec::new();
    let mut i: usize = 0;
    while i < entries.len()
        invariant
            i <= entries@.len(),
            keys@ == entry_keys(entries@.take(i as int)),
        decreases entries.len() - i,
    {
        keys.push(entries[i].0);
        assert(entry_keys(entries@.take(i + 1)) =~= entry_keys(entries@.take(i as int)).push(entries@[i as int].0));
        i += 1;
    }
    assert(entries@.take(entries@.len() as int) =~= entries@);
    keys
}

/// Weight order: lighter first, then by permalink.
pub open spec fn weight_lt<'a>(a: (DefaultKey, usize, &'a str), b: (DefaultKey, usize, &'a str)) -> bool {
    a.1 < b.1 || (a.1 == b.1 && lex_lt(a.2@, b.2@))
}

/// Date order: most recent first, then by permalink. A date is (days, seconds, nanoseconds).
pub open spec fn date_lt<'a>(a: (DefaultKey, (i32, u32, u32), &'a str), b: (DefaultKey, (i32, u32, u32), &'a str)) -> bool {
    date_before(b.1, a.1) || (a.1 == b.1 && lex_lt(a.2@, b.2@))
}

/// Whether the date `x` is earlier than `y`, comparing days, then seconds, then nanoseconds.
pub open spec fn date_before(x: (i32, u32, u32), y: (i32, u32, u32)) -> bool {
    x.0 < y.0 || (x.0 == y.0 && (x.1 < y.1 || (x.1 == y.1 && x.2 < y.2)))
}

/// Whether the date `x` is strictly later than `y`: (days, seconds, nanoseconds) compared in
/// that order.
pub open spec fn later_date(x: (i32, u32, u32), y: (i32, u32, u32)) -> bool {
    x.0 > y.0 || (x.0 == y.0 && x.1 > y.1) || (x.0 == y.0 && x.1 == y.1 && x.2 > y.2)
}

/// In date order the most recent page comes first, to the nanosecond: in a sequence sorted by
/// `date_lt`, no entry comes after one whose date is earlier than its own, and an entry whose
/// date is later than another's comes before it.
pub proof fn lemma_date_order_newest_first<'a>(s: Seq<(DefaultKey, (i32, u32, u32), &'a str)>, i: int, j: int)
    requires
        sorted_by(s, |x: (DefaultKey, (i32, u32, u32), &'a str), y: (DefaultKey, (i32, u32, u32), &'a str)| date_lt(x, y)),
        0 <= i < j < s.len(),
    ensures
        !later_date(s[j].1, s[i].1),
        later_date(s[i].1, s[j].1) ==> date_lt(s[i], s[j]),
{
    assert(!date_lt(s[j], s[i]));
}

/// In weight order the lightest page comes first: in a sequence sorted by `weight_lt`, no
/// entry comes after one heavier than it.
pub proof fn lemma_weight_order_lightest_first<'a>(s: Seq<(DefaultKey, usize, &'a str)>, i: int, j: int)
    requires
        sorted_by(s, |x: (DefaultKey, usize, &'a str), y: (DefaultKey, usize, &'a str)| weight_lt(x, y)),
        0 <= i < j < s.len(),
    ensures
        s[i].1 <= s[j].1,
{
    assert(!weight_lt(s[j], s[i]));
}

/// Compares two entries in weight order.
pub fn compare_weight_entries<'a>(a: &(DefaultKey, usize, &'a str), b: &(DefaultKey, usize, &'a str)) -> (r: Ordering)
    ensures
        r == Ordering::Less <==> weight_lt(*a, *b),
        r == Ordering::Greater <==> weight_lt(*b, *a),
{
    if a.1 < b.1 {
        Ordering::Less
    } else if a.1 > b.1 {
        Ordering::Greater
    } else {
        proof {
            lemma_lex_order(a.2@, b.2@, b.2@);
        }
        compare_strs(a.2, b.2)
    }
}

/// Compares two entries in date order.
pub fn compare_date_entries<'a>(a: &(DefaultKey, (i32, u32, u32), &'a str), b: &(DefaultKey, (i32, u32, u32), &'a str)) -> (r: Ordering)
    ensures
        r == Ordering::Less <==> date_lt(*a, *b),
        r == Ordering::Greater <==> date_lt(*b, *a),
{
    let (x, y) = (a.1, b.1);
    if x.0 > y.0 || (x.0 == y.0 && (x.1 > y.1 || (x.1 == y.1 && x.2 > y.2))) {
        Ordering::Less
    } else if x.0 < y.0 || (x.0 == y.0 && (x.1 < y.1 || (x.1 == y.1 && x.2 < y.2))) {
        Ordering::Greater
    } else {
        proof {
            lemma_lex_order(a.2@, b.2@, b.2@);
        }
        compare_strs(a.2, b.2)
    }
}

/// Sorts entries in weight order with `rayon`'s parallel unstable sort. The comparator is a
/// total order, for which `par_sort_unstable_by` leaves the elements sorted; it only
/// reorders them.
#[verifier::external_body]
fn par_sort_by_weight<'a>(v: &mut Vec<(DefaultKey, usize, &'a str)>)
    ensures
        final(v)@.to_multiset() == old(v)@.to_multiset(),
        sorted_by(final(v)@, |x: (DefaultKey, usize, &'a str), y: (DefaultKey, usize, &'a str)| weight_lt(x, y)),
{
    v.par_sort_unstable_by(|a, b| compare_weight_entries(a, b));
}

/// Sorts entries in date order with `rayon`'s parallel unstable sort. The comparator is a
/// total order, for which `par_sort_unstable_by` leaves the elements sorted; it only
/// reorders them.
#[verifier::external_body]
fn par_sort_by_date<'a>(v: &mut Vec<(DefaultKey, (i32, u32, u32), &'a str)>)
    ensures
        final(v)@.to_multiset() == old(v)@.to_multiset(),
        sorted_by(final(v)@, |x: (DefaultKey, (i32, u32, u32), &'a str), y: (DefaultKey, (i32, u32, u32), &'a str)| date_lt(x, y)),
{
    v.par_sort_unstable_by(|a, b| compare_date_entries(a, b));
}

/// Takes a list of (page key, weight, permalink) and sorts them by weight if possible.
/// Pages without weight are put in the unsortable bucket, in their order.
/// The permalink is used to break ties.
pub fn sort_pages_by_weight<'a>(pages: Vec<(&'a DefaultKey, Option<usize>, &'a str)>) -> (r: (Vec<DefaultKey>, Vec<DefaultKey>))
    ensures
        r.1@ == unsortable_keys(pages@),
        exists|s: Seq<(DefaultKey, usize, &'a str)>|
            #[trigger] s.to_multiset() == sortable_entries(pages@).to_multiset()
            && sorted_by(s, |x: (DefaultKey, usize, &'a str), y: (DefaultKey, usize, &'a str)| weight_lt(x, y))
            && r.0@ == entry_keys(s),
{
    let (mut can, cannot) = partition_pages(&pages);
    par_sort_by_weight(&mut can);
    let keys = keys_of(&can);
    assert(can@.to_multiset() == sortable_entries(pages@).to_multiset());
    (keys, cannot)
}

/// The order in which the feed lists two pages, each given as (date, permalink): the most
/// recent first, then by permalink. Both pages have a date.
pub fn sort_actual_pages_by_date(a: &((i32, u32, u32), &str), b: &((i32, u32, u32), &str)) -> (r: Ordering)
    ensures
        r == Ordering::Less <==> (date_before(b.0, a.0) || (a.0 == b.0 && lex_lt(a.1@, b.1@))),
        r == Ordering::Greater <==> (date_before(a.0, b.0) || (a.0 == b.0 && lex_lt(b.1@, a.1@))),
        r == Ordering::Equal <==> (a.0 == b.0 && a.1@ == b.1@),
{
    let (x, y) = (a.0, b.0);
    if x.0 > y.0 || (x.0 == y.0 && (x.1 > y.1 || (x.1 == y.1 && x.2 > y.2))) {
        Ordering::Less
    } else if x.0 < y.0 || (x.0 == y.0 && (x.1 < y.1 || (x.1 == y.1 && x.2 < y.2))) {
        Ordering::Greater
    } else {
        proof {
            lemma_lex_order(a.1@, b.1@, b.1@);
        }
        compare_strs(a.1, b.1)
    }
}

/// Takes a list of (page key, date, permalink) and sorts them by date, most recent first, if
/// possible. A date is (days since the common era, seconds since midnight, nanoseconds), whose
/// order is that of the date and time it stands for.
/// Pages without date are put in the unsortable bucket, in their order.
/// The permalink is used to break ties.
pub fn sort_pages_by_date<'a>(pages: Vec<(&'a DefaultKey, Option<(i32, u32, u32)>, &'a str)>) -> (r: (Vec<DefaultKey>, Vec<DefaultKey>))
    ensures
        r.1@ == unsortable_keys(pages@),
        exists|s: Seq<(DefaultKey, (i32, u32, u32), &'a str)>|
            #[trigger] s.to_multiset() == sortable_entries(pages@).to_multiset()
            && sorted_by(s, |x: (DefaultKey, (i32, u32, u32), &'a str), y: (DefaultKey, (i32, u32, u32), &'a str)| date_lt(x, y))
            && r.0@ == entry_keys(s),
{
    let (mut can, cannot) = partition_pages(&pages);
    par_sort_by_date(&mut can);
    let keys = keys_of(&can);
    assert(can@.to_multiset() == sortable_entries(pages@).to_multiset());
    (keys, cannot)
}

/// The order in which `lexical_sort::natural_lexical_cmp` puts two strings: letters compared
/// with their accents removed and case ignored, runs of digits compared as numbers.
pub uninterp spec fn natural_lexical_order(a: Seq<char>, b: Seq<char>) -> Ordering;

/// The characters lexical-sort compares a string by: each character lower-cased, a non-ASCII
/// letter or digit transliterated to ASCII, a combining accent dropped.
pub uninterp spec fn spec_lexical_chars(s: Seq<char>) -> Seq<char>;

/// Calls `lexical_sort::iter::iterate_lexical` and collects the characters it gives; they are
/// named by `spec_lexical_chars`.
#[verifier::external_body]
fn lexical_chars(s: &str) -> (r: Vec<char>)
    ensures
        r@ == spec_lexical_chars(s@),
{
    lexical_sort::iter::iterate_lexical(s).collect()
}

/// Whether `c` is an ASCII digit.
pub open spec fn is_digit_char(c: char) -> bool {
    '0' <= c && c <= '9'
}

/// Whether `t` holds twenty ASCII digits in a row from position `i` on.
pub open spec fn digit_run_at(t: Seq<char>, i: int) -> bool {
    0 <= i && i + 20 <= t.len() && forall|k: int| i <= k < i + 20 ==> is_digit_char(#[trigger] t[k])
}

/// Whether lexical-sort reads every number of `s` without overflow: the characters it compares
/// `s` by hold no run of twenty digits, so each number it builds stays below 10^19, which fits in
/// a `u64`.
pub open spec fn lexical_digits_fit(s: Seq<char>) -> bool {
    !exists|i: int| digit_run_at(spec_lexical_chars(s), i)
}

/// How many of `texts` lexical-sort cannot read every number of (see `lexical_digits_fit`).
pub open spec fn unfit_count(texts: Seq<Seq<char>>) -> nat
    decreases texts.len(),
{
    if texts.len() == 0 {
        0
    } else {
        unfit_count(texts.drop_last()) + if lexical_digits_fit(texts.last()) { 0nat } else { 1nat }
    }
}

/// Whether lexical-sort reads every number of `s` without overflow (see `lexical_digits_fit`).
pub fn digits_fit(s: &str) -> (r: bool)
    ensures
        r == lexical_digits_fit(s@),
{
    let t = lexical_chars(s);
    let mut run: usize = 0;
    let mut i: usize = 0;
    while i < t.len()
        invariant
            t@ == spec_lexical_chars(s@),
            i <= t@.len(),
            run <= i,
            run < 20,
            forall|k: int| i - run <= k < i ==> is_digit_char(#[trigger] t@[k]),
            i - run > 0 ==> !is_digit_char(t@[i - run - 1]),
            forall|j: int| 0 <= j && j + 20 <= i ==> !digit_run_at(t@, j),
        decreases t.len() - i,
    {
        let c = t[i];
        if '0' <= c && c <= '9' {
            if run == 19 {
                assert(digit_run_at(t@, i - 19));
                return false;
            }
            run = run + 1;
        } else {
            run = 0;
        }
        assert forall|j: int| 0 <= j && j + 20 <= i + 1 implies !digit_run_at(t@, j) by {
            if j + 20 == i + 1 && digit_run_at(t@, j) {
                assert(is_digit_char(t@[i as int]));
                if i - run > 0 {
                    assert(is_digit_char(t@[i - run - 1]));
                }
            }
        }
        i += 1;
    }
    assert forall|j: int| !digit_run_at(t@, j) by {
        if 0 <= j && j + 20 <= t@.len() {
        }
    }
    true
}

/// Calls `lexical_sort::natural_lexical_cmp`; its result is named by `natural_lexical_order`.
/// The crate documents its comparisons as a total order in which two strings are equal only
/// when they hold the same code points: the answer is `Equal` exactly for equal strings, and
/// comparing the other way round gives the reverse answer.
/// The crate reads two aligned runs of digits into `u64`s digit by digit, as long as both go
/// on, and overflows (a panic) past 19 digits of a large number; where one of the two strings
/// has no run of twenty digits (`lexical_digits_fit`) the numbers stay below 10^19.
#[verifier::external_body]
pub(crate) fn natural_lexical_compare(a: &str, b: &str) -> (r: Ordering)
    requires
        lexical_digits_fit(a@) || lexical_digits_fit(b@),
    ensures
        r == natural_lexical_order(a@, b@),
        (r == Ordering::Equal) <==> a@ == b@,
        (r == Ordering::Less) <==> natural_lexical_order(b@, a@) == Ordering::Greater,
{
    lexical_sort::natural_lexical_cmp(a, b)
}

/// The order of `str` as an `Ordering`.
pub open spec fn lex_order(a: Seq<char>, b: Seq<char>) -> Ordering {
    if lex_lt(a, b) {
        Ordering::Less
    } else if lex_lt(b, a) {
        Ordering::Greater
    } else {
        Ordering::Equal
    }
}

/// Title order: natural lexical order of the titles, then by permalink.
pub open spec fn title_order<'a>(a: (DefaultKey, &'a str, &'a str), b: (DefaultKey, &'a str, &'a str)) -> Ordering {
    match natural_lexical_order(a.1@, b.1@) {
        Ordering::Equal => lex_order(a.2@, b.2@),
        o => o,
    }
}

/// Compares two entries in title order.
pub(crate) fn compare_title_entries<'a>(a: &(DefaultKey, &'a str, &'a str), b: &(DefaultKey, &'a str, &'a str)) -> (r: Ordering)
    requires
        lexical_digits_fit(a.1@) || lexical_digits_fit(b.1@),
    ensures
        r == title_order(*a, *b),
{
    match natural_lexical_compare(a.1, b.1) {
        Ordering::Equal => {
            proof {
                lemma_lex_order(a.2@, b.2@, b.2@);
            }
            compare_strs(a.2, b.2)
        },
        o => o,
    }
}

/// Whether an entry comes strictly before another in title order.
pub open spec fn title_lt<'a>(a: (DefaultKey, &'a str, &'a str), b: (DefaultKey, &'a str, &'a str)) -> bool {
    title_order(a, b) == Ordering::Less
}

/// The titles of title entries, in their order.
pub open spec fn entry_titles<'a>(v: Seq<(DefaultKey, &'a str, &'a str)>) -> Seq<Seq<char>> {
    v.map_values(|e: (DefaultKey, &'a str, &'a str)| e.1@)
}

/// Sorts entries in title order with `rayon`'s parallel unstable sort. The comparator is a
/// total order (lexical-sort documents `natural_lexical_cmp` as one, and permalinks break its
/// ties), for which `par_sort_unstable_by` leaves the elements sorted; it only reorders them.
/// The sort compares entries at two different places of the slice, so with at most one title
/// whose numbers do not fit (`unfit_count`), every comparison has a title that fits.
#[verifier::external_body]
fn par_sort_by_title<'a>(v: &mut Vec<(DefaultKey, &'a str, &'a str)>)
    requires
        unfit_count(entry_titles(old(v)@)) <= 1,
    ensures
        final(v)@.to_multiset() == old(v)@.to_multiset(),
        sorted_by(final(v)@, |x: (DefaultKey, &'a str, &'a str), y: (DefaultKey, &'a str, &'a str)| title_lt(x, y)),
{
    v.par_sort_unstable_by(|a, b| compare_title_entries(a, b));
}

/// Entries of pages that have a title: (key, title, permalink), in their order.
pub open spec fn titled_entries<'a>(pages: Seq<(&'a DefaultKey, Option<&'a str>, &'a str)>) -> Seq<(DefaultKey, &'a str, &'a str)> {
    sortable_entries(pages)
}

/// Takes a list of (page key, title, permalink) and sorts them by title if possible, using the
/// natural lexical comparison of the `lexical_sort` crate.
/// Pages without title are put in the unsortable bucket, in their order.
/// The permalink is used to break ties.
pub fn sort_pages_by_title<'a>(pages: Vec<(&'a DefaultKey, Option<&'a str>, &'a str)>) -> (r: (Vec<DefaultKey>, Vec<DefaultKey>))
    requires
        unfit_count(entry_titles(titled_entries(pages@))) <= 1,
    ensures
        r.1@ == unsortable_keys(pages@),
        exists|s: Seq<(DefaultKey, &'a str, &'a str)>|
            #[trigger] s.to_multiset() == titled_entries(pages@).to_multiset()
            && sorted_by(s, |x: (DefaultKey, &'a str, &'a str), y: (DefaultKey, &'a str, &'a str)| title_lt(x, y))
            && r.0@ == entry_keys(s),
{
    let (mut can, cannot) = partition_pages(&pages);
    par_sort_by_title(&mut can);
    let keys = keys_of(&can);
    assert(can@.to_multiset() == titled_entries(pages@).to_multiset());
    (keys, cannot)
}

/// How many titles of `v` lexical-sort cannot read every number of (see `unfit_count`).
pub(crate) fn count_unfit<'a>(v: &Vec<(DefaultKey, &'a str, &'a str)>) -> (n: usize)
    ensures
        n == unfit_count(entry_titles(v@)),
{
    let mut n: usize = 0;
    let mut i: usize = 0;
    while i < v.len()
        invariant
            i <= v@.len(),
            n == unfit_count(entry_titles(v@.take(i as int))),
            n <= i,
        decreases v.len() - i,
    {
        assert(entry_titles(v@.take(i + 1)).drop_last() =~= entry_titles(v@.take(i as int)));
        assert(entry_titles(v@.take(i + 1)).last() == v@[i as int].1@);
        if !digits_fit(v[i].1) {
            n = n + 1;
        }
        i += 1;
    }
    assert(v@.take(v@.len() as int) =~= v@);
    n
}

/// `sort_pages_by_title`, or `None` where two titles hold a run of twenty digits or more, on
/// which lexical-sort could overflow reading the numbers.
pub fn try_sort_pages_by_title<'a>(pages: Vec<(&'a DefaultKey, Option<&'a str>, &'a str)>) -> (r: Option<(Vec<DefaultKey>, Vec<DefaultKey>)>)
    ensures
        r is Some <==> unfit_count(entry_titles(titled_entries(pages@))) <= 1,
        r matches Some(r) ==> {
            &&& r.1@ == unsortable_keys(pages@)
            &&& exists|s: Seq<(DefaultKey, &'a str, &'a str)>|
                #[trigger] s.to_multiset() == titled_entries(pages@).to_multiset()
                && sorted_by(s, |x: (DefaultKey, &'a str, &'a str), y: (DefaultKey, &'a str, &'a str)| title_lt(x, y))
                && r.0@ == entry_keys(s)
        },
{
    let (can, _) = partition_pages(&pages);
    if count_unfit(&can) > 1 {
        return None;
    }
    Some(sort_pages_by_title(pages))
}

/// Find the lighter/heavier, earlier/later, and title_prev/title_next pages for all pages
/// having a date/weight/title.
pub fn find_siblings(sorted: &[DefaultKey]) -> (r: Vec<(DefaultKey, Option<DefaultKey>, Option<DefaultKey>)>)
    ensures
        r@.len() == sorted@.len(),
        forall|i: int| 0 <= i < sorted@.len() ==> {
            &&& (#[trigger] r@[i]).0 == sorted@[i]
            &&& r@[i].1 == (if i > 0 { Some(sorted@[i - 1]) } else { None })
            &&& r@[i].2 == (if i + 1 < sorted@.len() { Some(sorted@[i + 1]) } else { None })
        },
{
    let mut res: Vec<(DefaultKey, Option<DefaultKey>, Option<DefaultKey>)> = Vec::new();
    let length = sorted.len();
    let mut i: usize = 0;
    while i < length
        invariant
            length == sorted@.len(),
            i <= length,
            res@.len() == i,
            forall|k: int| 0 <= k < i ==> {
                &&& (#[trigger] res@[k]).0 == sorted@[k]
                &&& res@[k].1 == (if k > 0 { Some(sorted@[k - 1]) } else { None })
                &&& res@[k].2 == (if k + 1 < sorted@.len() { Some(sorted@[k + 1]) } else { None })
            },
        decreases length - i,
    {
        let prev = if i > 0 { Some(sorted[i - 1]) } else { None };
        let next = if i < length - 1 { Some(sorted[i + 1]) } else { None };
        res.push((sorted[i], prev, next));
        i += 1;
    }
    res
}

/// The neighbours of a page in the order of its section. Sorting by date fills `earlier` and
/// `later`, sorting by weight `lighter` and `heavier`; the others stay empty.
#[derive(Debug)]
pub struct Neighbours {
    pub key: DefaultKey,
    pub earlier: Option<DefaultKey>,
    pub later: Option<DefaultKey>,
    pub lighter: Option<DefaultKey>,
    pub heavier: Option<DefaultKey>,
}

/// The pages of a section once sorted: the sorted ones, those that could not be sorted, and the
/// neighbours of each sorted page.
#[derive(Debug)]
pub struct SortedSection {
    pub pages: Vec<DefaultKey>,
    pub ignored: Vec<DefaultKey>,
    pub neighbours: Vec<Neighbours>,
}

/// A page as a section sorts it: (key, date, weight, permalink).
pub type SectionPage<'a> = (&'a DefaultKey, Option<(i32, u32, u32)>, Option<usize>, &'a str);

/// The (key, date, permalink) of each page.
pub open spec fn date_view<'a>(pages: Seq<SectionPage<'a>>) -> Seq<(&'a DefaultKey, Option<(i32, u32, u32)>, &'a str)> {
    pages.map_values(|p: SectionPage<'a>| (p.0, p.1, p.3))
}

/// The (key, weight, permalink) of each page.
pub open spec fn weight_view<'a>(pages: Seq<SectionPage<'a>>) -> Seq<(&'a DefaultKey, Option<usize>, &'a str)> {
    pages.map_values(|p: SectionPage<'a>| (p.0, p.2, p.3))
}

/// Whether `n` are the neighbours of the pages `sorted`, as sorting by `sort_by` names them.
pub open spec fn neighbours_of(sorted: Seq<DefaultKey>, n: Seq<Neighbours>, sort_by: SortBy) -> bool {
    &&& n.len() == sorted.len()
    &&& forall|i: int| 0 <= i < sorted.len() ==> {
        let prev = if i > 0 { Some(sorted[i - 1]) } else { None };
        let next = if i + 1 < sorted.len() { Some(sorted[i + 1]) } else { None };
        &&& (#[trigger] n[i]).key == sorted[i]
        &&& sort_by == SortBy::Date ==> n[i].earlier == next && n[i].later == prev
            && n[i].lighter is None && n[i].heavier is None
        &&& sort_by == SortBy::Weight ==> n[i].lighter == prev && n[i].heavier == next
            && n[i].earlier is None && n[i].later is None
    }
}

/// Whether `r` is what sorting the pages `pages` of a section by `sort_by` gives: nothing for a
/// section that is not sorted; else the pages with the field, sorted, the others in their
/// order, and the neighbours of each sorted page.
pub open spec fn section_sorted<'a>(pages: Seq<SectionPage<'a>>, sort_by: SortBy, r: Option<SortedSection>) -> bool {
    &&& (r is None <==> sort_by == SortBy::Unsorted)
    &&& (r matches Some(s) ==> neighbours_of(s.pages@, s.neighbours@, sort_by))
    &&& (sort_by == SortBy::Date ==> (r matches Some(s) ==> {
        &&& s.ignored@ == unsortable_keys(date_view(pages))
        &&& exists|e: Seq<(DefaultKey, (i32, u32, u32), &'a str)>|
            #[trigger] e.to_multiset() == sortable_entries(date_view(pages)).to_multiset()
            && sorted_by(e, |x: (DefaultKey, (i32, u32, u32), &'a str), y: (DefaultKey, (i32, u32, u32), &'a str)| date_lt(x, y))
            && s.pages@ == entry_keys(e)
    }))
    &&& (sort_by == SortBy::Weight ==> (r matches Some(s) ==> {
        &&& s.ignored@ == unsortable_keys(weight_view(pages))
        &&& exists|e: Seq<(DefaultKey, usize, &'a str)>|
            #[trigger] e.to_multiset() == sortable_entries(weight_view(pages)).to_multiset()
            && sorted_by(e, |x: (DefaultKey, usize, &'a str), y: (DefaultKey, usize, &'a str)| weight_lt(x, y))
            && s.pages@ == entry_keys(e)
    }))
}

/// Sorts the pages of a section by date or by weight, as the section asks, and names the
/// neighbours of each sorted page. A section that is not sorted gives `None`.
pub fn sort_section_pages<'a>(pages: &Vec<SectionPage<'a>>, sort_by: SortBy) -> (r: Option<SortedSection>)
    ensures
        r is None <==> sort_by == SortBy::Unsorted,
        r matches Some(s) ==> neighbours_of(s.pages@, s.neighbours@, sort_by),
        sort_by == SortBy::Date ==> (r matches Some(s) ==> {
            &&& s.ignored@ == unsortable_keys(date_view(pages@))
            &&& exists|e: Seq<(DefaultKey, (i32, u32, u32), &'a str)>|
                #[trigger] e.to_multiset() == sortable_entries(date_view(pages@)).to_multiset()
                && sorted_by(e, |x: (DefaultKey, (i32, u32, u32), &'a str), y: (DefaultKey, (i32, u32, u32), &'a str)| date_lt(x, y))
                && s.pages@ == entry_keys(e)
        }),
        sort_by == SortBy::Weight ==> (r matches Some(s) ==> {
            &&& s.ignored@ == unsortable_keys(weight_view(pages@))
            &&& exists|e: Seq<(DefaultKey, usize, &'a str)>|
                #[trigger] e.to_multiset() == sortable_entries(weight_view(pages@)).to_multiset()
                && sorted_by(e, |x: (DefaultKey, usize, &'a str), y: (DefaultKey, usize, &'a str)| weight_lt(x, y))
                && s.pages@ == entry_keys(e)
        }),
        section_sorted(pages@, sort_by, r),
{
    let (sorted, ignored) = match sort_by {
        SortBy::Unsorted => {
            return None;
        },
        SortBy::Date => {
            let mut data: Vec<(&'a DefaultKey, Option<(i32, u32, u32)>, &'a str)> = Vec::new();
            let mut i: usize = 0;
            while i < pages.len()
                invariant
                    i <= pages@.len(),
                    data@ == date_view(pages@.take(i as int)),
                decreases pages.len() - i,
            {
                let p = pages[i];
                data.push((p.0, p.1, p.3));
                assert(date_view(pages@.take(i + 1)) =~= date_view(pages@.take(i as int)).push((p.0, p.1, p.3)));
                i += 1;
            }
            assert(pages@.take(pages@.len() as int) =~= pages@);
            sort_pages_by_date(data)
        },
        SortBy::Weight => {
            let mut data: Vec<(&'a DefaultKey, Option<usize>, &'a str)> = Vec::new();
            let mut i: usize = 0;
            while i < pages.len()
                invariant
                    i <= pages@.len(),
                    data@ == weight_view(pages@.take(i as int)),
                decreases pages.len() - i,
            {
                let p = pages[i];
                data.push((p.0, p.2, p.3));
                assert(weight_view(pages@.take(i + 1)) =~= weight_view(pages@.take(i as int)).push((p.0, p.2, p.3)));
                i += 1;
            }
            assert(pages@.take(pages@.len() as int) =~= pages@);
            sort_pages_by_weight(data)
        },
    };
    let siblings = find_siblings(sorted.as_slice());
    let mut neighbours: Vec<Neighbours> = Vec::new();
    let mut i: usize = 0;
    while i < siblings.len()
        invariant
            i <= siblings@.len(),
            siblings@.len() == sorted@.len(),
            sort_by != SortBy::Unsorted,
            neighbours@.len() == i,
            forall|k: int| 0 <= k < sorted@.len() ==> {
                &&& (#[trigger] siblings@[k]).0 == sorted@[k]
                &&& siblings@[k].1 == (if k > 0 { Some(sorted@[k - 1]) } else { None })
                &&& siblings@[k].2 == (if k + 1 < sorted@.len() { Some(sorted@[k + 1]) } else { None })
            },
            forall|k: int| 0 <= k < i ==> {
                let prev = if k > 0 { Some(sorted@[k - 1]) } else { None };
                let next = if k + 1 < sorted@.len() { Some(sorted@[k + 1]) } else { None };
                &&& (#[trigger] neighbours@[k]).key == sorted@[k]
                &&& sort_by == SortBy::Date ==> neighbours@[k].earlier == next && neighbours@[k].later == prev
                    && neighbours@[k].lighter is None && neighbours@[k].heavier is None
                &&& sort_by == SortBy::Weight ==> neighbours@[k].lighter == prev && neighbours@[k].heavier == next
                    && neighbours@[k].earlier is None && neighbours@[k].later is None
            },
        decreases siblings.len() - i,
    {
        let (key, before, after) = siblings[i];
        let n = match sort_by {
            SortBy::Date => Neighbours { key, earlier: after, later: before, lighter: None, heavier: None },
            _ => Neighbours { key, earlier: None, later: None, lighter: before, heavier: after },
        };
        neighbours.push(n);
        i += 1;
    }
    Some(SortedSection { pages: sorted, ignored, neighbours })
}

/// Sorts the pages of every section (see `sort_section_pages`): for the section at each
/// position, its pages `pages[i]` sorted as `sort_by[i]` asks.
pub fn sort_sections_pages<'a>(pages: &Vec<Vec<SectionPage<'a>>>, sort_by: &Vec<SortBy>) -> (r: Vec<Option<SortedSection>>)
    requires
        pages@.len() == sort_by@.len(),
    ensures
        r@.len() == pages@.len(),
        forall|i: int| 0 <= i < pages@.len() ==> section_sorted(pages@[i]@, sort_by@[i], #[trigger] r@[i]),
{
    let mut r: Vec<Option<SortedSection>> = Vec::new();
    let mut i: usize = 0;
    while i < pages.len()
        invariant
            i <= pages@.len(),
            pages@.len() == sort_by@.len(),
            r@.len() == i,
            forall|t: int| 0 <= t < i ==> section_sorted(pages@[t]@, sort_by@[t], #[trigger] r@[t]),
        decreases pages.len() - i,
    {
        let sorted = sort_section_pages(&pages[i], sort_by[i]);
        r.push(sorted);
        i += 1;
    }
    r
}

} // verus!
