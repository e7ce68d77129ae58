//! Ordering the pages of a section or taxonomy term by the field the section asks for.
use core::cmp::Ordering;
use rayon::slice::ParallelSliceMut;
use vstd::prelude::*;

use crate::sorting::{
    compare_strs, digits_fit, lemma_lex_order, lex_lt, lexical_digits_fit, natural_lexical_compare,
    natural_lexical_order, sorted_by, unfit_count,
};

verus! {

/// The field pages are ordered by.
#[derive(Debug, Copy, Clone, PartialEq, Eq, Structural)]
pub enum SortBy {
    /// Most recent to oldest
    Date,
    /// Most recent to oldest, by the later of the date and the update date
    UpdateDate,
    /// Sort by title lexicographically
    Title,
    /// Sort by titles using the bytes directly
    TitleBytes,
    /// Lower weight comes first
    Weight,
    /// Sort by slug
    Slug,
    /// No sorting
    Unsorted,
}

/// What ordering reads of a page. Dates are instants, in nanoseconds since the Unix epoch.
#[derive(Debug, Copy, Clone, PartialEq, Eq)]
pub struct SortablePage<'a> {
    /// The path of the page's file
    pub path: &'a str,
    pub permalink: &'a str,
    pub slug: &'a str,
    pub title: Option<&'a str>,
    pub weight: Option<usize>,
    pub datetime: Option<i128>,
    pub updated_datetime: Option<i128>,
}

/// A page as it is ordered: (file path, number, text, permalink). The number is the date or
/// the weight, the text the title or the slug, whichever the order reads.
pub type SortEntry<'a> = (&'a str, i128, &'a str, &'a str);

/// Whether the page has the field that `sort_by` reads.
pub open spec fn can_sort(p: SortablePage, sort_by: SortBy) -> bool {
    match sort_by {
        SortBy::Date => p.datetime is Some,
        SortBy::UpdateDate => p.datetime is Some || p.updated_datetime is Some,
        SortBy::Title | SortBy::TitleBytes => p.title is Some,
        SortBy::Weight => p.weight is Some,
        SortBy::Slug => true,
        SortBy::Unsorted => false,
    }
}

/// The later of two optional instants, `None` being earliest.
pub open spec fn later(a: Option<i128>, b: Option<i128>) -> Option<i128> {
    match (a, b) {
        (Some(x), Some(y)) => Some(if x < y { y } else { x }),
        (Some(x), None) => Some(x),
        (None, y) => y,
    }
}

/// The number a page is ordered by.
pub open spec fn sort_number(p: SortablePage, sort_by: SortBy) -> i128 {
    match sort_by {
        SortBy::Date => p.datetime.unwrap(),
        SortBy::UpdateDate => later(p.datetime, p.updated_datetime).unwrap(),
        SortBy::Weight => p.weight.unwrap() as i128,
        _ => 0,
    }
}

/// The text a page is ordered by.
pub open spec fn sort_text<'a>(p: SortablePage<'a>, sort_by: SortBy) -> &'a str {
    match sort_by {
        SortBy::Title | SortBy::TitleBytes => p.title.unwrap(),
        SortBy::Slug => p.slug,
        _ => "",
    }
}

/// The entry of a page that can be ordered.
pub open spec fn sort_entry<'a>(p: SortablePage<'a>, sort_by: SortBy) -> SortEntry<'a> {
    (p.path, sort_number(p, sort_by), sort_text(p, sort_by), p.permalink)
}

/// The entries of the pages that have the field, in their order.
pub open spec fn sortable_entries<'a>(pages: Seq<SortablePage<'a>>, sort_by: SortBy) -> Seq<SortEntry<'a>>
    decreases pages.len(),
{
    if pages.len() == 0 {
        Seq::empty()
    } else {
        let rest = sortable_entries(pages.drop_last(), sort_by);
        if can_sort(pages.last(), sort_by) {
            rest.push(sort_entry(pages.last(), sort_by))
        } else {
            rest
        }
    }
}

/// The file paths of the pages that lack the field, in their order.
pub open spec fn unsortable_paths(pages: Seq<SortablePage>, sort_by: SortBy) -> Seq<Seq<char>>
    decreases pages.len(),
{
    if pages.len() == 0 {
        Seq::empty()
    } else {
        let rest = unsortable_paths(pages.drop_last(), sort_by);
        if can_sort(pages.last(), sort_by) {
            rest
        } else {
            rest.push(pages.last().path@)
        }
    }
}

/// Whether the order of `sort_by` compares numbers or the characters of texts, which are total
/// orders; titles and slugs compare in natural lexical order.
pub open spec fn is_exact_order(sort_by: SortBy) -> bool {
    sort_by is Date || sort_by is UpdateDate || sort_by is Weight || sort_by is TitleBytes
}

/// Whether entry `a` comes strictly before `b`: dates most recent first, weights lightest
/// first, titles by their characters, titles and slugs in natural lexical order; the permalink
/// breaks ties.
pub open spec fn entry_lt<'a>(sort_by: SortBy, a: SortEntry<'a>, b: SortEntry<'a>) -> bool {
    match sort_by {
        SortBy::Date | SortBy::UpdateDate => b.1 < a.1 || (a.1 == b.1 && lex_lt(a.3@, b.3@)),
        SortBy::Weight => a.1 < b.1 || (a.1 == b.1 && lex_lt(a.3@, b.3@)),
        SortBy::TitleBytes => lex_lt(a.2@, b.2@) || (a.2@ == b.2@ && lex_lt(a.3@, b.3@)),
        SortBy::Title | SortBy::Slug => natural_entry_order(a, b) == Ordering::Less,
        SortBy::Unsorted => false,
    }
}

/// The order of two entries for titles and slugs: natural lexical order of the texts, then
/// the permalinks.
pub open spec fn natural_entry_order<'a>(a: SortEntry<'a>, b: SortEntry<'a>) -> Ordering {
    match natural_lexical_order(a.2@, b.2@) {
        Ordering::Equal => if lex_lt(a.3@, b.3@) {
            Ordering::Less
        } else if lex_lt(b.3@, a.3@) {
            Ordering::Greater
        } else {
            Ordering::Equal
        },
        o => o,
    }
}

/// Compares two entries in the order of `sort_by`.
pub(crate) fn compare_entries<'a>(sort_by: SortBy, a: &SortEntry<'a>, b: &SortEntry<'a>) -> (r: Ordering)
    requires
        sort_by is Title || sort_by is Slug || sort_by is Unsorted ==> lexical_digits_fit(a.2@) || lexical_digits_fit(b.2@),
    ensures
        is_exact_order(sort_by) ==> (r == Ordering::Less <==> entry_lt(sort_by, *a, *b)),
        is_exact_order(sort_by) ==> (r == Ordering::Greater <==> entry_lt(sort_by, *b, *a)),
        !is_exact_order(sort_by) ==> r == natural_entry_order(*a, *b),
{
    proof {
        lemma_lex_order(a.3@, b.3@, b.3@);
        lemma_lex_order(a.2@, b.2@, b.2@);
    }
    let ord = match sort_by {
        SortBy::Date | SortBy::UpdateDate => {
            if b.1 < a.1 { Ordering::Less } else if a.1 < b.1 { Ordering::Greater } else { Ordering::Equal }
        },
        SortBy::Weight => {
            if a.1 < b.1 { Ordering::Less } else if b.1 < a.1 { Ordering::Greater } else { Ordering::Equal }
        },
        SortBy::TitleBytes => compare_strs(a.2, b.2),
        _ => natural_lexical_compare(a.2, b.2),
    };
    match ord {
        Ordering::Equal => compare_strs(a.3, b.3),
        o => o,
    }
}

/// The texts of entries, in their order.
pub open spec fn entry_texts<'a>(v: Seq<SortEntry<'a>>) -> Seq<Seq<char>> {
    v.map_values(|e: SortEntry<'a>| e.2@)
}

/// Whether every two texts of `v` that the order reads as natural lexical text can be compared
/// by lexical-sort: at most one of them holds a run of twenty digits or more.
pub open spec fn texts_comparable<'a>(v: Seq<SortEntry<'a>>, sort_by: SortBy) -> bool {
    sort_by is Title || sort_by is Slug || sort_by is Unsorted ==> unfit_count(entry_texts(v)) <= 1
}

/// Sorts entries with `rayon`'s parallel unstable sort, comparing with `compare_entries`; it
/// only reorders them. The comparator is a total order (for titles and slugs, lexical-sort
/// documents `natural_lexical_cmp` as one, and permalinks break its ties), for which
/// `par_sort_unstable_by` leaves the elements sorted. The sort compares entries at two
/// different places of the slice, so with at most one text whose numbers do not fit, every
/// natural lexical comparison has a text that fits.
#[verifier::external_body]
fn par_sort_entries<'a>(v: &mut Vec<SortEntry<'a>>, sort_by: SortBy)
    requires
        texts_comparable(old(v)@, sort_by),
    ensures
        final(v)@.to_multiset() == old(v)@.to_multiset(),
        sorted_by(final(v)@, |x: SortEntry<'a>, y: SortEntry<'a>| entry_lt(sort_by, x, y)),
{
    v.par_sort_unstable_by(|a, b| compare_entries(sort_by, a, b));
}

/// The later of two optional instants.
fn later_exec(a: Option<i128>, b: Option<i128>) -> (r: Option<i128>)
    ensures
        r == later(a, b),
{
    match (a, b) {
        (Some(x), Some(y)) => Some(if x < y { y } else { x }),
        (Some(x), None) => Some(x),
        (None, y) => y,
    }
}

/// Sort by the field picked by `sort_by`. The pages permalinks are used to break the ties.
/// Returns the file paths of the pages in order, and those of the pages without the field,
/// in their original order.
pub fn sort_pages<'a>(pages: &[SortablePage<'a>], sort_by: SortBy) -> (r: (Vec<String>, Vec<String>))
    requires
        sort_by != SortBy::Unsorted,
        texts_comparable(sortable_entries(pages@, sort_by), sort_by),
    ensures
        r.1@.map_values(|s: String| s@) == unsortable_paths(pages@, sort_by),
        exists|s: Seq<SortEntry<'a>>|
            #[trigger] s.to_multiset() == sortable_entries(pages@, sort_by).to_multiset()
            && sorted_by(s, |x: SortEntry<'a>, y: SortEntry<'a>| entry_lt(sort_by, x, y))
            && r.0@.map_values(|s: String| s@) == s.map_values(|e: SortEntry<'a>| e.0@),
{
    let (mut can, cannot) = collect_entries(pages, sort_by);
    let ghost unsorted = can@;
    par_sort_entries(&mut can, sort_by);
    let mut sorted: Vec<String> = Vec::new();
    let mut j: usize = 0;
    while j < can.len()
        invariant
            j <= can@.len(),
            sorted@.map_values(|s: String| s@) == can@.take(j as int).map_values(|e: SortEntry<'a>| e.0@),
        decreases can.len() - j,
    {
        let ghost before = sorted@;
        sorted.push(String::from_str(can[j].0));
        assert(sorted@.map_values(|s: String| s@) =~= before.map_values(|s: String| s@).push(can@[j as int].0@));
        assert(can@.take(j + 1).map_values(|e: SortEntry<'a>| e.0@) =~= can@.take(j as int).map_values(|e: SortEntry<'a>| e.0@).push(can@[j as int].0@));
        j += 1;
    }
    assert(can@.take(can@.len() as int) =~= can@);
    assert(can@.to_multiset() == sortable_entries(pages@, sort_by).to_multiset());
    (sorted, cannot)
}

/// The entries of the pages that have the field `sort_by` reads, and the file paths of the
/// others, both in their order.
fn collect_entries<'a>(pages: &[SortablePage<'a>], sort_by: SortBy) -> (r: (Vec<SortEntry<'a>>, Vec<String>))
    requires
        sort_by != SortBy::Unsorted,
    ensures
        r.0@ == sortable_entries(pages@, sort_by),
        r.1@.map_values(|s: String| s@) == unsortable_paths(pages@, sort_by),
{
    let mut can: Vec<SortEntry<'a>> = Vec::new();
    let mut cannot: Vec<String> = Vec::new();
    let mut i: usize = 0;
    while i < pages.len()
        invariant
            sort_by != SortBy::Unsorted,
            i <= pages@.len(),
            can@ == sortable_entries(pages@.take(i as int), sort_by),
            cannot@.map_values(|s: String| s@) == unsortable_paths(pages@.take(i as int), sort_by),
        decreases pages.len() - i,
    {
        let p = pages[i];
        proof {
            assert(pages@.take(i + 1).drop_last() =~= pages@.take(i as int));
            assert(pages@.take(i + 1).last() == p);
        }
        let entry: Option<SortEntry<'a>> = match sort_by {
            SortBy::Date => match p.datetime {
                Some(d) => Some((p.path, d, "", p.permalink)),
                None => None,
            },
            SortBy::UpdateDate => match later_exec(p.datetime, p.updated_datetime) {
                Some(d) => Some((p.path, d, "", p.permalink)),
                None => None,
            },
            SortBy::Title | SortBy::TitleBytes => match p.title {
                Some(t) => Some((p.path, 0, t, p.permalink)),
                None => None,
            },
            SortBy::Weight => match p.weight {
                Some(w) => Some((p.path, w as i128, "", p.permalink)),
                None => None,
            },
            _ => Some((p.path, 0, p.slug, p.permalink)),
        };
        match entry {
            Some(e) => {
                assert(can_sort(p, sort_by));
                assert(e == sort_entry(p, sort_by));
                can.push(e);
            },
            None => {
                let ghost before = cannot@;
                cannot.push(String::from_str(p.path));
                assert(cannot@.map_values(|s: String| s@) =~= before.map_values(|s: String| s@).push(p.path@));
            },
        }
        i += 1;
    }
    assert(pages@.take(pages@.len() as int) =~= pages@);
    (can, cannot)
}

/// How many texts of `v` lexical-sort cannot read every number of.
fn count_unfit_texts<'a>(v: &Vec<SortEntry<'a>>) -> (n: usize)
    ensures
        n == unfit_count(entry_texts(v@)),
{
    let mut n: usize = 0;
    let mut i: usize = 0;
    while i < v.len()
        invariant
            i <= v@.len(),
            n == unfit_count(entry_texts(v@.take(i as int))),
            n <= i,
        decreases v.len() - i,
    {
        assert(entry_texts(v@.take(i + 1)).drop_last() =~= entry_texts(v@.take(i as int)));
        assert(entry_texts(v@.take(i + 1)).last() == v@[i as int].2@);
        if !digits_fit(v[i].2) {
            n = n + 1;
        }
        i += 1;
    }
    assert(v@.take(v@.len() as int) =~= v@);
    n
}

/// `sort_pages`, or `None` where, sorting by title or slug, two of the texts hold a run of
/// twenty digits or more, on which lexical-sort could overflow reading the numbers.
pub fn try_sort_pages<'a>(pages: &[SortablePage<'a>], sort_by: SortBy) -> (r: Option<(Vec<String>, Vec<String>)>)
    requires
        sort_by != SortBy::Unsorted,
    ensures
        r is Some <==> texts_comparable(sortable_entries(pages@, sort_by), sort_by),
        r matches Some(r) ==> {
            &&& r.1@.map_values(|s: String| s@) == unsortable_paths(pages@, sort_by)
            &&& exists|s: Seq<SortEntry<'a>>|
                #[trigger] s.to_multiset() == sortable_entries(pages@, sort_by).to_multiset()
                && sorted_by(s, |x: SortEntry<'a>, y: SortEntry<'a>| entry_lt(sort_by, x, y))
                && r.0@.map_values(|s: String| s@) == s.map_values(|e: SortEntry<'a>| e.0@)
        },
{
    if sort_by == SortBy::Title || sort_by == SortBy::Slug {
        let (can, _) = collect_entries(pages, sort_by);
        if count_unfit_texts(&can) > 1 {
            return None;
        }
    }
    Some(sort_pages(pages, sort_by))
}

/// Pages sorted by date or update date come newest first, by weight lightest first, and by
/// title bytes in the order of their characters: in a sequence sorted by `entry_lt`, no entry
/// comes after one that the field puts after it.
pub proof fn lemma_sorted_entries_by_field<'a>(sort_by: SortBy, s: Seq<SortEntry<'a>>, i: int, j: int)
    requires
        sorted_by(s, |x: SortEntry<'a>, y: SortEntry<'a>| entry_lt(sort_by, x, y)),
        0 <= i < j < s.len(),
    ensures
        sort_by is Date || sort_by is UpdateDate ==> s[i].1 >= s[j].1,
        sort_by is Weight ==> s[i].1 <= s[j].1,
        sort_by is TitleBytes ==> !lex_lt(s[j].2@, s[i].2@),
{
    assert(!entry_lt(sort_by, s[j], s[i]));
}

} // verus!
