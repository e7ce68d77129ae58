//! Placing sections in the tree of the site: the ancestors of each section and the
//! subsections of each, ordered by weight.
use vstd::prelude::*;

use crate::content::sorting::{
    entry_lt, sortable_entries, texts_comparable, try_sort_pages, unsortable_paths, SortBy, SortEntry,
    SortablePage,
};
use crate::paths::{opt_view, path_join, path_parent, spec_path_join, spec_path_parent};
use crate::sorting::{lemma_sorted_unique, sorted_by};
use crate::text::{contains_str, str_eq, strings_view};

verus! {

/// What placing reads of a section.
#[derive(Debug)]
pub struct SectionEntry {
    /// The path of the section's file
    pub path: String,
    /// The path of the section's file from the content folder
    pub relative: String,
    /// The file name of the section's file, with its language
    pub filename: String,
    /// The folder of the section's file
    pub parent: String,
    /// The folder above that one, if there is one
    pub grand_parent: Option<String>,
    /// The folders from the content folder to the section's file
    pub components: Vec<String>,
    /// The weight of the section, by which subsections are ordered
    pub weight: usize,
    /// Whether the pages of the section also belong to the section above it
    pub transparent: bool,
    /// The template that the pages below the section use, where they name none
    pub page_template: Option<String>,
}

/// The first section whose file is at `p`.
pub open spec fn section_at(secs: Seq<SectionEntry>, p: Seq<char>) -> Option<int>
    decreases secs.len(),
{
    if secs.len() == 0 {
        None
    } else if secs[0].path@ == p {
        Some(0)
    } else {
        match section_at(secs.drop_first(), p) {
            Some(i) => Some(i + 1),
            None => None,
        }
    }
}

/// The relative paths of the sections found on the way from the folder `cur` down the folders
/// `comps`: at each folder but `own`, that of the section whose file is that folder joined with
/// `filename`, where there is one.
pub open spec fn parents_from(
    secs: Seq<SectionEntry>,
    cur: Seq<char>,
    comps: Seq<Seq<char>>,
    own: Seq<char>,
    filename: Seq<char>,
) -> Seq<Seq<char>>
    decreases comps.len(),
{
    if comps.len() == 0 {
        Seq::empty()
    } else {
        let p = spec_path_join(cur, comps[0]);
        let rest = parents_from(secs, p, comps.drop_first(), own, filename);
        if p == own {
            rest
        } else {
            match section_at(secs, spec_path_join(p, filename)) {
                Some(i) => seq![secs[i].relative@] + rest,
                None => rest,
            }
        }
    }
}

/// The ancestors of a section: none for an index section (one with no folder between it and
/// the content folder); else the file name of the index section of its language, then the
/// relative paths of the sections of the folders on the way to it from the content folder.
pub open spec fn spec_section_ancestors(secs: Seq<SectionEntry>, content: Seq<char>, s: SectionEntry) -> Seq<Seq<char>> {
    if s.components@.len() == 0 {
        Seq::empty()
    } else {
        seq![s.filename@] + parents_from(secs, content, strings_view(s.components@), s.parent@, s.filename@)
    }
}

/// The first section whose file is at `p`.
pub fn find_section(secs: &Vec<SectionEntry>, p: &str) -> (r: Option<usize>)
    ensures
        match r {
            Some(k) => section_at(secs@, p@) == Some(k as int) && k < secs@.len(),
            None => section_at(secs@, p@) is None,
        },
{
    let mut i: usize = 0;
    assert(secs@.skip(0) =~= secs@);
    while i < secs.len()
        invariant
            i <= secs@.len(),
            section_at(secs@, p@) == (match section_at(secs@.skip(i as int), p@) {
                Some(j) => Some(j + i),
                None => None,
            }),
        decreases secs.len() - i,
    {
        assert(secs@.skip(i as int).drop_first() =~= secs@.skip(i + 1));
        if str_eq(secs[i].path.as_str(), p) {
            return Some(i);
        }
        i += 1;
    }
    assert(secs@.skip(i as int) =~= Seq::<SectionEntry>::empty());
    None
}

/// The ancestors of the section `s` among `secs`, as relative paths from the index section
/// down, the folder of the content being `content` (see `spec_section_ancestors`).
pub fn section_ancestors(secs: &Vec<SectionEntry>, content: &str, s: &SectionEntry) -> (r: Vec<String>)
    ensures
        strings_view(r@) == spec_section_ancestors(secs@, content@, *s),
{
    let mut r: Vec<String> = Vec::new();
    if s.components.len() == 0 {
        assert(strings_view(r@) =~= Seq::<Seq<char>>::empty());
        return r;
    }
    r.push(s.filename.clone());
    let ghost comps = strings_view(s.components@);
    let mut cur = String::from_str(content);
    let mut i: usize = 0;
    assert(comps.skip(0) =~= comps);
    assert(strings_view(r@) =~= seq![s.filename@]);
    while i < s.components.len()
        invariant
            comps == strings_view(s.components@),
            i <= s.components@.len(),
            seq![s.filename@] + parents_from(secs@, content@, comps, s.parent@, s.filename@)
                == strings_view(r@) + parents_from(secs@, cur@, comps.skip(i as int), s.parent@, s.filename@),
        decreases s.components.len() - i,
    {
        let ghost before = strings_view(r@);
        let ghost rest = comps.skip(i as int);
        let ghost tail = comps.skip(i + 1);
        assert(rest[0] == s.components@[i as int]@);
        assert(rest.drop_first() =~= tail);
        let next = path_join(cur.as_str(), s.components[i].as_str());
        let ghost later = parents_from(secs@, next@, tail, s.parent@, s.filename@);
        assert(parents_from(secs@, cur@, rest, s.parent@, s.filename@) == (if next@ == s.parent@ {
            later
        } else {
            match section_at(secs@, spec_path_join(next@, s.filename@)) {
                Some(j) => seq![secs@[j].relative@] + later,
                None => later,
            }
        }));
        if !str_eq(next.as_str(), s.parent.as_str()) {
            let index_file = path_join(next.as_str(), s.filename.as_str());
            match find_section(secs, index_file.as_str()) {
                Some(k) => {
                    assert(section_at(secs@, index_file@) == Some(k as int));
                    assert(parents_from(secs@, cur@, rest, s.parent@, s.filename@)
                        == seq![secs@[k as int].relative@] + later);
                    r.push(secs[k].relative.clone());
                    assert(strings_view(r@) =~= before.push(secs@[k as int].relative@));
                    assert(before + (seq![secs@[k as int].relative@] + later)
                        =~= strings_view(r@) + later);
                    assert(before + parents_from(secs@, cur@, rest, s.parent@, s.filename@) == strings_view(r@) + later);
                },
                None => {
                    assert(before + parents_from(secs@, cur@, rest, s.parent@, s.filename@) == strings_view(r@) + later);
                },
            }
        }
        assert(before + parents_from(secs@, cur@, rest, s.parent@, s.filename@) == strings_view(r@) + later);
        cur = next;
        i += 1;
    }
    assert(comps.skip(i as int) =~= Seq::<Seq<char>>::empty());
    assert(strings_view(r@) + Seq::<Seq<char>>::empty() =~= strings_view(r@));
    r
}

/// Whether the section `t` is a direct subsection of the section whose file is at `path`: the
/// index file of its language in the folder above its own is that file.
pub open spec fn is_child_of(t: SectionEntry, path: Seq<char>) -> bool {
    match t.grand_parent {
        Some(gp) => spec_path_join(gp@, t.filename@) == path,
        None => false,
    }
}

/// The positions in `secs` of the direct subsections of the section whose file is at `path`.
pub open spec fn child_indices(secs: Seq<SectionEntry>, path: Seq<char>) -> Seq<usize>
    decreases secs.len(),
{
    if secs.len() == 0 {
        Seq::empty()
    } else {
        let rest = child_indices(secs.drop_last(), path);
        if is_child_of(secs.last(), path) {
            rest.push((secs.len() - 1) as usize)
        } else {
            rest
        }
    }
}

/// Whether the sections at the positions `order` come lightest first.
pub open spec fn by_weight(secs: Seq<SectionEntry>, order: Seq<usize>) -> bool {
    forall|i: int, j: int|
        0 <= i < j < order.len() ==> #[trigger] secs[order[i] as int].weight <= #[trigger] secs[order[j] as int].weight
}

/// Whether every position in `order` is one of `secs`.
pub open spec fn in_bounds(secs: Seq<SectionEntry>, order: Seq<usize>) -> bool {
    forall|i: int| 0 <= i < order.len() ==> #[trigger] order[i] < secs.len()
}

/// The paths of the sections at the positions `order`.
pub open spec fn paths_at(secs: Seq<SectionEntry>, order: Seq<usize>) -> Seq<Seq<char>> {
    order.map_values(|k: usize| secs[k as int].path@)
}

/// The positions of the direct subsections of the section whose file is at `path`.
fn children_of(secs: &Vec<SectionEntry>, path: &str) -> (r: Vec<usize>)
    ensures
        r@ == child_indices(secs@, path@),
        in_bounds(secs@, r@),
{
    let mut r: Vec<usize> = Vec::new();
    let mut i: usize = 0;
    while i < secs.len()
        invariant
            i <= secs@.len(),
            r@ == child_indices(secs@.take(i as int), path@),
            in_bounds(secs@, r@),
        decreases secs.len() - i,
    {
        proof {
            assert(secs@.take(i + 1).drop_last() =~= secs@.take(i as int));
            assert(secs@.take(i + 1).last() == secs@[i as int]);
        }
        let child = match &secs[i].grand_parent {
            Some(gp) => {
                let index_file = path_join(gp.as_str(), secs[i].filename.as_str());
                str_eq(index_file.as_str(), path)
            },
            None => false,
        };
        if child {
            r.push(i);
        }
        i += 1;
    }
    assert(secs@.take(secs@.len() as int) =~= secs@);
    r
}

/// Whether the positions `s` rise strictly.
pub open spec fn increasing(s: Seq<usize>) -> bool {
    forall|a: int, b: int| 0 <= a < b < s.len() ==> #[trigger] s[a] < #[trigger] s[b]
}

/// Whether the sections of the same weight at the positions `order` keep the order of their
/// positions, as a stable sort of rising positions leaves them.
pub open spec fn stable_by_weight(secs: Seq<SectionEntry>, order: Seq<usize>) -> bool {
    forall|a: int, b: int| 0 <= a < b < order.len()
        && #[trigger] secs[order[a] as int].weight == #[trigger] secs[order[b] as int].weight
        ==> order[a] < order[b]
}

/// The positions of the direct subsections rise, and each is one of the sections.
proof fn lemma_child_indices(secs: Seq<SectionEntry>, path: Seq<char>)
    requires
        secs.len() <= usize::MAX,
    ensures
        increasing(child_indices(secs, path)),
        forall|a: int| 0 <= a < child_indices(secs, path).len() ==> #[trigger] child_indices(secs, path)[a] < secs.len(),
    decreases secs.len(),
{
    if secs.len() > 0 {
        lemma_child_indices(secs.drop_last(), path);
        let rest = child_indices(secs.drop_last(), path);
        if is_child_of(secs.last(), path) {
            let r = rest.push((secs.len() - 1) as usize);
            assert(r.last() == secs.len() - 1);
            assert forall|a: int, b: int| 0 <= a < b < r.len() implies #[trigger] r[a] < #[trigger] r[b] by {
                if b < rest.len() {
                    assert(r[a] == rest[a] && r[b] == rest[b]);
                } else {
                    assert(r[a] == rest[a]);
                }
            }
        }
    }
}

/// Orders the positions `idx` by the weight of their sections, lightest first; sections of the
/// same weight keep their order.
fn sort_by_weight(secs: &Vec<SectionEntry>, idx: Vec<usize>) -> (r: Vec<usize>)
    requires
        in_bounds(secs@, idx@),
        increasing(idx@),
    ensures
        r@.to_multiset() == idx@.to_multiset(),
        by_weight(secs@, r@),
        stable_by_weight(secs@, r@),
        in_bounds(secs@, r@),
{
    broadcast use vstd::seq_lib::group_to_multiset_ensures;
    let mut out: Vec<usize> = Vec::new();
    let mut i: usize = 0;
    while i < idx.len()
        invariant
            i <= idx@.len(),
            in_bounds(secs@, idx@),
            increasing(idx@),
            out@.to_multiset() == idx@.take(i as int).to_multiset(),
            by_weight(secs@, out@),
            stable_by_weight(secs@, out@),
            in_bounds(secs@, out@),
            forall|j: int, k: int| 0 <= j < out@.len() && i <= k < idx@.len() ==> #[trigger] out@[j] < #[trigger] idx@[k],
        decreases idx.len() - i,
    {
        let x = idx[i];
        let w = secs[x].weight;
        let mut pos: usize = 0;
        while pos < out.len() && secs[out[pos]].weight <= w
            invariant
                pos <= out@.len(),
                in_bounds(secs@, out@),
                x < secs@.len(),
                w == secs@[x as int].weight,
                forall|j: int| 0 <= j < pos ==> #[trigger] secs@[out@[j] as int].weight <= w,
            decreases out.len() - pos,
        {
            pos += 1;
        }
        let ghost before = out@;
        proof {
            if pos < before.len() {
                assert(secs@[before[pos as int] as int].weight > w);
            }
            vstd::seq_lib::to_multiset_insert(before, pos as int, x);
            assert(idx@.take(i + 1) =~= idx@.take(i as int).push(x));
            vstd::seq_lib::to_multiset_build(idx@.take(i as int), x);
        }
        out.insert(pos, x);
        assert(out@ =~= before.insert(pos as int, x));
        assert forall|a: int, b: int| 0 <= a < b < out@.len() implies
            #[trigger] secs@[out@[a] as int].weight <= #[trigger] secs@[out@[b] as int].weight by {
            if b < pos {
            } else if b == pos {
            } else if a < pos {
                assert(secs@[before[a] as int].weight <= w);
            } else if a == pos {
                assert(secs@[before[pos as int] as int].weight <= secs@[before[b - 1] as int].weight);
            } else {
                assert(secs@[before[a - 1] as int].weight <= secs@[before[b - 1] as int].weight);
            }
        }
        assert forall|a: int, b: int| 0 <= a < b < out@.len()
            && #[trigger] secs@[out@[a] as int].weight == #[trigger] secs@[out@[b] as int].weight
            implies out@[a] < out@[b] by {
            if b < pos {
                assert(out@[a] == before[a] && out@[b] == before[b]);
            } else if b == pos {
                assert(out@[a] == before[a] && before[a] < idx@[i as int]);
            } else if a < pos {
                assert(out@[a] == before[a] && out@[b] == before[b - 1]);
            } else if a == pos {
                assert(out@[b] == before[b - 1]);
                assert(secs@[before[pos as int] as int].weight <= secs@[before[b - 1] as int].weight);
            } else {
                assert(out@[a] == before[a - 1] && out@[b] == before[b - 1]);
            }
        }
        assert forall|j: int, k: int| 0 <= j < out@.len() && i + 1 <= k < idx@.len() implies #[trigger] out@[j] < #[trigger] idx@[k] by {
            assert(idx@[i as int] < idx@[k]);
            if j < pos {
                assert(out@[j] == before[j]);
            } else if j > pos {
                assert(out@[j] == before[j - 1]);
            }
        }
        i += 1;
    }
    assert(idx@.take(idx@.len() as int) =~= idx@);
    out
}

/// The paths of the sections at the positions `order`.
fn paths_of(secs: &Vec<SectionEntry>, order: &Vec<usize>) -> (r: Vec<String>)
    requires
        in_bounds(secs@, order@),
    ensures
        strings_view(r@) == paths_at(secs@, order@),
{
    let mut r: Vec<String> = Vec::new();
    let mut i: usize = 0;
    while i < order.len()
        invariant
            i <= order@.len(),
            in_bounds(secs@, order@),
            strings_view(r@) == paths_at(secs@, order@.take(i as int)),
        decreases order.len() - i,
    {
        let ghost prev = strings_view(r@);
        let k = order[i];
        r.push(secs[k].path.clone());
        assert(strings_view(r@) =~= prev.push(secs@[k as int].path@));
        assert(order@.take(i + 1) =~= order@.take(i as int).push(k));
        assert(paths_at(secs@, order@.take(i + 1)) =~= paths_at(secs@, order@.take(i as int)).push(secs@[k as int].path@));
        i += 1;
    }
    assert(order@.take(order@.len() as int) =~= order@);
    r
}

/// The paths of the direct subsections of the section whose file is at `path`, lightest first.
pub fn section_subsections(secs: &Vec<SectionEntry>, path: &str) -> (r: Vec<String>)
    ensures
        exists|order: Seq<usize>|
            #[trigger] order.to_multiset() == child_indices(secs@, path@).to_multiset()
            && by_weight(secs@, order)
            && stable_by_weight(secs@, order)
            && in_bounds(secs@, order)
            && strings_view(r@) == paths_at(secs@, order),
{
    let idx = children_of(secs, path);
    let n = secs.len();
    proof {
        lemma_child_indices(secs@, path@);
    }
    assert(idx@ == child_indices(secs@, path@));
    let order = sort_by_weight(secs, idx);
    let r = paths_of(secs, &order);
    assert(order@.to_multiset() == child_indices(secs@, path@).to_multiset());
    r
}

/// Where a section goes in the tree of the site.
#[derive(Debug)]
pub struct SectionPlace {
    /// The ancestors of the section, as relative paths from the index section down
    pub ancestors: Vec<String>,
    /// The paths of its direct subsections, lightest first
    pub subsections: Vec<String>,
}

/// Whether `place` is where the section `s` goes among `secs`, the folder of the content being
/// `content`.
pub open spec fn placed(secs: Seq<SectionEntry>, content: Seq<char>, s: SectionEntry, place: SectionPlace) -> bool {
    &&& strings_view(place.ancestors@) == spec_section_ancestors(secs, content, s)
    &&& exists|order: Seq<usize>|
        #[trigger] order.to_multiset() == child_indices(secs, s.path@).to_multiset()
        && by_weight(secs, order)
        && stable_by_weight(secs, order)
        && in_bounds(secs, order)
        && strings_view(place.subsections@) == paths_at(secs, order)
}

/// Places every section: its ancestors and its direct subsections, in the order of `secs`.
pub fn populate_sections(secs: &Vec<SectionEntry>, content: &str) -> (r: Vec<SectionPlace>)
    ensures
        r@.len() == secs@.len(),
        forall|i: int| 0 <= i < secs@.len() ==> placed(secs@, content@, secs@[i], #[trigger] r@[i]),
{
    let mut r: Vec<SectionPlace> = Vec::new();
    let mut i: usize = 0;
    while i < secs.len()
        invariant
            i <= secs@.len(),
            r@.len() == i,
            forall|j: int| 0 <= j < i ==> placed(secs@, content@, secs@[j], #[trigger] r@[j]),
        decreases secs.len() - i,
    {
        let ancestors = section_ancestors(secs, content, &secs[i]);
        let subsections = section_subsections(secs, secs[i].path.as_str());
        r.push(SectionPlace { ancestors, subsections });
        i += 1;
    }
    r
}

/// The paths of the files among `files`, given as (canonical path, path), whose canonical path
/// is `canonical`, in their order.
pub open spec fn same_canonical(files: Seq<(String, String)>, canonical: Seq<char>) -> Seq<Seq<char>>
    decreases files.len(),
{
    if files.len() == 0 {
        Seq::empty()
    } else {
        let rest = same_canonical(files.drop_last(), canonical);
        if files.last().0@ == canonical {
            rest.push(files.last().1@)
        } else {
            rest
        }
    }
}

/// The translations of the content whose canonical path (its path without the language) is
/// `canonical`: the paths of the sections and pages among `files`, given as (canonical path,
/// path), that share it. A site with a single language keeps no translations.
pub fn find_translations(files: &Vec<(String, String)>, multilingual: bool, canonical: &str) -> (r: Vec<String>)
    ensures
        strings_view(r@) == (if multilingual { same_canonical(files@, canonical@) } else { Seq::empty() }),
{
    let mut r: Vec<String> = Vec::new();
    if !multilingual {
        assert(strings_view(r@) =~= Seq::<Seq<char>>::empty());
        return r;
    }
    let mut i: usize = 0;
    assert(strings_view(r@) =~= same_canonical(files@.take(0), canonical@));
    while i < files.len()
        invariant
            i <= files@.len(),
            strings_view(r@) == same_canonical(files@.take(i as int), canonical@),
        decreases files.len() - i,
    {
        assert(files@.take(i + 1).drop_last() =~= files@.take(i as int));
        assert(files@.take(i + 1).last() == files@[i as int]);
        let ghost prev = strings_view(r@);
        if str_eq(files[i].0.as_str(), canonical) {
            r.push(files[i].1.clone());
            assert(strings_view(r@) =~= prev.push(files@[i as int].1@));
        }
        i += 1;
    }
    assert(files@.take(files@.len() as int) =~= files@);
    r
}

/// The file name of the index section of a language: `_index.md` for the default language,
/// `_index.{lang}.md` for the others.
pub fn index_filename(lang: &str, default_language: &str) -> (r: String)
    ensures
        r@ == (if lang@ == default_language@ { "_index.md"@ } else { "_index."@ + lang@ + ".md"@ }),
{
    if str_eq(lang, default_language) {
        String::from_str("_index.md")
    } else {
        let mut r = String::from_str("_index.");
        r.append(lang);
        r.append(".md");
        r
    }
}

/// The neighbours of each page of a sorted section: the one before it (lighter, later or before
/// by title) and the one after it, where there is one.
pub fn page_siblings(sorted: &Vec<String>) -> (r: Vec<(Option<String>, Option<String>)>)
    ensures
        r@.len() == sorted@.len(),
        forall|i: int| 0 <= i < sorted@.len() ==> {
            &&& opt_view((#[trigger] r@[i]).0) == (if i > 0 { Some(sorted@[i - 1]@) } else { None })
            &&& opt_view(r@[i].1) == (if i + 1 < sorted@.len() { Some(sorted@[i + 1]@) } else { None })
        },
{
    let mut r: Vec<(Option<String>, Option<String>)> = Vec::new();
    let mut i: usize = 0;
    while i < sorted.len()
        invariant
            i <= sorted@.len(),
            r@.len() == i,
            forall|j: int| 0 <= j < i ==> {
                &&& opt_view((#[trigger] r@[j]).0) == (if j > 0 { Some(sorted@[j - 1]@) } else { None })
                &&& opt_view(r@[j].1) == (if j + 1 < sorted@.len() { Some(sorted@[j + 1]@) } else { None })
            },
        decreases sorted.len() - i,
    {
        let lower = if i > 0 { Some(sorted[i - 1].clone()) } else { None };
        let higher = if i + 1 < sorted.len() { Some(sorted[i + 1].clone()) } else { None };
        r.push((lower, higher));
        i += 1;
    }
    r
}

/// The files among the first `n` claims, given as (path or alias, file), that claim the path `a`.
pub open spec fn claimed_upto(claims: Seq<(String, String)>, a: Seq<char>, n: int) -> Set<Seq<char>> {
    Set::new(|f: Seq<char>| exists|k: int| 0 <= k < n && #[trigger] claims[k].0@ == a && claims[k].1@ == f)
}

/// The files that claim the path `a`, by their URL path or one of their aliases.
pub open spec fn claimed_by(claims: Seq<(String, String)>, a: Seq<char>) -> Set<Seq<char>> {
    claimed_upto(claims, a, claims.len() as int)
}

/// The claims a file makes: its URL path and each of its aliases, each as (path, file).
pub fn insert_reverse_aliases(claims: &mut Vec<(String, String)>, file: &str, entries: &Vec<String>)
    ensures
        final(claims)@.len() == old(claims)@.len() + entries@.len(),
        forall|k: int| 0 <= k < old(claims)@.len() ==> #[trigger] final(claims)@[k] == old(claims)@[k],
        forall|k: int| 0 <= k < entries@.len() ==>
            (#[trigger] final(claims)@[old(claims)@.len() + k]).0@ == entries@[k]@
            && final(claims)@[old(claims)@.len() + k].1@ == file@,
{
    let ghost start = claims@;
    let mut i: usize = 0;
    while i < entries.len()
        invariant
            i <= entries@.len(),
            claims@.len() == start.len() + i,
            forall|k: int| 0 <= k < start.len() ==> #[trigger] claims@[k] == start[k],
            forall|k: int| 0 <= k < i ==>
                (#[trigger] claims@[start.len() + k]).0@ == entries@[k]@ && claims@[start.len() + k].1@ == file@,
        decreases entries.len() - i,
    {
        let a = entries[i].clone();
        let f = String::from_str(file);
        claims.push((a, f));
        i += 1;
    }
}

/// The claims of a page, or of a section that is rendered: its URL path `path`, then its
/// `aliases`, each claimed by its file `file`. A section that is not rendered claims nothing.
pub fn claim_paths(claims: &mut Vec<(String, String)>, file: &str, path: &str, aliases: &Vec<String>, rendered: bool)
    ensures
        !rendered ==> final(claims)@ == old(claims)@,
        rendered ==> {
            &&& final(claims)@.len() == old(claims)@.len() + 1 + aliases@.len()
            &&& forall|k: int| 0 <= k < old(claims)@.len() ==> #[trigger] final(claims)@[k] == old(claims)@[k]
            &&& final(claims)@[old(claims)@.len() as int].0@ == path@
            &&& final(claims)@[old(claims)@.len() as int].1@ == file@
            &&& forall|k: int| 0 <= k < aliases@.len() ==>
                (#[trigger] final(claims)@[old(claims)@.len() + 1 + k]).0@ == aliases@[k]@
                && final(claims)@[old(claims)@.len() + 1 + k].1@ == file@
        },
{
    if !rendered {
        return;
    }
    let mut entries: Vec<String> = Vec::new();
    entries.push(String::from_str(path));
    let mut i: usize = 0;
    while i < aliases.len()
        invariant
            i <= aliases@.len(),
            entries@.len() == 1 + i,
            entries@[0]@ == path@,
            forall|k: int| 0 <= k < i ==> #[trigger] entries@[1 + k]@ == aliases@[k]@,
        decreases aliases.len() - i,
    {
        entries.push(aliases[i].clone());
        i += 1;
    }
    let ghost start = claims@.len();
    insert_reverse_aliases(claims, file, &entries);
    assert(claims@[start + 0int].0@ == entries@[0]@);
    assert(claims@[start as int] == claims@[start + 0int]);
    assert forall|k: int| 0 <= k < aliases@.len() implies
        (#[trigger] claims@[start + 1 + k]).0@ == aliases@[k]@ && claims@[start + 1 + k].1@ == file@ by {
        assert(entries@[1 + k]@ == aliases@[k]@);
        assert(claims@[start + (1 + k)].0@ == entries@[1 + k]@);
    }
}

/// Whether one of the first `n` claims is for the path `a`.
fn claimed_before(claims: &Vec<(String, String)>, n: usize, a: &str) -> (r: bool)
    requires
        n <= claims@.len(),
    ensures
        r == exists|k: int| 0 <= k < n && #[trigger] claims@[k].0@ == a@,
{
    let mut k: usize = 0;
    while k < n
        invariant
            k <= n <= claims@.len(),
            forall|j: int| 0 <= j < k ==> #[trigger] claims@[j].0@ != a@,
        decreases n - k,
    {
        if str_eq(claims[k].0.as_str(), a) {
            return true;
        }
        k += 1;
    }
    false
}

/// The files that claim the path `a`, each once, in the order of their first claim.
fn files_claiming(claims: &Vec<(String, String)>, a: &str) -> (r: Vec<String>)
    ensures
        strings_view(r@).no_duplicates(),
        strings_view(r@).to_set() == claimed_by(claims@, a@),
{
    let mut r: Vec<String> = Vec::new();
    let mut j: usize = 0;
    assert(strings_view(r@).to_set() =~= claimed_upto(claims@, a@, 0));
    while j < claims.len()
        invariant
            j <= claims@.len(),
            strings_view(r@).no_duplicates(),
            strings_view(r@).to_set() == claimed_upto(claims@, a@, j as int),
        decreases claims.len() - j,
    {
        let ghost before = strings_view(r@);
        if str_eq(claims[j].0.as_str(), a) && !contains_str(&r, claims[j].1.as_str()) {
            r.push(claims[j].1.clone());
            assert(strings_view(r@) =~= before.push(claims@[j as int].1@));
        }
        assert(strings_view(r@).to_set() =~= claimed_upto(claims@, a@, j + 1)) by {
            assert forall|f: Seq<char>| claimed_upto(claims@, a@, j + 1).contains(f)
                implies #[trigger] strings_view(r@).to_set().contains(f) by {
                let k = choose|k: int| 0 <= k < j + 1 && #[trigger] claims@[k].0@ == a@ && claims@[k].1@ == f;
                if k < j {
                    assert(claimed_upto(claims@, a@, j as int).contains(f));
                    assert(before.contains(f));
                    let t = choose|t: int| 0 <= t < before.len() && before[t] == f;
                    assert(strings_view(r@)[t] == f);
                } else if before.contains(f) {
                    let t = choose|t: int| 0 <= t < before.len() && before[t] == f;
                    assert(strings_view(r@)[t] == f);
                } else {
                    assert(strings_view(r@)[before.len() as int] == f);
                }
            }
            assert forall|f: Seq<char>| #[trigger] strings_view(r@).to_set().contains(f)
                implies claimed_upto(claims@, a@, j + 1).contains(f) by {
                let t = choose|t: int| 0 <= t < strings_view(r@).len() && strings_view(r@)[t] == f;
                if t < before.len() {
                    assert(before.to_set().contains(f));
                    let k = choose|k: int| 0 <= k < j && #[trigger] claims@[k].0@ == a@ && claims@[k].1@ == f;
                    assert(0 <= k < j + 1 && claims@[k].0@ == a@ && claims@[k].1@ == f);
                } else {
                    assert(claims@[j as int].0@ == a@ && claims@[j as int].1@ == f);
                }
            }
        }
        j += 1;
    }
    r
}

/// The paths claimed by more than one file, each with the files claiming it; `claims` are the
/// claims made so far, as (path or alias, file). Each such path is reported once.
pub fn find_path_collisions(claims: &Vec<(String, String)>) -> (r: Vec<(String, Vec<String>)>)
    ensures
        forall|i: int| 0 <= i < r@.len() ==> {
            &&& strings_view((#[trigger] r@[i]).1@).no_duplicates()
            &&& strings_view(r@[i].1@).to_set() == claimed_by(claims@, r@[i].0@)
            &&& r@[i].1@.len() > 1
        },
        forall|i: int, j: int| 0 <= i < j < r@.len() ==> (#[trigger] r@[i]).0@ != (#[trigger] r@[j]).0@,
        forall|k: int| 0 <= k < claims@.len() && claimed_by(claims@, (#[trigger] claims@[k]).0@).len() > 1
            ==> exists|i: int| 0 <= i < r@.len() && (#[trigger] r@[i]).0@ == claims@[k].0@,
{
    let mut r: Vec<(String, Vec<String>)> = Vec::new();
    let mut i: usize = 0;
    while i < claims.len()
        invariant
            i <= claims@.len(),
            forall|t: int| 0 <= t < r@.len() ==> {
                &&& strings_view((#[trigger] r@[t]).1@).no_duplicates()
                &&& strings_view(r@[t].1@).to_set() == claimed_by(claims@, r@[t].0@)
                &&& r@[t].1@.len() > 1
            },
            forall|t: int, u: int| 0 <= t < u < r@.len() ==> (#[trigger] r@[t]).0@ != (#[trigger] r@[u]).0@,
            forall|t: int| 0 <= t < r@.len() ==> exists|k: int| 0 <= k < i && #[trigger] claims@[k].0@ == (#[trigger] r@[t]).0@,
            forall|k: int| 0 <= k < i && claimed_by(claims@, (#[trigger] claims@[k]).0@).len() > 1
                ==> exists|t: int| 0 <= t < r@.len() && (#[trigger] r@[t]).0@ == claims@[k].0@,
        decreases claims.len() - i,
    {
        let seen = claimed_before(claims, i, claims[i].0.as_str());
        if !seen {
            let files = files_claiming(claims, claims[i].0.as_str());
            proof {
                strings_view(files@).unique_seq_to_set();
            }
            if files.len() > 1 {
                let ghost old_r = r@;
                r.push((claims[i].0.clone(), files));
                proof {
                    assert forall|t: int| 0 <= t < r@.len() implies exists|k: int| 0 <= k < i + 1 && #[trigger] claims@[k].0@ == (#[trigger] r@[t]).0@ by {
                        if t < old_r.len() {
                            assert(r@[t] == old_r[t]);
                        } else {
                            assert(claims@[i as int].0@ == r@[t].0@);
                        }
                    }
                    assert forall|t: int, u: int| 0 <= t < u < r@.len() implies (#[trigger] r@[t]).0@ != (#[trigger] r@[u]).0@ by {
                        if u == old_r.len() {
                            assert(r@[t] == old_r[t]);
                            if r@[t].0@ == r@[u].0@ {
                                let k = choose|k: int| 0 <= k < i && #[trigger] claims@[k].0@ == old_r[t].0@;
                                assert(claims@[k].0@ == claims@[i as int].0@);
                            }
                        } else {
                            assert(r@[t] == old_r[t]);
                            assert(r@[u] == old_r[u]);
                        }
                    }
                    assert forall|k: int| 0 <= k < i + 1 && claimed_by(claims@, (#[trigger] claims@[k]).0@).len() > 1
                        implies exists|t: int| 0 <= t < r@.len() && (#[trigger] r@[t]).0@ == claims@[k].0@ by {
                        if k < i {
                            let t = choose|t: int| 0 <= t < old_r.len() && #[trigger] old_r[t].0@ == claims@[k].0@;
                            assert(r@[t] == old_r[t]);
                        } else {
                            assert(r@[old_r.len() as int].0@ == claims@[k].0@);
                        }
                    }
                }
            } else {
                proof {
                    assert forall|k: int| 0 <= k < i + 1 && claimed_by(claims@, (#[trigger] claims@[k]).0@).len() > 1
                        implies exists|t: int| 0 <= t < r@.len() && (#[trigger] r@[t]).0@ == claims@[k].0@ by {
                        if k == i {
                            assert(false);
                        }
                    }
                }
            }
        } else {
            proof {
                let k0 = choose|k: int| 0 <= k < i && #[trigger] claims@[k].0@ == claims@[i as int].0@;
                assert forall|k: int| 0 <= k < i + 1 && claimed_by(claims@, (#[trigger] claims@[k]).0@).len() > 1
                    implies exists|t: int| 0 <= t < r@.len() && (#[trigger] r@[t]).0@ == claims@[k].0@ by {
                    if k == i {
                        assert(claims@[k0].0@ == claims@[k].0@);
                        assert(claimed_by(claims@, claims@[k0].0@).len() > 1);
                    }
                }
                assert forall|t: int| 0 <= t < r@.len() implies exists|k: int| 0 <= k < i + 1 && #[trigger] claims@[k].0@ == (#[trigger] r@[t]).0@ by {
                    let k = choose|k: int| 0 <= k < i && #[trigger] claims@[k].0@ == r@[t].0@;
                    assert(0 <= k < i + 1);
                }
            }
        }
        i += 1;
    }
    r
}

/// Whether the path `a` is one of those of `r`.
pub open spec fn listed(r: Seq<(String, Vec<String>)>, a: Seq<char>) -> bool {
    exists|t: int| 0 <= t < r.len() && (#[trigger] r[t]).0@ == a
}

/// The backlinks of the site: each target of an internal link, once, with the files whose
/// content links to it; `links` are the internal links, as (target, file holding the link).
pub fn fill_backlinks(links: &Vec<(String, String)>) -> (r: Vec<(String, Vec<String>)>)
    ensures
        forall|i: int| 0 <= i < r@.len() ==> {
            &&& strings_view((#[trigger] r@[i]).1@).no_duplicates()
            &&& strings_view(r@[i].1@).to_set() == claimed_by(links@, r@[i].0@)
        },
        forall|i: int, j: int| 0 <= i < j < r@.len() ==> (#[trigger] r@[i]).0@ != (#[trigger] r@[j]).0@,
        forall|k: int| 0 <= k < links@.len() ==> listed(r@, (#[trigger] links@[k]).0@),
{
    let mut r: Vec<(String, Vec<String>)> = Vec::new();
    let mut i: usize = 0;
    while i < links.len()
        invariant
            i <= links@.len(),
            forall|t: int| 0 <= t < r@.len() ==> {
                &&& strings_view((#[trigger] r@[t]).1@).no_duplicates()
                &&& strings_view(r@[t].1@).to_set() == claimed_by(links@, r@[t].0@)
            },
            forall|t: int, u: int| 0 <= t < u < r@.len() ==> (#[trigger] r@[t]).0@ != (#[trigger] r@[u]).0@,
            forall|t: int| 0 <= t < r@.len() ==> exists|k: int| 0 <= k < i && #[trigger] links@[k].0@ == (#[trigger] r@[t]).0@,
            forall|k: int| 0 <= k < i ==> listed(r@, (#[trigger] links@[k]).0@),
        decreases links.len() - i,
    {
        let seen = claimed_before(links, i, links[i].0.as_str());
        let ghost old_r = r@;
        if !seen {
            let sources = files_claiming(links, links[i].0.as_str());
            r.push((links[i].0.clone(), sources));
            proof {
                assert forall|t: int| 0 <= t < r@.len() implies exists|k: int| 0 <= k < i + 1 && #[trigger] links@[k].0@ == (#[trigger] r@[t]).0@ by {
                    if t < old_r.len() {
                        assert(r@[t] == old_r[t]);
                    } else {
                        assert(links@[i as int].0@ == r@[t].0@);
                    }
                }
                assert forall|t: int, u: int| 0 <= t < u < r@.len() implies (#[trigger] r@[t]).0@ != (#[trigger] r@[u]).0@ by {
                    assert(r@[t] == old_r[t]);
                    if u == old_r.len() {
                        if r@[t].0@ == r@[u].0@ {
                            let k = choose|k: int| 0 <= k < i && #[trigger] links@[k].0@ == old_r[t].0@;
                            assert(links@[k].0@ == links@[i as int].0@);
                        }
                    } else {
                        assert(r@[u] == old_r[u]);
                    }
                }
                assert forall|k: int| 0 <= k < i + 1 implies listed(r@, (#[trigger] links@[k]).0@) by {
                    if k < i {
                        let t = choose|t: int| 0 <= t < old_r.len() && (#[trigger] old_r[t]).0@ == links@[k].0@;
                        assert(r@[t] == old_r[t]);
                    } else {
                        assert(r@[old_r.len() as int].0@ == links@[k].0@);
                    }
                }
            }
        } else {
            proof {
                let k0 = choose|k: int| 0 <= k < i && #[trigger] links@[k].0@ == links@[i as int].0@;
                assert(listed(r@, links@[k0].0@));
                assert forall|t: int| 0 <= t < r@.len() implies exists|k: int| 0 <= k < i + 1 && #[trigger] links@[k].0@ == (#[trigger] r@[t]).0@ by {
                    let k = choose|k: int| 0 <= k < i && #[trigger] links@[k].0@ == r@[t].0@;
                    assert(0 <= k < i + 1);
                }
            }
        }
        i += 1;
    }
    r
}

/// The sections to rebuild when a page changes, from its ancestors `anc` (relative paths, from
/// the top), looked at from the nearest: the nearest ancestor that is a section, then the
/// transparent ones further up. `started` tells whether one was taken already; ancestors that
/// are not sections are passed over.
pub open spec fn parents_of(secs: Seq<SectionEntry>, content: Seq<char>, anc: Seq<Seq<char>>, started: bool) -> Seq<int>
    decreases anc.len(),
{
    if anc.len() == 0 {
        Seq::empty()
    } else {
        match section_at(secs, spec_path_join(content, anc.last())) {
            Some(j) => if !started || secs[j].transparent {
                seq![j] + parents_of(secs, content, anc.drop_last(), true)
            } else {
                parents_of(secs, content, anc.drop_last(), started)
            },
            None => parents_of(secs, content, anc.drop_last(), started),
        }
    }
}

/// The positions of the sections to rebuild when the page whose ancestors are `anc` changes:
/// its own section, then the transparent sections above it.
pub fn find_parent_sections(secs: &Vec<SectionEntry>, content: &str, anc: &Vec<String>) -> (r: Vec<usize>)
    ensures
        r@.map_values(|k: usize| k as int) == parents_of(secs@, content@, strings_view(anc@), false),
{
    let ghost av = strings_view(anc@);
    let ghost total = parents_of(secs@, content@, av, false);
    let mut r: Vec<usize> = Vec::new();
    let mut k: usize = anc.len();
    assert(av.take(k as int) =~= av);
    assert(r@.map_values(|k: usize| k as int) + total =~= total);
    while k > 0
        invariant
            k <= anc@.len(),
            av == strings_view(anc@),
            r@.map_values(|k: usize| k as int) + parents_of(secs@, content@, av.take(k as int), r@.len() > 0) == total,
        decreases k,
    {
        let ghost part = av.take(k as int);
        let ghost done = r@.map_values(|k: usize| k as int);
        assert(part.last() == anc@[k - 1]@);
        assert(part.drop_last() =~= av.take(k - 1));
        let file = path_join(content, anc[k - 1].as_str());
        match find_section(secs, file.as_str()) {
            Some(j) => {
                if r.len() == 0 || secs[j].transparent {
                    let ghost rest = parents_of(secs@, content@, av.take(k - 1), true);
                    r.push(j);
                    assert(r@.map_values(|k: usize| k as int) =~= done.push(j as int));
                    assert(done + (seq![j as int] + rest) =~= done.push(j as int) + rest);
                }
            },
            None => {},
        }
        k -= 1;
    }
    assert(av.take(0) =~= Seq::<Seq<char>>::empty());
    assert(r@.map_values(|k: usize| k as int) + Seq::<int>::empty() =~= r@.map_values(|k: usize| k as int));
    r
}

/// The positions, among the placed pages `places`, of the pages that the section whose file is at
/// `path` lists, in page order: those placed in it, directly or through the transparent
/// sections below it.
pub open spec fn pages_listed_in(places: Seq<PagePlace>, path: Seq<char>) -> Seq<int>
    decreases places.len(),
{
    if places.len() == 0 {
        Seq::empty()
    } else {
        let rest = pages_listed_in(places.drop_last(), path);
        if strings_view(places.last().sections@).contains(path) {
            rest.push(places.len() - 1)
        } else {
            rest
        }
    }
}

/// The pages each section lists, given where each page was placed (see `place_page`): for the
/// section at each position of `secs`, the positions of its pages among `places`, in the order
/// the pages come.
pub fn section_pages(secs: &Vec<SectionEntry>, places: &Vec<PagePlace>) -> (r: Vec<Vec<usize>>)
    ensures
        r@.len() == secs@.len(),
        forall|i: int| 0 <= i < secs@.len()
            ==> (#[trigger] r@[i])@.map_values(|k: usize| k as int) == pages_listed_in(places@, secs@[i].path@),
{
    let mut r: Vec<Vec<usize>> = Vec::new();
    let mut i: usize = 0;
    while i < secs.len()
        invariant
            i <= secs@.len(),
            r@.len() == i,
            forall|t: int| 0 <= t < i
                ==> (#[trigger] r@[t])@.map_values(|k: usize| k as int) == pages_listed_in(places@, secs@[t].path@),
        decreases secs.len() - i,
    {
        let path = secs[i].path.as_str();
        let mut listed: Vec<usize> = Vec::new();
        let mut j: usize = 0;
        while j < places.len()
            invariant
                j <= places@.len(),
                path@ == secs@[i as int].path@,
                listed@.map_values(|k: usize| k as int) == pages_listed_in(places@.take(j as int), path@),
            decreases places.len() - j,
        {
            assert(places@.take(j + 1).drop_last() =~= places@.take(j as int));
            assert(places@.take(j + 1).last() == places@[j as int]);
            let ghost before = listed@.map_values(|k: usize| k as int);
            if contains_str(&places[j].sections, path) {
                listed.push(j);
                assert(listed@.map_values(|k: usize| k as int) =~= before.push(j as int));
            }
            j += 1;
        }
        assert(places@.take(places@.len() as int) =~= places@);
        r.push(listed);
        i += 1;
    }
    r
}

/// A page is listed by exactly the sections it was placed in.
pub proof fn lemma_listed_iff_placed(places: Seq<PagePlace>, path: Seq<char>, p: int)
    requires
        0 <= p < places.len(),
    ensures
        pages_listed_in(places, path).contains(p) <==> strings_view(places[p].sections@).contains(path),
    decreases places.len(),
{
    let rest = pages_listed_in(places.drop_last(), path);
    lemma_listed_below(places.drop_last(), path);
    if p < places.len() - 1 {
        lemma_listed_iff_placed(places.drop_last(), path, p);
        assert(places.drop_last()[p] == places[p]);
        if strings_view(places.last().sections@).contains(path) {
            let l = rest.push(places.len() - 1);
            if l.contains(p) {
                let t = choose|t: int| 0 <= t < l.len() && l[t] == p;
                if t < rest.len() {
                    assert(rest.contains(p));
                }
            }
            if rest.contains(p) {
                let t = choose|t: int| 0 <= t < rest.len() && rest[t] == p;
                assert(l[t] == p);
            }
        }
    } else {
        if strings_view(places.last().sections@).contains(path) {
            let l = rest.push(places.len() - 1);
            assert(l[rest.len() as int] == p);
        } else {
            if rest.contains(p) {
                let t = choose|t: int| 0 <= t < rest.len() && rest[t] == p;
                assert(rest[t] < places.len() - 1);
            }
        }
    }
}

/// The pages listed among `places` are among them.
proof fn lemma_listed_below(places: Seq<PagePlace>, path: Seq<char>)
    ensures
        forall|t: int| 0 <= t < pages_listed_in(places, path).len()
            ==> 0 <= #[trigger] pages_listed_in(places, path)[t] < places.len(),
    decreases places.len(),
{
    if places.len() > 0 {
        lemma_listed_below(places.drop_last(), path);
        let rest = pages_listed_in(places.drop_last(), path);
        if strings_view(places.last().sections@).contains(path) {
            let l = rest.push(places.len() - 1);
            assert forall|t: int| 0 <= t < l.len() implies 0 <= #[trigger] l[t] < places.len() by {
                if t < rest.len() {
                    assert(l[t] == rest[t]);
                }
            }
        }
    }
}

/// The positions of the pages without ancestors among `places`, in order.
pub open spec fn orphans(places: Seq<PagePlace>) -> Seq<int>
    decreases places.len(),
{
    if places.len() == 0 {
        Seq::empty()
    } else {
        let rest = orphans(places.drop_last());
        if places.last().ancestors@.len() == 0 {
            rest.push(places.len() - 1)
        } else {
            rest
        }
    }
}

/// The orphan pages, those in a folder without an index section of their language: the
/// positions of the places without ancestors.
pub fn get_all_orphan_pages(places: &Vec<PagePlace>) -> (r: Vec<usize>)
    ensures
        r@.map_values(|k: usize| k as int) == orphans(places@),
{
    let mut r: Vec<usize> = Vec::new();
    let mut i: usize = 0;
    while i < places.len()
        invariant
            i <= places@.len(),
            r@.map_values(|k: usize| k as int) == orphans(places@.take(i as int)),
        decreases places.len() - i,
    {
        assert(places@.take(i + 1).drop_last() =~= places@.take(i as int));
        assert(places@.take(i + 1).last() == places@[i as int]);
        let ghost before = r@.map_values(|k: usize| k as int);
        if places[i].ancestors.len() == 0 {
            r.push(i);
            assert(r@.map_values(|k: usize| k as int) =~= before.push(i as int));
        }
        i += 1;
    }
    assert(places@.take(places@.len() as int) =~= places@);
    r
}

/// The folder two levels above the path `p`, if there is one.
pub open spec fn up_twice(p: Seq<char>) -> Option<Seq<char>> {
    match spec_path_parent(p) {
        Some(q) => spec_path_parent(q),
        None => None,
    }
}

/// The sections that a page belongs to, starting from the index file at `p`: the section
/// there, if any, then, while that section is transparent, the one whose index file `fname`
/// is two levels up. At most `fuel` of them.
pub open spec fn page_walk(secs: Seq<SectionEntry>, p: Seq<char>, fname: Seq<char>, fuel: nat) -> Seq<int>
    decreases fuel,
{
    if fuel == 0 {
        Seq::empty()
    } else {
        match section_at(secs, p) {
            None => Seq::empty(),
            Some(i) => seq![i] + (if secs[i].transparent {
                match up_twice(p) {
                    Some(q) => page_walk(secs, spec_path_join(q, fname), fname, (fuel - 1) as nat),
                    None => Seq::empty(),
                }
            } else {
                Seq::empty()
            }),
        }
    }
}

/// The ancestors of a page below the section at position `i`: those of the section, then the
/// section itself.
pub open spec fn spec_page_ancestors(secs: Seq<SectionEntry>, content: Seq<char>, i: int) -> Seq<Seq<char>> {
    spec_section_ancestors(secs, content, secs[i]).push(secs[i].relative@)
}

/// The page template of the nearest of the ancestors `anc` (relative paths, from the top) that
/// names one, looking from the last; ancestors that are not sections are passed over.
pub open spec fn template_in(secs: Seq<SectionEntry>, content: Seq<char>, anc: Seq<Seq<char>>) -> Option<Seq<char>>
    decreases anc.len(),
{
    if anc.len() == 0 {
        None
    } else {
        let nearest = match section_at(secs, spec_path_join(content, anc.last())) {
            Some(j) => opt_view(secs[j].page_template),
            None => None,
        };
        match nearest {
            Some(t) => Some(t),
            None => template_in(secs, content, anc.drop_last()),
        }
    }
}

/// The first template found along the sections `walk`, each looked for among the ancestors the
/// page has below it.
pub open spec fn walk_template(secs: Seq<SectionEntry>, content: Seq<char>, walk: Seq<int>) -> Option<Seq<char>>
    decreases walk.len(),
{
    if walk.len() == 0 {
        None
    } else {
        match template_in(secs, content, spec_page_ancestors(secs, content, walk[0])) {
            Some(t) => Some(t),
            None => walk_template(secs, content, walk.drop_first()),
        }
    }
}

/// The sections a page belongs to, as positions, from the index file at `start` (see
/// `page_walk`, with as much fuel as there are sections).
fn walk_sections(secs: &Vec<SectionEntry>, start: String, fname: &str) -> (r: Vec<usize>)
    ensures
        r@.map_values(|k: usize| k as int) == page_walk(secs@, start@, fname@, secs@.len()),
        in_bounds(secs@, r@),
{
    let mut r: Vec<usize> = Vec::new();
    let mut p = start;
    let mut fuel: usize = secs.len();
    let ghost total = page_walk(secs@, p@, fname@, secs@.len());
    assert(r@.map_values(|k: usize| k as int) + total =~= total);
    loop
        invariant_except_break
            r@.map_values(|k: usize| k as int) + page_walk(secs@, p@, fname@, fuel as nat) == total,
        invariant
            fuel <= secs@.len(),
            in_bounds(secs@, r@),
        ensures
            r@.map_values(|k: usize| k as int) == total,
            in_bounds(secs@, r@),
        decreases fuel,
    {
        let ghost done = r@.map_values(|k: usize| k as int);
        if fuel == 0 {
            assert(done + Seq::<int>::empty() =~= done);
            break;
        }
        match find_section(secs, p.as_str()) {
            None => {
                assert(done + Seq::<int>::empty() =~= done);
                break;
            },
            Some(i) => {
                r.push(i);
                assert(r@.map_values(|k: usize| k as int) =~= done.push(i as int));
                if !secs[i].transparent {
                    assert(done + (seq![i as int] + Seq::<int>::empty()) =~= done.push(i as int));
                    break;
                }
                let up = match path_parent(p.as_str()) {
                    Some(q) => path_parent(q.as_str()),
                    None => None,
                };
                match up {
                    Some(q) => {
                        let ghost rest = page_walk(secs@, spec_path_join(q@, fname@), fname@, (fuel - 1) as nat);
                        assert(done + (seq![i as int] + rest) =~= done.push(i as int) + rest);
                        p = path_join(q.as_str(), fname);
                        fuel -= 1;
                    },
                    None => {
                        assert(done + (seq![i as int] + Seq::<int>::empty()) =~= done.push(i as int));
                        break;
                    },
                }
            },
        }
    }
    r
}

/// The ancestors of a page below the section at position `i` (see `spec_page_ancestors`).
fn page_ancestors(secs: &Vec<SectionEntry>, content: &str, i: usize) -> (r: Vec<String>)
    requires
        i < secs@.len(),
    ensures
        strings_view(r@) == spec_page_ancestors(secs@, content@, i as int),
{
    let mut r = section_ancestors(secs, content, &secs[i]);
    let ghost prev = strings_view(r@);
    r.push(secs[i].relative.clone());
    assert(strings_view(r@) =~= prev.push(secs@[i as int].relative@));
    r
}

/// The template of the nearest ancestor that names one (see `template_in`).
fn find_template(secs: &Vec<SectionEntry>, content: &str, anc: &Vec<String>) -> (r: Option<String>)
    ensures
        opt_view(r) == template_in(secs@, content@, strings_view(anc@)),
{
    let mut k: usize = anc.len();
    assert(strings_view(anc@).take(anc@.len() as int) =~= strings_view(anc@));
    while k > 0
        invariant
            k <= anc@.len(),
            template_in(secs@, content@, strings_view(anc@))
                == template_in(secs@, content@, strings_view(anc@).take(k as int)),
        decreases k,
    {
        let ghost part = strings_view(anc@).take(k as int);
        assert(part.last() == anc@[k - 1]@);
        assert(part.drop_last() =~= strings_view(anc@).take(k - 1));
        let file = path_join(content, anc[k - 1].as_str());
        match find_section(secs, file.as_str()) {
            Some(j) => {
                match &secs[j].page_template {
                    Some(t) => {
                        return Some(t.clone());
                    },
                    None => {},
                }
            },
            None => {},
        }
        k -= 1;
    }
    assert(strings_view(anc@).take(0) =~= Seq::<Seq<char>>::empty());
    None
}

/// The first template found along the sections at the positions `walk` (see `walk_template`).
fn first_template(secs: &Vec<SectionEntry>, content: &str, walk: &Vec<usize>) -> (r: Option<String>)
    requires
        in_bounds(secs@, walk@),
    ensures
        opt_view(r) == walk_template(secs@, content@, walk@.map_values(|k: usize| k as int)),
{
    let ghost w = walk@.map_values(|k: usize| k as int);
    let mut m: usize = 0;
    assert(w.skip(0) =~= w);
    while m < walk.len()
        invariant
            m <= walk@.len(),
            w == walk@.map_values(|k: usize| k as int),
            in_bounds(secs@, walk@),
            walk_template(secs@, content@, w) == walk_template(secs@, content@, w.skip(m as int)),
        decreases walk.len() - m,
    {
        assert(w.skip(m as int).drop_first() =~= w.skip(m + 1));
        assert(w.skip(m as int)[0] == walk@[m as int] as int);
        let anc = page_ancestors(secs, content, walk[m]);
        let found = find_template(secs, content, &anc);
        if found.is_some() {
            return found;
        }
        m += 1;
    }
    assert(w.skip(m as int) =~= Seq::<int>::empty());
    None
}

/// Where a page goes in the tree of the site.
#[derive(Debug)]
pub struct PagePlace {
    /// The paths of the sections that list the page: its own, then, while that one is
    /// transparent, those above it
    pub sections: Vec<String>,
    /// The ancestors of the page, as relative paths from the index section down
    pub ancestors: Vec<String>,
    /// The template of the page: its own, else the page template of its nearest ancestor
    pub template: Option<String>,
}

/// Places a page whose file is in the folder `parent`: the index file of its language there is
/// `index_filename`, and `template` is the one its front matter names, if any.
pub fn place_page(
    secs: &Vec<SectionEntry>,
    content: &str,
    parent: &str,
    index_filename: &str,
    template: Option<String>,
) -> (r: PagePlace)
    ensures
        ({
            let walk = page_walk(secs@, spec_path_join(parent@, index_filename@), index_filename@, secs@.len());
            &&& strings_view(r.sections@) == walk.map_values(|k: int| secs@[k].path@)
            &&& strings_view(r.ancestors@) == (if walk.len() == 0 {
                Seq::empty()
            } else {
                spec_page_ancestors(secs@, content@, walk.last())
            })
            &&& opt_view(r.template) == (match template {
                Some(t) => Some(t@),
                None => walk_template(secs@, content@, walk),
            })
        }),
{
    let start = path_join(parent, index_filename);
    let walk = walk_sections(secs, start, index_filename);
    let ghost w = walk@.map_values(|k: usize| k as int);
    let sections = paths_of(secs, &walk);
    assert(paths_at(secs@, walk@) =~= w.map_values(|k: int| secs@[k].path@));
    let ancestors = if walk.len() == 0 {
        let v: Vec<String> = Vec::new();
        assert(strings_view(v@) =~= Seq::<Seq<char>>::empty());
        v
    } else {
        page_ancestors(secs, content, walk[walk.len() - 1])
    };
    let chosen = match template {
        Some(t) => Some(t),
        None => first_template(secs, content, &walk),
    };
    PagePlace { sections, ancestors, template: chosen }
}

/// The index section of its language is the first ancestor of every section that is not an
/// index section itself.
pub proof fn lemma_index_first_ancestor(secs: Seq<SectionEntry>, content: Seq<char>, s: SectionEntry)
    requires
        s.components@.len() > 0,
    ensures
        spec_section_ancestors(secs, content, s).len() >= 1,
        spec_section_ancestors(secs, content, s)[0] == s.filename@,
{
}

/// A page goes up past a section only when that section is transparent: every section of the
/// walk but the last is transparent, and each is a section of the site.
pub proof fn lemma_walk_through_transparent(secs: Seq<SectionEntry>, p: Seq<char>, fname: Seq<char>, fuel: nat)
    ensures
        forall|k: int| 0 <= k < page_walk(secs, p, fname, fuel).len() - 1
            ==> #[trigger] secs[page_walk(secs, p, fname, fuel)[k]].transparent,
        forall|k: int| 0 <= k < page_walk(secs, p, fname, fuel).len()
            ==> 0 <= #[trigger] page_walk(secs, p, fname, fuel)[k] < secs.len(),
    decreases fuel,
{
    lemma_section_at_in(secs, p);
    if fuel > 0 {
        match section_at(secs, p) {
            None => {},
            Some(i) => {
                if secs[i].transparent {
                    match up_twice(p) {
                        Some(q) => {
                            let rest = page_walk(secs, spec_path_join(q, fname), fname, (fuel - 1) as nat);
                            lemma_walk_through_transparent(secs, spec_path_join(q, fname), fname, (fuel - 1) as nat);
                            let w = page_walk(secs, p, fname, fuel);
                            assert(w == seq![i] + rest);
                            assert forall|k: int| 0 <= k < w.len() - 1 implies #[trigger] secs[w[k]].transparent by {
                                if k > 0 {
                                    assert(w[k] == rest[k - 1]);
                                }
                            }
                            assert forall|k: int| 0 <= k < w.len() implies 0 <= #[trigger] w[k] < secs.len() by {
                                if k > 0 {
                                    assert(w[k] == rest[k - 1]);
                                }
                            }
                        },
                        None => {},
                    }
                }
            },
        }
    }
}

/// A page belongs first to the section whose index file is in its own folder, when there is
/// one; its ancestors then end with the section it ends up below.
pub proof fn lemma_page_in_own_section(secs: Seq<SectionEntry>, content: Seq<char>, p: Seq<char>, fname: Seq<char>)
    requires
        section_at(secs, p) is Some,
    ensures
        page_walk(secs, p, fname, secs.len()).len() >= 1,
        page_walk(secs, p, fname, secs.len())[0] == section_at(secs, p).unwrap(),
        forall|i: int| 0 <= i < secs.len() ==>
            (#[trigger] spec_page_ancestors(secs, content, i)).last() == secs[i].relative@,
{
    lemma_section_at_in(secs, p);
}

/// The section found at a path is one of the sections, and its file is at that path.
pub proof fn lemma_section_at_in(secs: Seq<SectionEntry>, p: Seq<char>)
    ensures
        section_at(secs, p) matches Some(i) ==> 0 <= i < secs.len() && secs[i].path@ == p,
    decreases secs.len(),
{
    if secs.len() > 0 && secs[0].path@ != p {
        lemma_section_at_in(secs.drop_first(), p);
    }
}

/// Whether the ancestor `a` (a relative path) is a section that names a page template.
pub open spec fn names_page_template(secs: Seq<SectionEntry>, content: Seq<char>, a: Seq<char>) -> bool {
    section_at(secs, spec_path_join(content, a)) matches Some(j) && secs[j].page_template is Some
}

/// The nearest ancestor that names a page template gives it: when the ancestor at `k` names
/// `t` and none after it (nearer the page) names one, `t` is the template found.
pub proof fn lemma_nearest_template_wins(secs: Seq<SectionEntry>, content: Seq<char>, anc: Seq<Seq<char>>, k: int, t: Seq<char>)
    requires
        0 <= k < anc.len(),
        section_at(secs, spec_path_join(content, anc[k])) matches Some(j) && opt_view(secs[j].page_template) == Some(t),
        forall|m: int| k < m < anc.len() ==> !names_page_template(secs, content, #[trigger] anc[m]),
    ensures
        template_in(secs, content, anc) == Some(t),
    decreases anc.len(),
{
    if k < anc.len() - 1 {
        let last = anc.last();
        assert(!names_page_template(secs, content, anc[anc.len() - 1]));
        let rest = anc.drop_last();
        assert forall|m: int| k < m < rest.len() implies !names_page_template(secs, content, #[trigger] rest[m]) by {
            assert(rest[m] == anc[m]);
        }
        assert(rest[k] == anc[k]);
        lemma_nearest_template_wins(secs, content, rest, k, t);
    }
}

/// A page that names no template of its own takes the page template of its own section when
/// that section names one, before any section above it (its own section being found again
/// from its path below the content folder).
pub proof fn lemma_own_section_template_wins(
    secs: Seq<SectionEntry>,
    content: Seq<char>,
    parent: Seq<char>,
    fname: Seq<char>,
    r: PagePlace,
    i: int,
    t: Seq<char>,
)
    requires
        page_placed(secs, content, parent, fname, None, r),
        section_at(secs, spec_path_join(parent, fname)) == Some(i),
        spec_path_join(content, secs[i].relative@) == secs[i].path@,
        opt_view(secs[i].page_template) == Some(t),
    ensures
        opt_view(r.template) == Some(t),
{
    lemma_section_at_in(secs, spec_path_join(parent, fname));
    let walk = page_walk(secs, spec_path_join(parent, fname), fname, secs.len());
    assert(walk[0] == i);
    let anc = spec_page_ancestors(secs, content, i);
    assert(anc.last() == secs[i].relative@);
    lemma_nearest_template_wins(secs, content, anc, anc.len() - 1, t);
}

/// What populating the library reads of a page.
pub struct LibraryPage<'a> {
    /// The folder of the page's file
    pub parent: String,
    /// The language of the page
    pub lang: String,
    /// The template its front matter names, if any
    pub template: Option<String>,
    /// What ordering reads of the page
    pub sortable: SortablePage<'a>,
}

/// The tree of the site once every section and page is placed.
pub struct PopulatedLibrary {
    /// Where each section goes, in the order of the sections
    pub sections: Vec<SectionPlace>,
    /// Where each page goes, in the order of the pages
    pub pages: Vec<PagePlace>,
    /// For each section, the positions of its pages among the pages, in their order
    pub listed: Vec<Vec<usize>>,
    /// For each section, the file paths of its pages in its order and those of the pages that
    /// lack the field it is sorted by; `None` where two of the titles (or slugs) it sorts by hold
    /// a run of twenty digits or more, which lexical-sort cannot compare
    pub lists: Vec<Option<(Vec<String>, Vec<String>)>>,
    /// For each sorted section that is not transparent, the neighbours of each of its sorted
    /// pages; nothing for the others
    pub siblings: Vec<Vec<(Option<String>, Option<String>)>>,
}

/// The file name of the index section of the language `lang`.
pub open spec fn spec_index_filename(lang: Seq<char>, default_language: Seq<char>) -> Seq<char> {
    if lang == default_language { "_index.md"@ } else { "_index."@ + lang + ".md"@ }
}

/// Whether `r` is where `place_page` puts a page in the folder `parent` whose language has
/// the index file `index_filename` and whose front matter names `template`.
pub open spec fn page_placed(
    secs: Seq<SectionEntry>,
    content: Seq<char>,
    parent: Seq<char>,
    index_filename: Seq<char>,
    template: Option<Seq<char>>,
    r: PagePlace,
) -> bool {
    let walk = page_walk(secs, spec_path_join(parent, index_filename), index_filename, secs.len());
    &&& strings_view(r.sections@) == walk.map_values(|k: int| secs[k].path@)
    &&& strings_view(r.ancestors@) == (if walk.len() == 0 {
        Seq::empty()
    } else {
        spec_page_ancestors(secs, content, walk.last())
    })
    &&& opt_view(r.template) == (match template {
        Some(t) => Some(t),
        None => walk_template(secs, content, walk),
    })
}

/// What ordering reads of the pages at the positions `idx`, in that order.
pub open spec fn members<'a>(pages: Seq<LibraryPage<'a>>, idx: Seq<usize>) -> Seq<SortablePage<'a>> {
    idx.map_values(|k: usize| pages[k as int].sortable)
}

/// Whether `list` is the list of a section whose pages are `ms`, sorted by `sort_by`: the pages
/// in their order for a section that is not sorted; else the sorted pages with the field and
/// the others in their order, or nothing where two texts it sorts by cannot be compared.
pub open spec fn section_list<'a>(ms: Seq<SortablePage<'a>>, sort_by: SortBy, list: Option<(Vec<String>, Vec<String>)>) -> bool {
    if sort_by is Unsorted {
        list matches Some(l) && strings_view(l.0@) == ms.map_values(|p: SortablePage<'a>| p.path@)
            && l.1@.len() == 0
    } else {
        &&& (list is Some <==> texts_comparable(sortable_entries(ms, sort_by), sort_by))
        &&& list matches Some(l) ==> {
            &&& l.1@.map_values(|s: String| s@) == unsortable_paths(ms, sort_by)
            &&& exists|e: Seq<SortEntry<'a>>|
                #[trigger] e.to_multiset() == sortable_entries(ms, sort_by).to_multiset()
                && sorted_by(e, |x: SortEntry<'a>, y: SortEntry<'a>| entry_lt(sort_by, x, y))
                && l.0@.map_values(|s: String| s@) == e.map_values(|x: SortEntry<'a>| x.0@)
        }
    }
}

/// Whether `sibs` are the neighbours a section hands its pages: for a sorted section that is
/// not transparent, the previous and next page of each of its sorted pages; else none.
pub open spec fn section_siblings(sort_by: SortBy, transparent: bool, list: Option<(Vec<String>, Vec<String>)>, sibs: Seq<(Option<String>, Option<String>)>) -> bool {
    if !(sort_by is Unsorted) && !transparent && list is Some {
        let sorted = list.unwrap().0@;
        &&& sibs.len() == sorted.len()
        &&& forall|i: int| 0 <= i < sorted.len() ==> {
            &&& opt_view((#[trigger] sibs[i]).0) == (if i > 0 { Some(sorted[i - 1]@) } else { None })
            &&& opt_view(sibs[i].1) == (if i + 1 < sorted.len() { Some(sorted[i + 1]@) } else { None })
        }
    } else {
        sibs.len() == 0
    }
}

/// Whether `r` is the library populated from the sections `secs`, sorted as `sort_by` asks for
/// the section at the same position, and the pages `pages`, the folder of the content being
/// `content` and the site's language `default_language`: where every section and page goes,
/// the pages each section lists, each section's list of pages and the neighbours it names.
pub open spec fn populated<'a>(
    secs: Seq<SectionEntry>,
    sort_by: Seq<SortBy>,
    content: Seq<char>,
    default_language: Seq<char>,
    pages: Seq<LibraryPage<'a>>,
    r: PopulatedLibrary,
) -> bool {
    &&& sort_by.len() == secs.len()
    &&& r.sections@.len() == secs.len()
    &&& forall|i: int| 0 <= i < secs.len() ==> placed(secs, content, secs[i], #[trigger] r.sections@[i])
    &&& r.pages@.len() == pages.len()
    &&& forall|i: int| 0 <= i < pages.len() ==> page_placed(secs, content, pages[i].parent@,
        spec_index_filename(pages[i].lang@, default_language), opt_view(pages[i].template), #[trigger] r.pages@[i])
    &&& r.listed@.len() == secs.len()
    &&& forall|i: int| 0 <= i < secs.len() ==> (#[trigger] r.listed@[i])@.map_values(|k: usize| k as int) == pages_listed_in(r.pages@, secs[i].path@)
    &&& r.lists@.len() == secs.len()
    &&& forall|i: int| 0 <= i < secs.len() ==> section_list(members(pages, r.listed@[i]@), sort_by[i], #[trigger] r.lists@[i])
    &&& r.siblings@.len() == secs.len()
    &&& forall|i: int| 0 <= i < secs.len() ==> section_siblings(sort_by[i], secs[i].transparent, r.lists@[i], (#[trigger] r.siblings@[i])@)
}

/// Populates the library: places every section (its ancestors and subsections) and every page
/// (the sections listing it, its ancestors and its template), gives each section its pages, sorts
/// them as `sort_by` asks for the section at the same position, and names the neighbours of the
/// pages of each sorted section that is not transparent. `content` is the folder of the content
/// and `default_language` the site's language.
pub fn populate_library<'a>(
    secs: &Vec<SectionEntry>,
    sort_by: &Vec<SortBy>,
    content: &str,
    default_language: &str,
    pages: &Vec<LibraryPage<'a>>,
) -> (r: PopulatedLibrary)
    requires
        sort_by@.len() == secs@.len(),
    ensures
        populated(secs@, sort_by@, content@, default_language@, pages@, r),
{
    let sections = populate_sections(secs, content);
    let mut places: Vec<PagePlace> = Vec::new();
    let mut i: usize = 0;
    while i < pages.len()
        invariant
            i <= pages@.len(),
            places@.len() == i,
            forall|t: int| 0 <= t < i ==> page_placed(secs@, content@, pages@[t].parent@,
                spec_index_filename(pages@[t].lang@, default_language@), opt_view(pages@[t].template), #[trigger] places@[t]),
        decreases pages.len() - i,
    {
        let p = &pages[i];
        let fname = index_filename(p.lang.as_str(), default_language);
        let template = match &p.template {
            Some(t) => Some(t.clone()),
            None => None,
        };
        let place = place_page(secs, content, p.parent.as_str(), fname.as_str(), template);
        places.push(place);
        i += 1;
    }
    let listed = section_pages(secs, &places);
    let mut lists: Vec<Option<(Vec<String>, Vec<String>)>> = Vec::new();
    let mut siblings: Vec<Vec<(Option<String>, Option<String>)>> = Vec::new();
    let mut k: usize = 0;
    while k < secs.len()
        invariant
            k <= secs@.len(),
            sort_by@.len() == secs@.len(),
            places@.len() == pages@.len(),
            listed@.len() == secs@.len(),
            forall|t: int| 0 <= t < secs@.len()
                ==> (#[trigger] listed@[t])@.map_values(|q: usize| q as int) == pages_listed_in(places@, secs@[t].path@),
            lists@.len() == k,
            siblings@.len() == k,
            forall|t: int| 0 <= t < k ==> section_list(members(pages@, listed@[t]@), sort_by@[t], #[trigger] lists@[t]),
            forall|t: int| 0 <= t < k ==> section_siblings(sort_by@[t], secs@[t].transparent, lists@[t], (#[trigger] siblings@[t])@),
        decreases secs.len() - k,
    {
        let idx = &listed[k];
        proof {
            lemma_listed_below(places@, secs@[k as int].path@);
            assert forall|t: int| 0 <= t < idx@.len() implies (#[trigger] idx@[t]) < pages@.len() by {
                assert(idx@.map_values(|q: usize| q as int)[t] == idx@[t] as int);
            }
        }
        let mut ms: Vec<SortablePage<'a>> = Vec::new();
        let mut j: usize = 0;
        while j < idx.len()
            invariant
                j <= idx@.len(),
                forall|t: int| 0 <= t < idx@.len() ==> (#[trigger] idx@[t]) < pages@.len(),
                ms@ == members(pages@, idx@.take(j as int)),
            decreases idx.len() - j,
        {
            ms.push(pages[idx[j]].sortable);
            assert(members(pages@, idx@.take(j + 1)) =~= members(pages@, idx@.take(j as int)).push(pages@[idx@[j as int] as int].sortable));
            j += 1;
        }
        assert(idx@.take(idx@.len() as int) =~= idx@);
        let sb = sort_by[k];
        let list = if sb == SortBy::Unsorted {
            let mut paths: Vec<String> = Vec::new();
            let mut j: usize = 0;
            while j < ms.len()
                invariant
                    j <= ms@.len(),
                    strings_view(paths@) == ms@.take(j as int).map_values(|p: SortablePage<'a>| p.path@),
                decreases ms.len() - j,
            {
                paths.push(String::from_str(ms[j].path));
                assert(ms@.take(j + 1).map_values(|p: SortablePage<'a>| p.path@)
                    =~= ms@.take(j as int).map_values(|p: SortablePage<'a>| p.path@).push(ms@[j as int].path@));
                j += 1;
            }
            assert(ms@.take(ms@.len() as int) =~= ms@);
            Some((paths, Vec::new()))
        } else {
            try_sort_pages(ms.as_slice(), sb)
        };
        let sibs = if sb != SortBy::Unsorted && !secs[k].transparent {
            match &list {
                Some(l) => page_siblings(&l.0),
                None => Vec::new(),
            }
        } else {
            Vec::new()
        };
        lists.push(list);
        siblings.push(sibs);
        k += 1;
    }
    PopulatedLibrary { sections, pages: places, listed, lists, siblings }
}

/// What a page or a section claims of the site's paths: its file, its URL path and its
/// aliases; a section that is not rendered claims nothing.
pub struct PathClaim {
    pub file: String,
    pub path: String,
    pub aliases: Vec<String>,
    pub rendered: bool,
}

/// Whether `c` claims the path `a`: it is rendered, and `a` is its URL path or one of its
/// aliases.
pub open spec fn claims_path(c: PathClaim, a: Seq<char>) -> bool {
    c.rendered && (c.path@ == a || strings_view(c.aliases@).contains(a))
}

/// The files among `cs` that claim the path `a`.
pub open spec fn claimants(cs: Seq<PathClaim>, a: Seq<char>) -> Set<Seq<char>> {
    Set::new(|f: Seq<char>| exists|i: int| 0 <= i < cs.len() && #[trigger] cs[i].file@ == f && claims_path(cs[i], a))
}

/// The paths of the site claimed by more than one page or section, each reported once with the
/// files claiming it: exactly the paths that two files or more claim.
pub fn find_library_collisions(cs: &Vec<PathClaim>) -> (r: Vec<(String, Vec<String>)>)
    ensures
        forall|i: int| 0 <= i < r@.len() ==> {
            &&& strings_view((#[trigger] r@[i]).1@).no_duplicates()
            &&& strings_view(r@[i].1@).to_set() == claimants(cs@, r@[i].0@)
            &&& r@[i].1@.len() > 1
        },
        forall|i: int, j: int| 0 <= i < j < r@.len() ==> (#[trigger] r@[i]).0@ != (#[trigger] r@[j]).0@,
        forall|a: Seq<char>| claimants(cs@, a).len() > 1 ==> exists|i: int| 0 <= i < r@.len() && (#[trigger] r@[i]).0@ == a,
{
    let mut claims: Vec<(String, String)> = Vec::new();
    let mut i: usize = 0;
    while i < cs.len()
        invariant
            i <= cs@.len(),
            forall|a: Seq<char>| #[trigger] claimed_by(claims@, a) == claimants(cs@.take(i as int), a),
        decreases cs.len() - i,
    {
        let ghost old_claims = claims@;
        let c = &cs[i];
        claim_paths(&mut claims, c.file.as_str(), c.path.as_str(), &c.aliases, c.rendered);
        proof {
            let t0 = cs@.take(i as int);
            let t1 = cs@.take(i + 1);
            assert forall|a: Seq<char>| #[trigger] claimed_by(claims@, a) == claimants(t1, a) by {
                assert forall|f: Seq<char>| claimed_by(claims@, a).contains(f) <==> claimants(t1, a).contains(f) by {
                    if claimed_by(claims@, a).contains(f) {
                        let k = choose|k: int| 0 <= k < claims@.len() && #[trigger] claims@[k].0@ == a && claims@[k].1@ == f;
                        if k < old_claims.len() {
                            assert(claims@[k] == old_claims[k]);
                            assert(claimed_by(old_claims, a).contains(f));
                            assert(claimants(t0, a).contains(f));
                            let j = choose|j: int| 0 <= j < t0.len() && #[trigger] t0[j].file@ == f && claims_path(t0[j], a);
                            assert(t1[j] == t0[j]);
                        } else {
                            assert(c.rendered);
                            assert(t1[i as int] == *c);
                            if k == old_claims.len() {
                                assert(claims_path(*c, a));
                            } else {
                                let q = k - old_claims.len() - 1;
                                assert(claims@[old_claims.len() + 1 + q].0@ == c.aliases@[q]@);
                                assert(strings_view(c.aliases@)[q] == a);
                                assert(claims_path(*c, a));
                            }
                            assert(t1[i as int].file@ == f);
                        }
                    }
                    if claimants(t1, a).contains(f) {
                        let j = choose|j: int| 0 <= j < t1.len() && #[trigger] t1[j].file@ == f && claims_path(t1[j], a);
                        if j < i {
                            assert(t0[j] == t1[j]);
                            assert(claimants(t0, a).contains(f));
                            assert(claimed_by(old_claims, a).contains(f));
                            let k = choose|k: int| 0 <= k < old_claims.len() && #[trigger] old_claims[k].0@ == a && old_claims[k].1@ == f;
                            assert(claims@[k] == old_claims[k]);
                            assert(claimed_upto(claims@, a, claims@.len() as int).contains(f));
                        } else {
                            assert(t1[j] == *c);
                            if c.path@ == a {
                                let k = old_claims.len() as int;
                                assert(claims@[k].0@ == a && claims@[k].1@ == f);
                                assert(claimed_upto(claims@, a, claims@.len() as int).contains(f));
                            } else {
                                let q = choose|q: int| 0 <= q < strings_view(c.aliases@).len() && strings_view(c.aliases@)[q] == a;
                                let k = old_claims.len() + 1 + q;
                                assert(claims@[k].0@ == a && claims@[k].1@ == f);
                                assert(claimed_upto(claims@, a, claims@.len() as int).contains(f));
                            }
                        }
                    }
                }
                assert(claimed_by(claims@, a) =~= claimants(t1, a));
            }
        }
        i += 1;
    }
    assert(cs@.take(cs@.len() as int) =~= cs@);
    let r = find_path_collisions(&claims);
    assert forall|a: Seq<char>| claimants(cs@, a).len() > 1 implies exists|i: int| 0 <= i < r@.len() && (#[trigger] r@[i]).0@ == a by {
        assert(claimed_by(claims@, a) == claimants(cs@, a));
        let f = claimed_by(claims@, a).choose();
        assert(claimed_by(claims@, a).contains(f));
        let k = choose|k: int| 0 <= k < claims@.len() && #[trigger] claims@[k].0@ == a && claims@[k].1@ == f;
        assert(claimed_by(claims@, claims@[k].0@).len() > 1);
    }
    assert forall|i: int| 0 <= i < r@.len() implies strings_view((#[trigger] r@[i]).1@).to_set() == claimants(cs@, r@[i].0@) by {
        assert(claimed_by(claims@, r@[i].0@) == claimants(cs@, r@[i].0@));
    }
    r
}

/// The texts of a section's list.
pub open spec fn list_view(l: Option<(Vec<String>, Vec<String>)>) -> Option<(Seq<Seq<char>>, Seq<Seq<char>>)> {
    match l {
        Some(x) => Some((strings_view(x.0@), strings_view(x.1@))),
        None => None,
    }
}

/// The texts of the neighbours a section names.
pub open spec fn siblings_view(s: Seq<(Option<String>, Option<String>)>) -> Seq<(Option<Seq<char>>, Option<Seq<char>>)> {
    s.map_values(|p: (Option<String>, Option<String>)| (opt_view(p.0), opt_view(p.1)))
}

/// Whether the order of `sort_by` tells apart any two distinct entries of `es` (no two of
/// them tie on the sort field and the permalink).
pub open spec fn order_decides<'a>(es: Seq<SortEntry<'a>>, sort_by: SortBy) -> bool {
    forall|x: SortEntry<'a>, y: SortEntry<'a>| es.contains(x) && es.contains(y) && x != y
        ==> entry_lt(sort_by, x, y) || entry_lt(sort_by, y, x)
}

/// Sections ordered by weight, those of equal weight in their order among the sections.
pub open spec fn weight_then_position(secs: Seq<SectionEntry>) -> spec_fn(usize, usize) -> bool {
    |x: usize, y: usize| secs[x as int].weight < secs[y as int].weight
        || (secs[x as int].weight == secs[y as int].weight && x < y)
}

/// The subsections of a section come in one order only.
proof fn lemma_subsections_unique(secs: Seq<SectionEntry>, path: Seq<char>, o1: Seq<usize>, o2: Seq<usize>)
    requires
        o1.to_multiset() == child_indices(secs, path).to_multiset(),
        o2.to_multiset() == child_indices(secs, path).to_multiset(),
        by_weight(secs, o1) && stable_by_weight(secs, o1),
        by_weight(secs, o2) && stable_by_weight(secs, o2),
    ensures
        o1 == o2,
{
    let lt = weight_then_position(secs);
    assert forall|i: int, j: int| 0 <= i < j < o1.len() implies !lt(o1[j], o1[i]) by {
        assert(secs[o1[i] as int].weight <= secs[o1[j] as int].weight);
        if secs[o1[i] as int].weight == secs[o1[j] as int].weight {
            assert(o1[i] < o1[j]);
        }
    }
    assert forall|i: int, j: int| 0 <= i < j < o2.len() implies !lt(o2[j], o2[i]) by {
        assert(secs[o2[i] as int].weight <= secs[o2[j] as int].weight);
        if secs[o2[i] as int].weight == secs[o2[j] as int].weight {
            assert(o2[i] < o2[j]);
        }
    }
    lemma_sorted_unique(o1, o2, lt);
}

/// Places whose sections read the same list the same pages.
proof fn lemma_listed_same(p1: Seq<PagePlace>, p2: Seq<PagePlace>, path: Seq<char>)
    requires
        p1.len() == p2.len(),
        forall|i: int| 0 <= i < p1.len() ==> strings_view((#[trigger] p1[i]).sections@) == strings_view(p2[i].sections@),
    ensures
        pages_listed_in(p1, path) == pages_listed_in(p2, path),
    decreases p1.len(),
{
    if p1.len() > 0 {
        lemma_listed_same(p1.drop_last(), p2.drop_last(), path);
        assert(p1.last() == p1[p1.len() - 1]);
    }
}

/// Populating the same library a second time builds the same tree: the same places for every
/// section and page, the same pages listed by every section, and, for every section that is not
/// sorted or whose order tells its pages apart, the same list and the same neighbours; whether a
/// section could be sorted is the same too. (The call builds everything anew from its inputs;
/// nothing of an earlier population is carried over.)
pub proof fn lemma_populate_again<'a>(
    secs: Seq<SectionEntry>,
    sort_by: Seq<SortBy>,
    content: Seq<char>,
    default_language: Seq<char>,
    pages: Seq<LibraryPage<'a>>,
    r1: PopulatedLibrary,
    r2: PopulatedLibrary,
)
    requires
        populated(secs, sort_by, content, default_language, pages, r1),
        populated(secs, sort_by, content, default_language, pages, r2),
    ensures
        forall|i: int| 0 <= i < secs.len() ==> {
            &&& strings_view((#[trigger] r1.sections@[i]).ancestors@) == strings_view(r2.sections@[i].ancestors@)
            &&& strings_view(r1.sections@[i].subsections@) == strings_view(r2.sections@[i].subsections@)
        },
        forall|i: int| 0 <= i < pages.len() ==> {
            &&& strings_view((#[trigger] r1.pages@[i]).sections@) == strings_view(r2.pages@[i].sections@)
            &&& strings_view(r1.pages@[i].ancestors@) == strings_view(r2.pages@[i].ancestors@)
            &&& opt_view(r1.pages@[i].template) == opt_view(r2.pages@[i].template)
        },
        forall|i: int| 0 <= i < secs.len() ==> (#[trigger] r1.listed@[i])@ == r2.listed@[i]@,
        forall|i: int| 0 <= i < secs.len() ==> ((#[trigger] r1.lists@[i]) is Some <==> r2.lists@[i] is Some),
        forall|i: int| 0 <= i < secs.len() && (sort_by[i] is Unsorted
            || order_decides(sortable_entries(members(pages, r1.listed@[i]@), sort_by[i]), sort_by[i]))
            ==> list_view(#[trigger] r1.lists@[i]) == list_view(r2.lists@[i])
                && siblings_view(r1.siblings@[i]@) == siblings_view(r2.siblings@[i]@),
{
    assert forall|i: int| 0 <= i < secs.len() implies {
        &&& strings_view((#[trigger] r1.sections@[i]).ancestors@) == strings_view(r2.sections@[i].ancestors@)
        &&& strings_view(r1.sections@[i].subsections@) == strings_view(r2.sections@[i].subsections@)
    } by {
        assert(placed(secs, content, secs[i], r1.sections@[i]));
        assert(placed(secs, content, secs[i], r2.sections@[i]));
        let o1 = choose|order: Seq<usize>|
            #[trigger] order.to_multiset() == child_indices(secs, secs[i].path@).to_multiset()
            && by_weight(secs, order) && stable_by_weight(secs, order) && in_bounds(secs, order)
            && strings_view(r1.sections@[i].subsections@) == paths_at(secs, order);
        let o2 = choose|order: Seq<usize>|
            #[trigger] order.to_multiset() == child_indices(secs, secs[i].path@).to_multiset()
            && by_weight(secs, order) && stable_by_weight(secs, order) && in_bounds(secs, order)
            && strings_view(r2.sections@[i].subsections@) == paths_at(secs, order);
        lemma_subsections_unique(secs, secs[i].path@, o1, o2);
    }
    assert forall|i: int| 0 <= i < pages.len() implies {
        &&& strings_view((#[trigger] r1.pages@[i]).sections@) == strings_view(r2.pages@[i].sections@)
        &&& strings_view(r1.pages@[i].ancestors@) == strings_view(r2.pages@[i].ancestors@)
        &&& opt_view(r1.pages@[i].template) == opt_view(r2.pages@[i].template)
    } by {
        let fname = spec_index_filename(pages[i].lang@, default_language);
        assert(page_placed(secs, content, pages[i].parent@, fname, opt_view(pages[i].template), r1.pages@[i]));
        assert(page_placed(secs, content, pages[i].parent@, fname, opt_view(pages[i].template), r2.pages@[i]));
    }
    assert forall|i: int| 0 <= i < secs.len() implies (#[trigger] r1.listed@[i])@ == r2.listed@[i]@ by {
        lemma_listed_same(r1.pages@, r2.pages@, secs[i].path@);
        let m1 = r1.listed@[i]@.map_values(|k: usize| k as int);
        let m2 = r2.listed@[i]@.map_values(|k: usize| k as int);
        assert(m1 == m2);
        assert forall|t: int| 0 <= t < r1.listed@[i]@.len() implies r1.listed@[i]@[t] == r2.listed@[i]@[t] by {
            assert(m1[t] == r1.listed@[i]@[t] as int);
            assert(m2[t] == r2.listed@[i]@[t] as int);
        }
        assert(r1.listed@[i]@ =~= r2.listed@[i]@);
    }
    assert forall|i: int| 0 <= i < secs.len() implies
        ((#[trigger] r1.lists@[i]) is Some <==> r2.lists@[i] is Some)
        && ((sort_by[i] is Unsorted
            || order_decides(sortable_entries(members(pages, r1.listed@[i]@), sort_by[i]), sort_by[i]))
            ==> list_view(r1.lists@[i]) == list_view(r2.lists@[i])
                && siblings_view(r1.siblings@[i]@) == siblings_view(r2.siblings@[i]@)) by {
        assert(r1.listed@[i]@ == r2.listed@[i]@);
        let ms = members(pages, r1.listed@[i]@);
        let sb = sort_by[i];
        assert(section_list(ms, sb, r1.lists@[i]));
        assert(section_list(ms, sb, r2.lists@[i]));
        if sb is Unsorted || order_decides(sortable_entries(ms, sb), sb) {
            if r1.lists@[i] is Some {
                let l1 = r1.lists@[i].unwrap();
                let l2 = r2.lists@[i].unwrap();
                if !(sb is Unsorted) {
                    let e1 = choose|e: Seq<SortEntry<'a>>|
                        #[trigger] e.to_multiset() == sortable_entries(ms, sb).to_multiset()
                        && sorted_by(e, |x: SortEntry<'a>, y: SortEntry<'a>| entry_lt(sb, x, y))
                        && l1.0@.map_values(|s: String| s@) == e.map_values(|x: SortEntry<'a>| x.0@);
                    let e2 = choose|e: Seq<SortEntry<'a>>|
                        #[trigger] e.to_multiset() == sortable_entries(ms, sb).to_multiset()
                        && sorted_by(e, |x: SortEntry<'a>, y: SortEntry<'a>| entry_lt(sb, x, y))
                        && l2.0@.map_values(|s: String| s@) == e.map_values(|x: SortEntry<'a>| x.0@);
                    broadcast use vstd::seq_lib::group_to_multiset_ensures;
                    assert forall|x: SortEntry<'a>, y: SortEntry<'a>| e1.contains(x) && e1.contains(y) && x != y
                        implies entry_lt(sb, x, y) || entry_lt(sb, y, x) by {
                        vstd::seq_lib::to_multiset_contains(e1, x);
                        vstd::seq_lib::to_multiset_contains(e1, y);
                        vstd::seq_lib::to_multiset_contains(sortable_entries(ms, sb), x);
                        vstd::seq_lib::to_multiset_contains(sortable_entries(ms, sb), y);
                    }
                    lemma_sorted_unique(e1, e2, |x: SortEntry<'a>, y: SortEntry<'a>| entry_lt(sb, x, y));
                }
                assert(list_view(r1.lists@[i]) == list_view(r2.lists@[i]));
                let sorted1 = l1.0@;
                let sorted2 = l2.0@;
                let s1 = r1.siblings@[i]@;
                let s2 = r2.siblings@[i]@;
                assert(strings_view(sorted1) == strings_view(sorted2));
                assert(strings_view(sorted1).len() == sorted1.len());
                assert(strings_view(sorted2).len() == sorted2.len());
                if !(sb is Unsorted) && !secs[i].transparent {
                    assert forall|t: int| 0 <= t < s1.len() implies #[trigger] siblings_view(s1)[t] == siblings_view(s2)[t] by {
                        if t > 0 {
                            assert(strings_view(sorted1)[t - 1] == sorted1[t - 1]@);
                            assert(strings_view(sorted2)[t - 1] == sorted2[t - 1]@);
                        }
                        if t + 1 < sorted1.len() {
                            assert(strings_view(sorted1)[t + 1] == sorted1[t + 1]@);
                            assert(strings_view(sorted2)[t + 1] == sorted2[t + 1]@);
                        }
                    }
                }
                assert(siblings_view(s1) =~= siblings_view(s2));
            } else {
                assert(siblings_view(r1.siblings@[i]@) =~= siblings_view(r2.siblings@[i]@));
            }
        }
    }
}

} // verus!
