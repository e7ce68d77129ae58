//! What templates are handed about a page and the pages related to it.
use vstd::prelude::*;

use crate::config::merge::TomlValue;
use crate::content::headings::Heading;
use crate::content::page::Page;
use crate::content::section::Section;
use crate::sorting::{compare_strs, lemma_lex_order, lex_lt};
use core::cmp::Ordering;

verus! {

/// A page or section that links to the current one.
#[derive(Clone, Copy, Debug, PartialEq, Eq)]
pub struct BackLink<'a> {
    pub permalink: &'a str,
    pub title: &'a Option<String>,
}

/// The same content in another language.
#[derive(Clone, Debug, PartialEq, Eq)]
pub struct TranslatedContent<'a> {
    pub lang: &'a str,
    pub permalink: &'a str,
    pub title: &'a Option<String>,
    /// The path to the markdown file
    pub path: &'a str,
}

/// Whether the backlinks come in the order of their permalinks.
pub open spec fn by_permalink<'a>(s: Seq<BackLink<'a>>) -> bool {
    forall|i: int, j: int| 0 <= i < j < s.len() ==> !lex_lt((#[trigger] s[j]).permalink@, (#[trigger] s[i]).permalink@)
}

/// The backlinks of a page or section, from the pages and sections linking to it, ordered by
/// permalink; those with the same permalink keep their order.
pub fn find_backlinks<'a>(links: Vec<BackLink<'a>>) -> (r: Vec<BackLink<'a>>)
    ensures
        r@.to_multiset() == links@.to_multiset(),
        by_permalink(r@),
{
    broadcast use vstd::seq_lib::group_to_multiset_ensures;
    let mut out: Vec<BackLink<'a>> = Vec::new();
    let mut i: usize = 0;
    while i < links.len()
        invariant
            i <= links@.len(),
            out@.to_multiset() == links@.take(i as int).to_multiset(),
            by_permalink(out@),
        decreases links.len() - i,
    {
        let x = links[i];
        let mut pos: usize = 0;
        while pos < out.len() && !str_before(x.permalink, out[pos].permalink)
            invariant
                pos <= out@.len(),
                forall|j: int| 0 <= j < pos ==> !lex_lt(x.permalink@, (#[trigger] out@[j]).permalink@),
            decreases out.len() - pos,
        {
            pos += 1;
        }
        let ghost before = out@;
        proof {
            vstd::seq_lib::to_multiset_insert(before, pos as int, x);
            assert(links@.take(i + 1) =~= links@.take(i as int).push(x));
            vstd::seq_lib::to_multiset_build(links@.take(i as int), x);
        }
        out.insert(pos, x);
        assert(out@ =~= before.insert(pos as int, x));
        assert forall|a: int, b: int| 0 <= a < b < out@.len() implies
            !lex_lt((#[trigger] out@[b]).permalink@, (#[trigger] out@[a]).permalink@) by {
            if b < pos {
                assert(out@[a] == before[a] && out@[b] == before[b]);
            } else if b == pos {
                assert(out@[a] == before[a]);
            } else if a < pos {
                assert(out@[a] == before[a] && out@[b] == before[b - 1]);
            } else if a == pos {
                assert(out@[b] == before[b - 1]);
                lemma_lex_order(before[b - 1].permalink@, x.permalink@, before[pos as int].permalink@);
                lemma_lex_order(before[pos as int].permalink@, before[pos as int].permalink@, before[pos as int].permalink@);
            } else {
                assert(out@[a] == before[a - 1] && out@[b] == before[b - 1]);
            }
        }
        i += 1;
    }
    assert(links@.take(links@.len() as int) =~= links@);
    out
}

/// Whether `a` comes strictly before `b` in the order of `str`.
fn str_before(a: &str, b: &str) -> (r: bool)
    ensures
        r == lex_lt(a@, b@),
{
    match compare_strs(a, b) {
        Ordering::Less => true,
        _ => false,
    }
}

/// What templates are handed about a page.
pub struct SerializingPage<'a> {
    pub relative_path: &'a str,
    pub content: &'a str,
    pub permalink: &'a str,
    pub slug: &'a str,
    pub ancestors: &'a Vec<String>,
    pub title: &'a Option<String>,
    pub description: &'a Option<String>,
    pub updated: &'a Option<String>,
    pub date: &'a Option<String>,
    pub year: Option<i32>,
    pub month: Option<u32>,
    pub day: Option<u32>,
    pub taxonomies: &'a Vec<(String, Vec<String>)>,
    pub authors: &'a Vec<String>,
    pub extra: &'a Vec<(String, TomlValue)>,
    pub path: &'a str,
    pub components: &'a Vec<String>,
    pub summary: &'a Option<String>,
    pub toc: &'a Vec<Heading>,
    pub word_count: Option<usize>,
    pub reading_time: Option<usize>,
    pub assets: &'a Vec<String>,
    pub draft: bool,
    pub lang: &'a str,
    /// The page before this one when sorted; left empty here
    pub lower: Option<&'a str>,
    /// The page after this one when sorted; left empty here
    pub higher: Option<&'a str>,
    pub translations: Vec<TranslatedContent<'a>>,
    pub backlinks: Vec<BackLink<'a>>,
}

impl<'a> SerializingPage<'a> {
    /// What templates see of `page`: its fields, its date split into year, month and day, and
    /// the `translations` and `backlinks` that the library finds for it.
    pub fn new(page: &'a Page, translations: Vec<TranslatedContent<'a>>, backlinks: Vec<BackLink<'a>>) -> (s: Self)
        ensures
            s.relative_path@ == page.file.relative@,
            s.content@ == page.content@,
            s.permalink@ == page.permalink@,
            s.slug@ == page.slug@,
            *s.ancestors == page.ancestors,
            *s.title == page.meta.title,
            *s.description == page.meta.description,
            *s.updated == page.meta.updated,
            *s.date == page.meta.date,
            match page.meta.datetime_tuple {
                Some(d) => s.year == Some(d.0) && s.month == Some(d.1) && s.day == Some(d.2),
                None => s.year is None && s.month is None && s.day is None,
            },
            *s.taxonomies == page.meta.taxonomies,
            *s.authors == page.meta.authors,
            *s.extra == page.meta.extra,
            s.path@ == page.path@,
            *s.components == page.components,
            *s.summary == page.summary,
            *s.toc == page.toc,
            s.word_count == page.word_count,
            s.reading_time == page.reading_time,
            *s.assets == page.serialized_assets,
            s.draft == page.meta.draft,
            s.lang@ == page.lang@,
            s.lower is None && s.higher is None,
            s.translations == translations,
            s.backlinks == backlinks,
    {
        let (year, month, day) = match page.meta.datetime_tuple {
            Some(d) => (Some(d.0), Some(d.1), Some(d.2)),
            None => (None, None, None),
        };
        SerializingPage {
            relative_path: page.file.relative.as_str(),
            content: page.content.as_str(),
            permalink: page.permalink.as_str(),
            slug: page.slug.as_str(),
            ancestors: &page.ancestors,
            title: &page.meta.title,
            description: &page.meta.description,
            updated: &page.meta.updated,
            date: &page.meta.date,
            year,
            month,
            day,
            taxonomies: &page.meta.taxonomies,
            authors: &page.meta.authors,
            extra: &page.meta.extra,
            path: page.path.as_str(),
            components: &page.components,
            summary: &page.summary,
            toc: &page.toc,
            word_count: page.word_count,
            reading_time: page.reading_time,
            assets: &page.serialized_assets,
            draft: page.meta.draft,
            lang: page.lang.as_str(),
            lower: None,
            higher: None,
            translations,
            backlinks,
        }
    }
}

/// What templates are handed about a section.
pub struct SerializingSection<'a> {
    pub relative_path: &'a str,
    pub content: &'a str,
    pub permalink: &'a str,
    /// The relative paths of the sections above it, from the index section down
    pub ancestors: Vec<String>,
    pub title: &'a Option<String>,
    pub description: &'a Option<String>,
    pub extra: &'a Option<Vec<(String, TomlValue)>>,
    pub path: &'a str,
    pub components: &'a Vec<String>,
    pub toc: &'a Vec<Heading>,
    pub word_count: Option<usize>,
    pub reading_time: Option<usize>,
    pub lang: &'a str,
    pub assets: &'a Vec<String>,
    /// What templates are handed about each of its pages
    pub pages: Vec<SerializingPage<'a>>,
    /// The paths of its direct subsections
    pub subsections: Vec<String>,
    pub translations: Vec<TranslatedContent<'a>>,
}

impl<'a> SerializingSection<'a> {
    /// What templates see of `section`: its fields, with the relative paths of its
    /// `ancestors` and the paths of its `subsections` (where the library placed it, see
    /// `SectionPlace`), its `pages` as templates see them (empty for the short form that lists
    /// no pages), and its `translations`.
    pub fn new(
        section: &'a Section,
        ancestors: Vec<String>,
        pages: Vec<SerializingPage<'a>>,
        subsections: Vec<String>,
        translations: Vec<TranslatedContent<'a>>,
    ) -> (s: Self)
        ensures
            s.relative_path@ == section.file.relative@,
            s.content@ == section.content@,
            s.permalink@ == section.permalink@,
            s.ancestors == ancestors,
            *s.title == section.meta.title,
            *s.description == section.meta.description,
            *s.extra == section.meta.extra,
            s.path@ == section.path@,
            *s.components == section.components,
            *s.toc == section.toc,
            s.word_count == section.word_count,
            s.reading_time == section.reading_time,
            s.lang@ == section.lang@,
            *s.assets == section.serialized_assets,
            s.pages == pages,
            s.subsections == subsections,
            s.translations == translations,
    {
        SerializingSection {
            relative_path: section.file.relative.as_str(),
            content: section.content.as_str(),
            permalink: section.permalink.as_str(),
            ancestors,
            title: &section.meta.title,
            description: &section.meta.description,
            extra: &section.meta.extra,
            path: section.path.as_str(),
            components: &section.components,
            toc: &section.toc,
            word_count: section.word_count,
            reading_time: section.reading_time,
            lang: section.lang.as_str(),
            assets: &section.serialized_assets,
            pages,
            subsections,
            translations,
        }
    }
}

} // verus!
