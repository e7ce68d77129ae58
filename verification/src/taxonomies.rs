//! The terms of each taxonomy and the pages filed under them.
use core::cmp::Ordering;
use slotmap::DefaultKey;
use vstd::prelude::*;

use crate::config::site::{spec_make_permalink, Config};
use crate::config::taxonomies::TaxonomyConfig;
use crate::sorting::{
    compare_strs, date_lt, entry_keys, lemma_lex_order, lex_lt, sort_pages_by_date, sortable_entries,
    sorted_by, unsortable_keys,
};
use crate::text::str_eq;

verus! {

/// A taxonomy term with all its pages
#[derive(Debug, Clone)]
pub struct TaxonomyItem {
    pub name: String,
    pub slug: String,
    pub permalink: String,
    pub pages: Vec<DefaultKey>,
}

/// The texts and pages of a term.
pub struct ItemView {
    pub name: Seq<char>,
    pub slug: Seq<char>,
    pub permalink: Seq<char>,
    pub pages: Seq<DefaultKey>,
}

/// The view of a term.
pub open spec fn item_view(i: TaxonomyItem) -> ItemView {
    ItemView { name: i.name@, slug: i.slug@, permalink: i.permalink@, pages: i.pages@ }
}

/// The views of terms.
pub open spec fn items_view(s: Seq<TaxonomyItem>) -> Seq<ItemView> {
    s.map_values(|i: TaxonomyItem| item_view(i))
}

/// The path of a term below the site root: `/taxonomy/term`, under the language of the
/// taxonomy when it is not the default one.
pub open spec fn spec_term_path(lang: Seq<char>, default_language: Seq<char>, taxo_slug: Seq<char>, item_slug: Seq<char>) -> Seq<char> {
    if lang != default_language {
        "/"@ + lang + "/"@ + taxo_slug + "/"@ + item_slug
    } else {
        "/"@ + taxo_slug + "/"@ + item_slug
    }
}

impl TaxonomyItem {
    /// The term `name`, whose slug is `item_slug`, of the taxonomy whose slug is `taxo_slug`
    /// and whose language is `lang`. Its pages, given as (key, date, permalink), are sorted by
    /// date, most recent first, and those without date follow in their order.
    pub fn new<'a>(
        name: &str,
        item_slug: String,
        lang: &str,
        taxo_slug: &str,
        config: &Config,
        pages: Vec<(&'a DefaultKey, Option<(i32, u32, u32)>, &'a str)>,
    ) -> (t: TaxonomyItem)
        ensures
            t.name@ == name@,
            t.slug@ == item_slug@,
            t.permalink@ == spec_make_permalink(config.base_url@, config.feed_filename@,
                spec_term_path(lang@, config.default_language@, taxo_slug@, item_slug@)),
            exists|s: Seq<(DefaultKey, (i32, u32, u32), &'a str)>|
                #[trigger] s.to_multiset() == sortable_entries(pages@).to_multiset()
                && sorted_by(s, |x: (DefaultKey, (i32, u32, u32), &'a str), y: (DefaultKey, (i32, u32, u32), &'a str)| date_lt(x, y))
                && t.pages@ == entry_keys(s) + unsortable_keys(pages@),
    {
        let (mut sorted, ignored) = sort_pages_by_date(pages);
        let mut path = String::from_str("/");
        if !str_eq(lang, config.default_language.as_str()) {
            path.append(lang);
            path.append("/");
        }
        path.append(taxo_slug);
        path.append("/");
        path.append(item_slug.as_str());
        let permalink = config.make_permalink(path.as_str());
        // We still append pages without dates at the end
        let ghost first = sorted@;
        let mut i: usize = 0;
        while i < ignored.len()
            invariant
                i <= ignored@.len(),
                sorted@ == first + ignored@.take(i as int),
            decreases ignored.len() - i,
        {
            sorted.push(ignored[i]);
            assert(ignored@.take(i + 1) =~= ignored@.take(i as int).push(ignored@[i as int]));
            i += 1;
        }
        assert(ignored@.take(ignored@.len() as int) =~= ignored@);
        TaxonomyItem { name: String::from_str(name), permalink, slug: item_slug, pages: sorted }
    }

    /// Adds the pages of `other` after those of this term.
    pub fn merge(&mut self, other: TaxonomyItem)
        ensures
            final(self).pages@ == old(self).pages@ + other.pages@,
            final(self).name == old(self).name,
            final(self).slug == old(self).slug,
            final(self).permalink == old(self).permalink,
    {
        let mut i: usize = 0;
        let ghost first = self.pages@;
        while i < other.pages.len()
            invariant
                i <= other.pages@.len(),
                self.pages@ == first + other.pages@.take(i as int),
                self.name == old(self).name,
                self.slug == old(self).slug,
                self.permalink == old(self).permalink,
                first == old(self).pages@,
            decreases other.pages.len() - i,
        {
            self.pages.push(other.pages[i]);
            assert(other.pages@.take(i + 1) =~= other.pages@.take(i as int).push(other.pages@[i as int]));
            i += 1;
        }
        assert(other.pages@.take(other.pages@.len() as int) =~= other.pages@);
    }
}

/// A copy of a term.
fn copy_item(i: &TaxonomyItem) -> (r: TaxonomyItem)
    ensures
        item_view(r) == item_view(*i),
{
    let mut pages: Vec<DefaultKey> = Vec::new();
    let mut j: usize = 0;
    while j < i.pages.len()
        invariant
            j <= i.pages@.len(),
            pages@ == i.pages@.take(j as int),
        decreases i.pages.len() - j,
    {
        pages.push(i.pages[j]);
        assert(i.pages@.take(j + 1) =~= i.pages@.take(j as int).push(i.pages@[j as int]));
        j += 1;
    }
    assert(i.pages@.take(i.pages@.len() as int) =~= i.pages@);
    TaxonomyItem { name: i.name.clone(), slug: i.slug.clone(), permalink: i.permalink.clone(), pages }
}

/// Term order: by slug, then by name, each in the order of `str`.
pub open spec fn item_lt(a: TaxonomyItem, b: TaxonomyItem) -> bool {
    lex_lt(a.slug@, b.slug@) || (a.slug@ == b.slug@ && lex_lt(a.name@, b.name@))
}

/// Compares two terms in term order.
pub fn compare_items(a: &TaxonomyItem, b: &TaxonomyItem) -> (r: Ordering)
    ensures
        r == Ordering::Less <==> item_lt(*a, *b),
        r == Ordering::Greater <==> item_lt(*b, *a),
{
    proof {
        lemma_lex_order(a.slug@, b.slug@, b.slug@);
        lemma_lex_order(a.name@, b.name@, b.name@);
    }
    match compare_strs(a.slug.as_str(), b.slug.as_str()) {
        Ordering::Less => Ordering::Less,
        Ordering::Greater => Ordering::Greater,
        Ordering::Equal => compare_strs(a.name.as_str(), b.name.as_str()),
    }
}

/// Sorts terms with `slice::sort_by`, a stable sort; the comparator is a total order, for
/// which std documents that the slice ends up sorted. It only reorders the terms.
#[verifier::external_body]
fn sort_items(v: &mut Vec<TaxonomyItem>)
    ensures
        final(v)@.to_multiset() == old(v)@.to_multiset(),
        sorted_by(final(v)@, |x: TaxonomyItem, y: TaxonomyItem| item_lt(x, y)),
{
    v.sort_by(|a, b| compare_items(a, b));
}

/// Terms in order with the consecutive ones that share a permalink made into one, holding
/// the pages of all of them in order.
pub open spec fn dedup_merge(s: Seq<ItemView>) -> Seq<ItemView>
    decreases s.len(),
{
    if s.len() == 0 {
        Seq::empty()
    } else {
        let r = dedup_merge(s.drop_last());
        let x = s.last();
        if r.len() > 0 && r.last().permalink == x.permalink {
            let l = r.last();
            r.update(r.len() - 1, ItemView { pages: l.pages + x.pages, ..l })
        } else {
            r.push(x)
        }
    }
}

/// The pages of the terms, put end to end.
pub open spec fn all_pages(s: Seq<ItemView>) -> Seq<DefaultKey>
    decreases s.len(),
{
    if s.len() == 0 {
        Seq::empty()
    } else {
        all_pages(s.drop_last()) + s.last().pages
    }
}

/// Making terms with the same permalink into one loses no page and keeps their order, and
/// leaves no two neighbouring terms with the same permalink.
pub proof fn lemma_dedup_merge_keeps_pages(s: Seq<ItemView>)
    ensures
        all_pages(dedup_merge(s)) == all_pages(s),
        forall|i: int| 0 <= i < dedup_merge(s).len() - 1 ==>
            (#[trigger] dedup_merge(s)[i]).permalink != dedup_merge(s)[i + 1].permalink,
        dedup_merge(s).len() > 0 ==> dedup_merge(s).last().permalink == s.last().permalink,
    decreases s.len(),
{
    if s.len() > 0 {
        let init = s.drop_last();
        let x = s.last();
        let r = dedup_merge(init);
        lemma_dedup_merge_keeps_pages(init);
        if r.len() > 0 && r.last().permalink == x.permalink {
            let l = r.last();
            let m = ItemView { pages: l.pages + x.pages, ..l };
            let r2 = r.update(r.len() - 1, m);
            assert(r2.drop_last() =~= r.drop_last());
            assert(all_pages(r2) == all_pages(r.drop_last()) + m.pages);
            assert(all_pages(r.drop_last()) + (l.pages + x.pages) =~= (all_pages(r.drop_last()) + l.pages) + x.pages);
            assert forall|i: int| 0 <= i < r2.len() - 1 implies (#[trigger] r2[i]).permalink != r2[i + 1].permalink by {
                assert(r2[i] == r[i]);
                if i + 1 < r.len() - 1 {
                    assert(r2[i + 1] == r[i + 1]);
                }
            }
        } else {
            let r2 = r.push(x);
            assert(r2.drop_last() =~= r);
            assert forall|i: int| 0 <= i < r2.len() - 1 implies (#[trigger] r2[i]).permalink != r2[i + 1].permalink by {
                assert(r2[i] == r[i]);
                if i + 1 < r.len() {
                    assert(r2[i + 1] == r[i + 1]);
                }
            }
        }
    }
}

/// All different taxonomies we have and their content
#[derive(Debug, Clone)]
pub struct Taxonomy {
    pub kind: TaxonomyConfig,
    pub slug: String,
    /// The terms, by slug then name, one per permalink
    pub items: Vec<TaxonomyItem>,
}

impl Taxonomy {
    /// The taxonomy `kind`, whose slug is `slug`, with the terms `items`: they are sorted by
    /// slug then name, and terms with the same permalink are made into one holding the pages
    /// of all of them.
    pub fn new(kind: TaxonomyConfig, slug: String, items: Vec<TaxonomyItem>) -> (t: Taxonomy)
        ensures
            t.kind == kind,
            t.slug == slug,
            exists|s: Seq<TaxonomyItem>|
                #[trigger] s.to_multiset() == items@.to_multiset()
                && sorted_by(s, |x: TaxonomyItem, y: TaxonomyItem| item_lt(x, y))
                && items_view(t.items@) == dedup_merge(items_view(s)),
    {
        let mut sorted_items = items;
        sort_items(&mut sorted_items);
        let ghost s = sorted_items@;
        let mut out: Vec<TaxonomyItem> = Vec::new();
        let mut i: usize = 0;
        while i < sorted_items.len()
            invariant
                sorted_items@ == s,
                i <= s.len(),
                items_view(out@) == dedup_merge(items_view(s.take(i as int))),
            decreases sorted_items.len() - i,
        {
            let item = copy_item(&sorted_items[i]);
            let ghost prev = items_view(out@);
            proof {
                assert(items_view(s.take(i + 1)).drop_last() =~= items_view(s.take(i as int)));
                assert(items_view(s.take(i + 1)).last() == item_view(s[i as int]));
            }
            let n = out.len();
            if n > 0 && str_eq(out[n - 1].permalink.as_str(), item.permalink.as_str()) {
                let ghost before = out@;
                let mut last = out.pop().unwrap();
                assert(out@ =~= before.drop_last());
                assert(item_view(last) == prev.last());
                let ghost item_pages = item.pages@;
                last.merge(item);
                let ghost merged = last;
                out.push(last);
                proof {
                    let l = prev.last();
                    assert(item_view(merged) == ItemView { pages: l.pages + item_pages, ..l });
                    assert(items_view(out@) =~= prev.update(prev.len() - 1, item_view(merged)));
                }
            } else {
                let ghost iv = item_view(item);
                out.push(item);
                assert(items_view(out@) =~= prev.push(iv));
            }
            i += 1;
        }
        assert(s.take(s.len() as int) =~= s);
        Taxonomy { kind, slug, items: out }
    }

    pub fn len(&self) -> (n: usize)
        ensures
            n == self.items@.len(),
    {
        self.items.len()
    }

    pub fn is_empty(&self) -> (b: bool)
        ensures
            b == (self.items@.len() == 0),
    {
        self.items.len() == 0
    }
}

} // verus!
