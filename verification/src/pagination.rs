//! Splitting the pages of a section or taxonomy term into pagers, and what each pager knows of
//! the others.
use slotmap::DefaultKey;
use vstd::prelude::*;

use crate::paths::opt_view;
use crate::text::{chars_of, decimal, spec_decimal};

verus! {

/// One page of a paginated list: its pages with its index and links.
#[derive(Clone, Debug, PartialEq, Eq)]
pub struct Pager {
    /// The page number in the paginator (1-indexed)
    pub index: usize,
    /// Permalink to that page
    pub permalink: String,
    /// Path to that page
    pub path: String,
    /// All pages for the pager
    pub pages: Vec<DefaultKey>,
}

/// The pages of a section or taxonomy term split in pagers.
#[derive(Clone, Debug, PartialEq, Eq)]
pub struct Paginator {
    /// All pages in the section/taxonomy, in the order they are paginated
    pub all_pages: Vec<DefaultKey>,
    /// Pages split in chunks of `paginate_by`
    pub pagers: Vec<Pager>,
    /// How many content pages on a paginated page at max
    pub paginate_by: usize,
    /// whether to reverse before grouping
    pub paginate_reversed: bool,
    pub permalink: String,
    pub path: String,
    pub paginate_path: String,
    pub template: String,
    /// Whether this is the index section, we need it for the template name
    pub is_index: bool,
}

/// What a pager's template is told about the paginator.
#[derive(Clone, Debug, PartialEq, Eq)]
pub struct PaginatorContext {
    pub paginate_by: usize,
    /// Permalink of the first pager
    pub first: String,
    /// Permalink of the last pager
    pub last: String,
    /// Permalink of the pager before the current one
    pub previous: Option<String>,
    /// Permalink of the pager after the current one
    pub next: Option<String>,
    pub number_pagers: usize,
    /// The permalink that pager numbers are appended to
    pub base_url: String,
    /// The pages of the current pager
    pub pages: Vec<DefaultKey>,
    pub current_index: usize,
    pub total_pages: usize,
}

/// The pages in the order they are paginated.
pub open spec fn ordered_pages(all: Seq<DefaultKey>, reversed: bool) -> Seq<DefaultKey> {
    if reversed {
        all.reverse()
    } else {
        all
    }
}

/// The pages of the pager at 0-based position `i`: at most `per` of them, from `i * per` on.
pub open spec fn chunk(pages: Seq<DefaultKey>, per: nat, i: int) -> Seq<DefaultKey> {
    let start = i * per;
    let end = if (i + 1) * per < pages.len() { (i + 1) * per } else { pages.len() as int };
    pages.subrange(start, end)
}

/// The number of pagers for `len` pages, `per` to a pager: enough to hold them all, and at
/// least one.
pub open spec fn is_pager_count(n: nat, len: nat, per: nat) -> bool {
    if len == 0 {
        n == 1
    } else {
        n >= 1 && (n - 1) * per < len && len <= n * per
    }
}

/// The path of the pager numbered `number` below its paginator: `number/`, under
/// `paginate_path` when there is one.
pub open spec fn spec_page_path(paginate_path: Seq<char>, number: nat) -> Seq<char> {
    if paginate_path.len() == 0 {
        spec_decimal(number) + "/"@
    } else {
        paginate_path + "/"@ + spec_decimal(number) + "/"@
    }
}

/// The site path of a pager whose path below its paginator is `page_path`.
pub open spec fn spec_pager_path(path: Seq<char>, is_index: bool, page_path: Seq<char>) -> Seq<char> {
    if is_index {
        "/"@ + page_path
    } else if path.len() > 0 && path.last() == '/' {
        path + page_path
    } else {
        path + "/"@ + page_path
    }
}

/// The pager at 0-based position `i`: the first one has the paginator's own links, the others
/// their numbered path.
pub open spec fn spec_pager(p: Pager, i: int, pages: Seq<DefaultKey>, per: nat, permalink: Seq<char>, path: Seq<char>, paginate_path: Seq<char>, is_index: bool) -> bool {
    let page_path = spec_page_path(paginate_path, (i + 1) as nat);
    &&& p.index == i + 1
    &&& p.pages@ == chunk(pages, per, i)
    &&& p.permalink@ == (if i == 0 { permalink } else { permalink + page_path })
    &&& p.path@ == (if i == 0 { path } else { spec_pager_path(path, is_index, page_path) })
}

/// `(i + 1) * per` steps by `per`, and is at least `i + 1` for a positive `per`.
proof fn lemma_next_multiple(i: int, per: int)
    ensures
        (i + 1) * per == i * per + per,
        i >= 0 && per >= 1 ==> i <= i * per,
{
    assert((i + 1) * per == i * per + per) by (nonlinear_arith);
    assert(i >= 0 && per >= 1 ==> i <= i * per) by (nonlinear_arith);
}

/// The keys `v[start..end]`.
fn copy_range(v: &Vec<DefaultKey>, start: usize, end: usize) -> (r: Vec<DefaultKey>)
    requires
        start <= end <= v@.len(),
    ensures
        r@ == v@.subrange(start as int, end as int),
{
    let mut r: Vec<DefaultKey> = Vec::new();
    let mut j = start;
    while j < end
        invariant
            start <= j <= end <= v@.len(),
            r@ == v@.subrange(start as int, j as int),
        decreases end - j,
    {
        r.push(v[j]);
        assert(v@.subrange(start as int, j + 1) =~= v@.subrange(start as int, j as int).push(v@[j as int]));
        j += 1;
    }
    r
}

/// The keys of `v` in reverse order.
fn reversed_keys(v: &Vec<DefaultKey>) -> (r: Vec<DefaultKey>)
    ensures
        r@ == v@.reverse(),
{
    let mut r: Vec<DefaultKey> = Vec::new();
    let mut j = v.len();
    while j > 0
        invariant
            j <= v@.len(),
            r@.len() == v@.len() - j,
            forall|t: int| 0 <= t < r@.len() ==> r@[t] == v@[v@.len() - 1 - t],
        decreases j,
    {
        j -= 1;
        r.push(v[j]);
    }
    assert(r@ =~= v@.reverse());
    r
}

/// Whether the text ends with `/`.
fn ends_with_slash(s: &str) -> (b: bool)
    ensures
        b == (s@.len() > 0 && s@.last() == '/'),
{
    let v = chars_of(s);
    v.len() > 0 && v[v.len() - 1] == '/'
}

/// The pager path below its paginator for the pager numbered `number`.
fn page_path(paginate_path: &str, number: usize) -> (r: String)
    ensures
        r@ == spec_page_path(paginate_path@, number as nat),
{
    let mut r = String::new();
    if chars_of(paginate_path).len() > 0 {
        r.append(paginate_path);
        r.append("/");
    }
    r.append(decimal(number as u64).as_str());
    r.append("/");
    r
}

impl Paginator {
    /// A paginator over `all_pages`, `paginate_by` to a pager; its pagers are filled.
    pub fn new(all_pages: Vec<DefaultKey>, paginate_by: usize, paginate_reversed: bool, permalink: String, path: String, paginate_path: String, is_index: bool, template: String) -> (p: Paginator)
        requires
            paginate_by > 0,
        ensures
            p.all_pages@ == ordered_pages(all_pages@, paginate_reversed),
            p.paginate_by == paginate_by,
            p.paginate_reversed == paginate_reversed,
            p.permalink == permalink,
            p.path == path,
            p.paginate_path == paginate_path,
            p.is_index == is_index,
            p.template == template,
            is_pager_count(p.pagers@.len() as nat, all_pages@.len() as nat, paginate_by as nat),
            forall|i: int| 0 <= i < p.pagers@.len() ==> spec_pager(#[trigger] p.pagers@[i], i, p.all_pages@,
                paginate_by as nat, permalink@, path@, paginate_path@, is_index),
    {
        let mut p = Paginator {
            all_pages,
            pagers: Vec::new(),
            paginate_by,
            paginate_reversed,
            permalink,
            path,
            paginate_path,
            template,
            is_index,
        };
        p.fill_pagers();
        p
    }

    /// A paginator for a section: `paginate_by` comes from its front matter, and so do
    /// `paginate_reversed` and `paginate_path`.
    pub fn from_section(pages: Vec<DefaultKey>, paginate_by: Option<usize>, paginate_reversed: bool, permalink: String, path: String, paginate_path: String, is_index: bool, template: String) -> (p: Paginator)
        requires
            paginate_by matches Some(n) && n > 0,
        ensures
            p.all_pages@ == ordered_pages(pages@, paginate_reversed),
            p.paginate_by == paginate_by.unwrap(),
            p.paginate_reversed == paginate_reversed,
            p.permalink == permalink,
            p.path == path,
            p.paginate_path == paginate_path,
            p.is_index == is_index,
            p.template == template,
            is_pager_count(p.pagers@.len() as nat, pages@.len() as nat, paginate_by.unwrap() as nat),
            forall|i: int| 0 <= i < p.pagers@.len() ==> spec_pager(#[trigger] p.pagers@[i], i, p.all_pages@,
                paginate_by.unwrap() as nat, permalink@, path@, paginate_path@, is_index),
    {
        let per = match paginate_by { Some(n) => n, None => 1 };
        Paginator::new(pages, per, paginate_reversed, permalink, path, paginate_path, is_index, template)
    }

    /// A paginator for the term `term_slug` of the taxonomy `taxonomy_slug`, named
    /// `taxonomy_name`: its path is `/taxonomy_slug/term_slug/`, its pagers are under `page`
    /// unless the taxonomy names another path, its template is `taxonomy_name/single.html`
    /// and it is never reversed.
    pub fn from_taxonomy(pages: Vec<DefaultKey>, paginate_by: Option<usize>, paginate_path: Option<String>, taxonomy_name: &str, taxonomy_slug: &str, term_slug: &str, term_permalink: String) -> (p: Paginator)
        requires
            paginate_by matches Some(n) && n > 0,
        ensures
            p.all_pages@ == pages@,
            p.paginate_by == paginate_by.unwrap(),
            !p.paginate_reversed,
            p.permalink == term_permalink,
            p.path@ == "/"@ + taxonomy_slug@ + "/"@ + term_slug@ + "/"@,
            p.paginate_path@ == (match paginate_path { Some(s) => s@, None => "page"@ }),
            !p.is_index,
            p.template@ == taxonomy_name@ + "/single.html"@,
            is_pager_count(p.pagers@.len() as nat, pages@.len() as nat, paginate_by.unwrap() as nat),
            forall|i: int| 0 <= i < p.pagers@.len() ==> spec_pager(#[trigger] p.pagers@[i], i, p.all_pages@,
                paginate_by.unwrap() as nat, term_permalink@, p.path@, p.paginate_path@, false),
    {
        let per = match paginate_by { Some(n) => n, None => 1 };
        let mut path = String::from_str("/");
        path.append(taxonomy_slug);
        path.append("/");
        path.append(term_slug);
        path.append("/");
        let pp = match paginate_path {
            Some(s) => s,
            None => String::from_str("page"),
        };
        let mut template = String::from_str(taxonomy_name);
        template.append("/single.html");
        proof {
            reveal_strlit("page");
        }
        Paginator::new(pages, per, false, term_permalink, path, pp, false, template)
    }

    /// Splits the pages in pagers of `paginate_by` pages, after reversing them when asked;
    /// there is always at least the first pager.
    pub fn fill_pagers(&mut self)
        requires
            old(self).paginate_by > 0,
        ensures
            final(self).all_pages@ == ordered_pages(old(self).all_pages@, old(self).paginate_reversed),
            final(self).paginate_by == old(self).paginate_by,
            final(self).paginate_reversed == old(self).paginate_reversed,
            final(self).permalink == old(self).permalink,
            final(self).path == old(self).path,
            final(self).paginate_path == old(self).paginate_path,
            final(self).template == old(self).template,
            final(self).is_index == old(self).is_index,
            is_pager_count(final(self).pagers@.len() as nat, old(self).all_pages@.len() as nat, old(self).paginate_by as nat),
            forall|i: int| 0 <= i < final(self).pagers@.len() ==> spec_pager(#[trigger] final(self).pagers@[i], i,
                final(self).all_pages@, old(self).paginate_by as nat, old(self).permalink@, old(self).path@,
                old(self).paginate_path@, old(self).is_index),
    {
        if self.paginate_reversed {
            self.all_pages = reversed_keys(&self.all_pages);
        }
        let per = self.paginate_by;
        let len = self.all_pages.len();
        let ghost pages = self.all_pages@;
        let mut pagers: Vec<Pager> = Vec::new();
        let mut start: usize = 0;
        proof {
            let n = pagers@.len() as int;
            assert(n * per == 0) by (nonlinear_arith)
                requires
                    n == 0,
            ;
        }
        while start < len
            invariant
                pages == self.all_pages@,
                len == pages.len(),
                per == self.paginate_by,
                per > 0,
                start == (if pagers@.len() * per < len { pagers@.len() * per } else { len as int }),
                pagers@.len() > 0 ==> (pagers@.len() - 1) * per < len,
                forall|i: int| 0 <= i < pagers@.len() ==> spec_pager(#[trigger] pagers@[i], i, pages, per as nat,
                    self.permalink@, self.path@, self.paginate_path@, self.is_index),
            decreases len - start,
        {
            let i = pagers.len();
            proof {
                lemma_next_multiple(i as int, per as int);
                assert(i < len);
            }
            let end = if len - start > per { start + per } else { len };
            let chunk_pages = copy_range(&self.all_pages, start, end);
            let pager = if i == 0 {
                Pager { index: 1, permalink: self.permalink.clone(), path: self.path.clone(), pages: chunk_pages }
            } else {
                let pp = page_path(self.paginate_path.as_str(), i + 1);
                let mut permalink = self.permalink.clone();
                permalink.append(pp.as_str());
                let mut pager_path = String::new();
                if self.is_index {
                    pager_path.append("/");
                    pager_path.append(pp.as_str());
                } else if ends_with_slash(self.path.as_str()) {
                    pager_path.append(self.path.as_str());
                    pager_path.append(pp.as_str());
                } else {
                    pager_path.append(self.path.as_str());
                    pager_path.append("/");
                    pager_path.append(pp.as_str());
                }
                Pager { index: i + 1, permalink, path: pager_path, pages: chunk_pages }
            };
            assert(spec_pager(pager, i as int, pages, per as nat, self.permalink@, self.path@, self.paginate_path@, self.is_index));
            pagers.push(pager);
            start = end;
        }
        if pagers.len() == 0 {
            assert(len == 0);
            let empty: Vec<DefaultKey> = Vec::new();
            let pager = Pager { index: 1, permalink: self.permalink.clone(), path: self.path.clone(), pages: empty };
            assert(pager.pages@ =~= chunk(pages, per as nat, 0));
            pagers.push(pager);
        }
        self.pagers = pagers;
    }
}

/// The URL that pager numbers are appended to.
pub open spec fn spec_base_url(permalink: Seq<char>, paginate_path: Seq<char>) -> Seq<char> {
    if paginate_path.len() == 0 {
        permalink
    } else {
        permalink + paginate_path + "/"@
    }
}

impl Paginator {
    /// What the template of `current_pager` is told: the first and last pagers, the ones
    /// around it, how many there are, and its own pages.
    pub fn build_paginator_context(&self, current_pager: &Pager) -> (c: PaginatorContext)
        requires
            self.pagers@.len() > 0,
            1 <= current_pager.index <= self.pagers@.len(),
        ensures
            c.paginate_by == self.paginate_by,
            c.first@ == self.permalink@,
            c.last@ == self.pagers@.last().permalink@,
            opt_view(c.previous) == (if current_pager.index > 1 {
                Some(self.pagers@[current_pager.index - 2].permalink@)
            } else {
                None
            }),
            opt_view(c.next) == (if current_pager.index < self.pagers@.len() {
                Some(self.pagers@[current_pager.index as int].permalink@)
            } else {
                None
            }),
            c.number_pagers == self.pagers@.len(),
            c.base_url@ == spec_base_url(self.permalink@, self.paginate_path@),
            c.pages@ == current_pager.pages@,
            c.current_index == current_pager.index,
            c.total_pages == self.all_pages@.len(),
    {
        // the pager index is 1-indexed so we want a 0-indexed one for indexing there
        let pager_index = current_pager.index - 1;
        let n = self.pagers.len();
        let last = self.pagers[n - 1].permalink.clone();
        let previous = if pager_index > 0 {
            Some(self.pagers[pager_index - 1].permalink.clone())
        } else {
            None
        };
        let next = if pager_index < n - 1 {
            Some(self.pagers[pager_index + 1].permalink.clone())
        } else {
            None
        };
        let mut base_url = self.permalink.clone();
        if chars_of(self.paginate_path.as_str()).len() > 0 {
            base_url.append(self.paginate_path.as_str());
            base_url.append("/");
        }
        PaginatorContext {
            paginate_by: self.paginate_by,
            first: self.permalink.clone(),
            last,
            previous,
            next,
            number_pagers: n,
            base_url,
            pages: copy_range(&current_pager.pages, 0, current_pager.pages.len()),
            current_index: current_pager.index,
            total_pages: self.all_pages.len(),
        }
    }
}

/// The pages of the pagers, put end to end.
pub open spec fn pagers_pages(pagers: Seq<Pager>) -> Seq<DefaultKey>
    decreases pagers.len(),
{
    if pagers.len() == 0 {
        Seq::empty()
    } else {
        pagers_pages(pagers.drop_last()) + pagers.last().pages@
    }
}

/// The first `m` chunks, put end to end.
pub open spec fn concat_chunks(pages: Seq<DefaultKey>, per: nat, m: nat) -> Seq<DefaultKey>
    decreases m,
{
    if m == 0 {
        Seq::empty()
    } else {
        concat_chunks(pages, per, (m - 1) as nat) + chunk(pages, per, m - 1)
    }
}

/// The first `m` chunks are the pages up to the `m`-th multiple of `per`.
proof fn lemma_concat_chunks(pages: Seq<DefaultKey>, per: nat, m: nat)
    requires
        per > 0,
        m == 0 || (m - 1) * per <= pages.len(),
    ensures
        concat_chunks(pages, per, m) == pages.subrange(0, if m * per < pages.len() { (m * per) as int } else { pages.len() as int }),
    decreases m,
{
    if m == 0 {
        assert(m * per == 0) by (nonlinear_arith)
            requires
                m == 0,
        ;
        assert(pages.subrange(0, 0) =~= Seq::<DefaultKey>::empty());
    } else {
        let k = (m - 1) as nat;
        lemma_next_multiple(k as int, per as int);
        if k > 0 {
            lemma_next_multiple((k - 1) as int, per as int);
        }
        lemma_concat_chunks(pages, per, k);
        let lo = (k * per) as int;
        let hi = if m * per < pages.len() { (m * per) as int } else { pages.len() as int };
        assert(pages.subrange(0, lo) + pages.subrange(lo, hi) =~= pages.subrange(0, hi));
    }
}

/// Pagers holding the chunks in order hold every page once, in order.
proof fn lemma_pagers_pages(pagers: Seq<Pager>, pages: Seq<DefaultKey>, per: nat)
    requires
        forall|i: int| 0 <= i < pagers.len() ==> (#[trigger] pagers[i]).pages@ == chunk(pages, per, i),
    ensures
        pagers_pages(pagers) == concat_chunks(pages, per, pagers.len()),
    decreases pagers.len(),
{
    if pagers.len() > 0 {
        let init = pagers.drop_last();
        assert forall|i: int| 0 <= i < init.len() implies (#[trigger] init[i]).pages@ == chunk(pages, per, i) by {
            assert(init[i] == pagers[i]);
        }
        lemma_pagers_pages(init, pages, per);
    }
}

/// The pagers of a paginator hold every page once, in the order of the paginator: their
/// pages put end to end are all its pages.
pub proof fn lemma_pagers_hold_every_page(pagers: Seq<Pager>, pages: Seq<DefaultKey>, per: nat)
    requires
        per > 0,
        is_pager_count(pagers.len(), pages.len(), per),
        forall|i: int| 0 <= i < pagers.len() ==> (#[trigger] pagers[i]).pages@ == chunk(pages, per, i),
    ensures
        pagers_pages(pagers) == pages,
{
    lemma_pagers_pages(pagers, pages, per);
    if pages.len() == 0 {
        let n = pagers.len() as int;
        assert((n - 1) * per == 0) by (nonlinear_arith)
            requires
                n == 1,
        ;
    }
    lemma_concat_chunks(pages, per, pagers.len());
    assert(pages.subrange(0, pages.len() as int) =~= pages);
}

} // verus!
