//! Gathering, for each taxonomy, the terms the pages list and the pages listing each term.
use slotmap::DefaultKey;
use vstd::prelude::*;

use crate::config::languages::LanguageOptions;
use crate::error::Error;
use crate::text::{contains_str, str_eq, strings_view};

verus! {

/// A page's use of a taxonomy: the page, the path of its file, the taxonomy as its front matter
/// names it, that name slugified, the page's language and the terms it lists.
#[derive(Debug)]
pub struct TaxonomyUse {
    pub key: DefaultKey,
    pub path: String,
    pub name: String,
    pub slug: String,
    pub lang: String,
    pub terms: Vec<String>,
}

/// The key by which a taxonomy is known in a language: its slug, `-`, the language.
pub open spec fn spec_taxonomy_key(slug: Seq<char>, lang: Seq<char>) -> Seq<char> {
    slug + "-"@ + lang
}

/// The key of the taxonomy a page uses.
pub open spec fn use_key(u: TaxonomyUse) -> Seq<char> {
    spec_taxonomy_key(u.slug@, u.lang@)
}

/// Each term listed by the uses, as (page, taxonomy key, term), in order.
pub open spec fn term_listings(uses: Seq<TaxonomyUse>) -> Seq<(DefaultKey, Seq<char>, Seq<char>)>
    decreases uses.len(),
{
    if uses.len() == 0 {
        Seq::empty()
    } else {
        let u = uses.last();
        term_listings(uses.drop_last()) + u.terms@.map_values(|t: String| (u.key, use_key(u), t@))
    }
}

/// The pages listing the term `t` of the taxonomy `k`, once per listing, in order.
pub open spec fn term_pages(l: Seq<(DefaultKey, Seq<char>, Seq<char>)>, k: Seq<char>, t: Seq<char>) -> Seq<DefaultKey>
    decreases l.len(),
{
    if l.len() == 0 {
        Seq::empty()
    } else {
        let rest = term_pages(l.drop_last(), k, t);
        if l.last().1 == k && l.last().2 == t {
            rest.push(l.last().0)
        } else {
            rest
        }
    }
}

/// The terms listed for the taxonomy `k`.
pub open spec fn terms_of(l: Seq<(DefaultKey, Seq<char>, Seq<char>)>, k: Seq<char>) -> Set<Seq<char>> {
    Set::new(|t: Seq<char>| exists|i: int| 0 <= i < l.len() && #[trigger] l[i].1 == k && l[i].2 == t)
}

/// The key of a taxonomy: its slug, `-`, its language.
pub fn taxonomy_key(slug: &str, lang: &str) -> (r: String)
    ensures
        r@ == spec_taxonomy_key(slug@, lang@),
{
    let mut r = String::from_str(slug);
    r.append("-");
    r.append(lang);
    r
}

/// The keys of the taxonomies defined for each language, `languages` holding the options of
/// each language by code: for each language in order, the key of each of its taxonomies.
pub open spec fn defined_keys(languages: Seq<(String, LanguageOptions)>) -> Seq<Seq<char>>
    decreases languages.len(),
{
    if languages.len() == 0 {
        Seq::empty()
    } else {
        let (code, opts) = languages.last();
        defined_keys(languages.drop_last())
            + opts.taxonomies@.map_values(|t: crate::config::taxonomies::TaxonomyConfig| spec_taxonomy_key(t.slug@, code@))
    }
}

/// The keys of the taxonomies the configuration defines (see `defined_keys`).
pub fn defined_taxonomy_keys(languages: &Vec<(String, LanguageOptions)>) -> (r: Vec<String>)
    ensures
        strings_view(r@) == defined_keys(languages@),
{
    let mut r: Vec<String> = Vec::new();
    let mut i: usize = 0;
    while i < languages.len()
        invariant
            i <= languages@.len(),
            strings_view(r@) == defined_keys(languages@.take(i as int)),
        decreases languages.len() - i,
    {
        assert(languages@.take(i + 1).drop_last() =~= languages@.take(i as int));
        assert(languages@.take(i + 1).last() == languages@[i as int]);
        let code = &languages[i].0;
        let taxonomies = &languages[i].1.taxonomies;
        let ghost before = strings_view(r@);
        let ghost add = taxonomies@.map_values(|t: crate::config::taxonomies::TaxonomyConfig| spec_taxonomy_key(t.slug@, code@));
        let mut j: usize = 0;
        while j < taxonomies.len()
            invariant
                j <= taxonomies@.len(),
                add == taxonomies@.map_values(|t: crate::config::taxonomies::TaxonomyConfig| spec_taxonomy_key(t.slug@, code@)),
                strings_view(r@) == before + add.take(j as int),
            decreases taxonomies.len() - j,
        {
            let ghost prev = strings_view(r@);
            r.push(taxonomy_key(taxonomies[j].slug.as_str(), code.as_str()));
            assert(strings_view(r@) =~= prev.push(add[j as int]));
            assert(add.take(j + 1) =~= add.take(j as int).push(add[j as int]));
            j += 1;
        }
        assert(add.take(taxonomies@.len() as int) =~= add);
        i += 1;
    }
    assert(languages@.take(languages@.len() as int) =~= languages@);
    r
}

/// A term with the pages that list it.
#[derive(Debug)]
pub struct TermPages {
    pub term: String,
    pub pages: Vec<DefaultKey>,
}

/// A taxonomy, by its key, with its terms.
#[derive(Debug)]
pub struct TaxonomyTerms {
    pub key: String,
    pub terms: Vec<TermPages>,
}

/// Whether `g` holds each term listed for the taxonomy `g.key` once, with its pages.
#[verifier::opaque]
pub open spec fn gathered(l: Seq<(DefaultKey, Seq<char>, Seq<char>)>, g: TaxonomyTerms) -> bool {
    &&& forall|a: int, b: int| 0 <= a < b < g.terms@.len()
        ==> (#[trigger] g.terms@[a]).term@ != (#[trigger] g.terms@[b]).term@
    &&& forall|a: int| 0 <= a < g.terms@.len() ==> {
        &&& terms_of(l, g.key@).contains((#[trigger] g.terms@[a]).term@)
        &&& g.terms@[a].pages@ == term_pages(l, g.key@, g.terms@[a].term@)
    }
    &&& forall|t: Seq<char>| #[trigger] terms_of(l, g.key@).contains(t)
        ==> exists|a: int| 0 <= a < g.terms@.len() && (#[trigger] g.terms@[a]).term@ == t
}

/// The listings (page, taxonomy key, term) of the uses, in order.
fn listings(uses: &Vec<TaxonomyUse>) -> (r: Vec<(DefaultKey, String, String)>)
    ensures
        r@.map_values(|x: (DefaultKey, String, String)| (x.0, x.1@, x.2@)) == term_listings(uses@),
{
    let mut r: Vec<(DefaultKey, String, String)> = Vec::new();
    let mut i: usize = 0;
    while i < uses.len()
        invariant
            i <= uses@.len(),
            r@.map_values(|x: (DefaultKey, String, String)| (x.0, x.1@, x.2@)) == term_listings(uses@.take(i as int)),
        decreases uses.len() - i,
    {
        let u = &uses[i];
        let key = taxonomy_key(u.slug.as_str(), u.lang.as_str());
        let ghost before = r@.map_values(|x: (DefaultKey, String, String)| (x.0, x.1@, x.2@));
        let ghost add = u.terms@.map_values(|t: String| (u.key, use_key(*u), t@));
        proof {
            assert(uses@.take(i + 1).drop_last() =~= uses@.take(i as int));
            assert(uses@.take(i + 1).last() == uses@[i as int]);
        }
        let mut j: usize = 0;
        while j < u.terms.len()
            invariant
                j <= u.terms@.len(),
                key@ == use_key(*u),
                add == u.terms@.map_values(|t: String| (u.key, use_key(*u), t@)),
                r@.map_values(|x: (DefaultKey, String, String)| (x.0, x.1@, x.2@)) == before + add.take(j as int),
            decreases u.terms.len() - j,
        {
            let ghost prev = r@.map_values(|x: (DefaultKey, String, String)| (x.0, x.1@, x.2@));
            r.push((u.key, key.clone(), u.terms[j].clone()));
            assert(r@.map_values(|x: (DefaultKey, String, String)| (x.0, x.1@, x.2@))
                =~= prev.push((u.key, use_key(*u), u.terms@[j as int]@)));
            assert(add.take(j + 1) =~= add.take(j as int).push(add[j as int]));
            j += 1;
        }
        assert(add.take(u.terms@.len() as int) =~= add);
        i += 1;
    }
    assert(uses@.take(uses@.len() as int) =~= uses@);
    r
}

/// The view of listings.
pub open spec fn listings_view(v: Seq<(DefaultKey, String, String)>) -> Seq<(DefaultKey, Seq<char>, Seq<char>)> {
    v.map_values(|x: (DefaultKey, String, String)| (x.0, x.1@, x.2@))
}

/// The pages listing the term `t` of the taxonomy `k`.
fn pages_of_term(l: &Vec<(DefaultKey, String, String)>, k: &str, t: &str) -> (r: Vec<DefaultKey>)
    ensures
        r@ == term_pages(listings_view(l@), k@, t@),
{
    let mut r: Vec<DefaultKey> = Vec::new();
    let mut j: usize = 0;
    while j < l.len()
        invariant
            j <= l@.len(),
            r@ == term_pages(listings_view(l@.take(j as int)), k@, t@),
        decreases l.len() - j,
    {
        assert(listings_view(l@.take(j + 1)).drop_last() =~= listings_view(l@.take(j as int)));
        if str_eq(l[j].1.as_str(), k) && str_eq(l[j].2.as_str(), t) {
            r.push(l[j].0);
        }
        j += 1;
    }
    assert(l@.take(l@.len() as int) =~= l@);
    r
}

/// Whether one of the first `n` listings is of the term `t` of the taxonomy `k`.
fn listed_before(l: &Vec<(DefaultKey, String, String)>, n: usize, k: &str, t: &str) -> (r: bool)
    requires
        n <= l@.len(),
    ensures
        r == exists|i: int| 0 <= i < n && #[trigger] listings_view(l@)[i].1 == k@ && listings_view(l@)[i].2 == t@,
{
    let mut i: usize = 0;
    while i < n
        invariant
            i <= n <= l@.len(),
            forall|j: int| 0 <= j < i ==> !(#[trigger] listings_view(l@)[j].1 == k@ && listings_view(l@)[j].2 == t@),
        decreases n - i,
    {
        if str_eq(l[i].1.as_str(), k) && str_eq(l[i].2.as_str(), t) {
            assert(listings_view(l@)[i as int].1 == k@);
            return true;
        }
        i += 1;
    }
    false
}

/// The terms of the taxonomy `k`, each once in the order of its first listing, with the pages
/// listing it.
#[verifier::rlimit(60)]
fn gather_terms(l: &Vec<(DefaultKey, String, String)>, k: &str) -> (r: TaxonomyTerms)
    ensures
        r.key@ == k@,
        gathered(listings_view(l@), r),
{
    let ghost lv = listings_view(l@);
    let mut terms: Vec<TermPages> = Vec::new();
    let mut i: usize = 0;
    while i < l.len()
        invariant
            i <= l@.len(),
            lv == listings_view(l@),
            forall|a: int, b: int| 0 <= a < b < terms@.len()
                ==> (#[trigger] terms@[a]).term@ != (#[trigger] terms@[b]).term@,
            forall|a: int| 0 <= a < terms@.len() ==> {
                &&& terms_of(lv, k@).contains((#[trigger] terms@[a]).term@)
                &&& terms@[a].pages@ == term_pages(lv, k@, terms@[a].term@)
                &&& exists|j: int| 0 <= j < i && #[trigger] lv[j].1 == k@ && lv[j].2 == terms@[a].term@
            },
            forall|j: int| 0 <= j < i && #[trigger] lv[j].1 == k@
                ==> exists|a: int| 0 <= a < terms@.len() && (#[trigger] terms@[a]).term@ == lv[j].2,
        decreases l.len() - i,
    {
        let ghost old_terms = terms@;
        if str_eq(l[i].1.as_str(), k) {
            let t = l[i].2.as_str();
            let seen = listed_before(l, i, k, t);
            if !seen {
                let pages = pages_of_term(l, k, t);
                terms.push(TermPages { term: String::from_str(t), pages });
                proof {
                    assert(lv[i as int].1 == k@ && lv[i as int].2 == t@);
                    assert forall|a: int, b: int| 0 <= a < b < terms@.len()
                        implies (#[trigger] terms@[a]).term@ != (#[trigger] terms@[b]).term@ by {
                        if b == old_terms.len() {
                            assert(terms@[a] == old_terms[a]);
                            if terms@[a].term@ == t@ {
                                let j = choose|j: int| 0 <= j < i && #[trigger] lv[j].1 == k@ && lv[j].2 == old_terms[a].term@;
                                assert(listings_view(l@)[j].1 == k@ && listings_view(l@)[j].2 == t@);
                            }
                        } else {
                            assert(terms@[a] == old_terms[a]);
                            assert(terms@[b] == old_terms[b]);
                        }
                    }
                    assert forall|a: int| 0 <= a < terms@.len() implies {
                        &&& terms_of(lv, k@).contains((#[trigger] terms@[a]).term@)
                        &&& terms@[a].pages@ == term_pages(lv, k@, terms@[a].term@)
                        &&& exists|j: int| 0 <= j < i + 1 && #[trigger] lv[j].1 == k@ && lv[j].2 == terms@[a].term@
                    } by {
                        if a < old_terms.len() {
                            assert(terms@[a] == old_terms[a]);
                        } else {
                            assert(terms@[a].term@ == t@);
                            assert(lv[i as int].1 == k@ && lv[i as int].2 == t@);
                        }
                    }
                    assert forall|j: int| 0 <= j < i + 1 && #[trigger] lv[j].1 == k@
                        implies exists|a: int| 0 <= a < terms@.len() && (#[trigger] terms@[a]).term@ == lv[j].2 by {
                        if j < i {
                            let a = choose|a: int| 0 <= a < old_terms.len() && (#[trigger] old_terms[a]).term@ == lv[j].2;
                            assert(terms@[a] == old_terms[a]);
                        } else {
                            assert(terms@[old_terms.len() as int].term@ == lv[j].2);
                        }
                    }
                }
            } else {
                proof {
                    let j0 = choose|j: int| 0 <= j < i && #[trigger] listings_view(l@)[j].1 == k@ && listings_view(l@)[j].2 == t@;
                    assert forall|j: int| 0 <= j < i + 1 && #[trigger] lv[j].1 == k@
                        implies exists|a: int| 0 <= a < terms@.len() && (#[trigger] terms@[a]).term@ == lv[j].2 by {
                        if j == i {
                            assert(lv[j0].1 == k@);
                        }
                    }
                    assert forall|a: int| 0 <= a < terms@.len() implies
                        exists|j: int| 0 <= j < i + 1 && #[trigger] lv[j].1 == k@ && lv[j].2 == (#[trigger] terms@[a]).term@ by {
                        let j = choose|j: int| 0 <= j < i && #[trigger] lv[j].1 == k@ && lv[j].2 == terms@[a].term@;
                        assert(0 <= j < i + 1);
                    }
                }
            }
        }
        i += 1;
    }
    proof {
        assert forall|t: Seq<char>| #[trigger] terms_of(lv, k@).contains(t)
            implies exists|a: int| 0 <= a < terms@.len() && (#[trigger] terms@[a]).term@ == t by {
            let j = choose|j: int| 0 <= j < lv.len() && #[trigger] lv[j].1 == k@ && lv[j].2 == t;
            assert(0 <= j < l@.len() && lv[j].1 == k@);
        }
    }
    let r = TaxonomyTerms { key: String::from_str(k), terms };
    reveal(gathered);
    assert(r.key@ == k@);
    assert forall|a: int| 0 <= a < r.terms@.len() implies {
        &&& terms_of(lv, r.key@).contains((#[trigger] r.terms@[a]).term@)
        &&& r.terms@[a].pages@ == term_pages(lv, r.key@, r.terms@[a].term@)
    } by {
        assert(r.terms@[a] == terms@[a]);
    }
    assert forall|a: int, b: int| 0 <= a < b < r.terms@.len()
        implies (#[trigger] r.terms@[a]).term@ != (#[trigger] r.terms@[b]).term@ by {
        assert(r.terms@[a] == terms@[a]);
        assert(r.terms@[b] == terms@[b]);
    }
    assert forall|t: Seq<char>| #[trigger] terms_of(lv, r.key@).contains(t)
        implies exists|a: int| 0 <= a < r.terms@.len() && (#[trigger] r.terms@[a]).term@ == t by {
        let a = choose|a: int| 0 <= a < terms@.len() && (#[trigger] terms@[a]).term@ == t;
        assert(r.terms@[a] == terms@[a]);
    }
    r
}

/// The message reporting a page that uses a taxonomy the configuration does not define.
pub open spec fn undefined_taxonomy_message(path: Seq<char>, name: Seq<char>) -> Seq<char> {
    "Page `"@ + path + "` has taxonomy `"@ + name + "` which is not defined in config.toml"@
}

/// Whether the taxonomy a page uses is among the `defined` keys.
pub open spec fn is_defined(defined: Seq<String>, u: TaxonomyUse) -> bool {
    strings_view(defined).contains(use_key(u))
}

/// The keys of the taxonomies of the uses, in order.
pub open spec fn used_keys(uses: Seq<TaxonomyUse>) -> Seq<Seq<char>> {
    uses.map_values(|u: TaxonomyUse| use_key(u))
}

/// The keys of groups of terms, in order.
pub open spec fn group_keys(g: Seq<TaxonomyTerms>) -> Seq<Seq<char>> {
    g.map_values(|t: TaxonomyTerms| t.key@)
}

/// The key of the taxonomy of each use.
fn use_keys(uses: &Vec<TaxonomyUse>) -> (r: Vec<String>)
    ensures
        r@.len() == uses@.len(),
        forall|i: int| 0 <= i < uses@.len() ==> (#[trigger] r@[i])@ == use_key(uses@[i]),
        strings_view(r@) == used_keys(uses@),
{
    let mut r: Vec<String> = Vec::new();
    let mut i: usize = 0;
    while i < uses.len()
        invariant
            i <= uses@.len(),
            r@.len() == i,
            forall|j: int| 0 <= j < i ==> (#[trigger] r@[j])@ == use_key(uses@[j]),
        decreases uses.len() - i,
    {
        r.push(taxonomy_key(uses[i].slug.as_str(), uses[i].lang.as_str()));
        i += 1;
    }
    assert(strings_view(r@) =~= used_keys(uses@));
    r
}

/// Whether one of the first `n` keys is `k`.
fn key_before(keys: &Vec<String>, n: usize, k: &str) -> (r: bool)
    requires
        n <= keys@.len(),
    ensures
        r == strings_view(keys@).take(n as int).contains(k@),
{
    let mut j: usize = 0;
    while j < n
        invariant
            j <= n <= keys@.len(),
            forall|t: int| 0 <= t < j ==> (#[trigger] keys@[t])@ != k@,
        decreases n - j,
    {
        if str_eq(keys[j].as_str(), k) {
            assert(strings_view(keys@).take(n as int)[j as int] == k@);
            return true;
        }
        j += 1;
    }
    assert forall|t: int| 0 <= t < n implies strings_view(keys@).take(n as int)[t] != k@ by {
        assert(strings_view(keys@).take(n as int)[t] == keys@[t]@);
    }
    false
}

/// The terms of each taxonomy key, each key once, in the order of its first appearance in
/// `keys`, gathered from the listings `l`.
fn group_by_key(keys: &Vec<String>, l: &Vec<(DefaultKey, String, String)>) -> (r: Vec<TaxonomyTerms>)
    ensures
        group_keys(r@).no_duplicates(),
        group_keys(r@).to_set() == strings_view(keys@).to_set(),
        forall|a: int| 0 <= a < r@.len() ==> gathered(listings_view(l@), #[trigger] r@[a]),
{
    let ghost kv = strings_view(keys@);
    let mut groups: Vec<TaxonomyTerms> = Vec::new();
    let mut i: usize = 0;
    assert(group_keys(groups@).to_set() =~= kv.take(0).to_set());
    while i < keys.len()
        invariant
            i <= keys@.len(),
            kv == strings_view(keys@),
            group_keys(groups@).no_duplicates(),
            group_keys(groups@).to_set() == kv.take(i as int).to_set(),
            forall|a: int| 0 <= a < groups@.len() ==> gathered(listings_view(l@), #[trigger] groups@[a]),
        decreases keys.len() - i,
    {
        let ghost before = group_keys(groups@);
        let ghost k = kv[i as int];
        assert(kv.take(i + 1) =~= kv.take(i as int).push(k));
        proof {
            kv.take(i as int).lemma_push_to_set_commute(k);
        }
        let seen = key_before(keys, i, keys[i].as_str());
        if !seen {
            let g = gather_terms(l, keys[i].as_str());
            groups.push(g);
            assert(group_keys(groups@) =~= before.push(k));
            assert(!before.contains(k)) by {
                if before.contains(k) {
                    assert(before.to_set().contains(k));
                }
            }
            proof {
                before.lemma_push_to_set_commute(k);
            }
            assert forall|a: int, b: int| 0 <= a < b < group_keys(groups@).len()
                implies group_keys(groups@)[a] != group_keys(groups@)[b] by {
                if b == before.len() {
                    assert(before.contains(before[a]));
                }
            }
        } else {
            assert(kv.take(i as int).to_set().contains(k));
        }
        i += 1;
    }
    assert(kv.take(keys@.len() as int) =~= kv);
    groups
}

/// The first use whose taxonomy is not among the `defined` keys, if any; `keys` are the keys of
/// the uses.
fn first_undefined(uses: &Vec<TaxonomyUse>, keys: &Vec<String>, defined: &Vec<String>) -> (r: Option<usize>)
    requires
        keys@.len() == uses@.len(),
        forall|j: int| 0 <= j < uses@.len() ==> (#[trigger] keys@[j])@ == use_key(uses@[j]),
    ensures
        match r {
            Some(i) => i < uses@.len() && !is_defined(defined@, uses@[i as int])
                && forall|j: int| 0 <= j < i ==> is_defined(defined@, #[trigger] uses@[j]),
            None => forall|j: int| 0 <= j < uses@.len() ==> is_defined(defined@, #[trigger] uses@[j]),
        },
{
    let mut i: usize = 0;
    while i < uses.len()
        invariant
            i <= uses@.len(),
            keys@.len() == uses@.len(),
            forall|j: int| 0 <= j < uses@.len() ==> (#[trigger] keys@[j])@ == use_key(uses@[j]),
            forall|j: int| 0 <= j < i ==> is_defined(defined@, #[trigger] uses@[j]),
        decreases uses.len() - i,
    {
        if !contains_str(defined, keys[i].as_str()) {
            assert(keys@[i as int]@ == use_key(uses@[i as int]));
            return Some(i);
        }
        assert(keys@[i as int]@ == use_key(uses@[i as int]));
        i += 1;
    }
    None
}

/// The terms of every taxonomy the pages use, each taxonomy once, in the order of its first
/// use; `defined` holds the keys of the taxonomies of the configuration. A page using a
/// taxonomy that is not defined is an error, reported for the first such use.
pub fn find_taxonomy_terms(uses: &Vec<TaxonomyUse>, defined: &Vec<String>) -> (r: Result<Vec<TaxonomyTerms>, Error>)
    ensures
        r is Ok <==> forall|i: int| 0 <= i < uses@.len() ==> is_defined(defined@, #[trigger] uses@[i]),
        r matches Err(e) ==> exists|i: int| {
            &&& 0 <= i < uses@.len()
            &&& !is_defined(defined@, #[trigger] uses@[i])
            &&& forall|j: int| 0 <= j < i ==> is_defined(defined@, #[trigger] uses@[j])
            &&& e.message@ == undefined_taxonomy_message(uses@[i].path@, uses@[i].name@)
        },
        r matches Ok(g) ==> {
            &&& group_keys(g@).no_duplicates()
            &&& group_keys(g@).to_set() == used_keys(uses@).to_set()
            &&& forall|a: int| 0 <= a < g@.len() ==> gathered(term_listings(uses@), #[trigger] g@[a])
        },
{
    let keys = use_keys(uses);
    match first_undefined(uses, &keys, defined) {
        Some(i) => {
            let mut m = String::from_str("Page `");
            m.append(uses[i].path.as_str());
            m.append("` has taxonomy `");
            m.append(uses[i].name.as_str());
            m.append("` which is not defined in config.toml");
            return Err(Error { message: m });
        },
        None => {},
    }
    let l = listings(uses);
    let groups = group_by_key(&keys, &l);
    Ok(groups)
}

} // verus!
