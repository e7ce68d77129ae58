use std::collections::HashMap;
use vstd::prelude::*;

use crate::config::search::{spec_default_search, Search};
use crate::config::taxonomies::TaxonomyConfig;
use crate::error::Error;
use crate::text::{debug_text, str_eq, strings_view};

verus! {

/// Per-language settings of the site.
#[derive(Debug)]
pub struct LanguageOptions {
    /// Title of the site. Defaults to None
    pub title: Option<String>,
    /// Description of the site. Defaults to None
    pub description: Option<String>,
    /// Whether to generate feeds for that language, defaults to `false`
    pub generate_feeds: bool,
    /// The filenames to use for feeds. Defaults to ["atom.xml"].
    pub feed_filenames: Vec<String>,
    pub taxonomies: Vec<TaxonomyConfig>,
    /// Whether to generate search index for that language, defaults to `false`
    pub build_search_index: bool,
    /// The search config, telling what to include in the search index for that language
    pub search: Search,
    /// Terms and their translation in this language.
    pub translations: HashMap<String, String>,
}

/// The feed filenames used when none are configured.
pub open spec fn spec_default_feed_filenames() -> Seq<Seq<char>> {
    seq!["atom.xml"@]
}

/// The base feed filenames may be replaced: they are empty or the default.
pub open spec fn feeds_replaceable(v: Seq<String>) -> bool {
    v.len() == 0 || strings_view(v) == spec_default_feed_filenames()
}

/// Which field of two language options cannot be merged, in the order the fields are merged.
pub enum MergeConflict {
    Title,
    Description,
    FeedFilenames,
    Taxonomies,
    Translations,
    Search,
}

/// The name under which a conflicting field is reported.
pub open spec fn spec_conflict_name(c: MergeConflict) -> Seq<char> {
    match c {
        MergeConflict::Title => "title"@,
        MergeConflict::Description => "description"@,
        MergeConflict::FeedFilenames => "feed_filename"@,
        MergeConflict::Taxonomies => "taxonomies"@,
        MergeConflict::Translations => "translations"@,
        MergeConflict::Search => "search"@,
    }
}

/// The start of the message reported when a field is given twice.
pub open spec fn spec_twice_prefix(name: Seq<char>) -> Seq<char> {
    "`"@ + name + "` for default language is specified twice, as "@
}

/// Whether `s` begins with `p`.
pub open spec fn starts_with(s: Seq<char>, p: Seq<char>) -> bool {
    p.len() <= s.len() && s.take(p.len() as int) == p
}

/// The message reported when a field is given both at the base of the config and for the
/// default language; `a` and `b` render the two values.
pub open spec fn spec_twice_message(name: Seq<char>, a: Seq<char>, b: Seq<char>) -> Seq<char> {
    spec_twice_prefix(name) + a + " and "@ + b + "."@
}

/// The first field, in merge order, that both options set (a value that is not `None`, not
/// empty and not the default): `None` when they merge cleanly.
pub open spec fn spec_first_conflict(a: LanguageOptions, b: LanguageOptions) -> Option<MergeConflict> {
    if a.title is Some && b.title is Some {
        Some(MergeConflict::Title)
    } else if a.description is Some && b.description is Some {
        Some(MergeConflict::Description)
    } else if !feeds_replaceable(a.feed_filenames@) && !feeds_replaceable(b.feed_filenames@) {
        Some(MergeConflict::FeedFilenames)
    } else if a.taxonomies@.len() > 0 && b.taxonomies@.len() > 0 {
        Some(MergeConflict::Taxonomies)
    } else if !a.translations@.is_empty() && !b.translations@.is_empty() {
        Some(MergeConflict::Translations)
    } else if a.search != spec_default_search() && b.search != spec_default_search() {
        Some(MergeConflict::Search)
    } else {
        None
    }
}

/// The position of a conflicting field in merge order.
pub open spec fn conflict_rank(c: MergeConflict) -> int {
    match c {
        MergeConflict::Title => 0,
        MergeConflict::Description => 1,
        MergeConflict::FeedFilenames => 2,
        MergeConflict::Taxonomies => 3,
        MergeConflict::Translations => 4,
        MergeConflict::Search => 5,
    }
}

/// Every field of `r` merged before the point `stop` (a rank; 6 means all fields) holds the value
/// of the merge of `a` with `b`; the others keep the value of `a`.
pub open spec fn merged_up_to(a: LanguageOptions, b: LanguageOptions, r: LanguageOptions, stop: int) -> bool {
    &&& r.title == (if stop > 0 && a.title is None { b.title } else { a.title })
    &&& r.description == (if stop > 1 && a.description is None { b.description } else { a.description })
    &&& r.feed_filenames@ == (if stop > 2 && feeds_replaceable(a.feed_filenames@) {
        b.feed_filenames@
    } else {
        a.feed_filenames@
    })
    &&& r.taxonomies@ == (if stop > 3 && a.taxonomies@.len() == 0 { b.taxonomies@ } else { a.taxonomies@ })
    &&& r.translations@ == (if stop > 4 && a.translations@.is_empty() {
        b.translations@
    } else {
        a.translations@
    })
    &&& r.generate_feeds == (if stop > 4 { a.generate_feeds || b.generate_feeds } else { a.generate_feeds })
    &&& r.build_search_index == (if stop > 4 {
        a.build_search_index || b.build_search_index
    } else {
        a.build_search_index
    })
    &&& r.search == (if stop > 5 && a.search == spec_default_search() { b.search } else { a.search })
}

impl LanguageOptions {
    /// Whether the feed filenames are the default `["atom.xml"]`.
    fn has_default_feed_filenames(&self) -> (b: bool)
        ensures
            b == (strings_view(self.feed_filenames@) == spec_default_feed_filenames()),
    {
        if self.feed_filenames.len() != 1 {
            proof {
                assert(strings_view(self.feed_filenames@).len() != spec_default_feed_filenames().len());
            }
            return false;
        }
        let r = str_eq(self.feed_filenames[0].as_str(), "atom.xml");
        proof {
            if r {
                assert(strings_view(self.feed_filenames@) =~= spec_default_feed_filenames());
            } else {
                assert(strings_view(self.feed_filenames@)[0] != spec_default_feed_filenames()[0]);
            }
        }
        r
    }

    #[verifier::rlimit(50)]
    #[verifier::spinoff_prover]
    /// Merges self with another LanguageOptions, erroring if 2 equivalent fields are not None,
    /// empty or the default value.
    pub fn merge(&mut self, other: &LanguageOptions) -> (r: Result<(), Error>)
        ensures
            match spec_first_conflict(*old(self), *other) {
                None => r is Ok && merged_up_to(*old(self), *other, *final(self), 6),
                Some(c) => r is Err && merged_up_to(*old(self), *other, *final(self), conflict_rank(c))
                    && starts_with(r->Err_0.message@, spec_twice_prefix(spec_conflict_name(c))),
            },
    {
        let ghost a = *self;
        match &self.title {
            None => {
                self.title = other.title.clone();
            },
            Some(cur) => {
                if let Some(o) = &other.title {
                    let e = twice("title", debug_text(cur), debug_text(o));
                    return Err(e.error);
                }
            },
        }
        match &self.description {
            None => {
                self.description = other.description.clone();
            },
            Some(cur) => {
                if let Some(o) = &other.description {
                    let e = twice("description", debug_text(cur), debug_text(o));
                    return Err(e.error);
                }
            },
        }
        if self.feed_filenames.len() == 0 || self.has_default_feed_filenames() {
            self.feed_filenames = other.feed_filenames.clone();
            assert(self.feed_filenames@ =~= other.feed_filenames@);
        } else if other.feed_filenames.len() != 0 && !other.has_default_feed_filenames() {
            let e = twice(
                "feed_filename",
                debug_text(&self.feed_filenames),
                debug_text(&other.feed_filenames),
            );
            return Err(e.error);
        }
        if self.taxonomies.len() == 0 {
            self.taxonomies = other.taxonomies.clone();
            assert(self.taxonomies@ =~= other.taxonomies@);
        } else if other.taxonomies.len() != 0 {
            let e = twice("taxonomies", debug_text(&self.taxonomies), debug_text(&other.taxonomies));
            return Err(e.error);
        }
        if self.translations.is_empty() {
            self.translations = other.translations.clone();
        } else if !other.translations.is_empty() {
            let e = twice(
                "translations",
                debug_text(&self.translations),
                debug_text(&other.translations),
            );
            return Err(e.error);
        }
        self.generate_feeds = self.generate_feeds || other.generate_feeds;
        self.build_search_index = self.build_search_index || other.build_search_index;
        if self.search == Search::default() {
            self.search = other.search;
        } else if other.search != Search::default() {
            let e = twice("search", debug_text(&self.search), debug_text(&other.search));
            return Err(e.error);
        }
        Ok(())
    }
}

/// The error for a field given twice, with the renderings of the two values.
struct Twice {
    error: Error,
    first: String,
    second: String,
}

/// Builds the error for a field given twice.
fn twice(name: &str, a: String, b: String) -> (e: Twice)
    ensures
        e.error.message@ == spec_twice_message(name@, a@, b@),
        starts_with(e.error.message@, spec_twice_prefix(name@)),
        e.first@ == a@,
        e.second@ == b@,
{
    let mut m = String::from_str("`");
    m.append(name);
    m.append("` for default language is specified twice, as ");
    m.append(a.as_str());
    m.append(" and ");
    m.append(b.as_str());
    m.append(".");
    proof {
        let p = spec_twice_prefix(name@);
        let rest = a@ + " and "@ + b@ + "."@;
        assert(m@ =~= p + rest);
        assert((p + rest).take(p.len() as int) =~= p);
    }
    Twice { error: Error { message: m }, first: a, second: b }
}

/// Whether `code` parses as a Unicode Language Identifier with `unic-langid` (UTS #35).
pub uninterp spec fn spec_is_language_identifier(code: Seq<char>) -> bool;

/// Calls `LanguageIdentifier::from_bytes` on the UTF-8 bytes of `code`; whether it parses is
/// named by `spec_is_language_identifier`.
#[verifier::external_body]
fn is_language_identifier(code: &str) -> (b: bool)
    ensures
        b == spec_is_language_identifier(code@),
{
    unic_langid::LanguageIdentifier::from_bytes(code.as_bytes()).is_ok()
}

/// The message for a language code that is not a valid identifier.
pub open spec fn spec_invalid_code_message(code: Seq<char>) -> Seq<char> {
    "Language `"@ + code
        + "` is not a valid Unicode Language Identifier (see http://unicode.org/reports/tr35/#Unicode_language_identifier)"@
}

/// We want to ensure the language codes are valid ones.
pub fn validate_code(code: &str) -> (r: Result<(), Error>)
    ensures
        r is Ok == spec_is_language_identifier(code@),
        r is Err ==> r->Err_0.message@ == spec_invalid_code_message(code@),
{
    if !is_language_identifier(code) {
        let mut m = String::from_str("Language `");
        m.append(code);
        m.append(
            "` is not a valid Unicode Language Identifier (see http://unicode.org/reports/tr35/#Unicode_language_identifier)",
        );
        return Err(Error { message: m });
    }
    Ok(())
}

/// Whether `o` holds the options that `LanguageOptions::default()` gives.
pub open spec fn is_default_options(o: LanguageOptions) -> bool {
    &&& o.title is None
    &&& o.description is None
    &&& !o.generate_feeds
    &&& strings_view(o.feed_filenames@) == spec_default_feed_filenames()
    &&& o.taxonomies@.len() == 0
    &&& !o.build_search_index
    &&& o.search == spec_default_search()
    &&& o.translations@.is_empty()
}

/// Merging any options into the default options never conflicts, and the result holds
/// exactly the options merged in.
pub proof fn lemma_merge_into_default(a: LanguageOptions, b: LanguageOptions, r: LanguageOptions)
    requires
        is_default_options(a),
        merged_up_to(a, b, r, 6),
    ensures
        spec_first_conflict(a, b) is None,
        r.title == b.title,
        r.description == b.description,
        r.generate_feeds == b.generate_feeds,
        r.feed_filenames@ == b.feed_filenames@,
        r.taxonomies@ == b.taxonomies@,
        r.build_search_index == b.build_search_index,
        r.search == b.search,
        r.translations@ == b.translations@,
{
}

/// Whether the options are those `LanguageOptions::default()` gives.
pub fn is_default(o: &LanguageOptions) -> (r: bool)
    ensures
        r == is_default_options(*o),
{
    proof {
        reveal_strlit("atom.xml");
    }
    let feeds_default = o.feed_filenames.len() == 1 && str_eq(o.feed_filenames[0].as_str(), "atom.xml");
    proof {
        assert(spec_default_feed_filenames().len() == 1);
        assert(strings_view(o.feed_filenames@).len() == o.feed_filenames@.len());
        if o.feed_filenames@.len() == 1 {
            if feeds_default {
                assert(strings_view(o.feed_filenames@) =~= spec_default_feed_filenames());
            } else {
                assert(strings_view(o.feed_filenames@)[0] != spec_default_feed_filenames()[0]);
            }
        }
    }
    assert(feeds_default == (strings_view(o.feed_filenames@) == spec_default_feed_filenames()));
    let d = Search::default();
    let search_default = o.search == d;
    assert(search_default == (o.search == spec_default_search()));
    let translations_empty = o.translations.is_empty();
    assert(translations_empty == o.translations@.is_empty());
    o.title.is_none() && o.description.is_none() && !o.generate_feeds && feeds_default
        && o.taxonomies.len() == 0 && !o.build_search_index && search_default && translations_empty
}

/// The position of the options of the language `code` among `languages`, if it has some.
pub open spec fn language_index(languages: Seq<(String, LanguageOptions)>, code: Seq<char>) -> Option<int>
    decreases languages.len(),
{
    if languages.len() == 0 {
        None
    } else if languages.last().0@ == code {
        Some(languages.len() - 1)
    } else {
        language_index(languages.drop_last(), code)
    }
}

/// A language that has options is found among them.
proof fn lemma_language_found(languages: Seq<(String, LanguageOptions)>, code: Seq<char>, i: int)
    requires
        0 <= i < languages.len(),
        languages[i].0@ == code,
    ensures
        language_index(languages, code) is Some,
    decreases languages.len(),
{
    if languages.last().0@ != code {
        lemma_language_found(languages.drop_last(), code, i);
    }
}

/// Where the options of the language `code` are among `languages`.
fn find_language_options(languages: &Vec<(String, LanguageOptions)>, code: &str) -> (r: Option<usize>)
    ensures
        match r {
            Some(i) => language_index(languages@, code@) == Some(i as int) && i < languages@.len(),
            None => language_index(languages@, code@) is None,
        },
{
    let mut k: usize = languages.len();
    assert(languages@.take(k as int) =~= languages@);
    while k > 0
        invariant
            k <= languages@.len(),
            language_index(languages@, code@) == language_index(languages@.take(k as int), code@),
        decreases k,
    {
        assert(languages@.take(k as int).drop_last() =~= languages@.take(k - 1));
        assert(languages@.take(k as int).last() == languages@[k - 1]);
        if str_eq(languages[k - 1].0.as_str(), code) {
            return Some(k - 1);
        }
        k -= 1;
    }
    assert(languages@.take(0) =~= Seq::<(String, LanguageOptions)>::empty());
    None
}

/// Adds the options set at the base of the configuration, `base`, as those of the default
/// language. Where the default language also has options of its own, the two are merged,
/// unless the base options are the defaults; a field set in both is an error, and then nothing
/// changes.
pub fn add_default_language(languages: &mut Vec<(String, LanguageOptions)>, default_language: &str, base: LanguageOptions) -> (r: Result<(), Error>)
    ensures
        match language_index(old(languages)@, default_language@) {
            None => {
                &&& r is Ok
                &&& final(languages)@.len() == old(languages)@.len() + 1
                &&& final(languages)@.take(old(languages)@.len() as int) == old(languages)@
                &&& final(languages)@.last().0@ == default_language@
                &&& final(languages)@.last().1 == base
            },
            Some(i) => if is_default_options(base) {
                r is Ok && final(languages)@ == old(languages)@
            } else {
                match spec_first_conflict(base, old(languages)@[i].1) {
                    Some(c) => {
                        &&& r is Err && final(languages)@ == old(languages)@
                        &&& starts_with(r->Err_0.message@, spec_twice_prefix(spec_conflict_name(c)))
                    },
                    None => {
                        &&& r is Ok
                        &&& final(languages)@.len() == old(languages)@.len()
                        &&& forall|j: int| 0 <= j < old(languages)@.len() && j != i
                            ==> #[trigger] final(languages)@[j] == old(languages)@[j]
                        &&& final(languages)@[i].0@ == default_language@
                        &&& merged_up_to(base, old(languages)@[i].1, final(languages)@[i].1, 6)
                    },
                }
            },
        },
        r is Ok ==> language_index(final(languages)@, default_language@) is Some,
{
    match find_language_options(languages, default_language) {
        None => {
            let ghost before = languages@;
            languages.push((String::from_str(default_language), base));
            assert(languages@.take(before.len() as int) =~= before);
            proof {
                lemma_language_found(languages@, default_language@, before.len() as int);
            }
            Ok(())
        },
        Some(i) => {
            if is_default(&base) {
                return Ok(());
            }
            let mut merged = base;
            match merged.merge(&languages[i].1) {
                Err(e) => Err(e),
                Ok(()) => {
                    let key = String::from_str(default_language);
                    languages.set(i, (key, merged));
                    proof {
                        lemma_language_found(languages@, default_language@, i as int);
                    }
                    Ok(())
                },
            }
        },
    }
}

/// Whether the language `lang` has a taxonomy named `name`.
pub fn has_taxonomy(languages: &Vec<(String, LanguageOptions)>, name: &str, lang: &str) -> (r: bool)
    ensures
        r == (match language_index(languages@, lang@) {
            Some(i) => exists|t: int| 0 <= t < languages@[i].1.taxonomies@.len()
                && (#[trigger] languages@[i].1.taxonomies@[t]).name@ == name@,
            None => false,
        }),
{
    match find_language_options(languages, lang) {
        Some(i) => {
            let taxonomies = &languages[i].1.taxonomies;
            let mut t: usize = 0;
            while t < taxonomies.len()
                invariant
                    i < languages@.len(),
                    language_index(languages@, lang@) == Some(i as int),
                    taxonomies@ == languages@[i as int].1.taxonomies@,
                    t <= taxonomies@.len(),
                    forall|u: int| 0 <= u < t ==> (#[trigger] taxonomies@[u]).name@ != name@,
                decreases taxonomies.len() - t,
            {
                if str_eq(taxonomies[t].name.as_str(), name) {
                    assert(languages@[i as int].1.taxonomies@[t as int].name@ == name@);
                    assert(exists|u: int| 0 <= u < languages@[i as int].1.taxonomies@.len()
                        && (#[trigger] languages@[i as int].1.taxonomies@[u]).name@ == name@);
                    return true;
                }
                t += 1;
            }
            false
        },
        None => false,
    }
}

/// The codes of the languages other than the default one, in order.
pub open spec fn spec_other_codes(languages: Seq<(String, LanguageOptions)>, default_language: Seq<char>) -> Seq<Seq<char>>
    decreases languages.len(),
{
    if languages.len() == 0 {
        Seq::empty()
    } else {
        let rest = spec_other_codes(languages.drop_last(), default_language);
        if languages.last().0@ == default_language {
            rest
        } else {
            rest.push(languages.last().0@)
        }
    }
}

/// The codes of the languages other than the default one.
pub fn other_languages_codes(languages: &Vec<(String, LanguageOptions)>, default_language: &str) -> (r: Vec<String>)
    ensures
        strings_view(r@) == spec_other_codes(languages@, default_language@),
{
    let mut r: Vec<String> = Vec::new();
    let mut i: usize = 0;
    while i < languages.len()
        invariant
            i <= languages@.len(),
            strings_view(r@) == spec_other_codes(languages@.take(i as int), default_language@),
        decreases languages.len() - i,
    {
        assert(languages@.take(i + 1).drop_last() =~= languages@.take(i as int));
        assert(languages@.take(i + 1).last() == languages@[i as int]);
        let ghost prev = strings_view(r@);
        if !str_eq(languages[i].0.as_str(), default_language) {
            r.push(languages[i].0.clone());
            assert(strings_view(r@) =~= prev.push(languages@[i as int].0@));
        }
        i += 1;
    }
    assert(languages@.take(languages@.len() as int) =~= languages@);
    r
}

/// Whether the site has languages besides the default one.
pub fn is_multilingual(languages: &Vec<(String, LanguageOptions)>, default_language: &str) -> (r: bool)
    ensures
        r == (spec_other_codes(languages@, default_language@).len() > 0),
{
    other_languages_codes(languages, default_language).len() > 0
}

impl Default for LanguageOptions {
    fn default() -> (o: LanguageOptions)
        ensures
            o.title is None,
            o.description is None,
            !o.generate_feeds,
            strings_view(o.feed_filenames@) == spec_default_feed_filenames(),
            o.taxonomies@.len() == 0,
            !o.build_search_index,
            o.search == spec_default_search(),
            o.translations@.is_empty(),
    {
        let mut feeds = Vec::new();
        feeds.push(String::from_str("atom.xml"));
        let o = LanguageOptions {
            title: None,
            description: None,
            generate_feeds: false,
            feed_filenames: feeds,
            taxonomies: Vec::new(),
            build_search_index: false,
            search: Search::default(),
            translations: HashMap::new(),
        };
        assert(strings_view(o.feed_filenames@) =~= spec_default_feed_filenames());
        o
    }
}

} // verus!
