//! Settings of the site as a whole, and the rules that read them.
use globset::GlobSet;
use vstd::prelude::*;

use crate::config::link_checker::{
    build_ignore_glob_set, first_invalid_glob, has_prefix, spec_bad_glob_set_message,
    spec_globset_builds, spec_globset_patterns, spec_invalid_glob_prefix, LinkChecker,
};
use crate::config::merge::{entries_view, merge_entries, merge_entries_into, TomlValue};
use crate::config::slugify::{Slugify, SlugifyStrategy};
use crate::config::taxonomies::TaxonomyConfig;
use crate::error::Error;
use crate::slugs::{slugify_paths, spec_slugify_paths};
use crate::text::{chars_of, str_eq, strings_view};

verus! {

/// What the site is being built for.
#[derive(Clone, Copy, Debug, PartialEq, Eq, Structural)]
pub enum Mode {
    Build,
    Serve,
    Check,
}

/// A language of a multilingual site and what is generated for it.
#[derive(Clone, Debug, PartialEq, Eq)]
pub struct Language {
    /// The language code
    pub code: String,
    /// Whether to generate a RSS feed for that language, defaults to `false`
    pub rss: bool,
    /// Whether to generate search index for that language, defaults to `false`
    pub search: bool,
}

impl Default for Language {
    fn default() -> (l: Language)
        ensures
            l.code@ == Seq::<char>::empty(),
            !l.rss,
            !l.search,
    {
        Language { code: String::new(), rss: false, search: false }
    }
}

/// The data a theme brings: the values of its `[extra]` table.
pub struct Theme {
    pub extra: Vec<(String, TomlValue)>,
}

/// The configuration of a site, as read from `config.toml`.
pub struct Config {
    /// Base URL of the site, the only required config argument
    pub base_url: String,
    /// Theme to use
    pub theme: Option<String>,
    /// Title of the site. Defaults to None
    pub title: Option<String>,
    /// Description of the site
    pub description: Option<String>,
    /// The language used in the site. Defaults to "en"
    pub default_language: String,
    /// The list of supported languages outside of the default one
    pub languages: Vec<Language>,
    /// For each language code, its terms and their translation, looked up with
    /// `get_translation`; no language and no term of a language occurs twice (see
    /// `translations_well_formed`).
    pub translations: Vec<(String, Vec<(String, String)>)>,
    /// Whether to highlight all code blocks found in markdown files. Defaults to false
    pub highlight_code: bool,
    /// Which themes to use for code highlighting. Defaults to "base16-ocean-dark"
    pub highlight_theme: String,
    /// Whether to generate RSS. Defaults to false
    pub generate_rss: bool,
    /// The file name of the feed. Defaults to "atom.xml"
    pub feed_filename: String,
    /// The number of articles to include in the RSS feed. Defaults to including all items.
    pub rss_limit: Option<usize>,
    /// If set, files from static/ will be hardlinked instead of copied to the output dir.
    pub hard_link_static: bool,
    pub taxonomies: Vec<TaxonomyConfig>,
    /// Whether to compile the `sass` directory and output the css files into the static folder
    pub compile_sass: bool,
    /// Whether to build the search index for the content
    pub build_search_index: bool,
    /// A list of file glob patterns to ignore when processing the content folder.
    pub ignored_content: Vec<String>,
    pub ignored_content_globset: Option<GlobSet>,
    /// The mode Zola is currently being ran on.
    pub mode: Mode,
    /// A list of directories to search for additional `.sublime-syntax` files in.
    pub extra_syntaxes: Vec<String>,
    pub link_checker: LinkChecker,
    /// The setup for which slugification strategies to use for paths, taxonomies and anchors
    pub slugify: Slugify,
    /// All user params set in [extra] in the config
    pub extra: Vec<(String, TomlValue)>,
    /// Set automatically when instantiating the config. Used for cachebusting
    pub build_timestamp: Option<i64>,
}

impl Default for Config {
    fn default() -> (c: Config)
        ensures
            c.base_url@ == "http://a-website.com"@,
            c.theme is None,
            c.title is None,
            c.description is None,
            c.default_language@ == "en"@,
            c.languages@.len() == 0,
            c.translations@.len() == 0,
            translations_well_formed(c.translations@),
            !c.highlight_code,
            c.highlight_theme@ == "base16-ocean-dark"@,
            !c.generate_rss,
            c.feed_filename@ == "atom.xml"@,
            c.rss_limit is None,
            !c.hard_link_static,
            c.taxonomies@.len() == 0,
            !c.compile_sass,
            c.mode == Mode::Build,
            !c.build_search_index,
            c.ignored_content@.len() == 0,
            c.ignored_content_globset is None,
            c.extra_syntaxes@.len() == 0,
            c.link_checker.skip_prefixes@.len() == 0,
            c.link_checker.skip_anchor_prefixes@.len() == 0,
            c.slugify == (Slugify {
                paths: SlugifyStrategy::On,
                paths_keep_dates: false,
                taxonomies: SlugifyStrategy::On,
                anchors: SlugifyStrategy::On,
            }),
            c.extra@.len() == 0,
            c.build_timestamp == Some(1i64),
    {
        Config {
            base_url: String::from_str("http://a-website.com"),
            theme: None,
            title: None,
            description: None,
            default_language: String::from_str("en"),
            languages: Vec::new(),
            translations: Vec::new(),
            highlight_code: false,
            highlight_theme: String::from_str("base16-ocean-dark"),
            generate_rss: false,
            feed_filename: String::from_str("atom.xml"),
            rss_limit: None,
            hard_link_static: false,
            taxonomies: Vec::new(),
            compile_sass: false,
            build_search_index: false,
            ignored_content: Vec::new(),
            ignored_content_globset: None,
            mode: Mode::Build,
            extra_syntaxes: Vec::new(),
            link_checker: LinkChecker::default(),
            slugify: Slugify::default(),
            extra: Vec::new(),
            build_timestamp: Some(1),
        }
    }
}

/// Whether `s` ends with `suffix`.
pub open spec fn ends_with(s: Seq<char>, suffix: Seq<char>) -> bool {
    suffix.len() <= s.len() && s.skip(s.len() - suffix.len()) == suffix
}

/// Whether `s` begins with `prefix`.
pub open spec fn begins_with(s: Seq<char>, prefix: Seq<char>) -> bool {
    prefix.len() <= s.len() && s.take(prefix.len() as int) == prefix
}

/// The permalink of `path` on the site at `base_url`: one `/` between them, and a trailing
/// `/` unless the path is empty, already ends with one or ends with the feed's file name
/// `feed_filename`.
pub open spec fn spec_make_permalink(base_url: Seq<char>, feed_filename: Seq<char>, path: Seq<char>) -> Seq<char> {
    let trailing_bit = if ends_with(path, "/"@) || ends_with(path, feed_filename) || path.len() == 0 {
        Seq::<char>::empty()
    } else {
        "/"@
    };
    let base_slash = ends_with(base_url, "/"@);
    if base_slash && path == "/"@ {
        base_url
    } else if path == "/"@ {
        base_url + "/"@
    } else if base_slash && begins_with(path, "/"@) {
        base_url + path.skip(1) + trailing_bit
    } else if base_slash || begins_with(path, "/"@) {
        base_url + path + trailing_bit
    } else {
        base_url + "/"@ + path + trailing_bit
    }
}

/// Whether `s` ends with `suffix`.
fn ends_with_str(s: &str, suffix: &str) -> (b: bool)
    ensures
        b == ends_with(s@, suffix@),
{
    let v = chars_of(s);
    let w = chars_of(suffix);
    if w.len() > v.len() {
        return false;
    }
    let off = v.len() - w.len();
    let mut i: usize = 0;
    while i < w.len()
        invariant
            v@ == s@,
            w@ == suffix@,
            off == v@.len() - w@.len(),
            w@.len() <= v@.len(),
            v@.len() <= usize::MAX,
            i <= w@.len(),
            forall|j: int| 0 <= j < i ==> v@[off + j] == w@[j],
        decreases w.len() - i,
    {
        if v[off + i] != w[i] {
            assert(s@.skip(off as int)[i as int] != suffix@[i as int]);
            return false;
        }
        i += 1;
    }
    assert(s@.skip(off as int) =~= suffix@);
    true
}

/// Whether `s` begins with `/`.
fn begins_with_slash(s: &str) -> (b: bool)
    ensures
        b == begins_with(s@, "/"@),
{
    proof {
        reveal_strlit("/");
    }
    let v = chars_of(s);
    if v.len() > 0 && v[0] == '/' {
        assert(s@.take(1) =~= "/"@);
        true
    } else {
        if v.len() > 0 {
            assert(s@.take(1)[0] != "/"@[0]);
        }
        false
    }
}

/// The position of the first entry whose key is `k`.
pub open spec fn first_key<V>(es: Seq<(String, V)>, k: Seq<char>) -> Option<int>
    decreases es.len(),
{
    if es.len() == 0 {
        None
    } else if es[0].0@ == k {
        Some(0)
    } else {
        match first_key(es.drop_first(), k) {
            Some(i) => Some(i + 1),
            None => None,
        }
    }
}

/// The first entry whose key is `k`.
fn find_entry<V>(es: &Vec<(String, V)>, k: &str) -> (r: Option<usize>)
    ensures
        r matches Some(i) ==> first_key(es@, k@) == Some(i as int) && i < es@.len(),
        r is None ==> first_key(es@, k@) is None,
{
    let mut i: usize = 0;
    assert(es@.skip(0) =~= es@);
    while i < es.len()
        invariant
            i <= es@.len(),
            first_key(es@, k@) == (match first_key(es@.skip(i as int), k@) {
                Some(j) => Some(j + i),
                None => None,
            }),
        decreases es.len() - i,
    {
        assert(es@.skip(i as int).drop_first() =~= es@.skip(i + 1));
        if str_eq(es[i].0.as_str(), k) {
            return Some(i);
        }
        i += 1;
    }
    assert(es@.skip(i as int) =~= Seq::<(String, V)>::empty());
    None
}

/// What `get_translation` answers: the translation of `key` in `lang`, or which of the two
/// is missing.
pub open spec fn spec_translation(translations: Seq<(String, Vec<(String, String)>)>, lang: Seq<char>, key: Seq<char>) -> Result<Seq<char>, Seq<char>> {
    match first_key(translations, lang) {
        None => Err("Language '"@ + lang + "' not found."@),
        Some(i) => match first_key(translations[i].1@, key) {
            None => Err("Translation key '"@ + key + "' for language '"@ + lang + "' is missing"@),
            Some(j) => Ok(translations[i].1@[j].1@),
        },
    }
}

/// No two entries share a key.
pub open spec fn distinct_keys<V>(es: Seq<(String, V)>) -> bool {
    forall|a: int, b: int| 0 <= a < b < es.len() ==> (#[trigger] es[a]).0@ != (#[trigger] es[b]).0@
}

/// The translations of a configuration are well formed: no language is listed twice, and no
/// language lists a term twice (they are read from maps keyed by language and by term).
pub open spec fn translations_well_formed(t: Seq<(String, Vec<(String, String)>)>) -> bool {
    &&& distinct_keys(t)
    &&& forall|i: int| 0 <= i < t.len() ==> distinct_keys(#[trigger] t[i].1@)
}

/// Where keys are distinct, the entry found for a key is the one that holds it.
pub proof fn lemma_first_key_distinct<V>(es: Seq<(String, V)>, i: int)
    requires
        distinct_keys(es),
        0 <= i < es.len(),
    ensures
        first_key(es, es[i].0@) == Some(i),
    decreases i,
{
    if i > 0 {
        let rest = es.drop_first();
        assert(es[0].0@ != es[i].0@);
        assert(rest[i - 1] == es[i]);
        assert forall|a: int, b: int| 0 <= a < b < rest.len() implies (#[trigger] rest[a]).0@ != (#[trigger] rest[b]).0@ by {
            assert(rest[a] == es[a + 1] && rest[b] == es[b + 1]);
        }
        lemma_first_key_distinct(rest, i - 1);
    }
}

/// In well-formed translations, every term that a language lists is found with its own
/// translation, whatever place the language and the term hold in their lists.
pub proof fn lemma_listed_translation_found(t: Seq<(String, Vec<(String, String)>)>, i: int, j: int)
    requires
        translations_well_formed(t),
        0 <= i < t.len(),
        0 <= j < t[i].1@.len(),
    ensures
        spec_translation(t, t[i].0@, t[i].1@[j].0@) == Ok::<Seq<char>, Seq<char>>(t[i].1@[j].1@),
{
    lemma_first_key_distinct(t, i);
    assert(distinct_keys(t[i].1@));
    lemma_first_key_distinct(t[i].1@, j);
}

/// The positions of the languages among `ls` whose code is not `lang`, in their order.
pub open spec fn other_language_positions(ls: Seq<Language>, lang: Seq<char>) -> Seq<int>
    decreases ls.len(),
{
    if ls.len() == 0 {
        Seq::empty()
    } else {
        let rest = other_language_positions(ls.drop_last(), lang);
        if ls.last().code@ != lang {
            rest.push(ls.len() - 1)
        } else {
            rest
        }
    }
}

/// `b` is the taxonomy `a` with its slug made from its name under `strategy`.
pub open spec fn taxonomy_slugified(a: TaxonomyConfig, b: TaxonomyConfig, strategy: SlugifyStrategy) -> bool {
    &&& b.slug@ == spec_slugify_paths(a.name@, strategy)
    &&& b.name == a.name
    &&& b.paginate_by == a.paginate_by
    &&& b.paginate_path == a.paginate_path
    &&& b.render == a.render
    &&& b.feed == a.feed
}

/// The permalink of a path is the same whether or not the base URL ends with a slash.
pub proof fn lemma_permalink_ignores_base_trailing_slash(base_url: Seq<char>, feed_filename: Seq<char>, path: Seq<char>)
    requires
        !ends_with(base_url, "/"@),
    ensures
        spec_make_permalink(base_url + "/"@, feed_filename, path) == spec_make_permalink(base_url, feed_filename, path),
{
    reveal_strlit("/");
    let b2 = base_url + "/"@;
    assert(b2.skip(b2.len() - 1) =~= "/"@);
    if begins_with(path, "/"@) && path != "/"@ {
        assert(path =~= "/"@ + path.skip(1));
        assert(b2 + path.skip(1) =~= base_url + path);
    }
}

impl Config {
    /// Makes a url, taking into account that the base url might have a trailing slash
    pub fn make_permalink(&self, path: &str) -> (r: String)
        ensures
            r@ == spec_make_permalink(self.base_url@, self.feed_filename@, path@),
    {
        proof {
            reveal_strlit("/");
            reveal_strlit("");
        }
        let trailing_bit = if ends_with_str(path, "/") || ends_with_str(path, self.feed_filename.as_str()) || chars_of(path).len() == 0 {
            ""
        } else {
            "/"
        };
        let base_slash = ends_with_str(self.base_url.as_str(), "/");
        let is_root = str_eq(path, "/");
        let mut r = self.base_url.clone();
        if base_slash && is_root {
        } else if is_root {
            r.append("/");
        } else if base_slash && begins_with_slash(path) {
            let n = chars_of(path).len();
            let rest = path.substring_char(1, n);
            assert(rest@ =~= path@.skip(1));
            r.append(rest);
            r.append(trailing_bit);
        } else if base_slash || begins_with_slash(path) {
            r.append(path);
            r.append(trailing_bit);
        } else {
            r.append("/");
            r.append(path);
            r.append(trailing_bit);
        }
        r
    }

    /// Is this site using i18n?
    pub fn is_multilingual(&self) -> (b: bool)
        ensures
            b == (self.languages@.len() > 0),
    {
        self.languages.len() > 0
    }

    /// Returns the codes of all additional languages
    pub fn languages_codes(&self) -> (r: Vec<&str>)
        ensures
            r@.len() == self.languages@.len(),
            forall|i: int| 0 <= i < r@.len() ==> (#[trigger] r@[i])@ == self.languages@[i].code@,
    {
        let mut r: Vec<&str> = Vec::new();
        let mut i: usize = 0;
        while i < self.languages.len()
            invariant
                i <= self.languages@.len(),
                r@.len() == i,
                forall|j: int| 0 <= j < i ==> (#[trigger] r@[j])@ == self.languages@[j].code@,
            decreases self.languages.len() - i,
        {
            r.push(self.languages[i].code.as_str());
            i += 1;
        }
        r
    }

    pub fn is_in_build_mode(&self) -> (b: bool)
        ensures
            b == (self.mode == Mode::Build),
    {
        self.mode == Mode::Build
    }

    pub fn is_in_serve_mode(&self) -> (b: bool)
        ensures
            b == (self.mode == Mode::Serve),
    {
        self.mode == Mode::Serve
    }

    pub fn is_in_check_mode(&self) -> (b: bool)
        ensures
            b == (self.mode == Mode::Check),
    {
        self.mode == Mode::Check
    }

    pub fn enable_serve_mode(&mut self)
        ensures
            final(self).mode == Mode::Serve,
            final(self).highlight_code == old(self).highlight_code,
    {
        self.mode = Mode::Serve;
    }

    /// Switches to checking, where highlighting is disabled since the results won't be used.
    pub fn enable_check_mode(&mut self)
        ensures
            final(self).mode == Mode::Check,
            !final(self).highlight_code,
    {
        self.mode = Mode::Check;
        self.highlight_code = false;
    }

    /// The positions of the languages whose code is not `lang`, in their order: the other
    /// languages a page in `lang` is offered in.
    pub fn languages_besides(&self, lang: &str) -> (r: Vec<usize>)
        ensures
            r@.map_values(|k: usize| k as int) == other_language_positions(self.languages@, lang@),
    {
        let mut r: Vec<usize> = Vec::new();
        let mut i: usize = 0;
        while i < self.languages.len()
            invariant
                i <= self.languages@.len(),
                r@.map_values(|k: usize| k as int) == other_language_positions(self.languages@.take(i as int), lang@),
            decreases self.languages.len() - i,
        {
            assert(self.languages@.take(i + 1).drop_last() =~= self.languages@.take(i as int));
            assert(self.languages@.take(i + 1).last() == self.languages@[i as int]);
            let ghost before = r@.map_values(|k: usize| k as int);
            if !str_eq(self.languages[i].code.as_str(), lang) {
                r.push(i);
                assert(r@.map_values(|k: usize| k as int) =~= before.push(i as int));
            }
            i += 1;
        }
        assert(self.languages@.take(self.languages@.len() as int) =~= self.languages@);
        r
    }

    /// Gives each taxonomy the slug made from its name under the site's taxonomy strategy.
    pub fn slugify_taxonomies(&mut self)
        ensures
            final(self).taxonomies@.len() == old(self).taxonomies@.len(),
            forall|i: int| 0 <= i < old(self).taxonomies@.len() ==> taxonomy_slugified(
                old(self).taxonomies@[i], #[trigger] final(self).taxonomies@[i], old(self).slugify.taxonomies),
            final(self).slugify == old(self).slugify,
            final(self).languages == old(self).languages,
            final(self).base_url == old(self).base_url,
    {
        let strategy = self.slugify.taxonomies;
        let ghost before = self.taxonomies@;
        let mut i: usize = 0;
        while i < self.taxonomies.len()
            invariant
                i <= self.taxonomies@.len(),
                self.taxonomies@.len() == before.len(),
                forall|j: int| 0 <= j < i ==> taxonomy_slugified(before[j], #[trigger] self.taxonomies@[j], strategy),
                forall|j: int| i <= j < before.len() ==> #[trigger] self.taxonomies@[j] == before[j],
                self.slugify == old(self).slugify,
                self.languages == old(self).languages,
                self.base_url == old(self).base_url,
                strategy == old(self).slugify.taxonomies,
            decreases self.taxonomies.len() - i,
        {
            let mut t = self.taxonomies[i].clone();
            t.slug = slugify_paths(t.name.as_str(), strategy);
            self.taxonomies.set(i, t);
            i += 1;
        }
    }

    /// The translation of `key` in the language `lang`.
    pub fn get_translation(&self, lang: &str, key: &str) -> (r: Result<String, Error>)
        ensures
            match spec_translation(self.translations@, lang@, key@) {
                Ok(t) => r is Ok && r->Ok_0@ == t,
                Err(m) => r is Err && r->Err_0.message@ == m,
            },
    {
        let i = match find_entry(&self.translations, lang) {
            Some(i) => i,
            None => {
                let mut m = String::from_str("Language '");
                m.append(lang);
                m.append("' not found.");
                return Err(Error { message: m });
            },
        };
        let terms = &self.translations[i].1;
        match find_entry(terms, key) {
            Some(j) => Ok(terms[j].1.clone()),
            None => {
                let mut m = String::from_str("Translation key '");
                m.append(key);
                m.append("' for language '");
                m.append(lang);
                m.append("' is missing");
                Err(Error { message: m })
            },
        }
    }

    /// Merges the extra data from the theme with the config extra data: what the site sets
    /// stays, what only the theme sets is added, and tables present in both are merged.
    pub fn add_theme_extra(&mut self, theme: &Theme) -> (r: Result<(), Error>)
        ensures
            entries_view(final(self).extra@) == merge_entries(entries_view(old(self).extra@), entries_view(theme.extra@)).0,
            r is Ok == merge_entries(entries_view(old(self).extra@), entries_view(theme.extra@)).1,
            final(self).base_url == old(self).base_url,
            final(self).default_language == old(self).default_language,
    {
        merge_entries_into(&mut self.extra, &theme.extra)
    }
}

/// Whether one of the additional languages has the code `code`.
pub open spec fn has_language(languages: Seq<Language>, code: Seq<char>) -> bool {
    exists|i: int| 0 <= i < languages.len() && languages[i].code@ == code
}

/// The first problem of a freshly read configuration, in the order they are looked for: a
/// missing base URL, an unknown highlight theme, the default language listed again among the
/// others. `None` when there is none.
pub open spec fn spec_config_problem(c: Config, highlight_theme_available: bool) -> Option<Seq<char>> {
    if c.base_url@.len() == 0 || c.base_url@ == "http://a-website.com"@ {
        Some("A base URL is required in config.toml with key `base_url`"@)
    } else if !highlight_theme_available {
        Some("Highlight theme "@ + c.highlight_theme@ + " not available"@)
    } else if has_language(c.languages@, c.default_language@) {
        Some("Default language `"@ + c.default_language@
            + "` should not appear both in `config.default_language` and `config.languages`"@)
    } else {
        None
    }
}

impl Config {
    /// Checks a configuration just read from `config.toml` and completes it: the build
    /// timestamp is set and the ignored content patterns are compiled. Whether the
    /// highlight theme exists among the known themes is told by the caller.
    pub fn finish_parse(&mut self, highlight_theme_available: bool, timestamp: i64) -> (r: Result<(), Error>)
        ensures
            match spec_config_problem(*old(self), highlight_theme_available) {
                Some(m) => r is Err && r->Err_0.message@ == m,
                None => if old(self).ignored_content@.len() == 0 {
                    r is Ok
                } else {
                    match first_invalid_glob(old(self).ignored_content@, 0) {
                        Some(i) => r is Err && has_prefix(r->Err_0.message@,
                            spec_invalid_glob_prefix("content"@, old(self).ignored_content@[i]@)),
                        None => (r is Ok <==> spec_globset_builds(strings_view(old(self).ignored_content@)))
                            && (r is Err ==> r->Err_0.message@ == spec_bad_glob_set_message("content"@)),
                    }
                },
            },
            r is Ok ==> final(self).build_timestamp == Some(timestamp),
            r is Ok && old(self).ignored_content@.len() > 0 ==> (final(self).ignored_content_globset matches Some(g)
                && spec_globset_patterns(g) == strings_view(old(self).ignored_content@)),
            r is Ok && old(self).ignored_content@.len() == 0 ==> final(self).ignored_content_globset == old(self).ignored_content_globset,
            final(self).base_url == old(self).base_url,
            final(self).default_language == old(self).default_language,
            final(self).languages == old(self).languages,
            final(self).ignored_content == old(self).ignored_content,
    {
        proof {
            reveal_strlit("content");
        }
        if chars_of(self.base_url.as_str()).len() == 0 || str_eq(self.base_url.as_str(), "http://a-website.com") {
            return Err(Error { message: String::from_str("A base URL is required in config.toml with key `base_url`") });
        }
        if !highlight_theme_available {
            let mut m = String::from_str("Highlight theme ");
            m.append(self.highlight_theme.as_str());
            m.append(" not available");
            return Err(Error { message: m });
        }
        let mut i: usize = 0;
        let ghost before = *self;
        assert(spec_config_problem(before, highlight_theme_available) == (if has_language(before.languages@, before.default_language@) {
            Some("Default language `"@ + before.default_language@
                + "` should not appear both in `config.default_language` and `config.languages`"@)
        } else {
            None
        }));
        while i < self.languages.len()
            invariant
                *self == before,
                before == *old(self),
                spec_config_problem(before, highlight_theme_available) == (if has_language(before.languages@, before.default_language@) {
                    Some("Default language `"@ + before.default_language@
                        + "` should not appear both in `config.default_language` and `config.languages`"@)
                } else {
                    None
                }),
                i <= self.languages@.len(),
                forall|j: int| 0 <= j < i ==> self.languages@[j].code@ != self.default_language@,
            decreases self.languages.len() - i,
        {
            if str_eq(self.languages[i].code.as_str(), self.default_language.as_str()) {
                assert(has_language(self.languages@, self.default_language@)) by {
                    assert(self.languages@[i as int].code@ == self.default_language@);
                }
                let mut m = String::from_str("Default language `");
                m.append(self.default_language.as_str());
                m.append("` should not appear both in `config.default_language` and `config.languages`");
                return Err(Error { message: m });
            }
            i += 1;
        }
        self.build_timestamp = Some(timestamp);
        if self.ignored_content.len() > 0 {
            let glob_set = build_ignore_glob_set(&self.ignored_content, "content")?;
            self.ignored_content_globset = Some(glob_set);
        }
        Ok(())
    }
}

} // verus!
