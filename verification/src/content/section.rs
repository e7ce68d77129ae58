//! A section of the site: its file, its front matter, and where it is published.
use slotmap::DefaultKey;
use vstd::prelude::*;

use crate::config::site::{spec_make_permalink, Config, Language};
use crate::content::file_info::{spec_found_language, spec_section_info, spec_section_path_ok, FileInfo};
use crate::content::utils::{get_reading_analytics, spec_reading_analytics};
use crate::error::Error;
use crate::content::headings::Heading;
use crate::content::page::{split_segments, path_components};
use crate::content::section_front_matter::SectionFrontMatter;
use crate::paths::{path_file_name, spec_path_file_name};
use crate::text::{join, spec_join, str_eq, strings_view};

verus! {

/// A section of the site.
pub struct Section {
    /// All info about the actual file
    pub file: FileInfo,
    /// The front matter meta-data
    pub meta: SectionFrontMatter,
    /// The URL path of the page, always starting with a slash
    pub path: String,
    /// The components for the path of that page
    pub components: Vec<String>,
    /// The full URL for that page
    pub permalink: String,
    /// The actual content of the page, in markdown
    pub raw_content: String,
    /// The HTML rendered of the page
    pub content: String,
    /// All the non-md files we found next to the .md file
    pub assets: Vec<String>,
    /// All the non-md files we found next to the .md file as string for use in templates
    pub serialized_assets: Vec<String>,
    /// All direct pages of that section
    pub pages: Vec<DefaultKey>,
    /// All pages that cannot be sorted in this section
    pub ignored_pages: Vec<DefaultKey>,
    /// The list of parent sections
    pub ancestors: Vec<DefaultKey>,
    /// All direct subsections
    pub subsections: Vec<DefaultKey>,
    /// Toc made from the headings of the markdown file
    pub toc: Vec<Heading>,
    /// How many words in the raw content
    pub word_count: Option<usize>,
    /// How long would it take to read the raw content.
    pub reading_time: Option<usize>,
    /// The language of that section.
    pub lang: String,
    /// How `lang` is to be displayed in filenames/URLs
    pub language_alias: String,
    /// Contains all the translated version of that section
    pub translations: Vec<DefaultKey>,
    /// The internal links that have an anchor: (path to markdown, anchor value)
    pub internal_links_with_anchors: Vec<(String, String)>,
    /// Contains the external links that need to be checked
    pub external_links: Vec<String>,
}

/// The URL path of a section: its folders below `content`, under its language alias when it
/// is not in the default language, between slashes.
pub open spec fn spec_section_path(components: Seq<Seq<char>>, lang: Seq<char>, default_language: Seq<char>, language_alias: Seq<char>) -> Seq<char> {
    let path = spec_join(components, "/"@);
    let lang_path = if lang != default_language { "/"@ + language_alias } else { Seq::<char>::empty() };
    if path.len() == 0 {
        lang_path + "/"@
    } else {
        lang_path + "/"@ + path + "/"@
    }
}

/// The URL path of a section (see `spec_section_path`).
pub fn section_path(components: &Vec<String>, lang: &str, default_language: &str, language_alias: &str) -> (r: String)
    ensures
        r@ == spec_section_path(strings_view(components@), lang@, default_language@, language_alias@),
{
    let path = join(components, "/");
    let mut r = String::new();
    if !str_eq(lang, default_language) {
        r.append("/");
        r.append(language_alias);
    }
    r.append("/");
    if crate::text::chars_of(path.as_str()).len() > 0 {
        r.append(path.as_str());
        r.append("/");
    }
    r
}

/// The codes of the languages of the site besides the default one.
pub open spec fn other_language_codes(config: Config) -> Seq<Seq<char>> {
    config.languages@.map_values(|l: Language| l.code@)
}

/// The codes of the languages of the site besides the default one.
pub(crate) fn other_codes(config: &Config) -> (r: Vec<String>)
    ensures
        strings_view(r@) == other_language_codes(*config),
{
    let mut r: Vec<String> = Vec::new();
    let mut i: usize = 0;
    while i < config.languages.len()
        invariant
            i <= config.languages@.len(),
            strings_view(r@) == other_language_codes(*config).take(i as int),
        decreases config.languages.len() - i,
    {
        let ghost prev = strings_view(r@);
        r.push(config.languages[i].code.clone());
        assert(strings_view(r@) =~= prev.push(config.languages@[i as int].code@));
        assert(other_language_codes(*config).take(i + 1) =~= other_language_codes(*config).take(i as int).push(config.languages@[i as int].code@));
        i += 1;
    }
    assert(other_language_codes(*config).take(config.languages@.len() as int) =~= other_language_codes(*config));
    r
}

/// Whether `s` is the section read from `file_path` under `base_path`, with the front matter
/// `meta` and the markdown `raw_content`, once its language is found in its file name: it is
/// counted in that language and placed where that language puts it.
pub open spec fn spec_parsed_section(
    s: Section,
    f0: FileInfo,
    codes: Seq<String>,
    meta: SectionFrontMatter,
    raw_content: Seq<char>,
    config: Config,
) -> bool {
    &&& spec_found_language(f0, s.file, Ok(s.lang), config.default_language@, codes)
    &&& s.meta == meta
    &&& s.raw_content@ == raw_content
    &&& s.word_count matches Some(w) && w == spec_reading_analytics(raw_content, s.lang@).0
    &&& s.reading_time matches Some(t) && t == spec_reading_analytics(raw_content, s.lang@).1
    &&& s.language_alias@ == s.lang@
    &&& s.path@ == spec_section_path(strings_view(s.file.components@), s.lang@, config.default_language@, s.lang@)
    &&& strings_view(s.components@) == split_segments(s.path@, Seq::empty())
    &&& s.permalink@ == spec_make_permalink(config.base_url@, config.feed_filename@, s.path@)
    &&& s.pages@.len() == 0 && s.ancestors@.len() == 0 && s.subsections@.len() == 0
}

impl Section {
    /// Reads a section from its file: `file_path` under the site root `base_path`, whose front
    /// matter is `meta` and whose markdown is `raw_content`. Its language comes from its file
    /// name; a language the site does not have is an error.
    pub fn parse(file_path: &str, meta: SectionFrontMatter, raw_content: &str, config: &Config, base_path: &str) -> (r: Result<Section, Error>)
        requires
            spec_section_path_ok(file_path@, base_path@),
        ensures
            exists|f0: FileInfo, codes: Seq<String>| {
                &&& spec_section_info(f0, file_path@, base_path@)
                &&& strings_view(codes) == other_language_codes(*config)
                &&& match r {
                    Ok(s) => spec_parsed_section(s, f0, codes, meta, raw_content@, *config),
                    Err(e) => spec_found_language(f0, f0, Err(e), config.default_language@, codes),
                }
            },
    {
        let mut section = Section::new(file_path, meta, base_path);
        let codes = other_codes(config);
        let ghost f0 = section.file;
        let found = section.file.find_language(config.default_language.as_str(), &codes);
        match found {
            Ok(lang) => {
                section.set_path(config, lang.as_str(), lang.as_str());
                section.raw_content = String::from_str(raw_content);
                let (wc, rt) = get_reading_analytics(raw_content, lang.as_str());
                section.word_count = Some(wc);
                section.reading_time = Some(rt);
                assert(spec_parsed_section(section, f0, codes@, meta, raw_content@, *config));
                Ok(section)
            },
            Err(e) => {
                assert(section.file == f0);
                Err(e)
            },
        }
    }

    /// A section read from `file_path` with the front matter `meta`, not yet placed.
    pub fn new(file_path: &str, meta: SectionFrontMatter, base_path: &str) -> (s: Section)
        requires
            spec_section_path_ok(file_path@, base_path@),
        ensures
            spec_section_info(s.file, file_path@, base_path@),
            s.meta == meta,
            s.path@.len() == 0,
            s.pages@.len() == 0 && s.ignored_pages@.len() == 0,
            s.ancestors@.len() == 0 && s.subsections@.len() == 0,
    {
        Section {
            file: FileInfo::new_section(file_path, base_path),
            meta,
            path: String::new(),
            components: Vec::new(),
            permalink: String::new(),
            raw_content: String::new(),
            content: String::new(),
            assets: Vec::new(),
            serialized_assets: Vec::new(),
            pages: Vec::new(),
            ignored_pages: Vec::new(),
            ancestors: Vec::new(),
            subsections: Vec::new(),
            toc: Vec::new(),
            word_count: None,
            reading_time: None,
            lang: String::new(),
            language_alias: String::new(),
            translations: Vec::new(),
            internal_links_with_anchors: Vec::new(),
            external_links: Vec::new(),
        }
    }

    /// A section read from `file_path`, or `None` when the path lacks what a section path
    /// needs (see `spec_section_path_ok`).
    pub fn try_new(file_path: &str, meta: SectionFrontMatter, base_path: &str) -> (r: Option<Section>)
        ensures
            r is Some == spec_section_path_ok(file_path@, base_path@),
            r matches Some(s) ==> spec_section_info(s.file, file_path@, base_path@) && s.meta == meta,
    {
        match FileInfo::try_new_section(file_path, base_path) {
            Some(_) => Some(Section::new(file_path, meta, base_path)),
            None => None,
        }
    }

    /// Places the section in the language `lang`, written `language_alias` in URLs: its URL
    /// path, the components of that path, and its permalink on the site.
    pub fn set_path(&mut self, config: &Config, lang: &str, language_alias: &str)
        ensures
            final(self).lang@ == lang@,
            final(self).language_alias@ == language_alias@,
            final(self).path@ == spec_section_path(strings_view(old(self).file.components@), lang@,
                config.default_language@, language_alias@),
            strings_view(final(self).components@) == split_segments(final(self).path@, Seq::empty()),
            final(self).permalink@ == spec_make_permalink(config.base_url@, config.feed_filename@, final(self).path@),
            final(self).file == old(self).file,
            final(self).meta == old(self).meta,
            final(self).pages == old(self).pages,
            final(self).ancestors == old(self).ancestors,
            final(self).subsections == old(self).subsections,
    {
        self.lang = String::from_str(lang);
        self.language_alias = String::from_str(language_alias);
        self.path = section_path(&self.file.components, lang, config.default_language.as_str(), language_alias);
        self.components = path_components(self.path.as_str());
        self.permalink = config.make_permalink(self.path.as_str());
    }

    /// Whether this is the index section, at the root of the content.
    pub fn is_index(&self) -> (b: bool)
        ensures
            b == (self.file.components@.len() == 0),
    {
        self.file.components.len() == 0
    }

    /// The template that renders the section: the one of its front matter, else
    /// `index.html` for the index section and `section.html` for the others.
    pub fn get_template_name(&self) -> (t: &str)
        ensures
            t@ == (match self.meta.template {
                Some(l) => l@,
                None => if self.file.components@.len() == 0 { "index.html"@ } else { "section.html"@ },
            }),
    {
        match &self.meta.template {
            Some(l) => l.as_str(),
            None => {
                if self.is_index() {
                    return "index.html";
                }
                "section.html"
            },
        }
    }

    /// How many pages a pager holds, when the section is paginated.
    pub fn paginate_by(&self) -> (r: Option<usize>)
        ensures
            r == (match self.meta.paginate_by {
                Some(x) => if x == 0 { None } else { Some(x) },
                None => None,
            }),
    {
        match self.meta.paginate_by {
            None => None,
            Some(x) => if x == 0 { None } else { Some(x) },
        }
    }

    /// The URLs of the assets: the section's path followed by each asset's file name.
    pub fn serialize_assets(&self) -> (r: Vec<String>)
        ensures
            strings_view(r@) == assets_urls(self.path@, self.assets@),
    {
        let mut r: Vec<String> = Vec::new();
        let mut i: usize = 0;
        while i < self.assets.len()
            invariant
                i <= self.assets@.len(),
                strings_view(r@) == assets_urls(self.path@, self.assets@.take(i as int)),
            decreases self.assets.len() - i,
        {
            assert(self.assets@.take(i + 1).drop_last() =~= self.assets@.take(i as int));
            match path_file_name(self.assets[i].as_str()) {
                Some(name) => {
                    let mut url = self.path.clone();
                    url.append(name.as_str());
                    let ghost before = strings_view(r@);
                    let ghost u = url@;
                    r.push(url);
                    assert(strings_view(r@) =~= before.push(u));
                },
                None => {},
            }
            i += 1;
        }
        assert(self.assets@.take(self.assets@.len() as int) =~= self.assets@);
        r
    }
}

/// The URL of each asset that has a file name: `path` followed by that name, in order.
pub open spec fn assets_urls(path: Seq<char>, assets: Seq<String>) -> Seq<Seq<char>>
    decreases assets.len(),
{
    if assets.len() == 0 {
        Seq::empty()
    } else {
        let rest = assets_urls(path, assets.drop_last());
        match spec_path_file_name(assets.last()@) {
            Some(n) => rest.push(path + n),
            None => rest,
        }
    }
}

} // verus!
