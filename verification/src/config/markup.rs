use vstd::prelude::*;

use crate::error::Error;
use crate::text::{chars_of, join, spec_join, strings_view};

verus! {

/// Whether highlighted code carries inline styles or CSS classes.
#[derive(Clone, Copy, Debug, PartialEq, Eq, Structural)]
pub enum HighlightStyle {
    Inline,
    Class,
}

impl Default for HighlightStyle {
    fn default() -> (s: HighlightStyle)
        ensures
            s == HighlightStyle::Inline,
    {
        HighlightStyle::Inline
    }
}

/// One highlighting theme, or one for light and one for dark mode.
#[derive(Clone, Debug, PartialEq, Eq)]
pub enum HighlightConfig {
    Single { theme: String },
    Dual { light_theme: String, dark_theme: String },
}

/// Where the anchor link of a heading is inserted.
#[derive(Debug, Copy, Clone, PartialEq, Eq, Structural)]
pub enum InsertAnchor {
    Left,
    Right,
    /// No anchor link is inserted.
    NoAnchor,
}

/// The settings of syntax highlighting. The registry of grammars and themes that they name is
/// loaded by the program that renders the site.
#[derive(Clone, Debug, PartialEq, Eq)]
pub struct Highlighting {
    /// Emit an error for missing highlight languages. Defaults to false
    pub error_on_missing_language: bool,
    pub style: HighlightStyle,
    pub theme: HighlightConfig,
    pub extra_grammars: Vec<String>,
    pub extra_themes: Vec<String>,
}

impl Highlighting {
    /// Whether highlighted code carries CSS classes rather than inline styles.
    pub fn uses_classes(&self) -> (b: bool)
        ensures
            b == (self.style == HighlightStyle::Class),
    {
        match self.style {
            HighlightStyle::Class => true,
            HighlightStyle::Inline => false,
        }
    }
}

/// The settings of the Markdown rendering.
#[derive(Clone, Debug, PartialEq, Eq)]
pub struct Markdown {
    /// Syntax highlighting option
    pub highlighting: Option<Highlighting>,
    /// Whether to render emoji aliases (e.g.: :smile: => 😄) in the markdown files
    pub render_emoji: bool,
    /// CSS class to add to external links
    pub external_links_class: Option<String>,
    /// Whether external links are to be opened in a new tab
    /// If this is true, a `rel="noopener"` will always automatically be added for security reasons
    pub external_links_target_blank: bool,
    /// Whether to set rel="nofollow" for all external links
    pub external_links_no_follow: bool,
    /// Whether to set rel="noreferrer" for all external links
    pub external_links_no_referrer: bool,
    /// Whether to set rel="external" for all external links
    pub external_links_external: bool,
    /// Whether smart punctuation is enabled (changing quotes, dashes, dots etc in their typographic form)
    pub smart_punctuation: bool,
    /// Whether parsing of definition lists is enabled
    pub definition_list: bool,
    /// Whether footnotes are rendered at the bottom in the style of GitHub.
    pub bottom_footnotes: bool,
    /// Add loading="lazy" decoding="async" to img tags. Defaults to false
    pub lazy_async_image: bool,
    /// Whether to insert a link for each header like the ones you can see in this site if you hover one
    pub insert_anchor_links: InsertAnchor,
    /// Whether to enable GitHub-style alerts
    pub github_alerts: bool,
}

impl Default for Markdown {
    fn default() -> (m: Markdown)
        ensures
            m.highlighting is None,
            !m.render_emoji,
            m.external_links_class is None,
            !m.external_links_target_blank,
            !m.external_links_no_follow,
            !m.external_links_no_referrer,
            m.external_links_external,
            !m.smart_punctuation,
            !m.definition_list,
            !m.bottom_footnotes,
            !m.lazy_async_image,
            m.insert_anchor_links == InsertAnchor::NoAnchor,
            !m.github_alerts,
    {
        Markdown {
            highlighting: None,
            render_emoji: false,
            external_links_class: None,
            external_links_target_blank: false,
            external_links_no_follow: false,
            external_links_no_referrer: false,
            external_links_external: true,
            smart_punctuation: false,
            definition_list: false,
            bottom_footnotes: false,
            lazy_async_image: false,
            insert_anchor_links: InsertAnchor::NoAnchor,
            github_alerts: false,
        }
    }
}

/// Whether `s` holds a double or a single quote.
pub open spec fn has_quote(s: Seq<char>) -> bool {
    exists|i: int| 0 <= i < s.len() && (s[i] == '"' || s[i] == '\'')
}

/// The `rel` values of an external link, in this order: `noopener` for a new tab, then
/// `nofollow`, `noreferrer` and `external` as configured.
pub open spec fn spec_rel_opts(m: Markdown) -> Seq<Seq<char>> {
    (if m.external_links_target_blank { seq!["noopener"@] } else { Seq::empty() })
        + (if m.external_links_no_follow { seq!["nofollow"@] } else { Seq::empty() })
        + (if m.external_links_no_referrer { seq!["noreferrer"@] } else { Seq::empty() })
        + (if m.external_links_external { seq!["external"@] } else { Seq::empty() })
}

/// The title attribute of a link, none for an empty title.
pub open spec fn spec_title_attr(title: Seq<char>) -> Seq<char> {
    if title.len() == 0 { Seq::<char>::empty() } else { "title=\""@ + title + "\" "@ }
}

/// The class attribute of an external link, when a class is configured.
pub open spec fn spec_class_attr(m: Markdown) -> Seq<char> {
    match m.external_links_class {
        Some(c) => "class=\""@ + c@ + "\" "@,
        None => Seq::<char>::empty(),
    }
}

/// The `rel` attribute of an external link, when it has `rel` values.
pub open spec fn spec_rel_attr(m: Markdown) -> Seq<char> {
    if spec_rel_opts(m).len() == 0 {
        Seq::<char>::empty()
    } else {
        "rel=\""@ + spec_join(spec_rel_opts(m), " "@) + "\" "@
    }
}

/// The `target` attribute of an external link opened in a new tab.
pub open spec fn spec_target_attr(m: Markdown) -> Seq<char> {
    if m.external_links_target_blank { "target=\"_blank\" "@ } else { Seq::<char>::empty() }
}

/// The opening tag of an external link to `url` with the title `title`: class, `rel`,
/// `target` and title attributes as configured, then `href`.
pub open spec fn spec_external_link_tag(m: Markdown, url: Seq<char>, title: Seq<char>) -> Seq<char> {
    "<a "@ + spec_class_attr(m) + spec_rel_attr(m) + spec_target_attr(m) + spec_title_attr(title)
        + "href=\""@ + url + "\">"@
}

/// Whether `s` holds a double or a single quote.
fn contains_quote(s: &str) -> (b: bool)
    ensures
        b == has_quote(s@),
{
    let v = chars_of(s);
    let mut i: usize = 0;
    while i < v.len()
        invariant
            v@ == s@,
            i <= v@.len(),
            forall|j: int| 0 <= j < i ==> v@[j] != '"' && v@[j] != '\'',
        decreases v.len() - i,
    {
        if v[i] == '"' || v[i] == '\'' {
            return true;
        }
        i += 1;
    }
    false
}

impl Markdown {
    /// Checks that the external link class holds no quote, which would break the HTML and is
    /// not valid in CSS.
    pub fn validate_external_links_class(&self) -> (r: Result<(), Error>)
        ensures
            match self.external_links_class {
                Some(c) => if has_quote(c@) {
                    r is Err && r->Err_0.message@ == "External link class '"@ + c@ + "' cannot contain quotes"@
                } else {
                    r is Ok
                },
                None => r is Ok,
            },
    {
        match &self.external_links_class {
            Some(class) => {
                if contains_quote(class.as_str()) {
                    let mut m = String::from_str("External link class '");
                    m.append(class.as_str());
                    m.append("' cannot contain quotes");
                    Err(Error { message: m })
                } else {
                    Ok(())
                }
            },
            None => Ok(()),
        }
    }

    /// Whether external links are rendered differently from internal ones.
    pub fn has_external_link_tweaks(&self) -> (b: bool)
        ensures
            b == (self.external_links_target_blank || self.external_links_no_follow
                || self.external_links_no_referrer || self.external_links_external
                || self.external_links_class is Some),
    {
        self.external_links_target_blank || self.external_links_no_follow || self.external_links_no_referrer
            || self.external_links_external || self.external_links_class.is_some()
    }

    /// The `rel` values of an external link.
    fn rel_opts(&self) -> (r: Vec<String>)
        ensures
            strings_view(r@) == spec_rel_opts(*self),
    {
        proof {
            reveal_strlit("noopener");
            reveal_strlit("nofollow");
            reveal_strlit("noreferrer");
            reveal_strlit("external");
        }
        let mut rel_opts: Vec<String> = Vec::new();
        if self.external_links_target_blank {
            // Security risk otherwise
            rel_opts.push(String::from_str("noopener"));
        }
        assert(strings_view(rel_opts@) =~= (if self.external_links_target_blank { seq!["noopener"@] } else { Seq::<Seq<char>>::empty() }));
        let ghost s1 = strings_view(rel_opts@);
        if self.external_links_no_follow {
            rel_opts.push(String::from_str("nofollow"));
        }
        assert(strings_view(rel_opts@) =~= s1 + (if self.external_links_no_follow { seq!["nofollow"@] } else { Seq::<Seq<char>>::empty() }));
        let ghost s2 = strings_view(rel_opts@);
        if self.external_links_no_referrer {
            rel_opts.push(String::from_str("noreferrer"));
        }
        assert(strings_view(rel_opts@) =~= s2 + (if self.external_links_no_referrer { seq!["noreferrer"@] } else { Seq::<Seq<char>>::empty() }));
        let ghost s3 = strings_view(rel_opts@);
        if self.external_links_external {
            rel_opts.push(String::from_str("external"));
        }
        assert(strings_view(rel_opts@) =~= s3 + (if self.external_links_external { seq!["external"@] } else { Seq::<Seq<char>>::empty() }));
        rel_opts
    }

    /// The class attribute of an external link.
    fn class_attr(&self) -> (r: String)
        ensures
            r@ == spec_class_attr(*self),
    {
        let mut r = String::new();
        match &self.external_links_class {
            Some(c) => {
                r.append("class=\"");
                r.append(c.as_str());
                r.append("\" ");
            },
            None => {},
        }
        r
    }

    /// The `rel` attribute of an external link.
    fn rel_attr(&self) -> (r: String)
        ensures
            r@ == spec_rel_attr(*self),
    {
        let rel_opts = self.rel_opts();
        let mut r = String::new();
        if rel_opts.len() > 0 {
            r.append("rel=\"");
            r.append(join(&rel_opts, " ").as_str());
            r.append("\" ");
        }
        r
    }

    /// The opening `<a>` tag of an external link.
    pub fn construct_external_link_tag(&self, url: &str, title: &str) -> (r: String)
        ensures
            r@ == spec_external_link_tag(*self, url@, title@),
    {
        let mut r = String::from_str("<a ");
        r.append(self.class_attr().as_str());
        r.append(self.rel_attr().as_str());
        if self.external_links_target_blank {
            r.append("target=\"_blank\" ");
        }
        let ghost before_title = r@;
        if chars_of(title).len() > 0 {
            r.append("title=\"");
            r.append(title);
            r.append("\" ");
        }
        assert(r@ =~= before_title + spec_title_attr(title@));
        r.append("href=\"");
        r.append(url);
        r.append("\">");
        r
    }
}

} // verus!
