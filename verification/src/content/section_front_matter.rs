//! The front matter of a section, once read from TOML: the defaults of what it leaves out.
use vstd::prelude::*;

use crate::paths::opt_view;
use crate::config::markup::InsertAnchor;
use crate::config::merge::TomlValue;
use crate::content::front_matter::SortBy;

verus! {

/// The front matter of every section
pub struct SectionFrontMatter {
    /// <title> of the page
    pub title: Option<String>,
    /// Description in <meta> that appears when linked, e.g. on twitter
    pub description: Option<String>,
    /// Whether to sort by "date", "order" or "none". Defaults to `none`.
    pub sort_by: Option<SortBy>,
    /// Optional template, if we want to specify which template to render for that page
    pub template: Option<String>,
    /// How many pages to be displayed per paginated page. No pagination will happen if this isn't set
    pub paginate_by: Option<usize>,
    /// Path to be used by pagination: the page number will be appended after it. Defaults to `page`.
    pub paginate_path: Option<String>,
    /// Whether to insert a link for each header like in Github READMEs. Defaults to no link.
    pub insert_anchor: Option<InsertAnchor>,
    /// Whether to render that section or not. Defaults to `true`.
    pub render: Option<bool>,
    /// Any extra parameter present in the front matter
    pub extra: Option<Vec<(String, TomlValue)>>,
}

impl SectionFrontMatter {
    /// Fills in what a front matter just read from TOML leaves out: pagination under `page`,
    /// rendered, not sorted, without anchor links.
    pub fn fill_defaults(&mut self)
        ensures
            opt_view(final(self).paginate_path) == (match old(self).paginate_path {
                Some(p) => Some(p@),
                None => Some("page"@),
            }),
            final(self).render == (match old(self).render { Some(b) => Some(b), None => Some(true) }),
            final(self).sort_by == (match old(self).sort_by { Some(s) => Some(s), None => Some(SortBy::Unsorted) }),
            final(self).insert_anchor == (match old(self).insert_anchor {
                Some(a) => Some(a),
                None => Some(InsertAnchor::NoAnchor),
            }),
            final(self).title == old(self).title,
            final(self).description == old(self).description,
            final(self).template == old(self).template,
            final(self).paginate_by == old(self).paginate_by,
    {
        proof {
            reveal_strlit("page");
        }
        if self.paginate_path.is_none() {
            self.paginate_path = Some(String::from_str("page"));
        }
        if self.render.is_none() {
            self.render = Some(true);
        }
        if self.sort_by.is_none() {
            self.sort_by = Some(SortBy::Unsorted);
        }
        if self.insert_anchor.is_none() {
            self.insert_anchor = Some(InsertAnchor::NoAnchor);
        }
    }

    /// Returns the current sorting method, which must be set.
    pub fn sort_by(&self) -> (s: SortBy)
        requires
            self.sort_by is Some,
        ensures
            self.sort_by == Some(s),
    {
        match self.sort_by {
            Some(s) => s,
            None => SortBy::Unsorted,
        }
    }

    /// Only applies to section, whether it is paginated or not.
    pub fn is_paginated(&self) -> (b: bool)
        ensures
            b == (self.paginate_by matches Some(v) && v > 0),
    {
        match self.paginate_by {
            Some(v) => v > 0,
            None => false,
        }
    }

    /// Whether the section is rendered, which must be set.
    pub fn should_render(&self) -> (b: bool)
        requires
            self.render is Some,
        ensures
            self.render == Some(b),
    {
        match self.render {
            Some(b) => b,
            None => true,
        }
    }
}

impl Default for SectionFrontMatter {
    fn default() -> (f: SectionFrontMatter)
        ensures
            f.title is None && f.description is None,
            f.sort_by == Some(SortBy::Unsorted),
            f.template is None,
            f.paginate_by is None,
            opt_view(f.paginate_path) == Some("page"@),
            f.render == Some(true),
            f.insert_anchor == Some(InsertAnchor::NoAnchor),
            f.extra is None,
    {
        SectionFrontMatter {
            title: None,
            description: None,
            sort_by: Some(SortBy::Unsorted),
            template: None,
            paginate_by: None,
            paginate_path: Some(String::from_str("page")),
            render: Some(true),
            insert_anchor: Some(InsertAnchor::NoAnchor),
            extra: None,
        }
    }
}

} // verus!
