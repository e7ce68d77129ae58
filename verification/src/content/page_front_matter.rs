//! The front matter of a page, once read from TOML: its checks and its dates.
use chrono::{DateTime, Datelike, NaiveDate, Timelike};
use vstd::prelude::*;

use crate::paths::opt_view;
use crate::config::merge::TomlValue;
use crate::error::Error;

verus! {

/// A local date and time as (days since the common era, seconds since midnight,
/// nanoseconds), with its (year, month, day).
pub type LocalDateTime = ((i32, u32, u32), (i32, u32, u32));

/// What `chrono` reads in `d` as an RFC 3339 date and time, taken at its own offset.
pub uninterp spec fn spec_rfc3339_local(d: Seq<char>) -> Option<LocalDateTime>;

/// Calls `DateTime::parse_from_rfc3339`, then `naive_local`, which keeps the date and time
/// as written, at their own offset; `None` when the text is not RFC 3339. The result is named
/// by `spec_rfc3339_local`. The years RFC 3339 can write stay far from the range where
/// `naive_local` could overflow.
#[verifier::external_body]
fn rfc3339_local(d: &str) -> (r: Option<LocalDateTime>)
    ensures
        r == spec_rfc3339_local(d@),
{
    match DateTime::parse_from_rfc3339(d) {
        Ok(t) => {
            let n = t.naive_local();
            Some(((n.num_days_from_ce(), n.num_seconds_from_midnight(), n.nanosecond()), (n.year(), n.month(), n.day())))
        },
        Err(_) => None,
    }
}

/// What `chrono` reads in `d` as a date `%Y-%m-%d`, at midnight.
pub uninterp spec fn spec_ymd_midnight(d: Seq<char>) -> Option<LocalDateTime>;

/// Calls `NaiveDate::parse_from_str` with the format `%Y-%m-%d`, then takes that day at
/// midnight (`and_hms_opt(0, 0, 0)`, which exists for every date); `None` when the text is
/// not such a date. The result is named by `spec_ymd_midnight`; at midnight the seconds and
/// nanoseconds are zero.
#[verifier::external_body]
fn ymd_midnight(d: &str) -> (r: Option<LocalDateTime>)
    ensures
        r == spec_ymd_midnight(d@),
        r matches Some(t) ==> t.0.1 == 0 && t.0.2 == 0,
{
    match NaiveDate::parse_from_str(d, "%Y-%m-%d") {
        Ok(day) => Some(((day.num_days_from_ce(), 0, 0), (day.year(), day.month(), day.day()))),
        Err(_) => None,
    }
}

/// A date of the front matter, read as the first of: an offset datetime (plain RFC 3339), a
/// local datetime (RFC 3339 with the time zone omitted), a local date (`YYYY-MM-DD`).
pub open spec fn spec_parse_datetime(d: Seq<char>) -> Option<LocalDateTime> {
    match spec_rfc3339_local(d) {
        Some(t) => Some(t),
        None => match spec_rfc3339_local(d + "Z"@) {
            Some(t) => Some(t),
            None => spec_ymd_midnight(d),
        },
    }
}

/// Parse a string for a datetime coming from one of the supported TOML formats, trying each
/// in order.
pub fn parse_datetime(d: &str) -> (r: Option<LocalDateTime>)
    ensures
        r == spec_parse_datetime(d@),
{
    match rfc3339_local(d) {
        Some(t) => Some(t),
        None => {
            let mut z = String::from_str(d);
            z.append("Z");
            match rfc3339_local(z.as_str()) {
                Some(t) => Some(t),
                None => ymd_midnight(d),
            }
        },
    }
}

/// The front matter of every page
pub struct PageFrontMatter {
    /// <title> of the page
    pub title: Option<String>,
    /// Description in <meta> that appears when linked, e.g. on twitter
    pub description: Option<String>,
    /// Updated date
    pub updated: Option<String>,
    /// Date if we want to order pages (ie blog post)
    pub date: Option<String>,
    /// The date read as (days since the common era, seconds since midnight, nanoseconds)
    pub datetime: Option<(i32, u32, u32)>,
    /// The converted date into a (year, month, day) tuple
    pub datetime_tuple: Option<(i32, u32, u32)>,
    /// Whether this page is a draft
    pub draft: bool,
    /// The authors of the page
    pub authors: Vec<String>,
    /// The page slug. Will be used instead of the filename if present
    /// Can't be an empty string if present
    pub slug: Option<String>,
    /// The path the page appears at, overrides the slug if set in the front-matter
    /// Can't be an empty string if present
    pub path: Option<String>,
    /// The terms of each taxonomy the page is filed under
    pub taxonomies: Vec<(String, Vec<String>)>,
    /// Integer to use to order content. Highest is at the bottom, lowest first
    pub weight: Option<usize>,
    /// All aliases for that page, which redirect to it
    pub aliases: Vec<String>,
    /// Specify a template different from `page.html` to use for that page
    pub template: Option<String>,
    /// Whether the page is included in the search index
    pub in_search_index: bool,
    /// Any extra parameter present in the front matter
    pub extra: Vec<(String, TomlValue)>,
}

impl Default for PageFrontMatter {
    fn default() -> (f: PageFrontMatter)
        ensures
            f.title is None && f.description is None && f.updated is None && f.date is None,
            f.datetime is None && f.datetime_tuple is None,
            !f.draft,
            f.authors@.len() == 0,
            f.slug is None && f.path is None,
            f.taxonomies@.len() == 0,
            f.weight is None,
            f.aliases@.len() == 0,
            f.template is None,
            f.in_search_index,
            f.extra@.len() == 0,
    {
        PageFrontMatter {
            title: None,
            description: None,
            updated: None,
            date: None,
            datetime: None,
            datetime_tuple: None,
            draft: false,
            authors: Vec::new(),
            slug: None,
            path: None,
            taxonomies: Vec::new(),
            weight: None,
            aliases: Vec::new(),
            template: None,
            in_search_index: true,
            extra: Vec::new(),
        }
    }
}

/// The first problem of a page front matter just read from TOML: an empty slug, an empty
/// path, a date that cannot be read.
pub open spec fn spec_front_matter_problem(f: PageFrontMatter) -> Option<Seq<char>> {
    if f.slug matches Some(s) && s@.len() == 0 {
        Some("`slug` can't be empty if present"@)
    } else if f.path matches Some(p) && p@.len() == 0 {
        Some("`path` can't be empty if present"@)
    } else if f.date matches Some(d) && spec_parse_datetime(d@) is None {
        Some("`date` could not be parsed: "@ + f.date.unwrap()@ + "."@)
    } else {
        None
    }
}

/// Two front matters agree on everything but their date, datetime and date tuple.
pub open spec fn same_but_dates(a: PageFrontMatter, b: PageFrontMatter) -> bool {
    &&& b.title == a.title
    &&& b.description == a.description
    &&& b.updated == a.updated
    &&& b.draft == a.draft
    &&& b.authors == a.authors
    &&& b.slug == a.slug
    &&& b.path == a.path
    &&& b.taxonomies == a.taxonomies
    &&& b.weight == a.weight
    &&& b.aliases == a.aliases
    &&& b.template == a.template
    &&& b.in_search_index == a.in_search_index
    &&& b.extra == a.extra
}

impl PageFrontMatter {
    /// Converts the date to a datetime, and grabs the (year, month, day) tuple that will be
    /// used in serialization.
    pub fn date_to_datetime(&mut self)
        ensures
            match opt_view(old(self).date) {
                Some(d) => match spec_parse_datetime(d) {
                    Some(t) => final(self).datetime == Some(t.0) && final(self).datetime_tuple == Some(t.1),
                    None => final(self).datetime is None && final(self).datetime_tuple is None,
                },
                None => final(self).datetime is None && final(self).datetime_tuple is None,
            },
            same_but_dates(*old(self), *final(self)),
            final(self).date == old(self).date,
    {
        let parsed = match &self.date {
            Some(d) => parse_datetime(d.as_str()),
            None => None,
        };
        match parsed {
            Some(t) => {
                self.datetime = Some(t.0);
                self.datetime_tuple = Some(t.1);
            },
            None => {
                self.datetime = None;
                self.datetime_tuple = None;
            },
        }
    }

    /// Checks a front matter just read from TOML and reads its date: the slug and the path
    /// cannot be empty when present, and a date must be readable.
    pub fn finish_parse(&mut self) -> (r: Result<(), Error>)
        ensures
            match spec_front_matter_problem(*old(self)) {
                Some(m) => r is Err && r->Err_0.message@ == m,
                None => r is Ok,
            },
            r is Ok ==> match opt_view(old(self).date) {
                Some(d) => final(self).datetime == Some(spec_parse_datetime(d).unwrap().0)
                    && final(self).datetime_tuple == Some(spec_parse_datetime(d).unwrap().1),
                None => final(self).datetime is None && final(self).datetime_tuple is None,
            },
    {
        match &self.slug {
            Some(s) => {
                if crate::text::chars_of(s.as_str()).len() == 0 {
                    return Err(Error { message: String::from_str("`slug` can't be empty if present") });
                }
            },
            None => {},
        }
        match &self.path {
            Some(p) => {
                if crate::text::chars_of(p.as_str()).len() == 0 {
                    return Err(Error { message: String::from_str("`path` can't be empty if present") });
                }
            },
            None => {},
        }
        self.date_to_datetime();
        match &self.date {
            Some(d) => {
                if self.datetime.is_none() {
                    let mut m = String::from_str("`date` could not be parsed: ");
                    m.append(d.as_str());
                    m.append(".");
                    return Err(Error { message: m });
                }
            },
            None => {},
        }
        Ok(())
    }

    /// The weight of the page, which must be set.
    pub fn weight(&self) -> (w: usize)
        requires
            self.weight is Some,
        ensures
            self.weight == Some(w),
    {
        match self.weight {
            Some(w) => w,
            None => 0,
        }
    }
}

} // verus!
