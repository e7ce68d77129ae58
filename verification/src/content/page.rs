//! A page of the site and how it is read: its language, the slug and date its file name
//! gives, where it is published (its URL path, the components of that path, its permalink).
use vstd::prelude::*;

use crate::paths::{
    opt_view, path_file_name, path_join, path_parent, path_strip_prefix, spec_path_file_name, spec_path_file_stem,
    spec_path_join, spec_path_parent, spec_path_strip_prefix,
};
use crate::config::site::{spec_make_permalink, Config};
use crate::config::slugify::Slugify;
use crate::content::section::{other_codes, other_language_codes};
use crate::content::utils::{get_reading_analytics, spec_reading_analytics};
use crate::error::Error;
use crate::content::file_info::{spec_found_language, spec_name_language, spec_page_info, spec_page_path_ok, FileInfo};
use crate::content::headings::Heading;
use crate::content::page_front_matter::{same_but_dates, spec_parse_datetime, PageFrontMatter};
use crate::slugs::{slugify_paths, spec_slugify_paths};
use crate::text::{
    chars_of, first_index, join, lemma_prefix_before, spec_join, spec_prefix_before, split_once_char, str_eq,
    string_from_chars, strings_view,
};

verus! {

/// A page of the site.
pub struct Page {
    /// All info about the actual file
    pub file: FileInfo,
    /// The front matter meta-data
    pub meta: PageFrontMatter,
    /// The list of parent sections relative paths
    pub ancestors: Vec<String>,
    /// The actual content of the page, in markdown
    pub raw_content: String,
    /// All the non-md files we found next to the .md file
    pub assets: Vec<String>,
    /// All the non-md files we found next to the .md file, as given to templates
    pub serialized_assets: Vec<String>,
    /// The HTML rendered of the page
    pub content: String,
    /// The slug of that page: the one of the front matter, else made from the file name
    pub slug: String,
    /// The URL path of the page, always starting with a slash
    pub path: String,
    /// The components of the path of the page
    pub components: Vec<String>,
    /// The full URL for that page
    pub permalink: String,
    /// The summary for the article: the content up to `<!-- more -->`, when it has one
    pub summary: Option<String>,
    /// The previous page when sorting: earlier/earlier_updated/lighter/prev
    pub lower: Option<String>,
    /// The next page when sorting: later/later_updated/heavier/next
    pub higher: Option<String>,
    /// Toc made from the headings of the markdown file
    pub toc: Vec<Heading>,
    /// How many words in the raw content
    pub word_count: Option<usize>,
    /// How long would it take to read the raw content
    pub reading_time: Option<usize>,
    /// The language of that page
    pub lang: String,
    /// The paths of the translated versions of that page
    pub translations: Vec<String>,
    /// The internal links (path to markdown file), with their anchor if they have one
    pub internal_links: Vec<(String, Option<String>)>,
    /// The links to external webpages
    pub external_links: Vec<String>,
}

impl Page {
    /// A page read from `file_path` under the site root `base_path` with the front matter
    /// `meta`, not yet placed: everything else is empty.
    pub fn new(file_path: &str, meta: PageFrontMatter, base_path: &str) -> (p: Page)
        requires
            spec_page_path_ok(file_path@, base_path@),
        ensures
            spec_page_info(p.file, file_path@, base_path@),
            p.meta == meta,
            p.ancestors@.len() == 0,
            p.raw_content@.len() == 0 && p.content@.len() == 0,
            p.slug@.len() == 0 && p.path@.len() == 0 && p.permalink@.len() == 0,
            p.components@.len() == 0,
            p.summary is None && p.lower is None && p.higher is None,
            p.word_count is None && p.reading_time is None,
            p.lang@.len() == 0,
            p.assets@.len() == 0 && p.serialized_assets@.len() == 0,
            p.translations@.len() == 0,
    {
        Page {
            file: FileInfo::new_page(file_path, base_path),
            meta,
            ancestors: Vec::new(),
            raw_content: String::new(),
            assets: Vec::new(),
            serialized_assets: Vec::new(),
            content: String::new(),
            slug: String::new(),
            path: String::new(),
            components: Vec::new(),
            permalink: String::new(),
            summary: None,
            lower: None,
            higher: None,
            toc: Vec::new(),
            word_count: None,
            reading_time: None,
            lang: String::new(),
            translations: Vec::new(),
            internal_links: Vec::new(),
            external_links: Vec::new(),
        }
    }
}

/// Whether `c` is whitespace in Unicode's sense: one of the 25 code points with the
/// `White_Space` property.
pub open spec fn spec_is_whitespace(c: char) -> bool {
    ||| '\u{9}' <= c && c <= '\u{D}'
    ||| c == ' '
    ||| c == '\u{85}'
    ||| c == '\u{A0}'
    ||| c == '\u{1680}'
    ||| '\u{2000}' <= c && c <= '\u{200A}'
    ||| c == '\u{2028}'
    ||| c == '\u{2029}'
    ||| c == '\u{202F}'
    ||| c == '\u{205F}'
    ||| c == '\u{3000}'
}

/// Calls `char::is_whitespace`, which tells whether `c` has the `White_Space` property
/// (see `spec_is_whitespace`).
#[verifier::external_body]
fn is_whitespace(c: char) -> (b: bool)
    ensures
        b == spec_is_whitespace(c),
{
    c.is_whitespace()
}

/// The position of the first character of `s`, from `i` on, that is not whitespace.
pub open spec fn first_non_space(s: Seq<char>, i: int) -> int
    decreases s.len() - i,
{
    if i < 0 || i >= s.len() || !spec_is_whitespace(s[i]) {
        i
    } else {
        first_non_space(s, i + 1)
    }
}

/// The end of `s[lo..hi]` once its trailing whitespace is left out.
pub open spec fn last_non_space_end(s: Seq<char>, lo: int, hi: int) -> int
    decreases hi - lo,
{
    if hi <= lo || !spec_is_whitespace(s[hi - 1]) {
        hi
    } else {
        last_non_space_end(s, lo, hi - 1)
    }
}

/// `s` without its leading and trailing whitespace, as `str::trim` gives it.
pub open spec fn spec_trim(s: Seq<char>) -> Seq<char> {
    let lo = first_non_space(s, 0);
    s.subrange(lo, last_non_space_end(s, lo, s.len() as int))
}

/// `s` without its leading and trailing whitespace.
fn trim<'a>(s: &'a str) -> (r: &'a str)
    ensures
        r@ == spec_trim(s@),
{
    let v = chars_of(s);
    let mut lo: usize = 0;
    while lo < v.len() && is_whitespace(v[lo])
        invariant
            v@ == s@,
            lo <= v@.len(),
            first_non_space(s@, 0) == first_non_space(s@, lo as int),
        decreases v.len() - lo,
    {
        lo += 1;
    }
    let mut hi: usize = v.len();
    while hi > lo && is_whitespace(v[hi - 1])
        invariant
            v@ == s@,
            lo <= hi <= v@.len(),
            lo == first_non_space(s@, 0),
            last_non_space_end(s@, lo as int, v@.len() as int) == last_non_space_end(s@, lo as int, hi as int),
        decreases hi,
    {
        hi -= 1;
    }
    s.substring_char(lo, hi)
}

/// Whether `s` begins with `/`.
pub open spec fn starts_with_slash(s: Seq<char>) -> bool {
    s.len() > 0 && s[0] == '/'
}

/// Whether `s` ends with `/`.
pub open spec fn ends_with_slash(s: Seq<char>) -> bool {
    s.len() > 0 && s.last() == '/'
}

/// The URL path of a page: the `path` of its front matter, trimmed, when it has one; else its
/// folders below `content` and its slug (nothing for the index page of the content root),
/// under its language when that is not the default one. It starts and ends with `/`.
pub open spec fn spec_page_path(
    meta_path: Option<Seq<char>>,
    components: Seq<Seq<char>>,
    slug: Seq<char>,
    is_root_index: bool,
    lang: Seq<char>,
    default_language: Seq<char>,
) -> Seq<char> {
    let p = match meta_path {
        Some(mp) => {
            let t = spec_trim(mp);
            if starts_with_slash(t) { t } else { "/"@ + t }
        },
        None => {
            let base = if components.len() == 0 {
                if is_root_index { Seq::<char>::empty() } else { slug }
            } else {
                spec_join(components, "/"@) + "/"@ + slug
            };
            let localized = if lang != default_language { lang + "/"@ + base } else { base };
            "/"@ + localized
        },
    };
    if ends_with_slash(p) { p } else { p + "/"@ }
}

/// A page's URL path always starts and ends with `/`.
pub proof fn lemma_page_path_slashes(
    meta_path: Option<Seq<char>>,
    components: Seq<Seq<char>>,
    slug: Seq<char>,
    is_root_index: bool,
    lang: Seq<char>,
    default_language: Seq<char>,
)
    ensures
        starts_with_slash(spec_page_path(meta_path, components, slug, is_root_index, lang, default_language)),
        ends_with_slash(spec_page_path(meta_path, components, slug, is_root_index, lang, default_language)),
{
    reveal_strlit("/");
    let r = spec_page_path(meta_path, components, slug, is_root_index, lang, default_language);
    assert(r[0] == '/');
}

/// The text of an optional string slice.
pub open spec fn str_view(o: Option<&str>) -> Option<Seq<char>> {
    match o {
        Some(s) => Some(s@),
        None => None,
    }
}

/// The URL path of a page (see `spec_page_path`). `is_root_index` tells whether the page is
/// the `index` page of the content root, not placed in a folder of its own.
pub fn page_path(
    meta_path: Option<&str>,
    components: &Vec<String>,
    slug: &str,
    is_root_index: bool,
    lang: &str,
    default_language: &str,
) -> (r: String)
    ensures
        r@ == spec_page_path(str_view(meta_path), strings_view(components@), slug@, is_root_index, lang@, default_language@),
{
    proof {
        reveal_strlit("/");
    }
    let mut p = match meta_path {
        Some(mp) => {
            let t = trim(mp);
            let tv = chars_of(t);
            if tv.len() > 0 && tv[0] == '/' {
                String::from_str(t)
            } else {
                let mut s = String::from_str("/");
                s.append(t);
                s
            }
        },
        None => {
            let mut base = String::new();
            if components.len() == 0 {
                if !is_root_index {
                    base.append(slug);
                }
            } else {
                base.append(join(components, "/").as_str());
                base.append("/");
                base.append(slug);
            }
            let mut s = String::from_str("/");
            if !str_eq(lang, default_language) {
                s.append(lang);
                s.append("/");
            }
            s.append(base.as_str());
            s
        },
    };
    let pv = chars_of(p.as_str());
    if !(pv.len() > 0 && pv[pv.len() - 1] == '/') {
        p.append("/");
    }
    p
}

/// The non-empty parts of `s` between the `/`, after the part `cur` already read.
pub open spec fn split_segments(s: Seq<char>, cur: Seq<char>) -> Seq<Seq<char>>
    decreases s.len(),
{
    if s.len() == 0 {
        if cur.len() > 0 { seq![cur] } else { Seq::empty() }
    } else if s[0] == '/' {
        (if cur.len() > 0 { seq![cur] } else { Seq::empty() }) + split_segments(s.drop_first(), Seq::empty())
    } else {
        split_segments(s.drop_first(), cur.push(s[0]))
    }
}

/// The components of a URL path: its non-empty parts between the `/`.
pub fn path_components(path: &str) -> (r: Vec<String>)
    ensures
        strings_view(r@) == split_segments(path@, Seq::empty()),
{
    let v = chars_of(path);
    let mut parts: Vec<String> = Vec::new();
    let mut cur: Vec<char> = Vec::new();
    let mut i: usize = 0;
    assert(v@.skip(0) =~= v@);
    while i < v.len()
        invariant
            v@ == path@,
            i <= v@.len(),
            strings_view(parts@) + split_segments(v@.skip(i as int), cur@) == split_segments(path@, Seq::empty()),
        decreases v.len() - i,
    {
        let ghost rest = v@.skip(i as int);
        assert(rest.drop_first() =~= v@.skip(i + 1));
        if v[i] == '/' {
            if cur.len() > 0 {
                let ghost before = strings_view(parts@);
                let ghost c = cur@;
                let part = string_from_chars(cur.as_slice());
                parts.push(part);
                assert(strings_view(parts@) =~= before.push(c));
                assert(before.push(c) + split_segments(v@.skip(i + 1), Seq::empty())
                    =~= before + (seq![c] + split_segments(v@.skip(i + 1), Seq::empty())));
            } else {
                assert((Seq::<Seq<char>>::empty() + split_segments(v@.skip(i + 1), Seq::empty()))
                    =~= split_segments(v@.skip(i + 1), Seq::empty()));
            }
            cur = Vec::new();
        } else {
            cur.push(v[i]);
        }
        i += 1;
    }
    if cur.len() > 0 {
        let ghost before = strings_view(parts@);
        let ghost c = cur@;
        let part = string_from_chars(cur.as_slice());
        parts.push(part);
        assert(strings_view(parts@) =~= before.push(c));
        assert(before + seq![c] =~= before.push(c));
    } else {
        assert(strings_view(parts@) + Seq::<Seq<char>>::empty() =~= strings_view(parts@));
    }
    parts
}

/// Whether `c` is a decimal digit in Unicode's sense (general category `Nd`), as `\d` of the
/// `regex` crate reads it.
pub uninterp spec fn spec_is_decimal_digit(c: char) -> bool;

/// Asks the `regex` crate whether `c` matches `\d`; the answer is named by
/// `spec_is_decimal_digit`.
#[verifier::external_body]
fn is_decimal_digit(c: char) -> (b: bool)
    ensures
        b == spec_is_decimal_digit(c),
{
    let mut buf = [0u8; 4];
    regex::Regex::new(r"^\d$").unwrap().is_match(c.encode_utf8(&mut buf))
}

/// Whether `c` is one of `0` to `9`.
pub open spec fn is_ascii_digit(c: char) -> bool {
    '0' <= c && c <= '9'
}

/// A month: `01` to `12`.
pub open spec fn is_month(a: char, b: char) -> bool {
    (a == '0' && '1' <= b && b <= '9') || (a == '1' && '0' <= b && b <= '2')
}

/// A day: `01` to `31`.
pub open spec fn is_day(a: char, b: char) -> bool {
    (a == '0' && '1' <= b && b <= '9') || ((a == '1' || a == '2') && is_ascii_digit(b)) || (a == '3' && (b == '0' || b == '1'))
}

/// An hour: `00` to `23`.
pub open spec fn is_hour(a: char, b: char) -> bool {
    ((a == '0' || a == '1') && is_ascii_digit(b)) || (a == '2' && '0' <= b && b <= '3')
}

/// A minute: `00` to `59`.
pub open spec fn is_minute(a: char, b: char) -> bool {
    '0' <= a && a <= '5' && is_ascii_digit(b)
}

/// A second: `00` to `60`.
pub open spec fn is_second(a: char, b: char) -> bool {
    is_minute(a, b) || (a == '6' && b == '0')
}

/// Whether the date `YYYY-MM-DD` starts `s`, the year in any decimal digits.
pub open spec fn has_date(s: Seq<char>) -> bool {
    &&& s.len() >= 10
    &&& spec_is_decimal_digit(s[0]) && spec_is_decimal_digit(s[1]) && spec_is_decimal_digit(s[2]) && spec_is_decimal_digit(s[3])
    &&& s[4] == '-' && is_month(s[5], s[6]) && s[7] == '-' && is_day(s[8], s[9])
}

/// The end of the run of `0` to `9` that starts at `i`.
pub open spec fn ascii_digits_end(s: Seq<char>, i: int) -> int
    decreases s.len() - i,
{
    if i < 0 || i >= s.len() || !is_ascii_digit(s[i]) {
        i
    } else {
        ascii_digits_end(s, i + 1)
    }
}

/// The end of the time zone that starts at `i`: `Z`, or `+HH:MM` or `-HH:MM`.
pub open spec fn zone_end(s: Seq<char>, i: int) -> Option<int> {
    if 0 <= i < s.len() && s[i] == 'Z' {
        Some(i + 1)
    } else if 0 <= i && i + 6 <= s.len() && (s[i] == '+' || s[i] == '-') && is_hour(s[i + 1], s[i + 2])
        && s[i + 3] == ':' && is_minute(s[i + 4], s[i + 5]) {
        Some(i + 6)
    } else {
        None
    }
}

/// The end of the time `THH:MM:SS`, with optional fraction of seconds and a time zone, that
/// follows the date at the start of `s`.
pub open spec fn time_end(s: Seq<char>) -> Option<int> {
    if s.len() >= 19 && s[10] == 'T' && is_hour(s[11], s[12]) && s[13] == ':' && is_minute(s[14], s[15])
        && s[16] == ':' && is_second(s[17], s[18]) {
        let f = if s.len() > 20 && s[19] == '.' && is_ascii_digit(s[20]) { ascii_digits_end(s, 20) } else { 19 };
        zone_end(s, f)
    } else {
        None
    }
}

/// Whether `s[i..]` holds no line feed.
pub open spec fn no_newline_from(s: Seq<char>, i: int) -> bool {
    forall|j: int| i <= j < s.len() ==> s[j] != '\n'
}

/// A file name that starts with an RFC 3339 date, then `_` or `-` (after at most one
/// whitespace), then the rest of the name, on one line: `Some((date, rest))`. This is the
/// match of the pattern Zola uses for dated file names.
pub open spec fn spec_dated_filename(s: Seq<char>) -> Option<(Seq<char>, Seq<char>)> {
    if !has_date(s) {
        None
    } else {
        let e = match time_end(s) { Some(t) => t, None => 10 };
        let k = if e + 1 < s.len() && spec_is_whitespace(s[e]) && (s[e + 1] == '_' || s[e + 1] == '-') {
            e + 2
        } else if e < s.len() && (s[e] == '_' || s[e] == '-') {
            e + 1
        } else {
            -1
        };
        if k < 0 || k >= s.len() || !no_newline_from(s, k) {
            None
        } else {
            Some((s.take(e), s.skip(k)))
        }
    }
}

fn is_month_exec(a: char, b: char) -> (r: bool)
    ensures
        r == is_month(a, b),
{
    (a == '0' && '1' <= b && b <= '9') || (a == '1' && '0' <= b && b <= '2')
}

fn is_day_exec(a: char, b: char) -> (r: bool)
    ensures
        r == is_day(a, b),
{
    (a == '0' && '1' <= b && b <= '9') || ((a == '1' || a == '2') && '0' <= b && b <= '9') || (a == '3' && (b == '0' || b == '1'))
}

fn is_hour_exec(a: char, b: char) -> (r: bool)
    ensures
        r == is_hour(a, b),
{
    ((a == '0' || a == '1') && '0' <= b && b <= '9') || (a == '2' && '0' <= b && b <= '3')
}

fn is_minute_exec(a: char, b: char) -> (r: bool)
    ensures
        r == is_minute(a, b),
{
    '0' <= a && a <= '5' && '0' <= b && b <= '9'
}

fn has_date_exec(v: &Vec<char>) -> (r: bool)
    ensures
        r == has_date(v@),
{
    v.len() >= 10 && is_decimal_digit(v[0]) && is_decimal_digit(v[1]) && is_decimal_digit(v[2])
        && is_decimal_digit(v[3]) && v[4] == '-' && is_month_exec(v[5], v[6]) && v[7] == '-'
        && is_day_exec(v[8], v[9])
}

fn zone_end_exec(v: &Vec<char>, i: usize) -> (r: Option<usize>)
    requires
        i <= v@.len(),
    ensures
        match zone_end(v@, i as int) {
            Some(e) => r == Some(e as usize) && e <= v@.len(),
            None => r is None,
        },
{
    if i < v.len() && v[i] == 'Z' {
        Some(i + 1)
    } else if v.len() >= 6 && i <= v.len() - 6 && (v[i] == '+' || v[i] == '-') && is_hour_exec(v[i + 1], v[i + 2])
        && v[i + 3] == ':' && is_minute_exec(v[i + 4], v[i + 5]) {
        Some(i + 6)
    } else {
        None
    }
}

fn time_end_exec(v: &Vec<char>) -> (r: Option<usize>)
    requires
        has_date(v@),
    ensures
        match time_end(v@) {
            Some(e) => r == Some(e as usize) && e <= v@.len(),
            None => r is None,
        },
{
    if v.len() >= 19 && v[10] == 'T' && is_hour_exec(v[11], v[12]) && v[13] == ':' && is_minute_exec(v[14], v[15])
        && v[16] == ':' && (is_minute_exec(v[17], v[18]) || (v[17] == '6' && v[18] == '0')) {
        let f = if v.len() > 20 && v[19] == '.' && '0' <= v[20] && v[20] <= '9' {
            let mut j: usize = 20;
            while j < v.len() && '0' <= v[j] && v[j] <= '9'
                invariant
                    20 <= j <= v@.len(),
                    ascii_digits_end(v@, 20) == ascii_digits_end(v@, j as int),
                decreases v.len() - j,
            {
                j += 1;
            }
            j
        } else {
            19
        };
        zone_end_exec(v, f)
    } else {
        None
    }
}

/// Splits a dated file name into its date and the rest (see `spec_dated_filename`).
pub fn split_dated_filename(name: &str) -> (r: Option<(String, String)>)
    ensures
        match spec_dated_filename(name@) {
            Some((d, rest)) => r matches Some((a, b)) && a@ == d && b@ == rest,
            None => r is None,
        },
{
    let v = chars_of(name);
    if !has_date_exec(&v) {
        return None;
    }
    let e = match time_end_exec(&v) { Some(t) => t, None => 10 };
    let k = if e < v.len() && e + 1 < v.len() && is_whitespace(v[e]) && (v[e + 1] == '_' || v[e + 1] == '-') {
        e + 2
    } else if e < v.len() && (v[e] == '_' || v[e] == '-') {
        e + 1
    } else {
        return None;
    };
    if k >= v.len() {
        return None;
    }
    let mut j = k;
    assert(spec_dated_filename(name@) == (if no_newline_from(name@, k as int) {
        Some((name@.take(e as int), name@.skip(k as int)))
    } else {
        None
    }));
    while j < v.len()
        invariant
            v@ == name@,
            k <= j <= v@.len(),
            spec_dated_filename(name@) == (if no_newline_from(name@, k as int) {
                Some((name@.take(e as int), name@.skip(k as int)))
            } else {
                None
            }),
            forall|t: int| k <= t < j ==> v@[t] != '\n',
        decreases v.len() - j,
    {
        if v[j] == '\n' {
            assert(!no_newline_from(name@, k as int)) by {
                assert(name@[j as int] == '\n');
            }
            return None;
        }
        j += 1;
    }
    let d = name.substring_char(0, e);
    let rest = name.substring_char(k, v.len());
    assert(d@ =~= name@.take(e as int));
    assert(rest@ =~= name@.skip(k as int));
    Some((String::from_str(d), String::from_str(rest)))
}

/// The text a page's slug is made from, and the date its file name carries: the slug of the
/// front matter when there is one; else the file name, without a leading date unless dates
/// are kept in paths. `file_name` is the name of the page's file, or of its folder for an
/// `index` page in a folder of its own.
pub fn slug_source_and_date(file_name: &str, meta_slug: Option<&str>, paths_keep_dates: bool) -> (r: (String, Option<String>))
    ensures
        r.0@ == (match meta_slug {
            Some(s) => s@,
            None => match spec_dated_filename(file_name@) {
                Some((_, rest)) => if paths_keep_dates { file_name@ } else { rest },
                None => file_name@,
            },
        }),
        opt_view(r.1) == (match spec_dated_filename(file_name@) {
            Some((d, _)) => Some(d),
            None => None,
        }),
{
    let caps = split_dated_filename(file_name);
    let (from_name, date) = match caps {
        Some((d, rest)) => (if paths_keep_dates { String::from_str(file_name) } else { rest }, Some(d)),
        None => (String::from_str(file_name), None),
    };
    let source = match meta_slug {
        Some(s) => String::from_str(s),
        None => from_name,
    };
    (source, date)
}

/// The folder of the assets of the page whose file is at `file_path`: that of the file.
pub open spec fn asset_dir(file_path: Seq<char>) -> Seq<char> {
    match spec_path_parent(file_path) {
        Some(p) => p,
        None => file_path,
    }
}

/// The path of an asset named `name` next to the page file, below the content folder of the
/// site root `base_path`.
pub open spec fn asset_below_content(file_path: Seq<char>, name: Seq<char>, base_path: Seq<char>) -> Option<Seq<char>> {
    spec_path_strip_prefix(spec_path_join(asset_dir(file_path), name), spec_path_join(base_path, "content"@))
}

/// Whether the asset `a` lies below the content folder, if it has a file name.
pub open spec fn asset_ok(file_path: Seq<char>, a: Seq<char>, base_path: Seq<char>) -> bool {
    match spec_path_file_name(a) {
        Some(n) => asset_below_content(file_path, n, base_path) is Some,
        None => true,
    }
}

/// Whether every asset with a file name lies below the content folder.
pub open spec fn assets_below_content(file_path: Seq<char>, assets: Seq<String>, base_path: Seq<char>) -> bool {
    forall|i: int| 0 <= i < assets.len() ==> asset_ok(file_path, (#[trigger] assets[i])@, base_path)
}

/// The paths of the assets of a page as templates see them: next to the page file, below the
/// content folder; assets without a file name are left out.
pub open spec fn page_asset_paths(file_path: Seq<char>, assets: Seq<String>, base_path: Seq<char>) -> Seq<Seq<char>>
    decreases assets.len(),
{
    if assets.len() == 0 {
        Seq::empty()
    } else {
        let rest = page_asset_paths(file_path, assets.drop_last(), base_path);
        match spec_path_file_name(assets.last()@) {
            Some(n) => rest.push(asset_below_content(file_path, n, base_path).unwrap()),
            None => rest,
        }
    }
}

/// The paths of the assets of the page whose file is at `file_path`, below the content folder
/// of the site root `base_path` (see `page_asset_paths`).
pub fn serialize_page_assets(file_path: &str, assets: &Vec<String>, base_path: &str) -> (r: Vec<String>)
    requires
        assets_below_content(file_path@, assets@, base_path@),
    ensures
        strings_view(r@) == page_asset_paths(file_path@, assets@, base_path@),
{
    match try_serialize_page_assets(file_path, assets, base_path) {
        Some(r) => r,
        None => Vec::new(),
    }
}

/// `serialize_page_assets`, or `None` when an asset with a file name does not lie below the
/// content folder.
pub fn try_serialize_page_assets(file_path: &str, assets: &Vec<String>, base_path: &str) -> (r: Option<Vec<String>>)
    ensures
        r is Some == assets_below_content(file_path@, assets@, base_path@),
        r matches Some(v) ==> strings_view(v@) == page_asset_paths(file_path@, assets@, base_path@),
{
    proof {
        reveal_strlit("content");
    }
    let dir = match path_parent(file_path) {
        Some(p) => p,
        None => String::from_str(file_path),
    };
    let content_dir = path_join(base_path, "content");
    let mut r: Vec<String> = Vec::new();
    let mut i: usize = 0;
    while i < assets.len()
        invariant
            i <= assets@.len(),
            dir@ == asset_dir(file_path@),
            content_dir@ == spec_path_join(base_path@, "content"@),
            assets_below_content(file_path@, assets@.take(i as int), base_path@),
            strings_view(r@) == page_asset_paths(file_path@, assets@.take(i as int), base_path@),
        decreases assets.len() - i,
    {
        assert(assets@.take(i + 1).drop_last() =~= assets@.take(i as int));
        assert(assets@.take(i + 1).last() == assets@[i as int]);
        match path_file_name(assets[i].as_str()) {
            Some(name) => {
                let joined = path_join(dir.as_str(), name.as_str());
                match path_strip_prefix(joined.as_str(), content_dir.as_str()) {
                    Some(below) => {
                        let ghost before = strings_view(r@);
                        let ghost b = below@;
                        r.push(below);
                        assert(strings_view(r@) =~= before.push(b));
                        assert forall|k: int| 0 <= k < i + 1 implies asset_ok(file_path@, (#[trigger] assets@.take(i + 1)[k])@, base_path@) by {
                            if k < i {
                                assert(assets@.take(i + 1)[k] == assets@.take(i as int)[k]);
                            }
                        }
                    },
                    None => {
                        assert(!assets_below_content(file_path@, assets@, base_path@)) by {
                            assert(spec_path_file_name(assets@[i as int]@) == Some(name@));
                            assert(!asset_ok(file_path@, assets@[i as int]@, base_path@));
                        }
                        return None;
                    },
                }
            },
            None => {
                assert forall|k: int| 0 <= k < i + 1 implies asset_ok(file_path@, (#[trigger] assets@.take(i + 1)[k])@, base_path@) by {
                    if k < i {
                        assert(assets@.take(i + 1)[k] == assets@.take(i as int)[k]);
                    }
                }
            },
        }
        i += 1;
    }
    assert(assets@.take(assets@.len() as int) =~= assets@);
    Some(r)
}

/// The name a page's slug is made from: its file name without extension, or, for an `index`
/// page, the name of the folder that holds it. `None` where that folder has no name.
pub open spec fn spec_slug_file_name(file_path: Seq<char>, name: Seq<char>) -> Option<Seq<char>> {
    if name == "index"@ {
        match spec_path_parent(file_path) {
            Some(p) => spec_path_file_name(p),
            None => Some(name),
        }
    } else {
        Some(name)
    }
}

/// The name a page's slug is made from (see `spec_slug_file_name`); `file_path` is the path of
/// the page's file and `name` its name without extension.
pub fn slug_file_name(file_path: &str, name: &str) -> (r: Option<String>)
    ensures
        opt_view(r) == spec_slug_file_name(file_path@, name@),
{
    proof {
        reveal_strlit("index");
    }
    if str_eq(name, "index") {
        match path_parent(file_path) {
            Some(p) => path_file_name(p.as_str()),
            None => Some(String::from_str(name)),
        }
    } else {
        Some(String::from_str(name))
    }
}

/// The text a page's slug is made from, given the name it is read from (see
/// `slug_source_and_date`).
pub open spec fn spec_slug_source(file_name: Seq<char>, meta_slug: Option<Seq<char>>, paths_keep_dates: bool) -> Seq<char> {
    match meta_slug {
        Some(s) => s,
        None => match spec_dated_filename(file_name) {
            Some((_, rest)) => if paths_keep_dates { file_name } else { rest },
            None => file_name,
        },
    }
}

/// The date at the start of a name, if it has one.
pub open spec fn spec_name_date(file_name: Seq<char>) -> Option<Seq<char>> {
    match spec_dated_filename(file_name) {
        Some((d, _)) => Some(d),
        None => None,
    }
}

/// Gives a page its slug, from the file `file_path` whose name without extension (and
/// language) is `name`: the slug of its front matter, else its name (its folder's for an
/// `index` page) without a leading date unless dates are kept, made a path part under the
/// site's strategy. A date at the start of that name becomes the page's date when its front
/// matter gives none, and is read into a datetime. `None`, with the front matter unchanged,
/// where an `index` page's folder has no name.
pub fn page_slug(file_path: &str, name: &str, meta: &mut PageFrontMatter, slugify: &Slugify) -> (r: Option<String>)
    ensures
        match spec_slug_file_name(file_path@, name@) {
            None => r is None && *final(meta) == *old(meta),
            Some(n) => {
                &&& r matches Some(slug) && slug@ == spec_slugify_paths(
                    spec_slug_source(n, opt_view(old(meta).slug), slugify.paths_keep_dates), slugify.paths)
                &&& same_but_dates(*old(meta), *final(meta))
                &&& if old(meta).date is None && spec_name_date(n) is Some {
                    &&& opt_view(final(meta).date) == spec_name_date(n)
                    &&& match spec_parse_datetime(spec_name_date(n).unwrap()) {
                        Some(t) => final(meta).datetime == Some(t.0) && final(meta).datetime_tuple == Some(t.1),
                        None => final(meta).datetime is None && final(meta).datetime_tuple is None,
                    }
                } else {
                    *final(meta) == *old(meta)
                }
            },
        },
{
    let file_name = match slug_file_name(file_path, name) {
        Some(n) => n,
        None => return None,
    };
    let (source, date) = match &meta.slug {
        Some(s) => slug_source_and_date(file_name.as_str(), Some(s.as_str()), slugify.paths_keep_dates),
        None => slug_source_and_date(file_name.as_str(), None, slugify.paths_keep_dates),
    };
    if meta.date.is_none() {
        if let Some(d) = date {
            meta.date = Some(d);
            meta.date_to_datetime();
        }
    }
    Some(slugify_paths(source.as_str(), slugify.paths))
}

/// Where a page is published once its slug is known: its URL path (see `spec_page_path`), the
/// components of that path, and its permalink on the site of `config`.
pub fn page_url(
    config: &crate::config::site::Config,
    meta_path: Option<&str>,
    components: &Vec<String>,
    slug: &str,
    is_root_index: bool,
    lang: &str,
) -> (r: (String, Vec<String>, String))
    ensures
        r.0@ == spec_page_path(str_view(meta_path), strings_view(components@), slug@, is_root_index, lang@, config.default_language@),
        strings_view(r.1@) == split_segments(r.0@, Seq::empty()),
        r.2@ == crate::config::site::spec_make_permalink(config.base_url@, config.feed_filename@, r.0@),
{
    let path = page_path(meta_path, components, slug, is_root_index, lang, config.default_language.as_str());
    let comps = path_components(path.as_str());
    let permalink = config.make_permalink(path.as_str());
    (path, comps, permalink)
}

/// Whether a page is the `index` page of the content root itself, not one in a folder of its
/// own: its name is `index` and its path from the content folder has no folder in it.
pub open spec fn spec_is_root_index(f: FileInfo) -> bool {
    f.name@ == "index"@ && first_index(f.relative@, '/') is None
}

/// What reading a page from `file_path` needs beyond its path being readable: where its name
/// starts with `index`, the folder that holds it has a name, which its slug is then made from.
pub open spec fn spec_index_folder_named(file_path: Seq<char>) -> bool {
    spec_prefix_before(spec_path_file_stem(file_path).unwrap(), '.') == "index"@
        ==> spec_path_file_name(spec_path_parent(file_path).unwrap()) is Some
}

/// Whether `p` is the page read from `file_path` with the front matter `meta` and the markdown
/// `raw_content`, once the language of its file `f0` is found: counted in that language, with
/// its slug (and the date its file or folder name carries, where the front matter has none),
/// its URL path, the components of that path and its permalink.
pub open spec fn spec_parsed_page(
    p: Page,
    f0: FileInfo,
    codes: Seq<String>,
    meta: PageFrontMatter,
    raw_content: Seq<char>,
    config: Config,
) -> bool {
    let n = spec_slug_file_name(p.file.path@, p.file.name@).unwrap();
    let date = spec_name_date(n);
    &&& spec_found_language(f0, p.file, Ok(p.lang), config.default_language@, codes)
    &&& p.raw_content@ == raw_content
    &&& p.word_count matches Some(w) && w == spec_reading_analytics(raw_content, p.lang@).0
    &&& p.reading_time matches Some(t) && t == spec_reading_analytics(raw_content, p.lang@).1
    &&& spec_slug_file_name(p.file.path@, p.file.name@) is Some
    &&& p.slug@ == spec_slugify_paths(
        spec_slug_source(n, opt_view(meta.slug), config.slugify.paths_keep_dates), config.slugify.paths)
    &&& same_but_dates(meta, p.meta)
    &&& if meta.date is None && date is Some {
        &&& opt_view(p.meta.date) == date
        &&& match spec_parse_datetime(date.unwrap()) {
            Some(t) => p.meta.datetime == Some(t.0) && p.meta.datetime_tuple == Some(t.1),
            None => p.meta.datetime is None && p.meta.datetime_tuple is None,
        }
    } else {
        p.meta == meta
    }
    &&& p.path@ == spec_page_path(opt_view(meta.path), strings_view(p.file.components@), p.slug@,
        spec_is_root_index(p.file), p.lang@, config.default_language@)
    &&& strings_view(p.components@) == split_segments(p.path@, Seq::empty())
    &&& p.permalink@ == spec_make_permalink(config.base_url@, config.feed_filename@, p.path@)
    &&& p.ancestors@.len() == 0 && p.translations@.len() == 0
}

/// Where `c` occurs in `s` first, if anywhere.
proof fn lemma_first_index_found(s: Seq<char>, c: char)
    ensures
        match first_index(s, c) {
            Some(i) => 0 <= i < s.len() && s[i] == c && forall|j: int| 0 <= j < i ==> s[j] != c,
            None => forall|j: int| 0 <= j < s.len() ==> s[j] != c,
        },
    decreases s.len(),
{
    if s.len() > 0 && s[0] != c {
        lemma_first_index_found(s.drop_first(), c);
        assert forall|j: int| 1 <= j < s.len() implies s[j] == s.drop_first()[j - 1] by {}
    }
}

/// A page whose name, once its language is cut off, is `index` has a file stem that starts
/// with `index`.
proof fn lemma_index_name(stem: Seq<char>, name: Seq<char>, default_language: Seq<char>, multilingual: bool)
    requires
        name == "index"@,
        name == (match spec_name_language(stem, default_language, multilingual) {
            Some((st, _)) => st,
            None => stem,
        }) || name == stem,
    ensures
        spec_prefix_before(stem, '.') == "index"@,
{
    reveal_strlit("index");
    lemma_first_index_found(stem, '.');
    if name == stem {
        lemma_prefix_before(stem, '.', stem.len() as int);
        assert(stem.subrange(0, stem.len() as int) =~= stem);
    } else {
        let i = first_index(stem, '.').unwrap();
        lemma_prefix_before(stem, '.', i);
        assert(stem.subrange(0, i) =~= stem.take(i));
    }
}

impl Page {
    /// Reads a page from its file: `file_path` under the site root `base_path`, whose front
    /// matter is `meta` and whose markdown is `raw_content`. Its language comes from its file
    /// name; a language the site does not have is an error.
    pub fn parse(file_path: &str, meta: PageFrontMatter, raw_content: &str, config: &Config, base_path: &str) -> (r: Result<Page, Error>)
        requires
            spec_page_path_ok(file_path@, base_path@),
            spec_index_folder_named(file_path@),
        ensures
            exists|f0: FileInfo, codes: Seq<String>| {
                &&& spec_page_info(f0, file_path@, base_path@)
                &&& strings_view(codes) == other_language_codes(*config)
                &&& match r {
                    Ok(p) => spec_parsed_page(p, f0, codes, meta, raw_content@, *config),
                    Err(e) => spec_found_language(f0, f0, Err(e), config.default_language@, codes),
                }
            },
    {
        let mut page = Page::new(file_path, meta, base_path);
        let codes = other_codes(config);
        let ghost f0 = page.file;
        let lang = match page.file.find_language(config.default_language.as_str(), &codes) {
            Ok(lang) => lang,
            Err(e) => {
                assert(page.file == f0);
                return Err(e);
            },
        };
        page.raw_content = String::from_str(raw_content);
        let (wc, rt) = get_reading_analytics(raw_content, lang.as_str());
        page.word_count = Some(wc);
        page.reading_time = Some(rt);
        let fp = page.file.path.clone();
        let name = page.file.name.clone();
        proof {
            reveal_strlit("index");
            if name@ == "index"@ {
                lemma_index_name(f0.name@, name@, config.default_language@, codes@.len() > 0);
            }
        }
        let slug = match page_slug(fp.as_str(), name.as_str(), &mut page.meta, &config.slugify) {
            Some(s) => s,
            None => {
                proof {
                    assert(false);
                }
                return Err(Error { message: String::new() });
            },
        };
        let is_root_index = str_eq(name.as_str(), "index") && split_once_char(page.file.relative.as_str(), '/').is_none();
        let (path, components, permalink) = match &page.meta.path {
            Some(mp) => page_url(config, Some(mp.as_str()), &page.file.components, slug.as_str(), is_root_index, lang.as_str()),
            None => page_url(config, None, &page.file.components, slug.as_str(), is_root_index, lang.as_str()),
        };
        page.slug = slug;
        page.path = path;
        page.components = components;
        page.permalink = permalink;
        page.lang = lang;
        assert(spec_parsed_page(page, f0, codes@, meta, raw_content@, *config));
        Ok(page)
    }
}

/// A page read by `Page::parse` is published at a URL path that starts and ends with `/`, whose
/// components are its non-empty parts between the slashes and whose permalink is that path on
/// the site; a path given in the front matter is used trimmed, with a `/` put in front and at
/// the end where it lacks one.
pub proof fn lemma_parsed_page_url(
    p: Page,
    f0: FileInfo,
    codes: Seq<String>,
    meta: PageFrontMatter,
    raw_content: Seq<char>,
    config: Config,
)
    requires
        spec_parsed_page(p, f0, codes, meta, raw_content, config),
    ensures
        starts_with_slash(p.path@),
        ends_with_slash(p.path@),
        strings_view(p.components@) == split_segments(p.path@, Seq::empty()),
        p.permalink@ == spec_make_permalink(config.base_url@, config.feed_filename@, p.path@),
        meta.path matches Some(mp) ==> {
            let t = spec_trim(mp@);
            let with_start = if starts_with_slash(t) { t } else { "/"@ + t };
            p.path@ == (if ends_with_slash(with_start) { with_start } else { with_start + "/"@ })
        },
{
    lemma_page_path_slashes(opt_view(meta.path), strings_view(p.file.components@), p.slug@,
        spec_is_root_index(p.file), p.lang@, config.default_language@);
}

} // verus!
