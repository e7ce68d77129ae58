use vstd::prelude::*;

use crate::error::Error;
use crate::paths::{opt_view, path_file_stem, spec_path_file_stem};
use crate::text::{chars_of, string_from_chars};

verus! {

/// How the pages of a section are ordered.
#[derive(Debug, Copy, Clone, PartialEq, Eq, Structural)]
pub enum SortBy {
    /// Most recent to oldest
    Date,
    /// Lower weight comes first
    Weight,
    /// No sorting
    Unsorted,
}

/// The front matter of a file, as written, in one of the two supported formats.
pub enum RawFrontMatter<'a> {
    Toml(&'a str),
    Yaml(&'a str),
}

/// An owned copy of a page's raw front matter, kept on multilingual sites.
#[derive(Clone, Debug, PartialEq, Eq)]
pub enum OwnedRawFrontMatter {
    Toml(String),
    Yaml(String),
}

/// The format and text of a raw front matter: `true` for TOML.
pub open spec fn raw_view(r: RawFrontMatter) -> (bool, Seq<char>) {
    match r {
        RawFrontMatter::Toml(s) => (true, s@),
        RawFrontMatter::Yaml(s) => (false, s@),
    }
}

/// The format and text of an owned front matter: `true` for TOML.
pub open spec fn owned_view(r: OwnedRawFrontMatter) -> (bool, Seq<char>) {
    match r {
        OwnedRawFrontMatter::Toml(s) => (true, s@),
        OwnedRawFrontMatter::Yaml(s) => (false, s@),
    }
}

impl<'a> RawFrontMatter<'a> {
    /// Copies the front matter into owned strings.
    pub fn to_owned_raw(&self) -> (o: OwnedRawFrontMatter)
        ensures
            owned_view(o) == raw_view(*self),
    {
        match self {
            RawFrontMatter::Toml(s) => OwnedRawFrontMatter::Toml(String::from_str(s)),
            RawFrontMatter::Yaml(s) => OwnedRawFrontMatter::Yaml(String::from_str(s)),
        }
    }
}

impl OwnedRawFrontMatter {
    /// Borrows the owned front matter.
    pub fn as_raw(&self) -> (r: RawFrontMatter<'_>)
        ensures
            raw_view(r) == owned_view(*self),
    {
        match self {
            OwnedRawFrontMatter::Toml(s) => RawFrontMatter::Toml(s.as_str()),
            OwnedRawFrontMatter::Yaml(s) => RawFrontMatter::Yaml(s.as_str()),
        }
    }
}

/// Borrowing an owned front matter (`as_raw`) and copying the borrow (`to_owned_raw`) gives
/// back the front matter it started from: the same format and the same text.
pub proof fn lemma_owned_raw_roundtrip(o: OwnedRawFrontMatter, borrowed: RawFrontMatter, copied: OwnedRawFrontMatter)
    requires
        raw_view(borrowed) == owned_view(o),
        owned_view(copied) == raw_view(borrowed),
    ensures
        owned_view(copied) == owned_view(o),
{
}

/// ASCII whitespace, the class `[[:space:]]`.
pub open spec fn is_space(c: char) -> bool {
    c == ' ' || c == '\t' || c == '\n' || c == '\r' || c == '\x0B' || c == '\x0C'
}

/// The end of the run of whitespace that starts at `i`.
pub open spec fn space_end(s: Seq<char>, i: int) -> int
    decreases s.len() - i,
{
    if i < 0 || i >= s.len() || !is_space(s[i]) {
        i
    } else {
        space_end(s, i + 1)
    }
}

/// The last line feed in `s[lo..hi]`.
pub open spec fn last_newline(s: Seq<char>, lo: int, hi: int) -> Option<int>
    decreases hi - lo,
{
    if hi <= lo {
        None
    } else if s[hi - 1] == '\n' {
        Some(hi - 1)
    } else {
        last_newline(s, lo, hi - 1)
    }
}

/// Whether the three characters of `d` stand at position `i` of `s`.
pub open spec fn delim_at(s: Seq<char>, i: int, d: char) -> bool {
    0 <= i && i + 3 <= s.len() && s[i] == d && s[i + 1] == d && s[i + 2] == d
}

/// What may follow a closing delimiter ending at `c`: whitespace up to the end of the text
/// (`Some(None)`: no content), or whitespace holding a line feed, after the last of which the
/// content starts (`Some(Some(start))`).
pub open spec fn after_close(s: Seq<char>, c: int) -> Option<Option<int>> {
    let e = space_end(s, c);
    if e == s.len() {
        Some(None)
    } else {
        match last_newline(s, c, e) {
            Some(j) => Some(Some(j + 1)),
            None => None,
        }
    }
}

/// The first closing delimiter at or after `e` that is followed by what `after_close` accepts.
pub open spec fn find_close(s: Seq<char>, e: int, d: char) -> Option<int>
    decreases s.len() - e,
{
    if e < 0 || e + 3 > s.len() {
        None
    } else if delim_at(s, e, d) && after_close(s, e + 3) is Some {
        Some(e)
    } else {
        find_close(s, e + 1, d)
    }
}

/// The front matter delimited by `d` (`+` or `-`) at the top of `s`: its text, starting with
/// the line feed after the opening delimiter, and the content after it. This is the match of
/// `^\s*DDD\s*(\r?\n(?s).*?)DDD\s*(?:$|\r?\n((?s).*)$)` with `\s` the ASCII whitespace and `DDD`
/// three times `d`.
pub open spec fn spec_delimited(s: Seq<char>, d: char) -> Option<(Seq<char>, Seq<char>)> {
    let a = space_end(s, 0);
    if !delim_at(s, a, d) {
        None
    } else {
        match last_newline(s, a + 3, space_end(s, a + 3)) {
            None => None,
            Some(k) => match find_close(s, k + 1, d) {
                None => None,
                Some(e) => match after_close(s, e + 3) {
                    Some(Some(st)) => Some((s.subrange(k, e), s.subrange(st, s.len() as int))),
                    _ => Some((s.subrange(k, e), Seq::empty())),
                },
            },
        }
    }
}

/// TOML front matter (`+++`) is looked for first, then YAML (`---`).
pub open spec fn spec_split_content(s: Seq<char>) -> Option<(bool, Seq<char>, Seq<char>)> {
    match spec_delimited(s, '+') {
        Some((f, c)) => Some((true, f, c)),
        None => match spec_delimited(s, '-') {
            Some((f, c)) => Some((false, f, c)),
            None => None,
        },
    }
}

/// The message when no front matter is found in the file at `file_path`.
pub open spec fn spec_missing_front_matter(file_path: Seq<char>) -> Seq<char> {
    "Couldn't find front matter in `"@ + file_path + "`. Did you forget to add `+++` or `---`?"@
}

fn space_end_exec(v: &Vec<char>, i: usize) -> (e: usize)
    requires
        i <= v@.len(),
    ensures
        e == space_end(v@, i as int),
        i <= e <= v@.len(),
{
    let mut j = i;
    while j < v.len() && (v[j] == ' ' || v[j] == '\t' || v[j] == '\n' || v[j] == '\r'
        || v[j] == '\x0B' || v[j] == '\x0C')
        invariant
            i <= j <= v@.len(),
            space_end(v@, i as int) == space_end(v@, j as int),
        decreases v.len() - j,
    {
        j += 1;
    }
    j
}

fn last_newline_exec(v: &Vec<char>, lo: usize, hi: usize) -> (r: Option<usize>)
    requires
        lo <= hi <= v@.len(),
    ensures
        r is Some == last_newline(v@, lo as int, hi as int) is Some,
        r matches Some(k) ==> last_newline(v@, lo as int, hi as int) == Some(k as int) && lo <= k < hi,
{
    let mut h = hi;
    while h > lo
        invariant
            lo <= h <= hi <= v@.len(),
            last_newline(v@, lo as int, hi as int) == last_newline(v@, lo as int, h as int),
        decreases h - lo,
    {
        if v[h - 1] == '\n' {
            return Some(h - 1);
        }
        h -= 1;
    }
    None
}

fn delim_at_exec(v: &Vec<char>, i: usize, d: char) -> (b: bool)
    ensures
        b == delim_at(v@, i as int, d),
        b ==> i + 3 <= v.len(),
{
    i <= v.len() && v.len() - i >= 3 && v[i] == d && v[i + 1] == d && v[i + 2] == d
}

fn after_close_exec(v: &Vec<char>, c: usize) -> (r: Option<Option<usize>>)
    requires
        c <= v@.len(),
    ensures
        r is Some == after_close(v@, c as int) is Some,
        r matches Some(None) ==> after_close(v@, c as int) == Some(None::<int>),
        r matches Some(Some(st)) ==> after_close(v@, c as int) == Some(Some(st as int)) && st <= v@.len(),
{
    let e = space_end_exec(v, c);
    if e == v.len() {
        Some(None)
    } else {
        match last_newline_exec(v, c, e) {
            Some(j) => {
                Some(Some(j + 1))
            },
            None => None,
        }
    }
}

fn find_close_exec(v: &Vec<char>, from: usize, d: char) -> (r: Option<usize>)
    requires
        from <= v@.len(),
    ensures
        r is Some == find_close(v@, from as int, d) is Some,
        r matches Some(e) ==> find_close(v@, from as int, d) == Some(e as int),
        r matches Some(e) ==> from <= e && e + 3 <= v.len(),
{
    let mut e = from;
    while e <= v.len() && v.len() - e >= 3
        invariant
            from <= e <= v@.len(),
            find_close(v@, from as int, d) == find_close(v@, e as int, d),
        decreases v.len() - e,
    {
        if delim_at_exec(v, e, d) {
            if after_close_exec(v, e + 3).is_some() {
                return Some(e);
            }
        }
        e += 1;
    }
    None
}

/// Finds the front matter delimited by `d`: (start, end) of its text and the start of the
/// content, or `None` for an empty content.
fn delimited_exec(v: &Vec<char>, d: char) -> (r: Option<(usize, usize, Option<usize>)>)
    ensures
        match spec_delimited(v@, d) {
            Some((f, c)) => r matches Some((lo, hi, st)) && lo <= hi <= v@.len()
                && f == v@.subrange(lo as int, hi as int)
                && match st {
                    Some(st) => st <= v@.len() && c == v@.subrange(st as int, v@.len() as int),
                    None => c == Seq::<char>::empty(),
                },
            None => r is None,
        },
{
    let a = space_end_exec(v, 0);
    if !delim_at_exec(v, a, d) {
        return None;
    }
    let m = space_end_exec(v, a + 3);
    match last_newline_exec(v, a + 3, m) {
        None => None,
        Some(k) => match find_close_exec(v, k + 1, d) {
            None => None,
            Some(e) => match after_close_exec(v, e + 3) {
                Some(Some(st)) => Some((k, e, Some(st))),
                _ => Some((k, e, None)),
            },
        },
    }
}

/// Split a file between the front matter and its content.
/// Will return an error if the front matter wasn't found.
pub fn split_content<'c>(file_path: &str, content: &'c str) -> (r: Result<(RawFrontMatter<'c>, &'c str), Error>)
    ensures
        match spec_split_content(content@) {
            Some((is_toml, f, c)) => r is Ok && raw_view(r->Ok_0.0) == (is_toml, f) && r->Ok_0.1@ == c,
            None => r is Err && r->Err_0.message@ == spec_missing_front_matter(file_path@),
        },
{
    let v = chars_of(content);
    let (found, is_toml) = match delimited_exec(&v, '+') {
        Some(t) => (t, true),
        None => match delimited_exec(&v, '-') {
            Some(t) => (t, false),
            None => {
                let mut m = String::from_str("Couldn't find front matter in `");
                m.append(file_path);
                m.append("`. Did you forget to add `+++` or `---`?");
                return Err(Error { message: m });
            },
        },
    };
    let (lo, hi, st) = found;
    let front = content.substring_char(lo, hi);
    let body: &'c str = match st {
        Some(st) => content.substring_char(st, v.len()),
        None => "",
    };
    proof {
        reveal_strlit("");
    }
    if is_toml {
        Ok((RawFrontMatter::Toml(front), body))
    } else {
        Ok((RawFrontMatter::Yaml(front), body))
    }
}

/// The end of the run of the character `c` that starts at `i`.
pub open spec fn run_end(s: Seq<char>, i: int, c: char) -> int
    decreases s.len() - i,
{
    if i < 0 || i >= s.len() || s[i] != c {
        i
    } else {
        run_end(s, i + 1, c)
    }
}

/// The position of the first line feed from `i` on, or the end of `s`.
pub open spec fn line_end(s: Seq<char>, i: int) -> int
    decreases s.len() - i,
{
    if i < 0 || i >= s.len() || s[i] == '\n' {
        i
    } else {
        line_end(s, i + 1)
    }
}

/// A title given as a heading at the top of the content: after whitespace, a `#`, spaces, then
/// the rest of that line is the title, and what follows the line is the content left. `None`
/// when the content does not start with a `#`.
pub open spec fn spec_heading_title(s: Seq<char>) -> Option<(Seq<char>, Seq<char>)> {
    let i = space_end(s, 0);
    if i < s.len() && s[i] == '#' {
        let j = run_end(s, i + 1, ' ');
        let e = line_end(s, j);
        Some((s.subrange(j, e), if e < s.len() { s.skip(e + 1) } else { Seq::empty() }))
    } else {
        None
    }
}

fn run_end_exec(v: &Vec<char>, i: usize, c: char) -> (e: usize)
    requires
        i <= v@.len(),
    ensures
        e == run_end(v@, i as int, c),
        i <= e <= v@.len(),
{
    let mut j = i;
    while j < v.len() && v[j] == c
        invariant
            i <= j <= v@.len(),
            run_end(v@, i as int, c) == run_end(v@, j as int, c),
        decreases v.len() - j,
    {
        j += 1;
    }
    j
}

fn line_end_exec(v: &Vec<char>, i: usize) -> (e: usize)
    requires
        i <= v@.len(),
    ensures
        e == line_end(v@, i as int),
        i <= e <= v@.len(),
{
    let mut j = i;
    while j < v.len() && v[j] != '\n'
        invariant
            i <= j <= v@.len(),
            line_end(v@, i as int) == line_end(v@, j as int),
        decreases v.len() - j,
    {
        j += 1;
    }
    j
}

/// The title a page gives as a heading at the top of its content, and the content left after
/// that line (see `spec_heading_title`).
pub fn heading_title(content: &str) -> (r: Option<(String, String)>)
    ensures
        match spec_heading_title(content@) {
            Some((t, rest)) => r matches Some(p) && p.0@ == t && p.1@ == rest,
            None => r is None,
        },
{
    let v = chars_of(content);
    let i = space_end_exec(&v, 0);
    if !(i < v.len() && v[i] == '#') {
        return None;
    }
    let j = run_end_exec(&v, i + 1, ' ');
    let e = line_end_exec(&v, j);
    let title = content.substring_char(j, e);
    let rest = if e < v.len() { content.substring_char(e + 1, v.len()) } else { "" };
    assert(title@ =~= content@.subrange(j as int, e as int));
    proof {
        if e < v@.len() {
            assert(rest@ =~= content@.skip(e + 1));
        } else {
            reveal_strlit("");
            assert(rest@ =~= Seq::<char>::empty());
        }
    }
    Some((String::from_str(title), String::from_str(rest)))
}

/// A line feed, if any, is found at or after `i` and no later than the end.
pub proof fn lemma_line_end_bounds(s: Seq<char>, i: int)
    requires
        0 <= i <= s.len(),
    ensures
        i <= line_end(s, i) <= s.len(),
        line_end(s, i) < s.len() ==> s[line_end(s, i)] == '\n',
    decreases s.len() - i,
{
    if i < s.len() && s[i] != '\n' {
        lemma_line_end_bounds(s, i + 1);
    }
}

/// The first line of `s`; a carriage return before the line feed that ends it is dropped.
pub open spec fn first_line_of(s: Seq<char>) -> Seq<char> {
    let e = line_end(s, 0);
    let line = s.take(e);
    if e < s.len() && line.len() > 0 && line.last() == '\r' { line.drop_last() } else { line }
}

/// The lines of `s` as `str::lines` gives them: split at each line feed, a carriage return
/// before a line feed dropped, and no empty line after a final line feed.
pub open spec fn spec_lines(s: Seq<char>) -> Seq<Seq<char>>
    decreases s.len(),
{
    if s.len() == 0 {
        Seq::empty()
    } else {
        let e = line_end(s, 0);
        proof {
            lemma_line_end_bounds(s, 0);
        }
        if e >= s.len() {
            seq![first_line_of(s)]
        } else {
            seq![first_line_of(s)] + spec_lines(s.skip(e + 1))
        }
    }
}

/// The date a page was first added, from the output of `git log --diff-filter=A`: its last
/// line, when it is not empty.
pub open spec fn spec_date_from_log(out: Seq<char>) -> Option<Seq<char>> {
    let ls = spec_lines(out);
    if ls.len() > 0 && ls.last().len() > 0 { Some(ls.last()) } else { None }
}

/// The date a page was last modified, from the output of `git log --diff-filter=M`: its first
/// line, when it is not empty.
pub open spec fn spec_updated_from_log(out: Seq<char>) -> Option<Seq<char>> {
    let ls = spec_lines(out);
    if ls.len() > 0 && ls[0].len() > 0 { Some(ls[0]) } else { None }
}

/// The first line of `v` from `i` on, and where it ends.
fn line_at(v: &Vec<char>, i: usize) -> (r: (Vec<char>, usize))
    requires
        i < v@.len(),
    ensures
        r.0@ == first_line_of(v@.skip(i as int)),
        r.1 == i + line_end(v@.skip(i as int), 0),
        r.1 == line_end(v@, i as int),
        i <= r.1 <= v@.len(),
{
    let e = line_end_exec(v, i);
    proof {
        lemma_line_end_shift(v@, i as int, i as int);
    }
    let mut line: Vec<char> = Vec::new();
    let mut k = i;
    while k < e
        invariant
            i <= k <= e <= v@.len(),
            line@ == v@.subrange(i as int, k as int),
        decreases e - k,
    {
        line.push(v[k]);
        assert(line@ =~= v@.subrange(i as int, k + 1));
        k += 1;
    }
    assert(v@.skip(i as int).take(e - i) =~= v@.subrange(i as int, e as int));
    if e < v.len() && line.len() > 0 && line[line.len() - 1] == '\r' {
        line.pop();
    }
    proof {
        lemma_line_end_shift(v@, i as int, i as int);
    }
    (line, e)
}

proof fn lemma_line_end_shift(s: Seq<char>, i: int, k: int)
    requires
        0 <= i <= k <= s.len(),
        line_end(s, i) == line_end(s, k),
    ensures
        line_end(s.skip(i), k - i) == line_end(s, k) - i,
    decreases s.len() - k,
{
    if k < s.len() && s[k] != '\n' {
        lemma_line_end_shift(s, i, k + 1);
    }
}

/// The last line of `s`, if it has one.
proof fn lemma_last_line(s: Seq<char>)
    requires
        s.len() > 0,
    ensures
        spec_lines(s).len() > 0,
        line_end(s, 0) + 1 < s.len() ==> spec_lines(s).last() == spec_lines(s.skip(line_end(s, 0) + 1)).last(),
        line_end(s, 0) + 1 >= s.len() ==> spec_lines(s).last() == first_line_of(s),
    decreases s.len(),
{
    lemma_line_end_bounds(s, 0);
    let e = line_end(s, 0);
    if e < s.len() {
        let rest = s.skip(e + 1);
        if rest.len() > 0 {
            lemma_last_line(rest);
        } else {
            assert(spec_lines(rest) =~= Seq::<Seq<char>>::empty());
            assert(spec_lines(s) =~= seq![first_line_of(s)]);
        }
    }
}

/// The date a page was first added, from the output of `git log` (see `spec_date_from_log`).
pub fn date_from_log(out: &str) -> (r: Option<String>)
    ensures
        opt_view(r) == spec_date_from_log(out@),
{
    let v = chars_of(out);
    if v.len() == 0 {
        return None;
    }
    let mut i: usize = 0;
    assert(v@.skip(0) =~= v@);
    loop
        invariant
            v@ == out@,
            i < v@.len(),
            spec_lines(v@).len() > 0,
            spec_lines(v@).last() == spec_lines(v@.skip(i as int)).last(),
        decreases v@.len() - i,
    {
        let ghost s = v@.skip(i as int);
        proof {
            lemma_last_line(s);
            lemma_line_end_bounds(s, 0);
        }
        let (line, e) = line_at(&v, i);
        if e >= v.len() - 1 {
            let text = string_from_chars(line.as_slice());
            if text.as_str().unicode_len() == 0 {
                return None;
            }
            return Some(text);
        }
        assert(s.skip(e - i + 1) =~= v@.skip(e + 1));
        i = e + 1;
    }
}

/// The date a page was last modified, from the output of `git log` (see
/// `spec_updated_from_log`).
pub fn updated_from_log(out: &str) -> (r: Option<String>)
    ensures
        opt_view(r) == spec_updated_from_log(out@),
{
    let v = chars_of(out);
    if v.len() == 0 {
        return None;
    }
    proof {
        lemma_line_end_bounds(v@, 0);
    }
    assert(v@.skip(0) =~= v@);
    let (line, _) = line_at(&v, 0);
    let text = string_from_chars(line.as_slice());
    if text.as_str().unicode_len() == 0 {
        return None;
    }
    Some(text)
}

/// The title of a page and the content left: the title of its front matter when it has one;
/// else that of a heading at the top of the content, which is taken out of the content; else
/// the stem of the name of its file, `file_path`.
pub fn page_title(meta_title: Option<String>, content: &str, file_path: &str) -> (r: (Option<String>, String))
    ensures
        match meta_title {
            Some(t) => opt_view(r.0) == Some(t@) && r.1@ == content@,
            None => match spec_heading_title(content@) {
                Some((t, rest)) => opt_view(r.0) == Some(t) && r.1@ == rest,
                None => opt_view(r.0) == spec_path_file_stem(file_path@) && r.1@ == content@,
            },
        },
{
    match meta_title {
        Some(t) => (Some(t), String::from_str(content)),
        None => match heading_title(content) {
            Some((t, rest)) => (Some(t), rest),
            None => (path_file_stem(file_path), String::from_str(content)),
        },
    }
}

} // verus!
