use globset::{Error as GlobError, Glob, GlobSet, GlobSetBuilder};
use vstd::prelude::*;

use crate::text::strings_view;


verus! {

#[verifier::external_type_specification]
#[verifier::external_body]
pub struct ExGlobSet(GlobSet);

#[verifier::external_type_specification]
#[verifier::external_body]
pub struct ExGlob(Glob);

#[verifier::external_type_specification]
#[verifier::external_body]
pub struct ExGlobSetBuilder(GlobSetBuilder);

#[verifier::external_type_specification]
#[verifier::external_body]
pub struct ExGlobError(GlobError);

/// Whether `globset` accepts `pattern` as a glob.
pub uninterp spec fn spec_is_valid_glob(pattern: Seq<char>) -> bool;

/// The pattern a glob was made from, as `Glob::glob` gives it back.
pub uninterp spec fn spec_glob_pattern(g: Glob) -> Seq<char>;

/// The patterns of the globs added to a builder, in the order they were added.
pub uninterp spec fn spec_builder_patterns(b: GlobSetBuilder) -> Seq<Seq<char>>;

/// The patterns a set of globs was compiled from, in the order they were added: the set
/// matches a path when one of them does, and `GlobSet::len` is their number.
pub uninterp spec fn spec_globset_patterns(s: GlobSet) -> Seq<Seq<char>>;

/// Whether the globs made by `Glob::new` from these patterns compile together into one set.
/// It depends on the patterns alone: the size limits of the compiled automata are constants of
/// `globset`.
pub uninterp spec fn spec_globset_builds(patterns: Seq<Seq<char>>) -> bool;

/// Calls `globset::Glob::new`, which parses the pattern; whether it succeeds is named by
/// `spec_is_valid_glob`, and the glob keeps the pattern it was made from.
#[verifier::external_body]
fn new_glob(pattern: &str) -> (r: Result<Glob, GlobError>)
    ensures
        r is Ok == spec_is_valid_glob(pattern@),
        r matches Ok(g) ==> spec_glob_pattern(g) == pattern@,
{
    Glob::new(pattern)
}

/// The text of a glob parse error, as its `Display` prints it; nothing is stated of the text.
#[verifier::external_body]
fn glob_error_text(e: &GlobError) -> String {
    e.to_string()
}

/// Calls `GlobSetBuilder::new`, which holds no glob.
#[verifier::external_body]
fn new_glob_set_builder() -> (b: GlobSetBuilder)
    ensures
        spec_builder_patterns(b) == Seq::<Seq<char>>::empty(),
{
    GlobSetBuilder::new()
}

/// Calls `GlobSetBuilder::add`, which appends the glob to the builder.
#[verifier::external_body]
fn add_glob(builder: &mut GlobSetBuilder, glob: Glob)
    ensures
        spec_builder_patterns(*final(builder)) == spec_builder_patterns(*old(builder)).push(spec_glob_pattern(glob)),
{
    builder.add(glob);
}

/// Calls `GlobSetBuilder::build`, which compiles the added globs into one matcher made of
/// exactly those globs. Whether it succeeds is named by `spec_globset_builds` over their
/// patterns (every glob of this library is made by `Glob::new`, with its default options); it
/// fails when a compiled automaton exceeds the fixed size limits of the regex engine.
#[verifier::external_body]
fn build_glob_set(builder: &GlobSetBuilder) -> (r: Result<GlobSet, GlobError>)
    ensures
        r is Ok == spec_globset_builds(spec_builder_patterns(*builder)),
        r matches Ok(s) ==> spec_globset_patterns(s) == spec_builder_patterns(*builder),
{
    builder.build()
}

/// The start of the message for an invalid ignore pattern.
pub open spec fn spec_invalid_glob_prefix(name: Seq<char>, pattern: Seq<char>) -> Seq<char> {
    "Invalid ignored_"@ + name + " glob pattern: "@ + pattern + ", error = "@
}

/// The message when the valid globs cannot be compiled together.
pub open spec fn spec_bad_glob_set_message(name: Seq<char>) -> Seq<char> {
    "Bad ignored_"@ + name + " in config file."@
}

/// Whether `s` begins with `p`.
pub open spec fn has_prefix(s: Seq<char>, p: Seq<char>) -> bool {
    p.len() <= s.len() && s.take(p.len() as int) == p
}

/// The index of the first pattern that is not a valid glob.
pub open spec fn first_invalid_glob(patterns: Seq<String>, from: int) -> Option<int>
    decreases patterns.len() - from,
{
    if from < 0 || from >= patterns.len() {
        None
    } else if !spec_is_valid_glob(patterns[from]@) {
        Some(from)
    } else {
        first_invalid_glob(patterns, from + 1)
    }
}

/// Compiles the glob patterns of `ignored_<name>` into one matcher made of exactly those
/// patterns. The first pattern that is not a valid glob gives an error naming it; valid
/// patterns that do not compile together give the bad-set error.
pub fn build_ignore_glob_set(ignore: &Vec<String>, name: &str) -> (r: Result<GlobSet, crate::error::Error>)
    ensures
        match first_invalid_glob(ignore@, 0) {
            Some(i) => r is Err && has_prefix(r->Err_0.message@, spec_invalid_glob_prefix(name@, ignore@[i]@)),
            None => (r is Ok <==> spec_globset_builds(strings_view(ignore@)))
                && (r is Err ==> r->Err_0.message@ == spec_bad_glob_set_message(name@)),
        },
        r matches Ok(s) ==> spec_globset_patterns(s) == strings_view(ignore@),
{
    let mut builder = new_glob_set_builder();
    let mut i: usize = 0;
    while i < ignore.len()
        invariant
            i <= ignore@.len(),
            first_invalid_glob(ignore@, 0) == first_invalid_glob(ignore@, i as int),
            spec_builder_patterns(builder) == strings_view(ignore@.take(i as int)),
        decreases ignore.len() - i,
    {
        let pat = ignore[i].as_str();
        assert(strings_view(ignore@.take(i + 1)) =~= strings_view(ignore@.take(i as int)).push(ignore@[i as int]@));
        match new_glob(pat) {
            Ok(g) => add_glob(&mut builder, g),
            Err(e) => {
                let mut m = String::from_str("Invalid ignored_");
                m.append(name);
                m.append(" glob pattern: ");
                m.append(pat);
                m.append(", error = ");
                let ghost p = m@;
                m.append(glob_error_text(&e).as_str());
                assert(m@.take(p.len() as int) =~= p);
                return Err(crate::error::Error { message: m });
            },
        }
        i += 1;
    }
    assert(ignore@.take(ignore@.len() as int) =~= ignore@);
    match build_glob_set(&builder) {
        Ok(set) => Ok(set),
        Err(_) => {
            let mut m = String::from_str("Bad ignored_");
            m.append(name);
            m.append(" in config file.");
            Err(crate::error::Error { message: m })
        },
    }
}

/// Whether a broken link is reported as an error or a warning.
#[derive(Clone, Copy, Debug, PartialEq, Eq, Structural)]
pub enum LinkCheckerLevel {
    Error,
    Warn,
}

impl Default for LinkCheckerLevel {
    fn default() -> (l: LinkCheckerLevel)
        ensures
            l == LinkCheckerLevel::Error,
    {
        LinkCheckerLevel::Error
    }
}

/// Settings of the link checker.
pub struct LinkChecker {
    /// Skip link checking for these URL prefixes
    pub skip_prefixes: Vec<String>,
    /// Skip anchor checking for these URL prefixes
    pub skip_anchor_prefixes: Vec<String>,
    /// Emit either "error" or "warn" for broken internal links (including anchor links).
    pub internal_level: LinkCheckerLevel,
    /// Emit either "error" or "warn" for broken external links (including anchor links).
    pub external_level: LinkCheckerLevel,
    /// A list of file glob patterns to skip link checking on
    pub ignored_files: Vec<String>,
    /// The compiled `ignored_files`, once resolved.
    pub ignored_files_globset: Option<GlobSet>,
}

impl Default for LinkChecker {
    fn default() -> (l: LinkChecker)
        ensures
            l.skip_prefixes@.len() == 0,
            l.skip_anchor_prefixes@.len() == 0,
            l.internal_level == LinkCheckerLevel::Error,
            l.external_level == LinkCheckerLevel::Error,
            l.ignored_files@.len() == 0,
            l.ignored_files_globset is None,
    {
        LinkChecker {
            skip_prefixes: Vec::new(),
            skip_anchor_prefixes: Vec::new(),
            internal_level: LinkCheckerLevel::default(),
            external_level: LinkCheckerLevel::default(),
            ignored_files: Vec::new(),
            ignored_files_globset: None,
        }
    }
}

impl LinkChecker {
    /// Compiles `ignored_files` into the matcher used while checking links.
    pub fn resolve_globset(&mut self) -> (r: Result<(), crate::error::Error>)
        ensures
            final(self).skip_prefixes == old(self).skip_prefixes,
            final(self).skip_anchor_prefixes == old(self).skip_anchor_prefixes,
            final(self).internal_level == old(self).internal_level,
            final(self).external_level == old(self).external_level,
            final(self).ignored_files == old(self).ignored_files,
            r is Ok ==> (final(self).ignored_files_globset matches Some(s)
                && spec_globset_patterns(s) == strings_view(old(self).ignored_files@)),
            r is Err ==> final(self).ignored_files_globset == old(self).ignored_files_globset,
            match first_invalid_glob(old(self).ignored_files@, 0) {
                Some(i) => r is Err && has_prefix(
                    r->Err_0.message@,
                    spec_invalid_glob_prefix("files"@, old(self).ignored_files@[i]@),
                ),
                None => (r is Ok <==> spec_globset_builds(strings_view(old(self).ignored_files@)))
                    && (r is Err ==> r->Err_0.message@ == spec_bad_glob_set_message("files"@)),
            },
    {
        let glob_set = build_ignore_glob_set(&self.ignored_files, "files")?;
        self.ignored_files_globset = Some(glob_set);
        Ok(())
    }
}

} // verus!
