use vstd::prelude::*;

use crate::paths::{
    opt_view, path_components, path_file_name, path_file_stem, path_join, path_parent,
    path_strip_prefix, spec_path_components, spec_path_file_name, spec_path_file_stem,
    spec_path_join, spec_path_parent, spec_path_strip_prefix,
};
use crate::error::Error;
use crate::text::{
    contains_str, debug_text, first_index, join, prefix_before, spec_join, spec_prefix_before,
    split_once_char, str_eq, strings_view,
};

verus! {

/// The components after the first one named `content`.
pub open spec fn components_after_content(cs: Seq<Seq<char>>) -> Seq<Seq<char>>
    decreases cs.len(),
{
    if cs.len() == 0 {
        Seq::empty()
    } else if cs[0] == "content"@ {
        cs.drop_first()
    } else {
        components_after_content(cs.drop_first())
    }
}

/// The folders of `path` after its first `content` folder, not counting the file name.
pub open spec fn spec_content_components(path: Seq<char>) -> Seq<Seq<char>> {
    components_after_content(spec_path_components(spec_path_parent(path).unwrap()))
}

/// Takes a full path to a file and returns only the components after the first `content`
/// directory. Will not return the filename as last component.
pub fn find_content_components(path: &str) -> (r: Vec<String>)
    requires
        spec_path_parent(path@) is Some,
    ensures
        strings_view(r@) == spec_content_components(path@),
{
    let parent = match path_parent(path) {
        Some(p) => p,
        None => {
            return Vec::new();
        },
    };
    let all = path_components(parent.as_str());
    let ghost cs = strings_view(all@);
    let mut is_in_content = false;
    let mut components: Vec<String> = Vec::new();
    let mut i: usize = 0;
    assert(cs.skip(0) =~= cs);
    while i < all.len()
        invariant
            cs == strings_view(all@),
            i <= all@.len(),
            !is_in_content ==> components@.len() == 0
                && components_after_content(cs) == components_after_content(cs.skip(i as int)),
            is_in_content ==> components_after_content(cs) == strings_view(components@) + cs.skip(i as int),
        decreases all.len() - i,
    {
        let component = all[i].as_str();
        proof {
            assert(cs.skip(i as int)[0] == all@[i as int]@);
            assert(cs.skip(i as int).drop_first() =~= cs.skip(i + 1));
        }
        if is_in_content {
            let c = String::from_str(component);
            proof {
                assert(strings_view(components@.push(c)) =~= strings_view(components@).push(c@));
                assert(strings_view(components@).push(c@) + cs.skip(i + 1) =~= strings_view(components@)
                    + cs.skip(i as int));
            }
            components.push(c);
        } else if str_eq(component, "content") {
            is_in_content = true;
            assert(strings_view(components@) =~= Seq::<Seq<char>>::empty());
            assert(Seq::<Seq<char>>::empty() + cs.skip(i + 1) =~= cs.skip(i + 1));
        }
        i += 1;
    }
    proof {
        if !is_in_content {
            assert(cs.skip(i as int) =~= Seq::<Seq<char>>::empty());
            assert(strings_view(components@) =~= Seq::<Seq<char>>::empty());
        } else {
            assert(strings_view(components@) + cs.skip(i as int) =~= strings_view(components@));
        }
    }
    components
}

/// Struct that contains all the information about the actual file.
#[derive(Debug, Clone, PartialEq, Eq)]
pub struct FileInfo {
    /// The full path to the .md file
    pub path: String,
    /// The on-disk filename, will differ from the `name` when there is a language code in it
    pub filename: String,
    /// The name of the .md file without the extension, always `_index` for sections
    /// Doesn't contain the language if there was one in the filename
    pub name: String,
    /// The .md path, starting from the content directory, with `/` slashes
    pub relative: String,
    /// Path of the directory containing the .md file
    pub parent: String,
    /// Path of the grand parent directory for that file. Only used in sections to find subsections.
    pub grand_parent: Option<String>,
    /// The folder names to this section file, starting from the `content` directory
    pub components: Vec<String>,
    /// This is `parent` + `name`, used to find content referring to the same content but in
    /// various languages.
    pub canonical: String,
}

/// The path relative to the content directory of a file `name.md` in the folders `components`.
pub open spec fn spec_relative(components: Seq<Seq<char>>, name: Seq<char>) -> Seq<char> {
    if components.len() > 0 {
        spec_join(components, "/"@) + "/"@ + name + ".md"@
    } else {
        name + ".md"@
    }
}

/// The path whose content components are looked for: `path` without `base_path`, or all of
/// `path` when it is not under `base_path`.
pub open spec fn spec_under_base(path: Seq<char>, base_path: Seq<char>) -> Seq<char> {
    match spec_path_strip_prefix(path, base_path) {
        Some(p) => p,
        None => path,
    }
}

/// Whether a page is the `index` file of a folder holding its assets (`index.md`, or
/// `index.<lang>.md`) below the content directory.
pub open spec fn spec_is_asset_folder_index(components: Seq<Seq<char>>, name: Seq<char>) -> bool {
    components.len() > 0 && spec_prefix_before(name, '.') == "index"@
}

/// What reading a page path needs: it has a parent, a stem and a file name, the
/// path under the base has a parent, and an asset folder's index has a grand parent.
pub open spec fn spec_page_path_ok(path: Seq<char>, base_path: Seq<char>) -> bool {
    &&& spec_path_parent(path) is Some
    &&& spec_path_file_stem(path) is Some
    &&& spec_path_file_name(path) is Some
    &&& spec_path_parent(spec_under_base(path, base_path)) is Some
    &&& spec_is_asset_folder_index(
        spec_content_components(spec_under_base(path, base_path)),
        spec_path_file_stem(path).unwrap(),
    ) ==> spec_path_parent(spec_path_parent(path).unwrap()) is Some
}

/// What reading a section path needs: it has a parent, a stem and a file name, and
/// the path under the base has a parent.
pub open spec fn spec_section_path_ok(path: Seq<char>, base_path: Seq<char>) -> bool {
    &&& spec_path_parent(path) is Some
    &&& spec_path_file_stem(path) is Some
    &&& spec_path_file_name(path) is Some
    &&& spec_path_parent(spec_under_base(path, base_path)) is Some
}

/// The file information of the page at `path` under the site root `base_path`: the name is the
/// file stem, `canonical` is the parent joined with the name, and the components are the
/// folders below `content`; an asset folder's `index` page drops its own folder, which also
/// moves its parent one level up.
pub open spec fn spec_page_info(f: FileInfo, path: Seq<char>, base_path: Seq<char>) -> bool {
    let parent = spec_path_parent(path).unwrap();
    let name = spec_path_file_stem(path).unwrap();
    let cs = spec_content_components(spec_under_base(path, base_path));
    let index = spec_is_asset_folder_index(cs, name);
    &&& f.path@ == path
    &&& f.filename@ == spec_path_file_name(path).unwrap()
    &&& f.name@ == name
    &&& f.canonical@ == spec_path_join(parent, name)
    &&& f.relative@ == spec_relative(cs, name)
    &&& strings_view(f.components@) == (if index { cs.drop_last() } else { cs })
    &&& f.parent@ == (if index { spec_path_parent(parent).unwrap() } else { parent })
    &&& f.grand_parent is None
}

/// The file information of the section at `path` under the site root `base_path`: as for a
/// page, without the asset folder rule, and with the parent's parent as grand parent.
pub open spec fn spec_section_info(f: FileInfo, path: Seq<char>, base_path: Seq<char>) -> bool {
    let parent = spec_path_parent(path).unwrap();
    let name = spec_path_file_stem(path).unwrap();
    let cs = spec_content_components(spec_under_base(path, base_path));
    &&& f.path@ == path
    &&& f.filename@ == spec_path_file_name(path).unwrap()
    &&& f.name@ == name
    &&& f.canonical@ == spec_path_join(parent, name)
    &&& f.relative@ == spec_relative(cs, name)
    &&& strings_view(f.components@) == cs
    &&& f.parent@ == parent
    &&& opt_view(f.grand_parent) == spec_path_parent(parent)
}

impl FileInfo {
    /// The file information of the page at `path`; `base_path` is the site's root.
    pub fn new_page(path: &str, base_path: &str) -> (f: FileInfo)
        requires
            spec_page_path_ok(path@, base_path@),
        ensures
            spec_page_info(f, path@, base_path@),
    {
        let mut parent = match path_parent(path) { Some(p) => p, None => String::new() };
        let name = match path_file_stem(path) { Some(n) => n, None => String::new() };
        let canonical = path_join(parent.as_str(), name.as_str());
        let under = match path_strip_prefix(path, base_path) {
            Some(p) => p,
            None => String::from_str(path),
        };
        let mut components = find_content_components(under.as_str());
        let relative = relative_path(&components, name.as_str());
        if components.len() > 0 {
            let first = prefix_before(name.as_str(), '.');
            if str_eq(first.as_str(), "index") {
                let ghost before = components@;
                components.pop();
                proof {
                    assert(strings_view(components@) =~= strings_view(before).drop_last());
                }
                parent = match path_parent(parent.as_str()) { Some(p) => p, None => String::new() };
            }
        }
        let filename = match path_file_name(path) { Some(n) => n, None => String::new() };
        FileInfo {
            filename,
            path: String::from_str(path),
            grand_parent: None,
            canonical,
            parent,
            name,
            components,
            relative,
        }
    }

    /// The file information of the section at `path`; `base_path` is the site's root.
    pub fn new_section(path: &str, base_path: &str) -> (f: FileInfo)
        requires
            spec_section_path_ok(path@, base_path@),
        ensures
            spec_section_info(f, path@, base_path@),
    {
        let parent = match path_parent(path) { Some(p) => p, None => String::new() };
        let name = match path_file_stem(path) { Some(n) => n, None => String::new() };
        let under = match path_strip_prefix(path, base_path) {
            Some(p) => p,
            None => String::from_str(path),
        };
        let components = find_content_components(under.as_str());
        let relative = relative_path(&components, name.as_str());
        let grand_parent = path_parent(parent.as_str());
        let filename = match path_file_name(path) { Some(n) => n, None => String::new() };
        let canonical = path_join(parent.as_str(), name.as_str());
        FileInfo {
            filename,
            path: String::from_str(path),
            canonical,
            parent,
            grand_parent,
            name,
            components,
            relative,
        }
    }
}

/// The components of `path` after its first `content` folder, or `None` when `path` has no
/// parent folder, where `find_content_components` does not apply.
pub fn try_find_content_components(path: &str) -> (r: Option<Vec<String>>)
    ensures
        r is Some == spec_path_parent(path@) is Some,
        r matches Some(v) ==> strings_view(v@) == spec_content_components(path@),
{
    match path_parent(path) {
        Some(_) => Some(find_content_components(path)),
        None => None,
    }
}

/// What `FileInfo::find_language` finds in a file name: `None` when the name keeps the
/// default language, else `Some((stem, code))`, the name cut at its first `.`.
pub open spec fn spec_name_language(name: Seq<char>, default_language: Seq<char>, multilingual: bool) -> Option<(Seq<char>, Seq<char>)> {
    if !multilingual {
        None
    } else {
        match first_index(name, '.') {
            None => None,
            Some(i) => if name.skip(i + 1) == default_language {
                None
            } else {
                Some((name.take(i), name.skip(i + 1)))
            },
        }
    }
}

/// The end of the message for a language code missing from the configuration.
pub open spec fn spec_unknown_language_tail(code: Seq<char>) -> Seq<char> {
    " has a language code of "@ + code + " which isn't present in the config.toml `languages`"@
}

/// What `FileInfo::find_language` does to `before`, giving `after` and the result `r`: the
/// default language leaves the file as it is; a language code other than the default one must
/// be one of `codes`, and is then cut from the name and from the canonical path.
pub open spec fn spec_found_language(before: FileInfo, after: FileInfo, r: Result<String, Error>, default_language: Seq<char>, codes: Seq<String>) -> bool {
    match spec_name_language(before.name@, default_language, codes.len() > 0) {
        None => r is Ok && r->Ok_0@ == default_language && after == before,
        Some((stem, code)) => if strings_view(codes).contains(code) {
            &&& r is Ok && r->Ok_0@ == code
            &&& after.name@ == stem
            &&& after.canonical@ == spec_path_join(spec_path_parent(before.path@).unwrap(), stem)
            &&& after.path == before.path
            &&& after.filename == before.filename
            &&& after.relative == before.relative
            &&& after.parent == before.parent
            &&& after.grand_parent == before.grand_parent
            &&& after.components == before.components
        } else {
            &&& r is Err && after == before
            &&& exists|path_text: Seq<char>| r->Err_0.message@ == "File "@ + path_text + spec_unknown_language_tail(code)
        },
    }
}

impl FileInfo {
    /// The file information of a page, or `None` when `path` lacks what a page path needs
    /// (see `spec_page_path_ok`).
    pub fn try_new_page(path: &str, base_path: &str) -> (r: Option<FileInfo>)
        ensures
            r is Some == spec_page_path_ok(path@, base_path@),
            r matches Some(f) ==> spec_page_info(f, path@, base_path@),
    {
        let parent = match path_parent(path) { Some(p) => p, None => { return None; } };
        let name = match path_file_stem(path) { Some(n) => n, None => { return None; } };
        if path_file_name(path).is_none() {
            return None;
        }
        let under = match path_strip_prefix(path, base_path) {
            Some(p) => p,
            None => String::from_str(path),
        };
        if path_parent(under.as_str()).is_none() {
            return None;
        }
        let components = find_content_components(under.as_str());
        if components.len() > 0 && str_eq(prefix_before(name.as_str(), '.').as_str(), "index") {
            if path_parent(parent.as_str()).is_none() {
                return None;
            }
        }
        Some(FileInfo::new_page(path, base_path))
    }

    /// The file information of a section, or `None` when `path` lacks what a section path
    /// needs (see `spec_section_path_ok`).
    pub fn try_new_section(path: &str, base_path: &str) -> (r: Option<FileInfo>)
        ensures
            r is Some == spec_section_path_ok(path@, base_path@),
            r matches Some(f) ==> spec_section_info(f, path@, base_path@),
    {
        if path_parent(path).is_none() || path_file_stem(path).is_none() || path_file_name(path).is_none() {
            return None;
        }
        let under = match path_strip_prefix(path, base_path) {
            Some(p) => p,
            None => String::from_str(path),
        };
        if path_parent(under.as_str()).is_none() {
            return None;
        }
        Some(FileInfo::new_section(path, base_path))
    }

    /// Look for a language in the filename, given the site's default language and the codes
    /// of its other languages. If a language has been found, update the name of the file in
    /// this struct to remove it and return the language code.
    pub fn find_language(&mut self, default_language: &str, languages_codes: &Vec<String>) -> (r: Result<String, Error>)
        requires
            spec_name_language(old(self).name@, default_language@, languages_codes@.len() > 0) is Some
                ==> spec_path_parent(old(self).path@) is Some,
        ensures
            spec_found_language(*old(self), *final(self), r, default_language@, languages_codes@),
    {
        // No languages? Nothing to do
        if languages_codes.len() == 0 {
            return Ok(String::from_str(default_language));
        }
        let (stem, code) = match split_once_char(self.name.as_str(), '.') {
            Some(parts) => parts,
            None => {
                return Ok(String::from_str(default_language));
            },
        };
        // If language code is same as default language, go for default
        if str_eq(code.as_str(), default_language) {
            return Ok(String::from_str(default_language));
        }
        // The language code is not present in the config: typo or the user forgot to add it
        if !contains_str(languages_codes, code.as_str()) {
            let path_text = debug_text(&self.path);
            let mut m = String::from_str("File ");
            m.append(path_text.as_str());
            m.append(" has a language code of ");
            m.append(code.as_str());
            m.append(" which isn't present in the config.toml `languages`");
            assert(m@ == "File "@ + path_text@ + spec_unknown_language_tail(code@));
            return Err(Error { message: m });
        }
        let parent = match path_parent(self.path.as_str()) { Some(p) => p, None => String::new() };
        self.canonical = path_join(parent.as_str(), stem.as_str());
        self.name = stem;
        Ok(code)
    }

    /// `find_language`, or `None`, leaving the file as it is, when a language code would be
    /// cut from the name of a file whose path has no parent to join the name to.
    pub fn try_find_language(&mut self, default_language: &str, languages_codes: &Vec<String>) -> (r: Option<Result<String, Error>>)
        ensures
            r is None == (spec_name_language(old(self).name@, default_language@, languages_codes@.len() > 0) is Some
                && spec_path_parent(old(self).path@) is None),
            r is None ==> *final(self) == *old(self),
            r matches Some(res) ==> spec_found_language(*old(self), *final(self), res, default_language@, languages_codes@),
    {
        if path_parent(self.path.as_str()).is_none() && languages_codes.len() > 0 {
            match split_once_char(self.name.as_str(), '.') {
                Some((_, code)) => {
                    if !str_eq(code.as_str(), default_language) {
                        return None;
                    }
                },
                None => {},
            }
        }
        Some(self.find_language(default_language, languages_codes))
    }
}

/// `components/name.md`, or `name.md` without components.
fn relative_path(components: &Vec<String>, name: &str) -> (r: String)
    ensures
        r@ == spec_relative(strings_view(components@), name@),
{
    let mut r = if components.len() > 0 {
        let mut j = join(components, "/");
        j.append("/");
        j
    } else {
        String::new()
    };
    r.append(name);
    r.append(".md");
    r
}

} // verus!
