use vstd::prelude::*;

verus! {

/// Format of the search index that is produced.
#[derive(Clone, Copy, Debug, PartialEq, Eq, Structural)]
pub enum IndexFormat {
    ElasticlunrJson,
    ElasticlunrJavascript,
    FuseJson,
    FuseJavascript,
}

impl Default for IndexFormat {
    fn default() -> (f: IndexFormat)
        ensures
            f == IndexFormat::ElasticlunrJavascript,
    {
        IndexFormat::ElasticlunrJavascript
    }
}

/// File extension used for an index format: JavaScript formats are `js`, JSON formats `json`.
pub open spec fn spec_index_extension(f: IndexFormat) -> Seq<char> {
    match f {
        IndexFormat::ElasticlunrJavascript | IndexFormat::FuseJavascript => "js"@,
        IndexFormat::ElasticlunrJson | IndexFormat::FuseJson => "json"@,
    }
}

/// `search_index.<lang>.<extension>`
pub open spec fn spec_index_filename(f: IndexFormat, lang: Seq<char>) -> Seq<char> {
    "search_index."@ + lang + "."@ + spec_index_extension(f)
}

impl IndexFormat {
    /// File extension which ought to be used for this index format.
    fn extension(&self) -> (ext: &'static str)
        ensures
            ext@ == spec_index_extension(*self),
    {
        match *self {
            IndexFormat::ElasticlunrJavascript | IndexFormat::FuseJavascript => "js",
            IndexFormat::ElasticlunrJson | IndexFormat::FuseJson => "json",
        }
    }

    /// The filename which ought to be used for this format and language `lang`.
    pub fn filename(&self, lang: &str) -> (name: String)
        ensures
            name@ == spec_index_filename(*self, lang@),
    {
        let mut name = String::from_str("search_index.");
        name.append(lang);
        name.append(".");
        name.append(self.extension());
        name
    }
}

/// What goes into the search index.
#[derive(Clone, Copy, Debug, PartialEq, Eq, Structural)]
pub struct Search {
    /// Include the title of the page in the search index. `true` by default.
    pub include_title: bool,
    /// Includes the whole content in the search index. `true` by default.
    pub include_content: bool,
    /// Optionally truncate the content down to `n` code points.
    pub truncate_content_length: Option<usize>,
    /// Includes the description in the search index. `false` by default.
    pub include_description: bool,
    /// Include the RFC3339 datetime of the page in the search index. `false` by default.
    pub include_date: bool,
    /// Include the path of the page in the search index. `false` by default.
    pub include_path: bool,
    /// Format of the search index to be produced. `elasticlunr_javascript` by default.
    pub index_format: IndexFormat,
}

/// The search settings used when none are configured.
pub open spec fn spec_default_search() -> Search {
    Search {
        include_title: true,
        include_content: true,
        truncate_content_length: None,
        include_description: false,
        include_date: false,
        include_path: false,
        index_format: IndexFormat::ElasticlunrJavascript,
    }
}

impl Default for Search {
    fn default() -> (s: Search)
        ensures
            s == spec_default_search(),
    {
        Search {
            include_title: true,
            include_content: true,
            include_description: false,
            include_path: false,
            include_date: false,
            truncate_content_length: None,
            index_format: IndexFormat::default(),
        }
    }
}

/// The part of the search settings handed to templates.
pub struct SerializedSearch<'a> {
    pub index_format: &'a IndexFormat,
}

impl Search {
    pub fn serialize(&self) -> (s: SerializedSearch<'_>)
        ensures
            *s.index_format == self.index_format,
    {
        SerializedSearch { index_format: &self.index_format }
    }
}

} // verus!
