use vstd::prelude::*;

verus! {

/// Definition of one taxonomy in `config.toml`.
#[derive(Debug)]
pub struct TaxonomyConfig {
    /// The name used in the URL, usually the plural
    pub name: String,
    /// The slug according to the config slugification strategy
    pub slug: String,
    /// If this is set, the list of individual taxonomy term page will be paginated by this much
    pub paginate_by: Option<usize>,
    pub paginate_path: Option<String>,
    /// Whether the taxonomy will be rendered, defaults to `true`
    pub render: bool,
    /// Whether to generate a feed only for each taxonomy term, defaults to `false`
    pub feed: bool,
}

impl Clone for TaxonomyConfig {
    fn clone(&self) -> (c: TaxonomyConfig)
        ensures
            c == *self,
    {
        TaxonomyConfig {
            name: self.name.clone(),
            slug: self.slug.clone(),
            paginate_by: self.paginate_by,
            paginate_path: self.paginate_path.clone(),
            render: self.render,
            feed: self.feed,
        }
    }
}

impl Default for TaxonomyConfig {
    fn default() -> (t: TaxonomyConfig)
        ensures
            t.name@ == Seq::<char>::empty(),
            t.slug@ == Seq::<char>::empty(),
            t.paginate_by is None,
            t.paginate_path is None,
            t.render,
            !t.feed,
    {
        TaxonomyConfig {
            name: String::new(),
            slug: String::new(),
            paginate_by: None,
            paginate_path: None,
            render: true,
            feed: false,
        }
    }
}

/// A taxonomy is paginated when it has a positive `paginate_by`.
pub open spec fn spec_is_paginated(paginate_by: Option<usize>) -> bool {
    match paginate_by {
        Some(n) => n > 0,
        None => false,
    }
}

/// The path segment used for pagination, `page` unless configured.
pub open spec fn spec_paginate_path(paginate_path: Option<Seq<char>>) -> Seq<char> {
    match paginate_path {
        Some(p) => p,
        None => "page"@,
    }
}

impl TaxonomyConfig {
    pub fn is_paginated(&self) -> (b: bool)
        ensures
            b == spec_is_paginated(self.paginate_by),
    {
        match self.paginate_by {
            Some(paginate_by) => paginate_by > 0,
            None => false,
        }
    }

    pub fn paginate_path(&self) -> (p: &str)
        ensures
            p@ == spec_paginate_path(
                match self.paginate_path {
                    Some(s) => Some(s@),
                    None => None,
                },
            ),
    {
        match &self.paginate_path {
            Some(p) => p.as_str(),
            None => "page",
        }
    }
}

} // verus!
