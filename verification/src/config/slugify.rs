use vstd::prelude::*;

verus! {

/// How strings are turned into URL parts.
#[derive(Debug, Clone, Copy, PartialEq, Eq, Structural)]
pub enum SlugifyStrategy {
    /// Classic slugification, the default.
    On,
    /// No slugification, only remove characters that are not allowed in file paths.
    Safe,
    /// Nothing is changed, hope for the best!
    Off,
}

impl Default for SlugifyStrategy {
    fn default() -> (s: SlugifyStrategy)
        ensures
            s == SlugifyStrategy::On,
    {
        SlugifyStrategy::On
    }
}

/// Which slugification strategy is used for paths, taxonomies and anchors.
#[derive(Debug, Clone, Copy, PartialEq, Eq, Structural)]
pub struct Slugify {
    pub paths: SlugifyStrategy,
    pub paths_keep_dates: bool,
    pub taxonomies: SlugifyStrategy,
    pub anchors: SlugifyStrategy,
}

impl Default for Slugify {
    fn default() -> (s: Slugify)
        ensures
            s == (Slugify {
                paths: SlugifyStrategy::On,
                paths_keep_dates: false,
                taxonomies: SlugifyStrategy::On,
                anchors: SlugifyStrategy::On,
            }),
    {
        Slugify {
            paths: SlugifyStrategy::default(),
            paths_keep_dates: false,
            taxonomies: SlugifyStrategy::default(),
            anchors: SlugifyStrategy::default(),
        }
    }
}

} // verus!
