use vstd::prelude::*;

verus! {

/// A syntax highlighting theme to export as a CSS file.
#[derive(Debug, Clone, PartialEq, Eq)]
pub struct ThemeCss {
    /// Theme used for generating CSS
    pub theme: String,
    /// Filename for CSS
    pub filename: String,
}

impl Default for ThemeCss {
    fn default() -> (t: ThemeCss)
        ensures
            t.theme@ == Seq::<char>::empty(),
            t.filename@ == Seq::<char>::empty(),
    {
        ThemeCss { theme: String::new(), filename: String::new() }
    }
}

} // verus!
