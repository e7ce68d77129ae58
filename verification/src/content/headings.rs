use vstd::prelude::*;

use crate::text::str_eq;

verus! {

/// A heading of a page's table of contents, with the headings nested under it.
#[derive(Debug)]
pub struct Heading {
    pub level: u32,
    pub id: String,
    pub permalink: String,
    pub title: String,
    pub children: Vec<Heading>,
}

/// Whether `h` or a heading nested under it has the id `anchor`.
pub open spec fn heading_has_anchor(h: Heading, anchor: Seq<char>) -> bool
    decreases h, 0int,
{
    h.id@ == anchor || headings_have_anchor(h.children@, anchor)
}

/// Whether one of `hs`, or a heading nested under one of them, has the id `anchor`.
pub open spec fn headings_have_anchor(hs: Seq<Heading>, anchor: Seq<char>) -> bool
    decreases hs, hs.len(),
{
    if hs.len() == 0 {
        false
    } else {
        heading_has_anchor(hs[0], anchor) || headings_have_anchor(hs.drop_first(), anchor)
    }
}

/// Whether the id `anchor` occurs anywhere in the tree of headings.
pub fn has_anchor(headings: &[Heading], anchor: &str) -> (b: bool)
    ensures
        b == headings_have_anchor(headings@, anchor@),
    decreases headings@,
{
    let mut i: usize = 0;
    assert(headings@.skip(0) =~= headings@);
    while i < headings.len()
        invariant
            i <= headings@.len(),
            headings_have_anchor(headings@, anchor@) == headings_have_anchor(headings@.skip(i as int), anchor@),
        decreases headings.len() - i,
    {
        let heading = &headings[i];
        proof {
            let rest = headings@.skip(i as int);
            assert(rest[0] == headings@[i as int]);
            assert(rest.drop_first() =~= headings@.skip(i + 1));
            assert(headings_have_anchor(rest, anchor@) == (heading_has_anchor(rest[0], anchor@)
                || headings_have_anchor(rest.drop_first(), anchor@)));
            assert(heading_has_anchor(rest[0], anchor@) == (rest[0].id@ == anchor@
                || headings_have_anchor(rest[0].children@, anchor@)));
        }
        if str_eq(heading.id.as_str(), anchor) {
            return true;
        }
        let children = heading.children.as_slice();
        assert(children@ == heading.children@);
        if has_anchor(children, anchor) {
            return true;
        }
        i += 1;
    }
    false
}

} // verus!
