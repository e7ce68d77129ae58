use vstd::prelude::*;

use crate::config::slugify::SlugifyStrategy;
use crate::text::{chars_of, push_char};

verus! {

/// The characters of `s` that do not occur in `chars`, in order.
pub open spec fn spec_strip_chars(s: Seq<char>, chars: Seq<char>) -> Seq<char>
    decreases s.len(),
{
    if s.len() == 0 {
        s
    } else {
        let rest = spec_strip_chars(s.drop_last(), chars);
        if chars.contains(s.last()) {
            rest
        } else {
            rest.push(s.last())
        }
    }
}

/// Characters that NTFS forbids in file names, plus the newline.
pub open spec fn forbidden_path_chars() -> Seq<char> {
    seq!['<', '>', ':', '/', '|', '?', '*', '#', '\n', '"', '\\']
}

/// Whether `ch` is one of `c`.
fn contains_char(c: &Vec<char>, ch: char) -> (b: bool)
    ensures
        b == c@.contains(ch),
{
    let mut j: usize = 0;
    while j < c.len()
        invariant
            j <= c@.len(),
            forall|k: int| 0 <= k < j ==> c@[k] != ch,
        decreases c.len() - j,
    {
        if c[j] == ch {
            return true;
        }
        j += 1;
    }
    false
}

/// Removes from `s` every character that occurs in `chars`.
pub fn strip_chars(s: &str, chars: &str) -> (r: String)
    ensures
        r@ == spec_strip_chars(s@, chars@),
{
    let v = chars_of(s);
    let c = chars_of(chars);
    let mut out = String::new();
    let mut i: usize = 0;
    while i < v.len()
        invariant
            v@ == s@,
            c@ == chars@,
            i <= v@.len(),
            out@ == spec_strip_chars(v@.take(i as int), chars@),
        decreases v.len() - i,
    {
        let ch = v[i];
        proof {
            assert(v@.take(i + 1).drop_last() =~= v@.take(i as int));
            assert(v@.take(i + 1).last() == ch);
        }
        if !contains_char(&c, ch) {
            push_char(&mut out, ch);
        }
        i += 1;
    }
    assert(v@.take(v@.len() as int) =~= v@);
    out
}

/// Removes the characters that cannot appear in a file name on common file systems.
pub fn quasi_slugify(s: &str) -> (r: String)
    ensures
        r@ == spec_strip_chars(s@, forbidden_path_chars()),
{
    let forbidden = "<>:/|?*#\n\"\\";
    proof {
        reveal_strlit("<>:/|?*#\n\"\\");
        assert(forbidden@ =~= forbidden_path_chars());
    }
    strip_chars(s, forbidden)
}

/// The slug that the `slug` crate makes of `s`: lower case ASCII letters and digits, words
/// joined by `-`, other characters transliterated or dropped.
pub uninterp spec fn spec_slugify(s: Seq<char>) -> Seq<char>;

/// Calls `slug::slugify`; its result is named by `spec_slugify`.
#[verifier::external_body]
pub fn slugify(s: &str) -> (r: String)
    ensures
        r@ == spec_slugify(s@),
{
    slug::slugify(s)
}

/// What a path part becomes under a slugification strategy: a full slug (`On`), the text
/// without the characters forbidden in file names (`Safe`), or the text as it is (`Off`).
pub open spec fn spec_slugify_paths(s: Seq<char>, strategy: SlugifyStrategy) -> Seq<char> {
    match strategy {
        SlugifyStrategy::On => spec_slugify(s),
        SlugifyStrategy::Safe => spec_strip_chars(s, forbidden_path_chars()),
        SlugifyStrategy::Off => s,
    }
}

/// Turns `s` into a path part under `strategy` (see `spec_slugify_paths`).
pub fn slugify_paths(s: &str, strategy: SlugifyStrategy) -> (r: String)
    ensures
        r@ == spec_slugify_paths(s@, strategy),
{
    match strategy {
        SlugifyStrategy::On => slugify(s),
        SlugifyStrategy::Safe => quasi_slugify(s),
        SlugifyStrategy::Off => String::from_str(s),
    }
}

/// A full slug when `enabled`, otherwise only the characters forbidden in file names removed.
pub fn maybe_slugify(s: &str, enabled: bool) -> (r: String)
    ensures
        r@ == if enabled { spec_slugify(s@) } else { spec_strip_chars(s@, forbidden_path_chars()) },
{
    if enabled {
        return slugify(s);
    }
    quasi_slugify(s)
}

/// Stripping characters keeps exactly the other characters, in order (it is the filter of the
/// characters not in `chars`, so as many are left as `s` holds of them), leaves none of
/// `chars`, never lengthens the text, and doing it a second time changes nothing.
pub proof fn lemma_strip_chars(s: Seq<char>, chars: Seq<char>)
    ensures
        spec_strip_chars(s, chars) == s.filter(|c: char| !chars.contains(c)),
        forall|i: int| 0 <= i < spec_strip_chars(s, chars).len() ==> !chars.contains(#[trigger] spec_strip_chars(s, chars)[i]),
        forall|c: char| spec_strip_chars(s, chars).contains(c) <==> (s.contains(c) && !chars.contains(c)),
        spec_strip_chars(spec_strip_chars(s, chars), chars) == spec_strip_chars(s, chars),
        spec_strip_chars(s, chars).len() <= s.len(),
    decreases s.len(),
{
    reveal_with_fuel(Seq::filter, 1);
    if s.len() > 0 {
        let t = s.drop_last();
        let x = s.last();
        let r = spec_strip_chars(t, chars);
        lemma_strip_chars(t, chars);
        assert forall|c: char| spec_strip_chars(s, chars).contains(c) <==> (s.contains(c) && !chars.contains(c)) by {
            if s.contains(c) {
                let k = choose|k: int| 0 <= k < s.len() && s[k] == c;
                if k < t.len() {
                    assert(t[k] == c);
                }
            }
            if t.contains(c) {
                let k = choose|k: int| 0 <= k < t.len() && t[k] == c;
                assert(s[k] == c);
            }
            if !chars.contains(x) {
                assert(r.push(x)[r.len() as int] == x);
                if r.push(x).contains(c) {
                    let k = choose|k: int| 0 <= k < r.push(x).len() && r.push(x)[k] == c;
                    if k < r.len() {
                        assert(r[k] == c);
                    }
                }
                if r.contains(c) {
                    let k = choose|k: int| 0 <= k < r.len() && r[k] == c;
                    assert(r.push(x)[k] == c);
                }
            }
        }
        if !chars.contains(x) {
            assert(r.push(x).drop_last() =~= r);
            assert forall|i: int| 0 <= i < r.push(x).len() implies !chars.contains(#[trigger] r.push(x)[i]) by {
                if i < r.len() {
                    assert(r.push(x)[i] == r[i]);
                }
            }
        }
    } else {
        assert(s.filter(|c: char| !chars.contains(c)) =~= s);
    }
}

} // verus!
