//! Front matter of a translated page inherited from the page in the default language.
use vstd::prelude::*;

use crate::config::merge::{
    clone_entries, clone_value, entries_view, find_key, find_key_exec, lemma_entries_view_len,
    lemma_entries_view_push, lemma_entries_view_update, lemma_find_key_found, lemma_find_key_present,
    lemma_find_key_push, toml_view, TomlValue, TomlView,
};
use crate::error::Error;
use crate::text::str_eq;

verus! {

/// Front-matter keys never inherited from the default-language page.
pub open spec fn spec_never_inherited(k: Seq<char>) -> bool {
    k == "slug"@ || k == "path"@ || k == "aliases"@
}

/// Whether `k` is one of the keys never inherited.
fn is_never_inherited(k: &str) -> (b: bool)
    ensures
        b == spec_never_inherited(k@),
{
    str_eq(k, "slug") || str_eq(k, "path") || str_eq(k, "aliases")
}

/// The entries of `es` whose key may be inherited, in their order.
pub open spec fn inheritable(es: Seq<(Seq<char>, TomlView)>) -> Seq<(Seq<char>, TomlView)>
    decreases es.len(),
{
    if es.len() == 0 {
        Seq::empty()
    } else {
        let r = inheritable(es.drop_last());
        if spec_never_inherited(es.last().0) {
            r
        } else {
            r.push(es.last())
        }
    }
}

/// Overlaying `overlay` on `base`: two tables are merged key by key, recursively, the overlay
/// winning; anything else is replaced wholly by the overlay.
pub open spec fn overlay_views(base: TomlView, overlay: TomlView) -> TomlView
    decreases overlay, 0int,
{
    match (base, overlay) {
        (TomlView::Table(a), TomlView::Table(b)) => TomlView::Table(overlay_entries(a, b)),
        _ => overlay,
    }
}

/// Overlays the entries `b` on the entries `a`, in the order of `b`: a key of `a` keeps its
/// place with the overlaid value, a new key is added at the end.
pub open spec fn overlay_entries(a: Seq<(Seq<char>, TomlView)>, b: Seq<(Seq<char>, TomlView)>) -> Seq<(Seq<char>, TomlView)>
    decreases b, b.len(),
{
    if b.len() == 0 {
        a
    } else {
        let k = b[0].0;
        match find_key(a, k) {
            None => overlay_entries(a.push(b[0]), b.drop_first()),
            Some(i) => overlay_entries(a.update(i, (k, overlay_views(a[i].1, b[0].1))), b.drop_first()),
        }
    }
}

/// Whether no two entries of a table have the same key, as in a map.
pub open spec fn distinct_keys(es: Seq<(Seq<char>, TomlView)>) -> bool {
    forall|i: int, j: int| 0 <= i < j < es.len() ==> es[i].0 != es[j].0
}

/// Replacing the value of an entry keeps where every key is first found.
proof fn lemma_find_key_update(a: Seq<(Seq<char>, TomlView)>, i: int, v: TomlView, k: Seq<char>)
    requires
        0 <= i < a.len(),
    ensures
        find_key(a.update(i, (a[i].0, v)), k) == find_key(a, k),
    decreases a.len(),
{
    let u = a.update(i, (a[i].0, v));
    if i < a.len() - 1 {
        assert(u.drop_last() =~= a.drop_last().update(i, (a[i].0, v)));
        lemma_find_key_update(a.drop_last(), i, v, k);
    } else {
        assert(u.drop_last() =~= a.drop_last());
    }
}

/// A key absent from the table is not found.
proof fn lemma_find_key_absent(a: Seq<(Seq<char>, TomlView)>, k: Seq<char>)
    requires
        forall|j: int| 0 <= j < a.len() ==> a[j].0 != k,
    ensures
        find_key(a, k) is None,
    decreases a.len(),
{
    if a.len() > 0 {
        lemma_find_key_absent(a.drop_last(), k);
    }
}

/// Overlaying keeps what the overlay does not name, at its place, and puts every value of the
/// overlay that is not a table at the place of its key.
proof fn lemma_overlay_entries(a: Seq<(Seq<char>, TomlView)>, b: Seq<(Seq<char>, TomlView)>)
    ensures
        overlay_entries(a, b).len() >= a.len(),
        forall|k: Seq<char>| #[trigger] find_key(b, k) is None ==> {
            let r = overlay_entries(a, b);
            &&& find_key(r, k) == find_key(a, k)
            &&& (find_key(a, k) matches Some(i) ==> r[i] == a[i])
        },
        distinct_keys(b) ==> forall|j: int| 0 <= j < b.len() && (#[trigger] b[j]).1 is Leaf ==> {
            let r = overlay_entries(a, b);
            find_key(r, b[j].0) matches Some(i) && 0 <= i < r.len() && r[i] == b[j]
        },
    decreases b.len(),
{
    if b.len() > 0 {
        let e = b[0];
        let k0 = e.0;
        let rest = b.drop_first();
        let r = overlay_entries(a, b);
        assert(distinct_keys(b) ==> distinct_keys(rest)) by {
            if distinct_keys(b) {
                assert forall|i: int, j: int| 0 <= i < j < rest.len() implies rest[i].0 != rest[j].0 by {
                    assert(rest[i] == b[i + 1] && rest[j] == b[j + 1]);
                }
            }
        }
        assert forall|k: Seq<char>| #[trigger] find_key(b, k) is None implies k != k0 && find_key(rest, k) is None by {
            lemma_find_key_present(b, k0, 0);
            if find_key(rest, k) is Some {
                lemma_find_key_found(rest, k);
                let j = find_key(rest, k).unwrap();
                assert(b[j + 1] == rest[j]);
                lemma_find_key_present(b, k, j + 1);
            }
        }
        assert(distinct_keys(b) ==> find_key(rest, k0) is None) by {
            if distinct_keys(b) {
                assert forall|j: int| 0 <= j < rest.len() implies rest[j].0 != k0 by {
                    assert(rest[j] == b[j + 1]);
                }
                lemma_find_key_absent(rest, k0);
            }
        }
        lemma_find_key_found(a, k0);
        match find_key(a, k0) {
            None => {
                let a2 = a.push(e);
                lemma_overlay_entries(a2, rest);
                assert forall|k: Seq<char>| #[trigger] find_key(b, k) is None implies {
                    &&& find_key(r, k) == find_key(a, k)
                    &&& (find_key(a, k) matches Some(i) ==> r[i] == a[i])
                } by {
                    assert(find_key(rest, k) is None);
                    lemma_find_key_push(a, e, k);
                    lemma_find_key_found(a, k);
                }
                if distinct_keys(b) {
                    assert forall|j: int| 0 <= j < b.len() && (#[trigger] b[j]).1 is Leaf implies
                        find_key(r, b[j].0) matches Some(i) && 0 <= i < r.len() && r[i] == b[j] by {
                        if j == 0 {
                            lemma_find_key_push(a, e, k0);
                            assert(a2[a.len() as int] == e);
                        } else {
                            assert(b[j] == rest[j - 1]);
                        }
                    }
                }
            },
            Some(i) => {
                let a2 = a.update(i, (k0, overlay_views(a[i].1, e.1)));
                lemma_overlay_entries(a2, rest);
                assert forall|k: Seq<char>| #[trigger] find_key(b, k) is None implies {
                    &&& find_key(r, k) == find_key(a, k)
                    &&& (find_key(a, k) matches Some(i2) ==> r[i2] == a[i2])
                } by {
                    assert(find_key(rest, k) is None);
                    lemma_find_key_update(a, i, overlay_views(a[i].1, e.1), k);
                    lemma_find_key_found(a, k);
                }
                if distinct_keys(b) {
                    assert forall|j: int| 0 <= j < b.len() && (#[trigger] b[j]).1 is Leaf implies
                        find_key(r, b[j].0) matches Some(i2) && 0 <= i2 < r.len() && r[i2] == b[j] by {
                        if j == 0 {
                            lemma_find_key_update(a, i, overlay_views(a[i].1, e.1), k0);
                            assert(a2[i] == e);
                        } else {
                            assert(b[j] == rest[j - 1]);
                        }
                    }
                }
            },
        }
    }
}

/// What a translation inherits: the inheritable entries of the default front matter with the
/// translation overlaid; `None` when either front matter is not a table.
pub open spec fn spec_inherited(default: TomlView, translated: TomlView) -> Option<TomlView> {
    match (default, translated) {
        (TomlView::Table(a), TomlView::Table(b)) => Some(TomlView::Table(overlay_entries(inheritable(a), b))),
        _ => None,
    }
}

/// Leaving out the keys never inherited keeps the first value of every other key.
proof fn lemma_inheritable(es: Seq<(Seq<char>, TomlView)>, k: Seq<char>)
    ensures
        spec_never_inherited(k) ==> find_key(inheritable(es), k) is None,
        !spec_never_inherited(k) ==> (find_key(inheritable(es), k) is Some == find_key(es, k) is Some),
        !spec_never_inherited(k) ==> (find_key(es, k) matches Some(i) ==> (find_key(inheritable(es), k)
            matches Some(j) && 0 <= j < inheritable(es).len() && 0 <= i < es.len()
            && inheritable(es)[j].1 == es[i].1)),
    decreases es.len(),
{
    lemma_find_key_found(es, k);
    if es.len() > 0 {
        let init = es.drop_last();
        lemma_inheritable(init, k);
        lemma_find_key_found(init, k);
        lemma_find_key_found(inheritable(es), k);
        lemma_find_key_found(inheritable(init), k);
        if !spec_never_inherited(es.last().0) {
            lemma_find_key_push(inheritable(init), es.last(), k);
        }
    }
}

/// A translated page keeps every value it sets that is not a table, and inherits from the
/// default-language page the value of every key it lacks, except `slug`, `path` and
/// `aliases`, which it never inherits.
pub proof fn lemma_translation_wins_and_inherits(default: TomlView, translated: TomlView, k: Seq<char>)
    requires
        default is Table,
        translated is Table,
        distinct_keys(translated->Table_0),
    ensures
        spec_inherited(default, translated) is Some,
        ({
            let a = default->Table_0;
            let b = translated->Table_0;
            let r = spec_inherited(default, translated).unwrap()->Table_0;
            &&& forall|j: int| 0 <= j < b.len() && (#[trigger] b[j]).1 is Leaf ==>
                    (find_key(r, b[j].0) matches Some(i) && 0 <= i < r.len() && r[i] == b[j])
            &&& (find_key(b, k) is None && !spec_never_inherited(k)) ==> {
                    &&& (find_key(r, k) is Some == find_key(a, k) is Some)
                    &&& (find_key(a, k) matches Some(i) ==> (find_key(r, k) matches Some(j)
                        && 0 <= i < a.len() && 0 <= j < r.len() && r[j].1 == a[i].1))
                }
            &&& (find_key(b, k) is None && spec_never_inherited(k)) ==> find_key(r, k) is None
        }),
{
    let a = default->Table_0;
    let b = translated->Table_0;
    lemma_overlay_entries(inheritable(a), b);
    lemma_inheritable(a, k);
    lemma_find_key_found(inheritable(a), k);
}

/// Overlays `overlay` on `base`.
pub fn overlay_value(base: &TomlValue, overlay: &TomlValue) -> (r: TomlValue)
    ensures
        toml_view(r) == overlay_views(toml_view(*base), toml_view(*overlay)),
    decreases overlay, 0int,
{
    match (base, overlay) {
        (TomlValue::Table(a), TomlValue::Table(b)) => TomlValue::Table(merge_maps(a, b)),
        _ => clone_value(overlay),
    }
}

/// Recursive table merge: `overlay` wins; arrays and scalars replace wholly.
pub fn merge_maps(base: &Vec<(String, TomlValue)>, overlay: &Vec<(String, TomlValue)>) -> (r: Vec<(String, TomlValue)>)
    ensures
        entries_view(r@) == overlay_entries(entries_view(base@), entries_view(overlay@)),
    decreases overlay@, overlay@.len(),
{
    let mut merged = clone_entries(base);
    let ghost a0 = entries_view(base@);
    let ghost bv = entries_view(overlay@);
    proof {
        lemma_entries_view_len(overlay@);
        assert(bv.skip(0) =~= bv);
    }
    let mut i: usize = 0;
    while i < overlay.len()
        invariant
            bv == entries_view(overlay@),
            a0 == entries_view(base@),
            bv.len() == overlay@.len(),
            forall|n: int| 0 <= n < overlay@.len() ==> #[trigger] bv[n] == (overlay@[n].0@, toml_view(overlay@[n].1)),
            i <= overlay@.len(),
            overlay_entries(a0, bv) == overlay_entries(entries_view(merged@), bv.skip(i as int)),
        decreases overlay.len() - i,
    {
        let (k, v) = &overlay[i];
        proof {
            assert(decreases_to!(overlay@ => overlay@[i as int]));
            assert(decreases_to!(overlay@[i as int] => overlay@[i as int].1));
            assert(bv.skip(i as int)[0] == bv[i as int]);
            assert(bv.skip(i as int).drop_first() =~= bv.skip(i + 1));
        }
        match find_key_exec(&merged, k.as_str()) {
            None => {
                let c = clone_value(v);
                let key = k.clone();
                let ghost before = merged@;
                let ghost entry = (key, c);
                merged.push((key, c));
                proof {
                    lemma_entries_view_push(before, entry);
                }
            },
            Some(j) => {
                let ghost before = merged@;
                proof {
                    lemma_find_key_found(entries_view(before), k@);
                    lemma_entries_view_len(before);
                }
                let nv = overlay_value(&merged[j].1, v);
                let key = k.clone();
                let ghost entry = (key, nv);
                merged.set(j, (key, nv));
                proof {
                    lemma_entries_view_update(before, j as int, entry);
                    let cur = entries_view(before);
                    assert(cur[j as int].1 == toml_view(before[j as int].1));
                }
            },
        }
        i += 1;
    }
    proof {
        assert(bv.skip(i as int) =~= Seq::<(Seq<char>, TomlView)>::empty());
    }
    merged
}

/// The entries of a table whose key may be inherited.
fn inheritable_entries(es: &Vec<(String, TomlValue)>) -> (r: Vec<(String, TomlValue)>)
    ensures
        entries_view(r@) == inheritable(entries_view(es@)),
{
    let mut out: Vec<(String, TomlValue)> = Vec::new();
    let mut i: usize = 0;
    proof {
        lemma_entries_view_len(es@);
    }
    while i < es.len()
        invariant
            i <= es@.len(),
            entries_view(es@).len() == es@.len(),
            forall|n: int| 0 <= n < es@.len() ==> #[trigger] entries_view(es@)[n] == (es@[n].0@, toml_view(es@[n].1)),
            entries_view(out@) == inheritable(entries_view(es@).take(i as int)),
        decreases es.len() - i,
    {
        let (k, v) = &es[i];
        proof {
            assert(entries_view(es@).take(i + 1).drop_last() =~= entries_view(es@).take(i as int));
        }
        if !is_never_inherited(k.as_str()) {
            let c = clone_value(v);
            let key = k.clone();
            let ghost before = out@;
            let ghost entry = (key, c);
            out.push((key, c));
            proof {
                lemma_entries_view_push(before, entry);
            }
        }
        i += 1;
    }
    assert(entries_view(es@).take(es@.len() as int) =~= entries_view(es@));
    out
}

/// Merges the translation's front matter over the default-language one: what the translation
/// lacks is inherited, except `slug`, `path` and `aliases`; tables merge recursively. Both
/// front matters must be tables.
pub fn merge_inherited_tables(default: &TomlValue, translated: &TomlValue) -> (r: Result<TomlValue, Error>)
    ensures
        match spec_inherited(toml_view(*default), toml_view(*translated)) {
            Some(v) => r is Ok && toml_view(r->Ok_0) == v,
            None => r is Err && r->Err_0.message@ == "Front matter is not a table"@,
        },
{
    match (default, translated) {
        (TomlValue::Table(a), TomlValue::Table(b)) => {
            let base = inheritable_entries(a);
            Ok(TomlValue::Table(merge_maps(&base, b)))
        },
        _ => Err(Error { message: String::from_str("Front matter is not a table") }),
    }
}

} // verus!
