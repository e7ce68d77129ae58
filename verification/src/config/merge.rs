use vstd::prelude::*;

use crate::error::Error;
use crate::text::str_eq;

verus! {

#[verifier::external_type_specification]
#[verifier::external_body]
pub struct ExTomlValue(toml::Value);

/// A TOML value as far as merging sees it: a table of keyed values, or any other value.
#[derive(Debug)]
pub enum TomlValue {
    Table(Vec<(String, TomlValue)>),
    Leaf(toml::Value),
}

/// The text of the keys and the structure of a TOML value.
pub enum TomlView {
    Table(Seq<(Seq<char>, TomlView)>),
    Leaf(toml::Value),
}

/// The view of a TOML value.
pub open spec fn toml_view(v: TomlValue) -> TomlView
    decreases v, 0int,
{
    match v {
        TomlValue::Table(es) => TomlView::Table(entries_view(es@)),
        TomlValue::Leaf(l) => TomlView::Leaf(l),
    }
}

/// The view of the entries of a table.
pub open spec fn entries_view(es: Seq<(String, TomlValue)>) -> Seq<(Seq<char>, TomlView)>
    decreases es, es.len(),
{
    if es.len() == 0 {
        Seq::empty()
    } else {
        entries_view(es.drop_last()).push((es.last().0@, toml_view(es.last().1)))
    }
}

/// The position of the first entry with key `k`.
pub open spec fn find_key(es: Seq<(Seq<char>, TomlView)>, k: Seq<char>) -> Option<int>
    decreases es.len(),
{
    if es.len() == 0 {
        None
    } else {
        match find_key(es.drop_last(), k) {
            Some(i) => Some(i),
            None => if es.last().0 == k { Some(es.len() - 1) } else { None },
        }
    }
}

/// Merging `from` into `into`: tables are merged key by key, the values of `into` winning, and
/// keys missing from `into` are added after its own; two values that are not tables are left
/// as `into` has them; a table and a value that is not a table cannot be merged. The result is
/// the value reached and whether the merge completed: it stops at the first conflict, keeping
/// what was merged before it.
pub open spec fn merge_views(into: TomlView, from: TomlView) -> (TomlView, bool)
    decreases from, 0int,
{
    match (into, from) {
        (TomlView::Table(a), TomlView::Table(b)) => {
            let (es, ok) = merge_entries(a, b);
            (TomlView::Table(es), ok)
        },
        (TomlView::Leaf(_), TomlView::Leaf(_)) => (into, true),
        _ => (into, false),
    }
}

/// Merges the entries `b` into the entries `a`, in the order of `b`.
pub open spec fn merge_entries(a: Seq<(Seq<char>, TomlView)>, b: Seq<(Seq<char>, TomlView)>) -> (Seq<(Seq<char>, TomlView)>, bool)
    decreases b, b.len(),
{
    if b.len() == 0 {
        (a, true)
    } else {
        let k = b[0].0;
        match find_key(a, k) {
            None => merge_entries(a.push(b[0]), b.drop_first()),
            Some(i) => {
                let (m, ok) = merge_views(a[i].1, b[0].1);
                if !ok {
                    (a.update(i, (k, m)), false)
                } else {
                    merge_entries(a.update(i, (k, m)), b.drop_first())
                }
            },
        }
    }
}

/// The start of the message when a table meets a value that is not a table.
pub open spec fn spec_incompatible_prefix() -> Seq<char> {
    "Cannot merge config.toml with theme.toml because the following values have incompatibles types:\n- "@
}

/// Whether `s` begins with `p`.
pub open spec fn begins_with(s: Seq<char>, p: Seq<char>) -> bool {
    p.len() <= s.len() && s.take(p.len() as int) == p
}

/// A copy of a TOML value: `toml::Value` derives `Clone`, which copies it field by field.
#[verifier::external_body]
fn clone_leaf(v: &toml::Value) -> (r: toml::Value)
    ensures
        r == *v,
{
    v.clone()
}

/// The TOML text of a value, as `toml::Value`'s `Display` prints it.
pub uninterp spec fn spec_toml_text(v: toml::Value) -> Seq<char>;

/// Calls `Display` of `toml::Value`, which serializes the value as TOML; the text, a function
/// of the value alone, is named by `spec_toml_text`.
#[verifier::external_body]
fn leaf_text(v: &toml::Value) -> (r: String)
    ensures
        r@ == spec_toml_text(*v),
{
    v.to_string()
}

/// The text of a TOML value in an error message: a value that is not a table as TOML prints
/// it; a table inline as `{ key = value, ... }`, and `{}` when it is empty.
pub open spec fn spec_render(v: TomlView) -> Seq<char>
    decreases v, 0int,
{
    match v {
        TomlView::Leaf(l) => spec_toml_text(l),
        TomlView::Table(es) => "{"@ + spec_render_entries(es) + (if es.len() > 0 { " "@ } else { ""@ }) + "}"@,
    }
}

/// The entries of a table as an error message shows them: ` key = value`, separated by commas.
pub open spec fn spec_render_entries(es: Seq<(Seq<char>, TomlView)>) -> Seq<char>
    decreases es, es.len(),
{
    if es.len() == 0 {
        Seq::empty()
    } else {
        spec_render_entries(es.drop_last()) + (if es.len() > 1 { ","@ } else { ""@ })
            + " "@ + es.last().0 + " = "@ + spec_render(es.last().1)
    }
}

/// A copy of a TOML value.
pub fn clone_value(v: &TomlValue) -> (r: TomlValue)
    ensures
        toml_view(r) == toml_view(*v),
    decreases v, 0int,
{
    match v {
        TomlValue::Leaf(l) => TomlValue::Leaf(clone_leaf(l)),
        TomlValue::Table(es) => TomlValue::Table(clone_entries(es)),
    }
}

/// A copy of the entries of a table.
pub(crate) fn clone_entries(es: &Vec<(String, TomlValue)>) -> (r: Vec<(String, TomlValue)>)
    ensures
        entries_view(r@) == entries_view(es@),
    decreases es@, es@.len(),
{
    let mut out: Vec<(String, TomlValue)> = Vec::new();
    let mut i: usize = 0;
    while i < es.len()
        invariant
            i <= es@.len(),
            entries_view(out@) == entries_view(es@.take(i as int)),
        decreases es.len() - i,
    {
        let (k, v) = &es[i];
        proof {
            assert(decreases_to!(es@ => es@[i as int]));
            assert(decreases_to!(es@[i as int] => es@[i as int].1));
        }
        let c = clone_value(v);
        let ghost before = out@;
        out.push((k.clone(), c));
        proof {
            assert(out@.drop_last() =~= before);
            assert(es@.take(i + 1).drop_last() =~= es@.take(i as int));
        }
        i += 1;
    }
    assert(es@.take(es@.len() as int) =~= es@);
    out
}

/// Renders a TOML value for an error message: tables inline as `{ key = value, ... }`.
fn render(v: &TomlValue) -> (s: String)
    ensures
        s@ == spec_render(toml_view(*v)),
    decreases v, 0int,
{
    match v {
        TomlValue::Leaf(l) => leaf_text(l),
        TomlValue::Table(es) => render_entries(es),
    }
}

/// Renders the entries of a table inline.
fn render_entries(es: &Vec<(String, TomlValue)>) -> (s: String)
    ensures
        s@ == spec_render(TomlView::Table(entries_view(es@))),
    decreases es@, es@.len(),
{
    proof {
        reveal_strlit("{");
        reveal_strlit("}");
        reveal_strlit(",");
        reveal_strlit(" ");
        reveal_strlit(" = ");
        reveal_strlit("");
        lemma_entries_view_len(es@);
    }
    let mut s = String::from_str("{");
    let mut i: usize = 0;
    assert(es@.take(0) =~= Seq::<(String, TomlValue)>::empty());
    assert(s@ =~= "{"@ + spec_render_entries(entries_view(es@.take(0))));
    while i < es.len()
        invariant
            i <= es@.len(),
            s@ == "{"@ + spec_render_entries(entries_view(es@.take(i as int))),
        decreases es.len() - i,
    {
        let (k, val) = &es[i];
        proof {
            assert(decreases_to!(es@ => es@[i as int]));
            assert(decreases_to!(es@[i as int] => es@[i as int].1));
            reveal_strlit(",");
            reveal_strlit(" ");
            reveal_strlit(" = ");
            reveal_strlit("");
            lemma_entries_view_take(es@, i as int);
            lemma_entries_view_len(es@.take(i + 1));
            lemma_entries_view_len(es@.take(i as int));
        }
        let ghost before = s@;
        let ghost ev = entries_view(es@.take(i + 1));
        assert(ev.drop_last() =~= entries_view(es@.take(i as int)));
        assert(ev.len() == i + 1);
        assert(es@.take(i + 1)[i as int] == es@[i as int]);
        assert(ev.last() == (k@, toml_view(*val)));
        if i > 0 {
            s.append(",");
        }
        s.append(" ");
        s.append(k.as_str());
        s.append(" = ");
        let r = render(val);
        assert(r@ == spec_render(ev.last().1));
        s.append(r.as_str());
        assert(s@ =~= before + (if ev.len() > 1 { ","@ } else { ""@ }) + " "@ + ev.last().0 + " = "@ + spec_render(ev.last().1));
        i += 1;
    }
    assert(es@.take(es@.len() as int) =~= es@);
    proof {
        lemma_entries_view_len(es@);
    }
    if es.len() > 0 {
        s.append(" ");
    }
    s.append("}");
    s
}

/// The view of one more entry.
pub(crate) proof fn lemma_entries_view_take(es: Seq<(String, TomlValue)>, n: int)
    requires
        0 <= n < es.len(),
    ensures
        entries_view(es.take(n + 1)) == entries_view(es.take(n)).push((es[n].0@, toml_view(es[n].1))),
{
    assert(es.take(n + 1).drop_last() =~= es.take(n));
}

/// The view of a table has one entry per entry, with its key text.
pub(crate) proof fn lemma_entries_view_len(es: Seq<(String, TomlValue)>)
    ensures
        entries_view(es).len() == es.len(),
        forall|i: int| 0 <= i < es.len() ==> #[trigger] entries_view(es)[i] == (es[i].0@, toml_view(es[i].1)),
    decreases es.len(),
{
    if es.len() > 0 {
        lemma_entries_view_len(es.drop_last());
    }
}

/// Looking up a key after adding an entry.
pub(crate) proof fn lemma_find_key_push(xs: Seq<(Seq<char>, TomlView)>, y: (Seq<char>, TomlView), k: Seq<char>)
    ensures
        find_key(xs.push(y), k) == (match find_key(xs, k) {
            Some(i) => Some(i),
            None => if y.0 == k { Some(xs.len() as int) } else { None },
        }),
{
    assert(xs.push(y).drop_last() =~= xs);
}

/// Position of the first entry with key `k`.
pub(crate) fn find_key_exec(es: &Vec<(String, TomlValue)>, k: &str) -> (r: Option<usize>)
    ensures
        r is Some == find_key(entries_view(es@), k@) is Some,
        r matches Some(i) ==> find_key(entries_view(es@), k@) == Some(i as int) && i < es@.len(),
{
    let mut i: usize = 0;
    while i < es.len()
        invariant
            i <= es@.len(),
            find_key(entries_view(es@.take(i as int)), k@) is None,
        decreases es.len() - i,
    {
        proof {
            lemma_entries_view_take(es@, i as int);
            lemma_find_key_push(entries_view(es@.take(i as int)), (es@[i as int].0@, toml_view(es@[i as int].1)), k@);
            lemma_entries_view_len(es@.take(i as int));
        }
        if str_eq(es[i].0.as_str(), k) {
            proof {
                lemma_find_key_prefix(es@, (i + 1) as int, k@);
            }
            return Some(i);
        }
        i += 1;
    }
    assert(es@.take(es@.len() as int) =~= es@);
    None
}

/// The first key of a prefix that holds `k` is the first key of the whole table that does.
proof fn lemma_find_key_prefix(es: Seq<(String, TomlValue)>, n: int, k: Seq<char>)
    requires
        0 <= n <= es.len(),
        find_key(entries_view(es.take(n)), k) is Some,
    ensures
        find_key(entries_view(es), k) == find_key(entries_view(es.take(n)), k),
    decreases es.len() - n,
{
    if n < es.len() {
        lemma_entries_view_take(es, n);
        lemma_find_key_push(entries_view(es.take(n)), (es[n].0@, toml_view(es[n].1)), k);
        lemma_find_key_prefix(es, n + 1, k);
    } else {
        assert(es.take(n) =~= es);
    }
}

/// The key found is at a position of the table and holds that key.
pub(crate) proof fn lemma_find_key_found(xs: Seq<(Seq<char>, TomlView)>, k: Seq<char>)
    ensures
        find_key(xs, k) matches Some(i) ==> 0 <= i < xs.len() && xs[i].0 == k,
    decreases xs.len(),
{
    if xs.len() > 0 {
        lemma_find_key_found(xs.drop_last(), k);
    }
}

/// The view of a table after replacing one entry.
pub(crate) proof fn lemma_entries_view_update(es: Seq<(String, TomlValue)>, j: int, e: (String, TomlValue))
    requires
        0 <= j < es.len(),
    ensures
        entries_view(es.update(j, e)) == entries_view(es).update(j, (e.0@, toml_view(e.1))),
{
    lemma_entries_view_len(es);
    lemma_entries_view_len(es.update(j, e));
    assert(entries_view(es.update(j, e)) =~= entries_view(es).update(j, (e.0@, toml_view(e.1))));
}

/// The view of a table after adding one entry.
pub(crate) proof fn lemma_entries_view_push(es: Seq<(String, TomlValue)>, e: (String, TomlValue))
    ensures
        entries_view(es.push(e)) == entries_view(es).push((e.0@, toml_view(e.1))),
{
    assert(es.push(e).drop_last() =~= es);
}

/// The error for a table that meets a value that is not a table.
fn incompatible(into: &TomlValue, from: &TomlValue) -> (e: Error)
    ensures
        begins_with(e.message@, spec_incompatible_prefix()),
{
    let mut m = String::from_str(
        "Cannot merge config.toml with theme.toml because the following values have incompatibles types:\n- ",
    );
    let ghost p = m@;
    m.append(render(into).as_str());
    m.append("\n - ");
    m.append(render(from).as_str());
    assert(m@.take(p.len() as int) =~= p);
    Error { message: m }
}

/// Merges TOML data that can be a table, or anything else: `from` fills in what `into` lacks.
pub fn merge(into: &mut TomlValue, from: &TomlValue) -> (r: Result<(), Error>)
    ensures
        toml_view(*final(into)) == merge_views(toml_view(*old(into)), toml_view(*from)).0,
        r is Ok == merge_views(toml_view(*old(into)), toml_view(*from)).1,
        r is Err ==> begins_with(r->Err_0.message@, spec_incompatible_prefix()),
    decreases from, 0int,
{
    match from {
        TomlValue::Table(b) => {
            let is_table = match into {
                TomlValue::Table(_) => true,
                TomlValue::Leaf(_) => false,
            };
            if !is_table {
                return Err(incompatible(into, from));
            }
            match into {
                TomlValue::Table(a) => merge_entries_into(a, b),
                TomlValue::Leaf(_) => Ok(()),
            }
        },
        TomlValue::Leaf(_) => {
            match into {
                TomlValue::Table(_) => Err(incompatible(into, from)),
                TomlValue::Leaf(_) => Ok(()),
            }
        },
    }
}

/// Merges the entries of the table `b` into the table `a`, in the order of `b`.
pub(crate) fn merge_entries_into(a: &mut Vec<(String, TomlValue)>, b: &Vec<(String, TomlValue)>) -> (r: Result<(), Error>)
    ensures
        entries_view(final(a)@) == merge_entries(entries_view(old(a)@), entries_view(b@)).0,
        r is Ok == merge_entries(entries_view(old(a)@), entries_view(b@)).1,
        r is Err ==> begins_with(r->Err_0.message@, spec_incompatible_prefix()),
    decreases b@, b@.len(),
{
    let ghost a0 = entries_view(a@);
    let ghost bv = entries_view(b@);
    proof {
        lemma_entries_view_len(b@);
        assert(bv.skip(0) =~= bv);
    }
    let mut i: usize = 0;
    while i < b.len()
        invariant
            bv == entries_view(b@),
            a0 == entries_view(old(a)@),
            bv.len() == b@.len(),
            forall|n: int| 0 <= n < b@.len() ==> #[trigger] bv[n] == (b@[n].0@, toml_view(b@[n].1)),
            i <= b@.len(),
            merge_entries(a0, bv) == merge_entries(entries_view(a@), bv.skip(i as int)),
        decreases b.len() - i,
    {
        let (k, v) = &b[i];
        proof {
            assert(decreases_to!(b@ => b@[i as int]));
            assert(decreases_to!(b@[i as int] => b@[i as int].1));
            assert(bv.skip(i as int)[0] == bv[i as int]);
            assert(bv.skip(i as int).drop_first() =~= bv.skip(i + 1));
        }
        match find_key_exec(a, k.as_str()) {
            None => {
                let c = clone_value(v);
                let key = k.clone();
                let ghost before = a@;
                let ghost entry = (key, c);
                a.push((key, c));
                proof {
                    lemma_entries_view_push(before, entry);
                }
            },
            Some(j) => {
                let ghost before = a@;
                proof {
                    lemma_find_key_found(entries_view(before), k@);
                    lemma_entries_view_len(before);
                }
                let res = merge(&mut a[j].1, v);
                proof {
                    lemma_entries_view_update(before, j as int, a@[j as int]);
                    assert(a@ =~= before.update(j as int, a@[j as int]));
                    assert(a@[j as int].0 == before[j as int].0);
                    let cur = entries_view(before);
                    assert(cur[j as int].0 == k@);
                    assert(cur[j as int].1 == toml_view(before[j as int].1));
                    assert(bv.skip(i as int)[0] == (k@, toml_view(*v)));
                }
                if res.is_err() {
                    proof {
                        let cur = entries_view(before);
                        let rest = bv.skip(i as int);
                        assert(find_key(cur, rest[0].0) == Some(j as int));
                        let (m, ok) = merge_views(cur[j as int].1, rest[0].1);
                        assert(!ok);
                        assert(merge_entries(cur, rest) == (cur.update(j as int, (rest[0].0, m)), false));
                        assert(toml_view(a@[j as int].1) == m);
                    }
                    return res;
                }
            },
        }
        i += 1;
    }
    proof {
        assert(bv.skip(i as int) =~= Seq::<(Seq<char>, TomlView)>::empty());
    }
    Ok(())
}

/// A key held by some entry is found.
pub(crate) proof fn lemma_find_key_present(xs: Seq<(Seq<char>, TomlView)>, k: Seq<char>, i: int)
    requires
        0 <= i < xs.len(),
        xs[i].0 == k,
    ensures
        find_key(xs, k) is Some,
    decreases xs.len(),
{
    if i < xs.len() - 1 {
        lemma_find_key_present(xs.drop_last(), k, i);
    }
}

/// Merging tables keeps every entry of `into` at its place, with its key, keeps every value of
/// `into` that is not a table, and, when the merge completes, every key of `from` is found in
/// the result.
pub proof fn lemma_merge_entries_keys(a: Seq<(Seq<char>, TomlView)>, b: Seq<(Seq<char>, TomlView)>)
    ensures
        ({
            let (r, ok) = merge_entries(a, b);
            &&& r.len() >= a.len()
            &&& forall|i: int| 0 <= i < a.len() ==> (#[trigger] r[i]).0 == a[i].0
            &&& forall|i: int| 0 <= i < a.len() && a[i].1 is Leaf ==> (#[trigger] r[i]).1 == a[i].1
            &&& ok ==> forall|j: int| 0 <= j < b.len() ==> find_key(r, (#[trigger] b[j]).0) is Some
        }),
    decreases b.len(),
{
    if b.len() > 0 {
        let k = b[0].0;
        lemma_find_key_found(a, k);
        match find_key(a, k) {
            None => {
                let a2 = a.push(b[0]);
                lemma_merge_entries_keys(a2, b.drop_first());
                let (r, ok) = merge_entries(a2, b.drop_first());
                assert(r[a.len() as int].0 == k);
                lemma_find_key_present(r, k, a.len() as int);
                assert forall|j: int| ok && 0 <= j < b.len() implies find_key(r, (#[trigger] b[j]).0) is Some by {
                    if j > 0 {
                        assert(b[j] == b.drop_first()[j - 1]);
                    }
                }
            },
            Some(i) => {
                let (m, ok1) = merge_views(a[i].1, b[0].1);
                let a2 = a.update(i, (k, m));
                if ok1 {
                    lemma_merge_entries_keys(a2, b.drop_first());
                    let (r, ok) = merge_entries(a2, b.drop_first());
                    assert(r[i].0 == k);
                    lemma_find_key_present(r, k, i);
                    assert forall|j: int| ok && 0 <= j < b.len() implies find_key(r, (#[trigger] b[j]).0) is Some by {
                        if j > 0 {
                            assert(b[j] == b.drop_first()[j - 1]);
                        }
                    }
                }
            },
        }
    }
}

/// The same about whole values: merging into a value that is not a table leaves it as it was,
/// and a completed merge of tables keeps the keys of `into` and holds all the keys of `from`.
pub proof fn lemma_merge_keeps_and_adds(into: TomlView, from: TomlView)
    ensures
        into is Leaf ==> merge_views(into, from).0 == into,
        (into is Table && from is Table) ==> ({
            let a = into->Table_0;
            let b = from->Table_0;
            let r = merge_views(into, from).0->Table_0;
            &&& merge_views(into, from).0 is Table
            &&& forall|i: int| 0 <= i < a.len() ==> (#[trigger] r[i]).0 == a[i].0
            &&& forall|i: int| 0 <= i < a.len() && a[i].1 is Leaf ==> (#[trigger] r[i]).1 == a[i].1
            &&& merge_views(into, from).1 ==> forall|j: int| 0 <= j < b.len() ==> find_key(r, (#[trigger] b[j]).0) is Some
        }),
{
    if into is Table && from is Table {
        lemma_merge_entries_keys(into->Table_0, from->Table_0);
    }
}

} // verus!
