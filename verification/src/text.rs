use vstd::prelude::*;

verus! {

/// The characters of `s`, in order.
pub fn chars_of(s: &str) -> (v: Vec<char>)
    ensures
        v@ == s@,
{
    let mut v: Vec<char> = Vec::new();
    for c in it: s.chars()
        invariant
            v@ == it.seq().take(it.index() as int),
    {
        v.push(c);
    }
    v
}

/// Whether two strings hold the same characters.
pub fn str_eq(a: &str, b: &str) -> (r: bool)
    ensures
        r == (a@ == b@),
{
    let va = chars_of(a);
    let vb = chars_of(b);
    if va.len() != vb.len() {
        return false;
    }
    let mut i: usize = 0;
    while i < va.len()
        invariant
            va@ == a@,
            vb@ == b@,
            va.len() == vb.len(),
            i <= va.len(),
            forall|j: int| 0 <= j < i ==> va@[j] == vb@[j],
        decreases va.len() - i,
    {
        if va[i] != vb[i] {
            return false;
        }
        i += 1;
    }
    assert(a@ =~= b@);
    true
}

/// Appends one character to a string.
/// Calls `String::push`, which std documents as appending the character to the end.
#[verifier::external_body]
pub(crate) fn push_char(s: &mut String, c: char)
    ensures
        final(s)@ == old(s)@.push(c),
{
    s.push(c);
}

/// The string holding exactly the characters of `v`.
pub fn string_from_chars(v: &[char]) -> (s: String)
    ensures
        s@ == v@,
{
    let mut s = String::new();
    let mut i: usize = 0;
    while i < v.len()
        invariant
            i <= v@.len(),
            s@ == v@.take(i as int),
        decreases v@.len() - i,
    {
        push_char(&mut s, v[i]);
        assert(v@.take(i as int).push(v@[i as int]) =~= v@.take(i + 1));
        i += 1;
    }
    assert(v@.take(v@.len() as int) =~= v@);
    s
}

/// The `{:?}` rendering of a value, as used in error messages.
/// Calls `format!` with the `Debug` implementation of `T`; nothing is stated of the text.
#[verifier::external_body]
pub(crate) fn debug_text<T: std::fmt::Debug>(v: &T) -> String {
    format!("{:?}", v)
}

} // verus!

verus! {

/// The decimal digit character for `d < 10`.
pub open spec fn digit_char(d: nat) -> char {
    if d == 0 { '0' } else if d == 1 { '1' } else if d == 2 { '2' } else if d == 3 { '3' }
    else if d == 4 { '4' } else if d == 5 { '5' } else if d == 6 { '6' } else if d == 7 { '7' }
    else if d == 8 { '8' } else { '9' }
}

/// The decimal rendering of `n`, without leading zeros.
pub open spec fn spec_decimal(n: nat) -> Seq<char>
    decreases n,
{
    if n < 10 {
        seq![digit_char(n)]
    } else {
        spec_decimal(n / 10).push(digit_char(n % 10))
    }
}

fn digit(d: u64) -> (c: char)
    requires
        d < 10,
    ensures
        c == digit_char(d as nat),
{
    if d == 0 { '0' } else if d == 1 { '1' } else if d == 2 { '2' } else if d == 3 { '3' }
    else if d == 4 { '4' } else if d == 5 { '5' } else if d == 6 { '6' } else if d == 7 { '7' }
    else if d == 8 { '8' } else { '9' }
}

/// The decimal rendering of `n`, as `{}` formats an unsigned integer.
pub fn decimal(n: u64) -> (s: String)
    ensures
        s@ == spec_decimal(n as nat),
    decreases n,
{
    if n < 10 {
        let mut s = String::new();
        push_char(&mut s, digit(n));
        assert(s@ =~= seq![digit_char(n as nat)]);
        s
    } else {
        let mut s = decimal(n / 10);
        push_char(&mut s, digit(n % 10));
        s
    }
}

} // verus!

verus! {

/// What comes before the first `sep` in `s` (all of `s` when there is none).
pub open spec fn spec_prefix_before(s: Seq<char>, sep: char) -> Seq<char>
    decreases s.len(),
{
    if s.len() == 0 || s[0] == sep {
        Seq::empty()
    } else {
        seq![s[0]] + spec_prefix_before(s.drop_first(), sep)
    }
}

/// The prefix before the first `sep` is the text up to its first occurrence.
pub proof fn lemma_prefix_before(s: Seq<char>, sep: char, k: int)
    requires
        0 <= k <= s.len(),
        forall|j: int| 0 <= j < k ==> s[j] != sep,
        k == s.len() || s[k] == sep,
    ensures
        spec_prefix_before(s, sep) == s.subrange(0, k),
    decreases k,
{
    if k == 0 {
        assert(s.subrange(0, 0) =~= Seq::<char>::empty());
    } else {
        lemma_prefix_before(s.drop_first(), sep, k - 1);
        assert(seq![s[0]] + s.drop_first().subrange(0, k - 1) =~= s.subrange(0, k));
    }
}

/// What comes before the first `sep` in `s`, as the first item of `s.split(sep)`.
pub fn prefix_before(s: &str, sep: char) -> (p: String)
    ensures
        p@ == spec_prefix_before(s@, sep),
{
    let l = chars_of(s);
    let mut k: usize = 0;
    let mut out = String::new();
    while k < l.len() && l[k] != sep
        invariant
            l@ == s@,
            k <= l@.len(),
            forall|j: int| 0 <= j < k ==> l@[j] != sep,
            out@ == l@.subrange(0, k as int),
        decreases l.len() - k,
    {
        push_char(&mut out, l[k]);
        assert(l@.subrange(0, k as int).push(l@[k as int]) =~= l@.subrange(0, k + 1));
        k += 1;
    }
    proof {
        lemma_prefix_before(s@, sep, k as int);
    }
    out
}

/// The position of the first `c` in `s`.
pub open spec fn first_index(s: Seq<char>, c: char) -> Option<int>
    decreases s.len(),
{
    if s.len() == 0 {
        None
    } else if s[0] == c {
        Some(0)
    } else {
        match first_index(s.drop_first(), c) {
            Some(i) => Some(i + 1),
            None => None,
        }
    }
}

/// The first `c` of `s` is at `k` when `k` holds `c` and no earlier position does; there is
/// none when no position up to the end holds it.
proof fn lemma_first_index(s: Seq<char>, c: char, k: int)
    requires
        0 <= k <= s.len(),
        forall|j: int| 0 <= j < k ==> s[j] != c,
    ensures
        k < s.len() && s[k] == c ==> first_index(s, c) == Some(k),
        k == s.len() ==> first_index(s, c) is None,
    decreases k,
{
    if k > 0 {
        lemma_first_index(s.drop_first(), c, k - 1);
    }
}

/// What comes before and after the first `sep` of `s`, as `s.split_once(sep)` gives it;
/// `None` when `s` holds no `sep`.
pub fn split_once_char(s: &str, sep: char) -> (r: Option<(String, String)>)
    ensures
        match first_index(s@, sep) {
            None => r is None,
            Some(i) => r matches Some((a, b)) && a@ == s@.take(i) && b@ == s@.skip(i + 1),
        },
{
    let l = chars_of(s);
    let mut k: usize = 0;
    while k < l.len() && l[k] != sep
        invariant
            l@ == s@,
            k <= l@.len(),
            forall|j: int| 0 <= j < k ==> l@[j] != sep,
        decreases l.len() - k,
    {
        k += 1;
    }
    proof {
        lemma_first_index(s@, sep, k as int);
    }
    if k == l.len() {
        None
    } else {
        let a = s.substring_char(0, k);
        let b = s.substring_char(k + 1, l.len());
        assert(a@ =~= s@.take(k as int));
        assert(b@ =~= s@.skip(k + 1));
        Some((String::from_str(a), String::from_str(b)))
    }
}

/// Whether one of the strings of `v` is `s`.
pub fn contains_str(v: &Vec<String>, s: &str) -> (r: bool)
    ensures
        r == strings_view(v@).contains(s@),
{
    let mut i: usize = 0;
    while i < v.len()
        invariant
            i <= v@.len(),
            forall|j: int| 0 <= j < i ==> v@[j]@ != s@,
        decreases v.len() - i,
    {
        if str_eq(v[i].as_str(), s) {
            assert(strings_view(v@)[i as int] == s@);
            return true;
        }
        i += 1;
    }
    proof {
        if strings_view(v@).contains(s@) {
            let j = choose|j: int| 0 <= j < strings_view(v@).len() && strings_view(v@)[j] == s@;
            assert(v@[j]@ == s@);
        }
    }
    false
}

/// `parts` joined with `sep` between consecutive parts.
pub open spec fn spec_join(parts: Seq<Seq<char>>, sep: Seq<char>) -> Seq<char>
    decreases parts.len(),
{
    if parts.len() == 0 {
        Seq::empty()
    } else if parts.len() == 1 {
        parts[0]
    } else {
        spec_join(parts.drop_last(), sep) + sep + parts.last()
    }
}

/// The characters of each string of a sequence.
pub open spec fn strings_view(v: Seq<String>) -> Seq<Seq<char>> {
    v.map_values(|s: String| s@)
}

/// Joins the strings with `sep`, as `[String]::join` does.
pub fn join(parts: &Vec<String>, sep: &str) -> (r: String)
    ensures
        r@ == spec_join(strings_view(parts@), sep@),
{
    let mut out = String::new();
    let mut i: usize = 0;
    while i < parts.len()
        invariant
            i <= parts@.len(),
            out@ == spec_join(strings_view(parts@.take(i as int)), sep@),
        decreases parts.len() - i,
    {
        proof {
            assert(strings_view(parts@.take(i + 1)).drop_last() =~= strings_view(parts@.take(i as int)));
            assert(strings_view(parts@.take(i + 1)).last() == parts@[i as int]@);
        }
        if i > 0 {
            out.append(sep);
        } else {
            assert(strings_view(parts@.take(1)) =~= seq![parts@[0]@]);
        }
        out.append(parts[i].as_str());
        i += 1;
    }
    assert(parts@.take(parts@.len() as int) =~= parts@);
    out
}

} // verus!

verus! {

/// The lower-case hexadecimal digit for `d < 16`.
pub open spec fn hex_char(d: nat) -> char {
    if d < 10 { digit_char(d) } else if d == 10 { 'a' } else if d == 11 { 'b' } else if d == 12 { 'c' }
    else if d == 13 { 'd' } else if d == 14 { 'e' } else { 'f' }
}

/// The last `count` hexadecimal digits of `n`, most significant first.
pub open spec fn spec_hex_digits(n: nat, count: nat) -> Seq<char>
    decreases count,
{
    if count == 0 {
        Seq::empty()
    } else {
        spec_hex_digits(n / 16, (count - 1) as nat).push(hex_char(n % 16))
    }
}

fn hex_digit(d: u64) -> (c: char)
    requires
        d < 16,
    ensures
        c == hex_char(d as nat),
{
    if d < 10 { digit(d) } else if d == 10 { 'a' } else if d == 11 { 'b' } else if d == 12 { 'c' }
    else if d == 13 { 'd' } else if d == 14 { 'e' } else { 'f' }
}

/// The last `count` hexadecimal digits of `n`, as `{:0width$x}` prints them when `n` has no
/// more digits than `count`.
pub fn hex_digits(n: u64, count: usize) -> (s: String)
    ensures
        s@ == spec_hex_digits(n as nat, count as nat),
    decreases count,
{
    if count == 0 {
        String::new()
    } else {
        let mut s = hex_digits(n / 16, count - 1);
        push_char(&mut s, hex_digit(n % 16));
        s
    }
}

} // verus!
