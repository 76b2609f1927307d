//! Character-level text handling shared by the manifest and vector parsers.
//!
//! Text is scanned as a vector of `char`s; the specifications speak of
//! `Seq<char>`, the view of both `String` and `&str`.
use vstd::prelude::*;

verus! {

/// `char::is_whitespace`: the Unicode `White_Space` property.
pub open spec fn is_white(c: char) -> bool {
    ||| '\u{9}' <= c <= '\u{d}'
    ||| c == ' '
    ||| c == '\u{85}'
    ||| c == '\u{a0}'
    ||| c == '\u{1680}'
    ||| '\u{2000}' <= c <= '\u{200a}'
    ||| c == '\u{2028}'
    ||| c == '\u{2029}'
    ||| c == '\u{202f}'
    ||| c == '\u{205f}'
    ||| c == '\u{3000}'
}

/// Whether `c` is white space, as `char::is_whitespace` decides it.
pub fn is_white_char(c: char) -> (r: bool)
    ensures
        r == is_white(c),
{
    ('\u{9}' <= c && c <= '\u{d}') || c == ' ' || c == '\u{85}' || c == '\u{a0}' || c == '\u{1680}'
        || ('\u{2000}' <= c && c <= '\u{200a}') || c == '\u{2028}' || c == '\u{2029}' || c
        == '\u{202f}' || c == '\u{205f}' || c == '\u{3000}'
}

/// `s` without its leading white space.
pub open spec fn trim_start(s: Seq<char>) -> Seq<char>
    decreases s.len(),
{
    if s.len() > 0 && is_white(s[0]) {
        trim_start(s.drop_first())
    } else {
        s
    }
}

/// `s` without its trailing white space.
pub open spec fn trim_end(s: Seq<char>) -> Seq<char>
    decreases s.len(),
{
    if s.len() > 0 && is_white(s.last()) {
        trim_end(s.drop_last())
    } else {
        s
    }
}

/// `str::trim`: `s` without leading and trailing white space.
pub open spec fn trim(s: Seq<char>) -> Seq<char> {
    trim_end(trim_start(s))
}

/// `s` with every leading copy of `prefix` removed (`str::trim_start_matches`).
pub open spec fn strip_all_prefix(s: Seq<char>, prefix: Seq<char>) -> Seq<char>
    decreases s.len(),
{
    if prefix.len() > 0 && prefix.len() <= s.len() && s.take(prefix.len() as int) == prefix {
        strip_all_prefix(s.skip(prefix.len() as int), prefix)
    } else {
        s
    }
}

/// Whether `pat` occurs in `s` at position `i`.
pub open spec fn occurs_at(s: Seq<char>, pat: Seq<char>, i: int) -> bool {
    0 <= i && i + pat.len() <= s.len() && s.subrange(i, i + pat.len()) == pat
}

/// The first position at or after `i` where `pat` occurs in `s`.
pub open spec fn find_from(s: Seq<char>, pat: Seq<char>, i: int) -> Option<int>
    decreases s.len() + 1 - i,
{
    if i < 0 || i + pat.len() > s.len() {
        None
    } else if occurs_at(s, pat, i) {
        Some(i)
    } else {
        find_from(s, pat, i + 1)
    }
}

/// `str::find`: the first position where `pat` occurs in `s`.
pub open spec fn find(s: Seq<char>, pat: Seq<char>) -> Option<int> {
    find_from(s, pat, 0)
}

/// The first position of `c` in `s`.
pub open spec fn first_index_of(s: Seq<char>, c: char) -> Option<int>
    decreases s.len(),
{
    if s.len() == 0 {
        None
    } else if s[0] == c {
        Some(0)
    } else {
        match first_index_of(s.drop_first(), c) {
            Some(i) => Some(i + 1),
            None => None,
        }
    }
}

/// `str::split` on one character: the pieces of `s` between the copies of `sep`.
pub open spec fn split_on(s: Seq<char>, sep: char) -> Seq<Seq<char>>
    decreases s.len(),
{
    match first_index_of(s, sep) {
        Some(i) => {
            if 0 <= i < s.len() {
                seq![s.take(i)] + split_on(s.skip(i + 1), sep)
            } else {
                seq![s]
            }
        },
        None => seq![s],
    }
}

/// The characters of `s`, in order.
pub fn chars_of(s: &str) -> (v: Vec<char>)
    ensures
        v@ == s@,
{
    let mut v: Vec<char> = Vec::new();
    for c in it: s.chars()
        invariant
            v@ == it.seq().take(it.index()),
    {
        v.push(c);
    }
    v
}

/// `String::push`: appends one character.
#[verifier::external_body]
pub(crate) fn push_char(s: &mut String, c: char)
    ensures
        final(s)@ == old(s)@.push(c),
{
    s.push(c);
}

/// The characters `v[lo..hi]` as a `String`.
pub fn string_of_range(v: &Vec<char>, lo: usize, hi: usize) -> (s: String)
    requires
        lo <= hi <= v@.len(),
    ensures
        s@ == v@.subrange(lo as int, hi as int),
{
    let mut s = String::new();
    let mut i = lo;
    while i < hi
        invariant
            lo <= i <= hi <= v@.len(),
            s@ == v@.subrange(lo as int, i as int),
        decreases hi - i,
    {
        push_char(&mut s, v[i]);
        i = i + 1;
        assert(s@ =~= v@.subrange(lo as int, i as int));
    }
    s
}

/// The bounds of `trim(v[lo..hi])` inside `v`.
pub fn trim_range(v: &Vec<char>, lo: usize, hi: usize) -> (r: (usize, usize))
    requires
        lo <= hi <= v@.len(),
    ensures
        lo <= r.0 <= r.1 <= hi,
        v@.subrange(r.0 as int, r.1 as int) == trim(v@.subrange(lo as int, hi as int)),
{
    let mut a = lo;
    while a < hi && is_white_char(v[a])
        invariant
            lo <= a <= hi <= v@.len(),
            trim_start(v@.subrange(lo as int, hi as int)) == trim_start(
                v@.subrange(a as int, hi as int),
            ),
        decreases hi - a,
    {
        assert(v@.subrange(a as int, hi as int).drop_first() =~= v@.subrange(
            a + 1,
            hi as int,
        ));
        a = a + 1;
    }
    assert(trim_start(v@.subrange(a as int, hi as int)) == v@.subrange(a as int, hi as int));
    let mut b = hi;
    while b > a && is_white_char(v[b - 1])
        invariant
            lo <= a <= b <= hi <= v@.len(),
            trim(v@.subrange(lo as int, hi as int)) == trim_end(v@.subrange(a as int, b as int)),
        decreases b - a,
    {
        assert(v@.subrange(a as int, b as int).drop_last() =~= v@.subrange(
            a as int,
            b - 1,
        ));
        b = b - 1;
    }
    (a, b)
}

/// Whether `pat` occurs in `v` at position `at`.
pub fn occurs_in_at(v: &Vec<char>, lo: usize, hi: usize, pat: &Vec<char>, at: usize) -> (r: bool)
    requires
        lo <= hi <= v@.len(),
    ensures
        r == occurs_at(v@.subrange(lo as int, hi as int), pat@, at as int),
{
    let ghost s = v@.subrange(lo as int, hi as int);
    if at > hi - lo || pat.len() > hi - lo - at {
        return false;
    }
    let mut k: usize = 0;
    while k < pat.len()
        invariant
            lo <= hi <= v@.len(),
            s == v@.subrange(lo as int, hi as int),
            at + pat@.len() <= hi - lo,
            k <= pat@.len(),
            forall|j: int| 0 <= j < k ==> v@[lo + at + j] == pat@[j],
        decreases pat@.len() - k,
    {
        if v[lo + at + k] != pat[k] {
            assert(s.subrange(at as int, at + pat@.len())[k as int] != pat@[k as int]);
            return false;
        }
        k = k + 1;
    }
    assert(s.subrange(at as int, at + pat@.len()) =~= pat@);
    true
}

/// `find(v[lo..hi], pat)`, as an offset from `lo`.
pub fn find_in_range(v: &Vec<char>, lo: usize, hi: usize, pat: &Vec<char>) -> (r: Option<usize>)
    requires
        lo <= hi <= v@.len(),
    ensures
        match r {
            Some(k) => find(v@.subrange(lo as int, hi as int), pat@) == Some(k as int),
            None => find(v@.subrange(lo as int, hi as int), pat@) is None,
        },
        r matches Some(k) ==> k + pat@.len() <= hi - lo,
{
    let ghost s = v@.subrange(lo as int, hi as int);
    if pat.len() == 0 {
        assert(s.subrange(0, 0) =~= pat@);
        return Some(0);
    }
    let mut i: usize = 0;
    while i <= hi - lo
        invariant
            lo <= hi <= v@.len(),
            s == v@.subrange(lo as int, hi as int),
            pat@.len() > 0,
            i <= hi - lo,
            find(s, pat@) == find_from(s, pat@, i as int),
        decreases hi - lo - i,
    {
        if pat.len() > hi - lo - i {
            return None;
        }
        if occurs_in_at(v, lo, hi, pat, i) {
            return Some(i);
        }
        i = i + 1;
    }
    None
}

/// The first position of `c` in `s` is the first `m` at which `c` stands.
pub proof fn lemma_first_index_of(s: Seq<char>, c: char, m: int)
    requires
        0 <= m <= s.len(),
        forall|k: int| 0 <= k < m ==> s[k] != c,
    ensures
        m < s.len() && s[m] == c ==> first_index_of(s, c) == Some(m),
        m == s.len() ==> first_index_of(s, c) is None,
    decreases m,
{
    if m > 0 {
        assert forall|k: int| 0 <= k < m - 1 implies s.drop_first()[k] != c by {
            assert(s.drop_first()[k] == s[k + 1]);
        }
        lemma_first_index_of(s.drop_first(), c, m - 1);
    }
}

/// The texts that the bounds `rs` delimit in `s`.
pub open spec fn pieces(s: Seq<char>, rs: Seq<(usize, usize)>) -> Seq<Seq<char>> {
    rs.map_values(|p: (usize, usize)| s.subrange(p.0 as int, p.1 as int))
}

/// The bounds of the pieces of `v` between the copies of `sep`.
pub fn split_ranges(v: &Vec<char>, sep: char) -> (r: Vec<(usize, usize)>)
    ensures
        forall|k: int| 0 <= k < r@.len() ==> (#[trigger] r@[k]).0 <= r@[k].1 <= v@.len(),
        pieces(v@, r@) == split_on(v@, sep),
{
    let mut r: Vec<(usize, usize)> = Vec::new();
    let mut start: usize = 0;
    assert(v@.skip(0) =~= v@);
    assert(pieces(v@, r@) =~= Seq::<Seq<char>>::empty());
    loop
        invariant
            start <= v@.len(),
            forall|k: int| 0 <= k < r@.len() ==> (#[trigger] r@[k]).0 <= r@[k].1 <= v@.len(),
            pieces(v@, r@) + split_on(v@.skip(start as int), sep) == split_on(v@, sep),
        decreases v@.len() - start,
    {
        let mut j = start;
        while j < v.len() && v[j] != sep
            invariant
                start <= j <= v@.len(),
                forall|k: int| start <= k < j ==> v@[k] != sep,
            decreases v@.len() - j,
        {
            j = j + 1;
        }
        let ghost rest = v@.skip(start as int);
        assert forall|k: int| 0 <= k < j - start implies rest[k] != sep by {
            assert(rest[k] == v@[start + k]);
        }
        proof {
            lemma_first_index_of(rest, sep, j - start);
        }
        let ghost before = pieces(v@, r@);
        r.push((start, j));
        assert(pieces(v@, r@) =~= before.push(v@.subrange(start as int, j as int)));
        if j < v.len() {
            assert(rest.take(j - start) =~= v@.subrange(start as int, j as int));
            assert(rest.skip(j - start + 1) =~= v@.skip(j + 1));
            assert(split_on(rest, sep) == seq![rest.take(j - start)] + split_on(
                rest.skip(j - start + 1),
                sep,
            ));
            assert(pieces(v@, r@) + split_on(v@.skip(j + 1), sep) =~= before + split_on(
                rest,
                sep,
            ));
            start = j + 1;
        } else {
            assert(rest =~= v@.subrange(start as int, j as int));
            assert(pieces(v@, r@) =~= before + split_on(rest, sep));
            return r;
        }
    }
}

/// What `str::to_lowercase` gives for `s` (the Unicode lowercase mapping).
pub uninterp spec fn lowercase(s: Seq<char>) -> Seq<char>;

/// What `str::to_uppercase` gives for `s` (the Unicode uppercase mapping).
pub uninterp spec fn uppercase(s: Seq<char>) -> Seq<char>;

/// Calls `str::to_lowercase`; its result is named [`lowercase`] of the text.
#[verifier::external_body]
pub(crate) fn to_lowercase(s: &str) -> (r: String)
    ensures
        r@ == lowercase(s@),
{
    s.to_lowercase()
}

/// Calls `str::to_uppercase`; its result is named [`uppercase`] of the text.
#[verifier::external_body]
pub(crate) fn to_uppercase(s: &str) -> (r: String)
    ensures
        r@ == uppercase(s@),
{
    s.to_uppercase()
}

/// Whether two texts are equal.
pub fn same_text(a: &str, b: &str) -> (r: bool)
    ensures
        r == (a@ == b@),
{
    let va = chars_of(a);
    let vb = chars_of(b);
    if va.len() != vb.len() {
        return false;
    }
    let mut i: usize = 0;
    while i < va.len()
        invariant
            va@ == a@,
            vb@ == b@,
            va@.len() == vb@.len(),
            i <= va@.len(),
            forall|k: int| 0 <= k < i ==> va@[k] == vb@[k],
        decreases va@.len() - i,
    {
        if va[i] != vb[i] {
            return false;
        }
        i = i + 1;
    }
    assert(va@ =~= vb@);
    true
}

/// `s` with every leading copy of `prefix` removed.
pub fn strip_all_prefix_of(s: &str, prefix: &Vec<char>) -> (r: String)
    ensures
        r@ == strip_all_prefix(s@, prefix@),
{
    let v = chars_of(s);
    let mut i: usize = 0;
    assert(v@.skip(0) =~= v@);
    if prefix.len() > 0 {
        while prefix.len() <= v.len() - i && occurs_in_at(&v, 0, v.len(), prefix, i)
            invariant
                v@ == s@,
                prefix@.len() > 0,
                i <= v@.len(),
                strip_all_prefix(s@, prefix@) == strip_all_prefix(v@.skip(i as int), prefix@),
            decreases v@.len() - i,
        {
            assert(v@.subrange(0, v@.len() as int) =~= v@);
            assert(v@.skip(i as int).take(prefix@.len() as int) =~= v@.subrange(
                i as int,
                i + prefix@.len(),
            ));
            assert(v@.skip(i as int).skip(prefix@.len() as int) =~= v@.skip(i + prefix@.len()));
            i = i + prefix.len();
        }
        assert(v@.subrange(0, v@.len() as int) =~= v@);
        assert(v@.skip(i as int).take(prefix@.len() as int) =~= v@.subrange(
            i as int,
            i + prefix@.len(),
        ) || prefix@.len() > v@.len() - i);
    }
    let r = string_of_range(&v, i, v.len());
    assert(v@.subrange(i as int, v@.len() as int) =~= v@.skip(i as int));
    r
}

/// What `first_index_of` gives: the position of the first `c`, or `None`
/// where `s` holds no `c`.
pub proof fn lemma_first_index_of_props(s: Seq<char>, c: char)
    ensures
        match first_index_of(s, c) {
            Some(i) => 0 <= i < s.len() && s[i] == c && forall|k: int| 0 <= k < i ==> s[k] != c,
            None => forall|k: int| 0 <= k < s.len() ==> s[k] != c,
        },
    decreases s.len(),
{
    if s.len() > 0 {
        lemma_first_index_of_props(s.drop_first(), c);
        match first_index_of(s.drop_first(), c) {
            Some(i) => {
                assert forall|k: int| 0 <= k < i + 1 && s[0] != c implies #[trigger] s[k] != c by {
                    if k > 0 {
                        assert(s[k] == s.drop_first()[k - 1]);
                    }
                }
            },
            None => {
                assert forall|k: int| 0 <= k < s.len() && s[0] != c implies #[trigger] s[k] != c by {
                    if k > 0 {
                        assert(s[k] == s.drop_first()[k - 1]);
                    }
                }
            },
        }
    }
}

/// Splitting text joined by a separator splits each side.
pub proof fn lemma_split_on_join(x: Seq<char>, sep: char, y: Seq<char>)
    ensures
        split_on(x + seq![sep] + y, sep) == split_on(x, sep) + split_on(y, sep),
    decreases x.len(),
{
    let s = x + seq![sep] + y;
    lemma_first_index_of_props(x, sep);
    match first_index_of(x, sep) {
        Some(i) => {
            assert forall|k: int| 0 <= k < i implies s[k] != sep by {
                assert(s[k] == x[k]);
            }
            assert(s[i] == x[i]);
            lemma_first_index_of(s, sep, i);
            let rest = x.skip(i + 1);
            lemma_split_on_join(rest, sep, y);
            assert(s.take(i) =~= x.take(i));
            assert(s.skip(i + 1) =~= rest + seq![sep] + y);
            assert(split_on(s, sep) =~= seq![x.take(i)] + (split_on(rest, sep) + split_on(y, sep)));
            assert(split_on(x, sep) == seq![x.take(i)] + split_on(rest, sep));
            assert(split_on(s, sep) =~= split_on(x, sep) + split_on(y, sep));
        },
        None => {
            assert forall|k: int| 0 <= k < x.len() implies s[k] != sep by {
                assert(s[k] == x[k]);
            }
            assert(s[x.len() as int] == sep);
            lemma_first_index_of(s, sep, x.len() as int);
            assert(s.take(x.len() as int) =~= x);
            assert(s.skip(x.len() as int + 1) =~= y);
            assert(split_on(x, sep) == seq![x]);
            assert(split_on(s, sep) =~= split_on(x, sep) + split_on(y, sep));
        },
    }
}

/// Text without the separator is one piece.
pub proof fn lemma_split_on_single(x: Seq<char>, sep: char)
    requires
        !x.contains(sep),
    ensures
        split_on(x, sep) == seq![x],
{
    lemma_first_index_of_props(x, sep);
    if let Some(i) = first_index_of(x, sep) {
        assert(x.contains(sep));
    }
}

} // verus!
