//! Pinned requirements: `requirements.txt` lines and PEP 508 strings such as
//! `requests>=2.31`.
use vstd::prelude::*;

use crate::dependency::{dependency_views, pypi, pypi_dependency, Dependency, DependencyView};
use crate::text::{
    chars_of, find, find_from, find_in_range, is_white, lemma_split_on_join, lemma_split_on_single,
    lowercase, occurs_at, pieces, split_on, split_ranges, string_of_range, to_lowercase, trim,
    trim_end, trim_range, trim_start,
};

verus! {

/// The version operators, tried in this order.
pub open spec fn operators() -> Seq<Seq<char>> {
    seq![seq!['=', '='], seq!['>', '='], seq!['<', '='], seq!['~', '='], seq!['>'], seq!['<']]
}

/// The name (lowercased) and version that `part` pins with operator `k` or a
/// later one: the first operator that occurs in `part` and leaves a non-empty
/// name before its first occurrence and a non-empty version after it.
pub open spec fn split_from_operator(part: Seq<char>, k: int) -> Option<(Seq<char>, Seq<char>)>
    decreases 6 - k,
{
    if k < 0 || k >= 6 {
        None
    } else {
        match find(part, operators()[k]) {
            Some(i) => {
                let name = lowercase(trim(part.take(i)));
                let version = trim(part.skip(i + operators()[k].len()));
                if name.len() > 0 && version.len() > 0 {
                    Some((name, version))
                } else {
                    split_from_operator(part, k + 1)
                }
            },
            None => split_from_operator(part, k + 1),
        }
    }
}

/// The name and version that a requirement such as `Flask == 2.0` pins.
pub open spec fn split_requirement(part: Seq<char>) -> Option<(Seq<char>, Seq<char>)> {
    split_from_operator(part, 0)
}

/// Whether `c` starts a comment or an environment marker.
pub open spec fn is_comment_mark(c: char) -> bool {
    c == '#' || c == ';'
}

/// The length of the text of `s` before its first comment mark.
pub open spec fn comment_start(s: Seq<char>) -> nat
    decreases s.len(),
{
    if s.len() == 0 {
        0
    } else if is_comment_mark(s[0]) {
        0
    } else {
        1 + comment_start(s.drop_first())
    }
}

/// The pinned requirement on one line of a requirements file, if any.
pub open spec fn requirement_of_line(line: Seq<char>) -> Option<(Seq<char>, Seq<char>)> {
    let l = trim(line);
    if l.len() == 0 || l[0] == '#' {
        None
    } else {
        let part = trim(l.take(comment_start(l) as int));
        if part.len() == 0 {
            None
        } else {
            split_requirement(part)
        }
    }
}

/// The dependencies that `lines` of the requirements file `file` pin, in order.
pub open spec fn requirements_in(lines: Seq<Seq<char>>, file: Seq<char>) -> Seq<DependencyView>
    decreases lines.len(),
{
    if lines.len() == 0 {
        seq![]
    } else {
        let here = match requirement_of_line(lines.last()) {
            Some((name, version)) => seq![pypi_dependency(name, version, file)],
            None => seq![],
        };
        requirements_in(lines.drop_last(), file) + here
    }
}

/// The dependencies that the requirements file `file` with text `content` pins.
/// Its lines are the pieces between `'\n'`s; a `'\r'` before a `'\n'` is
/// white space, which each line sheds.
pub open spec fn requirements_file(content: Seq<char>, file: Seq<char>) -> Seq<DependencyView> {
    requirements_in(split_on(content, '\n'), file)
}

/// The length of `s` before its first comment mark is the first `m` at which one stands.
proof fn lemma_comment_start(s: Seq<char>, m: int)
    requires
        0 <= m <= s.len(),
        forall|k: int| 0 <= k < m ==> !is_comment_mark(s[k]),
        m == s.len() || is_comment_mark(s[m]),
    ensures
        comment_start(s) == m,
    decreases m,
{
    if m > 0 {
        assert forall|k: int| 0 <= k < m - 1 implies !is_comment_mark(s.drop_first()[k]) by {
            assert(s.drop_first()[k] == s[k + 1]);
        }
        lemma_comment_start(s.drop_first(), m - 1);
    }
}

/// Operator `k`, as characters.
fn operator(k: usize) -> (op: Vec<char>)
    requires
        k < 6,
    ensures
        op@ == operators()[k as int],
{
    let op = if k == 0 {
        vec!['=', '=']
    } else if k == 1 {
        vec!['>', '=']
    } else if k == 2 {
        vec!['<', '=']
    } else if k == 3 {
        vec!['~', '=']
    } else if k == 4 {
        vec!['>']
    } else {
        vec!['<']
    };
    assert(op@ =~= operators()[k as int]);
    op
}

/// The name (lowercased) and version that the requirement `v[lo..hi]` pins.
pub fn split_requirement_in(v: &Vec<char>, lo: usize, hi: usize) -> (r: Option<(String, String)>)
    requires
        lo <= hi <= v@.len(),
    ensures
        match r {
            Some((name, version)) => split_requirement(v@.subrange(lo as int, hi as int)) == Some(
                (name@, version@),
            ),
            None => split_requirement(v@.subrange(lo as int, hi as int)) is None,
        },
{
    let ghost part = v@.subrange(lo as int, hi as int);
    let mut k: usize = 0;
    while k < 6
        invariant
            lo <= hi <= v@.len(),
            part == v@.subrange(lo as int, hi as int),
            k <= 6,
            split_requirement(part) == split_from_operator(part, k as int),
        decreases 6 - k,
    {
        let op = operator(k);
        match find_in_range(v, lo, hi, &op) {
            Some(i) => {
                let (na, nb) = trim_range(v, lo, lo + i);
                assert(v@.subrange(lo as int, lo + i) =~= part.take(i as int));
                let raw_name = string_of_range(v, na, nb);
                let name = to_lowercase(raw_name.as_str());
                let (va, vb) = trim_range(v, lo + i + op.len(), hi);
                assert(v@.subrange(lo + i + op@.len(), hi as int) =~= part.skip(i + op@.len()));
                let version = string_of_range(v, va, vb);
                if !name.as_str().is_empty() && !version.as_str().is_empty() {
                    return Some((name, version));
                }
            },
            None => {},
        }
        k = k + 1;
    }
    None
}

/// The pinned requirement on the line `v[lo..hi]`, if any.
fn requirement_on_line(v: &Vec<char>, lo: usize, hi: usize) -> (r: Option<(String, String)>)
    requires
        lo <= hi <= v@.len(),
    ensures
        match r {
            Some((name, version)) => requirement_of_line(v@.subrange(lo as int, hi as int))
                == Some((name@, version@)),
            None => requirement_of_line(v@.subrange(lo as int, hi as int)) is None,
        },
{
    let (a, b) = trim_range(v, lo, hi);
    if a == b || v[a] == '#' {
        return None;
    }
    let ghost l = v@.subrange(a as int, b as int);
    let mut c = a;
    while c < b && v[c] != '#' && v[c] != ';'
        invariant
            a <= c <= b <= v@.len(),
            forall|k: int| a <= k < c ==> !is_comment_mark(v@[k]),
        decreases b - c,
    {
        c = c + 1;
    }
    assert forall|k: int| 0 <= k < c - a implies !is_comment_mark(l[k]) by {
        assert(l[k] == v@[a + k]);
    }
    proof {
        lemma_comment_start(l, c - a);
    }
    assert(l.take(c - a) =~= v@.subrange(a as int, c as int));
    let (pa, pb) = trim_range(v, a, c);
    if pa == pb {
        return None;
    }
    split_requirement_in(v, pa, pb)
}

/// The dependencies that a `requirements.txt` pins, in the order of its lines.
/// `content` is `None` where the file could not be read; it then pins nothing.
pub fn parse_requirements_txt(filepath: &str, content: Option<&str>) -> (deps: Vec<Dependency>)
    ensures
        match content {
            Some(text) => dependency_views(deps@) == requirements_file(text@, filepath@),
            None => deps@.len() == 0,
        },
{
    let mut deps: Vec<Dependency> = Vec::new();
    let text = match content {
        Some(text) => text,
        None => return deps,
    };
    let v = chars_of(text);
    let lines = split_ranges(&v, '\n');
    let ghost all = split_on(v@, '\n');
    assert(pieces(v@, lines@).len() == lines@.len());
    let mut i: usize = 0;
    while i < lines.len()
        invariant
            v@ == text@,
            pieces(v@, lines@) == all,
            all.len() == lines@.len(),
            forall|k: int| 0 <= k < lines@.len() ==> (#[trigger] lines@[k]).0 <= lines@[k].1 <= v@.len(),
            i <= lines@.len(),
            dependency_views(deps@) == requirements_in(all.take(i as int), filepath@),
        decreases lines@.len() - i,
    {
        let (lo, hi) = lines[i];
        assert(all[i as int] == v@.subrange(lo as int, hi as int));
        assert(all.take(i + 1).drop_last() =~= all.take(i as int));
        let ghost before = dependency_views(deps@);
        match requirement_on_line(&v, lo, hi) {
            Some((name, version)) => {
                deps.push(Dependency::pypi(name, version, filepath));
                assert(dependency_views(deps@) =~= before.push(
                    pypi_dependency(name@, version@, filepath@),
                ));
            },
            None => {
                assert(dependency_views(deps@) =~= before);
            },
        }
        assert(requirements_in(all.take(i + 1), filepath@) =~= dependency_views(deps@));
        i = i + 1;
    }
    assert(all.take(lines@.len() as int) =~= all);
    deps
}

/// A requirement pins a non-empty name and a non-empty version.
pub proof fn lemma_split_requirement_pins(part: Seq<char>, k: int)
    ensures
        split_from_operator(part, k) matches Some((name, version)) ==> name.len() > 0
            && version.len() > 0,
    decreases 6 - k,
{
    if 0 <= k < 6 {
        lemma_split_requirement_pins(part, k + 1);
    }
}

/// Every dependency a requirements file yields is a Python package of that
/// file, with a non-empty name and a non-empty version.
pub proof fn lemma_requirements_pinned(lines: Seq<Seq<char>>, file: Seq<char>)
    ensures
        forall|i: int|
            0 <= i < requirements_in(lines, file).len() ==> {
                let d = #[trigger] requirements_in(lines, file)[i];
                &&& d.name.len() > 0
                &&& d.version.len() > 0
                &&& d.ecosystem == pypi()
                &&& d.file == file
            },
    decreases lines.len(),
{
    if lines.len() > 0 {
        lemma_requirements_pinned(lines.drop_last(), file);
        let l = trim(lines.last());
        if !(l.len() == 0 || l[0] == '#') {
            lemma_split_requirement_pins(trim(l.take(comment_start(l) as int)), 0);
        }
        let before = requirements_in(lines.drop_last(), file);
        assert forall|i: int| 0 <= i < requirements_in(lines, file).len() implies {
            let d = #[trigger] requirements_in(lines, file)[i];
            &&& d.name.len() > 0
            &&& d.version.len() > 0
            &&& d.ecosystem == pypi()
            &&& d.file == file
        } by {
            if i < before.len() {
                assert(requirements_in(lines, file)[i] == before[i]);
            }
        }
    }
}

/// The length of `s` without its trailing white space.
pub open spec fn trim_end_len(s: Seq<char>) -> nat
    decreases s.len(),
{
    if s.len() > 0 && is_white(s.last()) {
        trim_end_len(s.drop_last())
    } else {
        s.len()
    }
}

proof fn lemma_trim_end_shape(s: Seq<char>)
    ensures
        trim_end_len(s) <= s.len(),
        trim_end(s) == s.take(trim_end_len(s) as int),
        forall|i: int| trim_end_len(s) <= i < s.len() ==> is_white(#[trigger] s[i]),
        trim_end_len(s) == 0 || !is_white(s[trim_end_len(s) - 1]),
    decreases s.len(),
{
    if s.len() > 0 && is_white(s.last()) {
        let d = s.drop_last();
        lemma_trim_end_shape(d);
        assert(d.take(trim_end_len(d) as int) =~= s.take(trim_end_len(d) as int));
        assert forall|i: int| trim_end_len(s) <= i < s.len() implies is_white(#[trigger] s[i]) by {
            if i < d.len() {
                assert(s[i] == d[i]);
            }
        }
        if trim_end_len(d) > 0 {
            assert(s[trim_end_len(d) - 1] == d[trim_end_len(d) - 1]);
        }
    } else {
        assert(s.take(s.len() as int) =~= s);
    }
}

proof fn lemma_trim_end_white_suffix(s: Seq<char>, w: Seq<char>)
    requires
        forall|i: int| 0 <= i < w.len() ==> is_white(#[trigger] w[i]),
    ensures
        trim_end(s + w) == trim_end(s),
    decreases w.len(),
{
    if w.len() == 0 {
        assert(s + w =~= s);
    } else {
        assert((s + w).last() == w[w.len() - 1]);
        assert((s + w).drop_last() =~= s + w.drop_last());
        assert forall|i: int| 0 <= i < w.drop_last().len() implies is_white(
            #[trigger] w.drop_last()[i],
        ) by {
            assert(w.drop_last()[i] == w[i]);
        }
        lemma_trim_end_white_suffix(s, w.drop_last());
    }
}

proof fn lemma_trim_start_first(s: Seq<char>)
    ensures
        trim_start(s).len() > 0 ==> !is_white(trim_start(s)[0]),
    decreases s.len(),
{
    if s.len() > 0 && is_white(s[0]) {
        lemma_trim_start_first(s.drop_first());
    }
}

proof fn lemma_trim_start_append(x: Seq<char>, s: Seq<char>)
    requires
        s.len() > 0,
        !is_white(s[0]),
    ensures
        trim_start(x + s) == trim_start(x) + s,
    decreases x.len(),
{
    if x.len() == 0 {
        assert(x + s =~= s);
        assert(trim_start(x) + s =~= s);
    } else if is_white(x[0]) {
        assert((x + s)[0] == x[0]);
        assert((x + s).drop_first() =~= x.drop_first() + s);
        lemma_trim_start_append(x.drop_first(), s);
    } else {
        assert((x + s)[0] == x[0]);
    }
}

proof fn lemma_comment_start_props(s: Seq<char>)
    ensures
        comment_start(s) <= s.len(),
        forall|k: int| 0 <= k < comment_start(s) ==> !is_comment_mark(#[trigger] s[k]),
        comment_start(s) < s.len() ==> is_comment_mark(s[comment_start(s) as int]),
    decreases s.len(),
{
    if s.len() > 0 && !is_comment_mark(s[0]) {
        let d = s.drop_first();
        lemma_comment_start_props(d);
        assert forall|k: int| 0 <= k < comment_start(s) implies !is_comment_mark(#[trigger] s[k]) by {
            if k > 0 {
                assert(s[k] == d[k - 1]);
            }
        }
        if comment_start(s) < s.len() {
            assert(s[comment_start(s) as int] == d[comment_start(d) as int]);
        }
    }
}

proof fn lemma_comment_start_take(s: Seq<char>, m: int)
    requires
        0 <= m <= s.len(),
    ensures
        comment_start(s.take(m)) == if comment_start(s) < m {
            comment_start(s) as int
        } else {
            m
        },
{
    lemma_comment_start_props(s);
    let t = s.take(m);
    let c = if comment_start(s) < m {
        comment_start(s) as int
    } else {
        m
    };
    assert forall|k: int| 0 <= k < c implies !is_comment_mark(#[trigger] t[k]) by {
        assert(t[k] == s[k]);
    }
    if c < m {
        assert(t[c] == s[c]);
    }
    lemma_comment_start(t, c);
}

proof fn lemma_comment_start_append_mark(x: Seq<char>, s: Seq<char>)
    requires
        s.len() > 0,
        is_comment_mark(s[0]),
    ensures
        comment_start(x + s) == comment_start(x),
{
    lemma_comment_start_props(x);
    let t = x + s;
    let c = comment_start(x) as int;
    assert forall|k: int| 0 <= k < c implies !is_comment_mark(#[trigger] t[k]) by {
        assert(t[k] == x[k]);
    }
    if c < x.len() {
        assert(t[c] == x[c]);
    } else {
        assert(t[c] == s[0]);
    }
    lemma_comment_start(t, c);
}

/// The requirement on a line whose leading white space is gone.
pub open spec fn requirement_of_trimmed(x: Seq<char>) -> Option<(Seq<char>, Seq<char>)> {
    if x.len() == 0 || x[0] == '#' {
        None
    } else {
        let part = trim(x.take(comment_start(x) as int));
        if part.len() == 0 {
            None
        } else {
            split_requirement(part)
        }
    }
}

/// Trailing white space of a line plays no part in its requirement.
proof fn lemma_requirement_of_line_front(line: Seq<char>)
    ensures
        requirement_of_line(line) == requirement_of_trimmed(trim_start(line)),
{
    let x = trim_start(line);
    lemma_trim_start_first(line);
    lemma_trim_end_shape(x);
    let m = trim_end_len(x) as int;
    let l = trim(line);
    assert(l == x.take(m));
    if x.len() > 0 {
        assert(m >= 1) by {
            if m == 0 {
                assert(is_white(x[0]));
            }
        }
        assert(l[0] == x[0]);
        if x[0] != '#' {
            let c = comment_start(x) as int;
            lemma_comment_start_props(x);
            lemma_comment_start_take(x, m);
            if c <= m {
                assert(l.take(comment_start(l) as int) =~= x.take(c));
            } else {
                assert(l.take(comment_start(l) as int) =~= x.take(m));
                let w = x.subrange(m, c);
                assert(x.take(c) =~= x.take(m) + w);
                assert forall|i: int| 0 <= i < w.len() implies is_white(#[trigger] w[i]) by {
                    assert(w[i] == x[m + i]);
                }
                lemma_trim_end_white_suffix(x.take(m), w);
                assert(x.take(m)[0] == x[0]);
                assert(x.take(c)[0] == x[0]);
                assert(trim_start(x.take(m)) == x.take(m));
                assert(trim_start(x.take(c)) == x.take(c));
            }
        }
    }
}

/// A comment or an environment marker after a line leaves its requirement as it is.
pub proof fn lemma_comment_suffix_line(line: Seq<char>, suffix: Seq<char>)
    requires
        suffix.len() > 0,
        is_comment_mark(suffix[0]),
    ensures
        requirement_of_line(line + suffix) == requirement_of_line(line),
{
    lemma_requirement_of_line_front(line);
    lemma_requirement_of_line_front(line + suffix);
    lemma_trim_start_append(line, suffix);
    let x = trim_start(line);
    if x.len() == 0 {
        assert(x + suffix =~= suffix);
        if suffix[0] == ';' {
            assert(comment_start(suffix) == 0);
            assert(suffix.take(0) =~= Seq::<char>::empty());
            assert(trim(Seq::<char>::empty()) =~= Seq::<char>::empty());
        }
    } else {
        assert((x + suffix)[0] == x[0]);
        lemma_comment_start_append_mark(x, suffix);
        lemma_comment_start_props(x);
        assert((x + suffix).take(comment_start(x) as int) =~= x.take(comment_start(x) as int));
    }
}

/// Whether `s` holds none of the characters an operator ends with.
pub open spec fn free_of_operators(s: Seq<char>) -> bool {
    forall|k: int| 0 <= k < s.len() ==> #[trigger] s[k] != '=' && s[k] != '<' && s[k] != '>'
}

proof fn lemma_free_trim(s: Seq<char>)
    requires
        free_of_operators(s),
    ensures
        free_of_operators(trim_start(s)),
        free_of_operators(trim_end(s)),
        forall|m: int| 0 <= m <= s.len() ==> free_of_operators(#[trigger] s.take(m)),
    decreases s.len(),
{
    if s.len() > 0 {
        assert(free_of_operators(s.drop_first())) by {
            assert forall|k: int| 0 <= k < s.drop_first().len() implies #[trigger] s.drop_first()[k]
                != '=' && s.drop_first()[k] != '<' && s.drop_first()[k] != '>' by {
                assert(s.drop_first()[k] == s[k + 1]);
            }
        }
        assert(free_of_operators(s.drop_last())) by {
            assert forall|k: int| 0 <= k < s.drop_last().len() implies #[trigger] s.drop_last()[k]
                != '=' && s.drop_last()[k] != '<' && s.drop_last()[k] != '>' by {
                assert(s.drop_last()[k] == s[k]);
            }
        }
        lemma_free_trim(s.drop_first());
        lemma_free_trim(s.drop_last());
    }
    assert forall|m: int| 0 <= m <= s.len() implies free_of_operators(#[trigger] s.take(m)) by {
        assert forall|k: int| 0 <= k < s.take(m).len() implies #[trigger] s.take(m)[k] != '='
            && s.take(m)[k] != '<' && s.take(m)[k] != '>' by {
            assert(s.take(m)[k] == s[k]);
        }
    }
}

proof fn lemma_find_from_occurs(s: Seq<char>, pat: Seq<char>, j: int)
    ensures
        find_from(s, pat, j) matches Some(i) ==> occurs_at(s, pat, i),
    decreases s.len() + 1 - j,
{
    if !(j < 0 || j + pat.len() > s.len()) && !occurs_at(s, pat, j) {
        lemma_find_from_occurs(s, pat, j + 1);
    }
}

proof fn lemma_no_operator(part: Seq<char>, k: int)
    requires
        free_of_operators(part),
    ensures
        split_from_operator(part, k) is None,
    decreases 6 - k,
{
    if 0 <= k < 6 {
        let op = operators()[k];
        assert(op.len() > 0 && (op.last() == '=' || op.last() == '<' || op.last() == '>')) by {
            if k == 0 {
                assert(op == seq!['=', '=']);
            } else if k == 1 {
                assert(op == seq!['>', '=']);
            } else if k == 2 {
                assert(op == seq!['<', '=']);
            } else if k == 3 {
                assert(op == seq!['~', '=']);
            } else if k == 4 {
                assert(op == seq!['>']);
            } else {
                assert(op == seq!['<']);
            }
        }
        lemma_find_from_occurs(part, op, 0);
        if let Some(i) = find(part, op) {
            assert(part.subrange(i, i + op.len())[op.len() - 1] == op.last());
            assert(part[i + op.len() - 1] == op.last());
        }
        lemma_no_operator(part, k + 1);
    }
}

/// Blank lines, comment lines and lines without an operator pin nothing.
pub proof fn lemma_unpinned_lines(line: Seq<char>)
    ensures
        trim(line).len() == 0 ==> requirement_of_line(line) is None,
        trim(line).len() > 0 && trim(line)[0] == '#' ==> requirement_of_line(line) is None,
        free_of_operators(line) ==> requirement_of_line(line) is None,
{
    if free_of_operators(line) {
        lemma_free_trim(line);
        lemma_free_trim(trim_start(line));
        let l = trim(line);
        lemma_free_trim(l);
        lemma_comment_start_props(l);
        let t = l.take(comment_start(l) as int);
        lemma_free_trim(t);
        lemma_free_trim(trim_start(t));
        lemma_no_operator(trim(t), 0);
    }
}

/// The requirements of lines joined are those of each in turn.
pub proof fn lemma_requirements_in_concat(a: Seq<Seq<char>>, b: Seq<Seq<char>>, file: Seq<char>)
    ensures
        requirements_in(a + b, file) == requirements_in(a, file) + requirements_in(b, file),
    decreases b.len(),
{
    if b.len() == 0 {
        assert(a + b =~= a);
        assert(requirements_in(a, file) + requirements_in(b, file) =~= requirements_in(a, file));
    } else {
        assert((a + b).drop_last() =~= a + b.drop_last());
        assert((a + b).last() == b.last());
        lemma_requirements_in_concat(a, b.drop_last(), file);
        assert(requirements_in(a + b, file) =~= requirements_in(a, file) + requirements_in(
            b,
            file,
        ));
    }
}

proof fn lemma_requirements_in_one(l: Seq<char>, file: Seq<char>)
    ensures
        requirements_in(seq![l], file) == match requirement_of_line(l) {
            Some((name, version)) => seq![pypi_dependency(name, version, file)],
            None => Seq::<DependencyView>::empty(),
        },
{
    assert(seq![l].drop_last() =~= Seq::<Seq<char>>::empty());
    assert(seq![l].last() == l);
    assert(requirements_in(Seq::<Seq<char>>::empty(), file) =~= Seq::<DependencyView>::empty());
}

/// Two lines with the same requirement give the same requirements wherever
/// they stand in a file.
pub proof fn lemma_equivalent_lines(
    a: Seq<char>,
    l1: Seq<char>,
    l2: Seq<char>,
    b: Seq<char>,
    file: Seq<char>,
)
    requires
        !l1.contains('\n'),
        !l2.contains('\n'),
        requirement_of_line(l1) == requirement_of_line(l2),
    ensures
        requirements_file(a + seq!['\n'] + l1 + seq!['\n'] + b, file) == requirements_file(
            a + seq!['\n'] + l2 + seq!['\n'] + b,
            file,
        ),
        requirements_file(a + seq!['\n'] + l1, file) == requirements_file(a + seq!['\n'] + l2, file),
        requirements_file(l1 + seq!['\n'] + b, file) == requirements_file(l2 + seq!['\n'] + b, file),
        requirements_file(l1, file) == requirements_file(l2, file),
{
    lemma_split_on_single(l1, '\n');
    lemma_split_on_single(l2, '\n');
    lemma_requirements_in_one(l1, file);
    lemma_requirements_in_one(l2, file);
    let sa = split_on(a, '\n');
    let sb = split_on(b, '\n');
    lemma_split_on_join(a, '\n', l1);
    lemma_split_on_join(a, '\n', l2);
    lemma_split_on_join(l1, '\n', b);
    lemma_split_on_join(l2, '\n', b);
    lemma_split_on_join(a + seq!['\n'] + l1, '\n', b);
    lemma_split_on_join(a + seq!['\n'] + l2, '\n', b);
    lemma_requirements_in_concat(sa, seq![l1], file);
    lemma_requirements_in_concat(sa, seq![l2], file);
    lemma_requirements_in_concat(seq![l1], sb, file);
    lemma_requirements_in_concat(seq![l2], sb, file);
    lemma_requirements_in_concat(sa + seq![l1], sb, file);
    lemma_requirements_in_concat(sa + seq![l2], sb, file);
}

/// A line that pins nothing (blank, a comment, or without an operator; see
/// [`lemma_unpinned_lines`]) can be added anywhere in a requirements file
/// without changing what it pins.
pub proof fn lemma_unpinned_line_added(a: Seq<char>, l: Seq<char>, b: Seq<char>, file: Seq<char>)
    requires
        !l.contains('\n'),
        requirement_of_line(l) is None,
    ensures
        requirements_file(a + seq!['\n'] + l + seq!['\n'] + b, file) == requirements_file(
            a + seq!['\n'] + b,
            file,
        ),
        requirements_file(a + seq!['\n'] + l, file) == requirements_file(a, file),
        requirements_file(l + seq!['\n'] + b, file) == requirements_file(b, file),
{
    lemma_split_on_single(l, '\n');
    lemma_requirements_in_one(l, file);
    let sa = split_on(a, '\n');
    let sb = split_on(b, '\n');
    lemma_split_on_join(a, '\n', l);
    lemma_split_on_join(a, '\n', b);
    lemma_split_on_join(l, '\n', b);
    lemma_split_on_join(a + seq!['\n'] + l, '\n', b);
    lemma_requirements_in_concat(sa, seq![l], file);
    lemma_requirements_in_concat(seq![l], sb, file);
    lemma_requirements_in_concat(sa + seq![l], sb, file);
    lemma_requirements_in_concat(sa, sb, file);
    assert(requirements_in(sa, file) + Seq::<DependencyView>::empty() =~= requirements_in(sa, file));
    assert(Seq::<DependencyView>::empty() + requirements_in(sb, file) =~= requirements_in(sb, file));
}

/// An inline comment (`# ...`) or environment marker (`; ...`) added to a
/// line leaves what a requirements file pins as it is.
pub proof fn lemma_comment_suffix_added(
    a: Seq<char>,
    l: Seq<char>,
    suffix: Seq<char>,
    b: Seq<char>,
    file: Seq<char>,
)
    requires
        !l.contains('\n'),
        !suffix.contains('\n'),
        suffix.len() > 0,
        is_comment_mark(suffix[0]),
    ensures
        requirements_file(a + seq!['\n'] + (l + suffix) + seq!['\n'] + b, file)
            == requirements_file(a + seq!['\n'] + l + seq!['\n'] + b, file),
        requirements_file(a + seq!['\n'] + (l + suffix), file) == requirements_file(
            a + seq!['\n'] + l,
            file,
        ),
        requirements_file((l + suffix) + seq!['\n'] + b, file) == requirements_file(
            l + seq!['\n'] + b,
            file,
        ),
        requirements_file(l + suffix, file) == requirements_file(l, file),
{
    lemma_comment_suffix_line(l, suffix);
    assert(!(l + suffix).contains('\n')) by {
        if (l + suffix).contains('\n') {
            let k = choose|k: int| 0 <= k < (l + suffix).len() && (l + suffix)[k] == '\n';
            if k < l.len() {
                assert(l[k] == '\n');
            } else {
                assert(suffix[k - l.len()] == '\n');
            }
        }
    }
    lemma_equivalent_lines(a, l + suffix, l, b, file);
}

proof fn lemma_find_from_first(s: Seq<char>, pat: Seq<char>, j: int, i: int)
    requires
        0 <= j <= i,
        occurs_at(s, pat, i),
        forall|k: int| j <= k < i ==> !occurs_at(s, pat, k),
    ensures
        find_from(s, pat, j) == Some(i),
    decreases i - j,
{
    if j < i {
        lemma_find_from_first(s, pat, j + 1, i);
    }
}

/// Where a pattern ending in `=`, `<` or `>` occurs in `n + op + v`, with `n`
/// and `v` free of those characters, its last character falls within `op`.
proof fn lemma_occurrence_in_joined(
    n: Seq<char>,
    op: Seq<char>,
    v: Seq<char>,
    pat: Seq<char>,
    i: int,
)
    requires
        free_of_operators(n),
        free_of_operators(v),
        occurs_at(n + op + v, pat, i),
        pat.len() > 0,
        pat.last() == '=' || pat.last() == '<' || pat.last() == '>',
    ensures
        n.len() <= i + pat.len() - 1 < n.len() + op.len(),
        forall|t: int| 0 <= t < pat.len() ==> #[trigger] (n + op + v)[i + t] == pat[t],
{
    let s = n + op + v;
    assert forall|t: int| 0 <= t < pat.len() implies #[trigger] s[i + t] == pat[t] by {
        assert(s.subrange(i, i + pat.len())[t] == s[i + t]);
    }
    let j = i + pat.len() - 1;
    assert(s[j] == pat[pat.len() - 1]);
    if j < n.len() {
        assert(s[j] == n[j]);
    }
    if j >= n.len() + op.len() {
        assert(s[j] == v[j - n.len() - op.len()]);
    }
}

proof fn lemma_operators_listed()
    ensures
        operators()[0] == seq!['=', '='],
        operators()[1] == seq!['>', '='],
        operators()[2] == seq!['<', '='],
        operators()[3] == seq!['~', '='],
        operators()[4] == seq!['>'],
        operators()[5] == seq!['<'],
{
}

proof fn lemma_skip_operators(part: Seq<char>, j: int, k: int)
    requires
        0 <= j <= k <= 6,
        forall|x: int| j <= x < k ==> find(part, #[trigger] operators()[x]) is None,
    ensures
        split_from_operator(part, j) == split_from_operator(part, k),
    decreases k - j,
{
    if j < k {
        lemma_skip_operators(part, j + 1, k);
    }
}

proof fn lemma_operator_pin_at(n: Seq<char>, v: Seq<char>, k: int)
    requires
        0 <= k < 6,
        free_of_operators(n),
        free_of_operators(v),
        lowercase(trim(n)).len() > 0,
        trim(v).len() > 0,
    ensures
        split_requirement(n + operators()[k] + v) == Some((lowercase(trim(n)), trim(v))),
{
    lemma_operators_listed();
    let op = operators()[k];
    let s = n + op + v;
    assert forall|x: int| 0 <= x < k implies find(s, #[trigger] operators()[x]) is None by {
        let pat = operators()[x];
        assert forall|i: int| !occurs_at(s, pat, i) by {
            if occurs_at(s, pat, i) {
                lemma_occurrence_in_joined(n, op, v, pat, i);
                assert(s[i] == pat[0]);
                assert(s[i + pat.len() - 1] == pat[pat.len() - 1]);
            }
        }
        lemma_find_from_occurs(s, pat, 0);
    }
    lemma_skip_operators(s, 0, k);
    assert(s.subrange(n.len() as int, n.len() as int + op.len()) =~= op);
    assert forall|i: int| 0 <= i < n.len() implies !occurs_at(s, op, i) by {
        if occurs_at(s, op, i) {
            lemma_occurrence_in_joined(n, op, v, op, i);
            assert(s[i] == op[0]);
            assert(s[i + op.len() - 1] == op[op.len() - 1]);
        }
    }
    lemma_find_from_first(s, op, 0, n.len() as int);
    assert(s.take(n.len() as int) =~= n);
    assert(s.skip(n.len() as int + op.len()) =~= v);
}

/// A requirement `name OP version`, with name and version free of `=`, `<`
/// and `>`, pins the trimmed version under the lowercased trimmed name, for
/// each of the six operators: a two-character operator is never cut short by
/// its one-character prefix, so the version never begins with `=`.
pub proof fn lemma_operator_pins(n: Seq<char>, v: Seq<char>)
    requires
        free_of_operators(n),
        free_of_operators(v),
        lowercase(trim(n)).len() > 0,
        trim(v).len() > 0,
    ensures
        split_requirement(n + seq!['=', '='] + v) == Some((lowercase(trim(n)), trim(v))),
        split_requirement(n + seq!['>', '='] + v) == Some((lowercase(trim(n)), trim(v))),
        split_requirement(n + seq!['<', '='] + v) == Some((lowercase(trim(n)), trim(v))),
        split_requirement(n + seq!['~', '='] + v) == Some((lowercase(trim(n)), trim(v))),
        split_requirement(n + seq!['>'] + v) == Some((lowercase(trim(n)), trim(v))),
        split_requirement(n + seq!['<'] + v) == Some((lowercase(trim(n)), trim(v))),
{
    lemma_operators_listed();
    lemma_operator_pin_at(n, v, 0);
    lemma_operator_pin_at(n, v, 1);
    lemma_operator_pin_at(n, v, 2);
    lemma_operator_pin_at(n, v, 3);
    lemma_operator_pin_at(n, v, 4);
    lemma_operator_pin_at(n, v, 5);
}

/// Whether `s` holds no `#`, `;` or line break.
pub open spec fn plain_text(s: Seq<char>) -> bool {
    forall|k: int| 0 <= k < s.len() ==> #[trigger] s[k] != '#' && s[k] != ';' && s[k] != '\n'
}

/// Whether `s` is non-empty and neither begins nor ends with white space.
pub open spec fn tight(s: Seq<char>) -> bool {
    s.len() > 0 && !is_white(s[0]) && !is_white(s.last())
}

proof fn lemma_tight_trim(s: Seq<char>)
    requires
        tight(s),
    ensures
        trim_start(s) == s,
        trim_end(s) == s,
        trim(s) == s,
{
}

proof fn lemma_pinned_line_at(n: Seq<char>, v: Seq<char>, k: int, file: Seq<char>)
    requires
        0 <= k < 6,
        free_of_operators(n),
        free_of_operators(v),
        plain_text(n),
        plain_text(v),
        tight(n),
        tight(v),
        lowercase(n).len() > 0,
    ensures
        requirements_file(n + operators()[k] + v, file) == seq![pypi_dependency(lowercase(n), v, file)],
{
    lemma_operators_listed();
    let op = operators()[k];
    let line = n + op + v;
    lemma_tight_trim(n);
    lemma_tight_trim(v);
    assert(op.len() >= 1);
    assert(op[0] == '=' || op[0] == '<' || op[0] == '>' || op[0] == '~');
    assert(op.len() == 2 ==> op[1] == '=');
    assert forall|i: int| 0 <= i < line.len() implies #[trigger] line[i] != '\n' && !is_comment_mark(
        line[i],
    ) by {
        if i < n.len() {
            assert(line[i] == n[i]);
        } else if i < n.len() + op.len() {
            assert(line[i] == op[i - n.len()]);
        } else {
            assert(line[i] == v[i - n.len() - op.len()]);
        }
    }
    assert(!line.contains('\n'));
    lemma_split_on_single(line, '\n');
    lemma_requirements_in_one(line, file);
    assert(line[0] == n[0]);
    assert(line.last() == v.last());
    assert(trim_start(line) == line);
    assert(trim_end(line) == line);
    assert(trim(line) == line);
    lemma_comment_start(line, line.len() as int);
    assert(line.take(line.len() as int) =~= line);
    lemma_operator_pin_at(n, v, k);
}

/// A line `name OP version` of a requirements file, for each of the six
/// operators, with name and version free of `=`, `<`, `>`, `#`, `;` and line
/// breaks and without surrounding white space, pins exactly `version` under
/// the lowercased `name`.
pub proof fn lemma_pinned_line(n: Seq<char>, v: Seq<char>, file: Seq<char>)
    requires
        free_of_operators(n),
        free_of_operators(v),
        plain_text(n),
        plain_text(v),
        tight(n),
        tight(v),
        lowercase(n).len() > 0,
    ensures
        requirements_file(n + seq!['=', '='] + v, file) == seq![pypi_dependency(lowercase(n), v, file)],
        requirements_file(n + seq!['>', '='] + v, file) == seq![pypi_dependency(lowercase(n), v, file)],
        requirements_file(n + seq!['<', '='] + v, file) == seq![pypi_dependency(lowercase(n), v, file)],
        requirements_file(n + seq!['~', '='] + v, file) == seq![pypi_dependency(lowercase(n), v, file)],
        requirements_file(n + seq!['>'] + v, file) == seq![pypi_dependency(lowercase(n), v, file)],
        requirements_file(n + seq!['<'] + v, file) == seq![pypi_dependency(lowercase(n), v, file)],
{
    lemma_operators_listed();
    lemma_pinned_line_at(n, v, 0, file);
    lemma_pinned_line_at(n, v, 1, file);
    lemma_pinned_line_at(n, v, 2, file);
    lemma_pinned_line_at(n, v, 3, file);
    lemma_pinned_line_at(n, v, 4, file);
    lemma_pinned_line_at(n, v, 5, file);
}

} // verus!
