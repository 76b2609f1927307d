//! From dependencies and the vulnerabilities found for their packages to the
//! matches a scan reports.
use vstd::prelude::*;
use vstd::string::*;

use crate::dependency::{dependency_views, Dependency, DependencyView};
use crate::osv::{extract_fixed_version, fixed_version, resolve_severity, severity_of, OsvVulnerability};

verus! {

/// A vulnerability that affects a dependency of the scanned project.
#[derive(Debug, Clone, PartialEq)]
pub struct VulnerabilityMatch {
    pub dependency: String,
    pub version: String,
    pub vulnerability_id: String,
    pub severity: String,
    pub summary: String,
    pub file: String,
    pub fixed_version: Option<String>,
}

/// The text of each field of a [`VulnerabilityMatch`].
pub struct MatchView {
    pub dependency: Seq<char>,
    pub version: Seq<char>,
    pub vulnerability_id: Seq<char>,
    pub severity: Seq<char>,
    pub summary: Seq<char>,
    pub file: Seq<char>,
    pub fixed_version: Option<Seq<char>>,
}

impl View for VulnerabilityMatch {
    type V = MatchView;

    open spec fn view(&self) -> MatchView {
        MatchView {
            dependency: self.dependency@,
            version: self.version@,
            vulnerability_id: self.vulnerability_id@,
            severity: self.severity@,
            summary: self.summary@,
            file: self.file@,
            fixed_version: match self.fixed_version {
                Some(f) => Some(f@),
                None => None,
            },
        }
    }
}

/// The views of a sequence of matches.
pub open spec fn match_views(ms: Seq<VulnerabilityMatch>) -> Seq<MatchView> {
    ms.map_values(|m: VulnerabilityMatch| m@)
}

/// A vulnerability with the base score, in tenths rounded up, of its first
/// CVSS v3 vector (`0` where it has none).
#[derive(Debug, Clone, PartialEq)]
pub struct ScoredVulnerability {
    pub vulnerability: OsvVulnerability,
    pub cvss_score_tenths: u64,
}

/// A package version of an ecosystem, as OSV is asked about it.
#[derive(Debug, Clone, PartialEq, Eq)]
pub struct PackageQuery {
    pub name: String,
    pub version: String,
    pub ecosystem: String,
}

/// A package version of an ecosystem: name, version, ecosystem.
pub type QueryKey = (Seq<char>, Seq<char>, Seq<char>);

impl View for PackageQuery {
    type V = QueryKey;

    open spec fn view(&self) -> QueryKey {
        (self.name@, self.version@, self.ecosystem@)
    }
}

/// The package version a dependency pins.
pub open spec fn key_of(d: DependencyView) -> QueryKey {
    (d.name, d.version, d.ecosystem)
}

/// The keys of a sequence of queries.
pub open spec fn query_keys(qs: Seq<PackageQuery>) -> Seq<QueryKey> {
    qs.map_values(|q: PackageQuery| q@)
}

/// The package versions that `deps` pin, each once, in the order of their
/// first occurrence.
pub open spec fn distinct_keys(deps: Seq<DependencyView>) -> Seq<QueryKey>
    decreases deps.len(),
{
    if deps.len() == 0 {
        seq![]
    } else {
        let before = distinct_keys(deps.drop_last());
        if before.contains(key_of(deps.last())) {
            before
        } else {
            before.push(key_of(deps.last()))
        }
    }
}

/// What a match of `dep` with the vulnerability `v` reports.
pub open spec fn match_of(dep: DependencyView, v: OsvVulnerability, cvss_score_tenths: nat) -> MatchView {
    MatchView {
        dependency: dep.name,
        version: dep.version,
        vulnerability_id: v.id@,
        severity: severity_of(v, cvss_score_tenths),
        summary: match v.summary {
            Some(s) => s@,
            None => seq![],
        },
        file: dep.file,
        fixed_version: fixed_version(v),
    }
}

/// The matches of `dep` with each of `found`, in order.
pub open spec fn matches_of(dep: DependencyView, found: Seq<ScoredVulnerability>) -> Seq<MatchView>
    decreases found.len(),
{
    if found.len() == 0 {
        seq![]
    } else {
        let sv = found.last();
        matches_of(dep, found.drop_last()).push(
            match_of(dep, sv.vulnerability, sv.cvss_score_tenths as nat),
        )
    }
}

/// The position of the first query for `key`.
pub open spec fn query_index(keys: Seq<QueryKey>, key: QueryKey) -> Option<int>
    decreases keys.len(),
{
    if keys.len() == 0 {
        None
    } else if keys[0] == key {
        Some(0)
    } else {
        match query_index(keys.drop_first(), key) {
            Some(i) => Some(i + 1),
            None => None,
        }
    }
}

/// The matches of each of `deps` with what was found for its package: the
/// dependencies in order, each with the vulnerabilities found for the query
/// of its package, in the order they were found.
pub open spec fn assembled(
    deps: Seq<DependencyView>,
    keys: Seq<QueryKey>,
    found: Seq<Vec<ScoredVulnerability>>,
) -> Seq<MatchView>
    decreases deps.len(),
{
    if deps.len() == 0 {
        seq![]
    } else {
        let dep = deps.last();
        let here = match query_index(keys, key_of(dep)) {
            Some(j) => if 0 <= j < found.len() {
                matches_of(dep, found[j]@)
            } else {
                seq![]
            },
            None => seq![],
        };
        assembled(deps.drop_last(), keys, found) + here
    }
}

/// `distinct_keys(deps)` holds no key twice, and holds the key of each of `deps` and no other.
pub proof fn lemma_distinct_keys(deps: Seq<DependencyView>)
    ensures
        distinct_keys(deps).no_duplicates(),
        forall|k: QueryKey|
            distinct_keys(deps).contains(k) <==> exists|i: int|
                0 <= i < deps.len() && key_of(#[trigger] deps[i]) == k,
    decreases deps.len(),
{
    if deps.len() > 0 {
        let rest = deps.drop_last();
        lemma_distinct_keys(rest);
        let before = distinct_keys(rest);
        assert forall|k: QueryKey|
            distinct_keys(deps).contains(k) <==> exists|i: int|
                0 <= i < deps.len() && key_of(#[trigger] deps[i]) == k by {
            if distinct_keys(deps).contains(k) {
                if before.contains(k) {
                    let i = choose|i: int| 0 <= i < rest.len() && key_of(#[trigger] rest[i]) == k;
                    assert(deps[i] == rest[i]);
                } else {
                    let n = before.len() as int;
                    assert(distinct_keys(deps) == before.push(key_of(deps.last())));
                    let j = choose|j: int|
                        0 <= j < distinct_keys(deps).len() && distinct_keys(deps)[j] == k;
                    assert(j == n);
                    assert(key_of(deps[deps.len() - 1]) == k);
                }
            }
            if exists|i: int| 0 <= i < deps.len() && key_of(#[trigger] deps[i]) == k {
                let i = choose|i: int| 0 <= i < deps.len() && key_of(#[trigger] deps[i]) == k;
                if i < deps.len() - 1 {
                    assert(rest[i] == deps[i]);
                    assert(before.contains(k));
                    if !before.contains(key_of(deps.last())) {
                        let j = choose|j: int| 0 <= j < before.len() && before[j] == k;
                        assert(before.push(key_of(deps.last()))[j] == k);
                    }
                } else {
                    if !before.contains(key_of(deps.last())) {
                        assert(before.push(key_of(deps.last()))[before.len() as int] == k);
                    }
                }
            }
        }
        if !before.contains(key_of(deps.last())) {
            let s = before.push(key_of(deps.last()));
            assert forall|a: int, b: int| 0 <= a < s.len() && 0 <= b < s.len() && a != b implies s[a]
                != s[b] by {
                if a < before.len() && b < before.len() {
                } else if a == before.len() {
                    assert(s[b] == before[b]);
                } else {
                    assert(s[a] == before[a]);
                }
            }
        }
    }
}

/// Whether `queries` holds a query for `key`.
fn has_query(queries: &Vec<PackageQuery>, d: &Dependency) -> (r: bool)
    ensures
        r == query_keys(queries@).contains(key_of(d@)),
{
    let mut i: usize = 0;
    while i < queries.len()
        invariant
            i <= queries@.len(),
            forall|k: int| 0 <= k < i ==> query_keys(queries@)[k] != key_of(d@),
        decreases queries@.len() - i,
    {
        let q = &queries[i];
        if q.name == d.name && q.version == d.version && q.ecosystem == d.ecosystem {
            assert(query_keys(queries@)[i as int] == key_of(d@));
            return true;
        }
        i = i + 1;
    }
    false
}

/// The package versions that `deps` pin, each queried once, in the order of
/// first occurrence: no query occurs twice, and each dependency's package
/// version has its query.
pub fn unique_queries(deps: &Vec<Dependency>) -> (queries: Vec<PackageQuery>)
    ensures
        query_keys(queries@) == distinct_keys(dependency_views(deps@)),
        query_keys(queries@).no_duplicates(),
        forall|k: QueryKey|
            query_keys(queries@).contains(k) <==> exists|i: int|
                0 <= i < deps@.len() && key_of(#[trigger] deps@[i]@) == k,
{
    let mut queries: Vec<PackageQuery> = Vec::new();
    let ghost views = dependency_views(deps@);
    let mut i: usize = 0;
    while i < deps.len()
        invariant
            i <= deps@.len(),
            views == dependency_views(deps@),
            query_keys(queries@) == distinct_keys(views.take(i as int)),
        decreases deps@.len() - i,
    {
        assert(views.take(i + 1).drop_last() =~= views.take(i as int));
        assert(views.take(i + 1).last() == deps@[i as int]@);
        let d = &deps[i];
        if !has_query(&queries, d) {
            let ghost before = query_keys(queries@);
            queries.push(
                PackageQuery {
                    name: d.name.clone(),
                    version: d.version.clone(),
                    ecosystem: d.ecosystem.clone(),
                },
            );
            assert(query_keys(queries@) =~= before.push(key_of(d@)));
        }
        i = i + 1;
    }
    assert(views.take(deps@.len() as int) =~= views);
    proof {
        lemma_distinct_keys(views);
        assert forall|k: QueryKey|
            query_keys(queries@).contains(k) <==> exists|i: int|
                0 <= i < deps@.len() && key_of(#[trigger] deps@[i]@) == k by {
            if exists|i: int| 0 <= i < deps@.len() && key_of(#[trigger] deps@[i]@) == k {
                let i = choose|i: int| 0 <= i < deps@.len() && key_of(#[trigger] deps@[i]@) == k;
                assert(views[i] == deps@[i]@);
            }
            if query_keys(queries@).contains(k) {
                let i = choose|i: int| 0 <= i < views.len() && key_of(#[trigger] views[i]) == k;
                assert(views[i] == deps@[i]@);
            }
        }
    }
    queries
}

/// What a match of `dep` with `sv` reports.
pub fn match_for(dep: &Dependency, sv: &ScoredVulnerability) -> (m: VulnerabilityMatch)
    ensures
        m@ == match_of(dep@, sv.vulnerability, sv.cvss_score_tenths as nat),
{
    let v = &sv.vulnerability;
    let summary = match &v.summary {
        Some(s) => s.clone(),
        None => String::new(),
    };
    VulnerabilityMatch {
        dependency: dep.name.clone(),
        version: dep.version.clone(),
        vulnerability_id: v.id.clone(),
        severity: resolve_severity(v, sv.cvss_score_tenths),
        summary,
        file: dep.file.clone(),
        fixed_version: extract_fixed_version(v),
    }
}

/// The matches of `dep` with each of `found`, in order.
pub fn matches_for(dep: &Dependency, found: &Vec<ScoredVulnerability>) -> (ms: Vec<VulnerabilityMatch>)
    ensures
        match_views(ms@) == matches_of(dep@, found@),
{
    let mut ms: Vec<VulnerabilityMatch> = Vec::new();
    let mut i: usize = 0;
    while i < found.len()
        invariant
            i <= found@.len(),
            match_views(ms@) == matches_of(dep@, found@.take(i as int)),
        decreases found@.len() - i,
    {
        assert(found@.take(i + 1).drop_last() =~= found@.take(i as int));
        let ghost before = match_views(ms@);
        let m = match_for(dep, &found[i]);
        ms.push(m);
        assert(match_views(ms@) =~= before.push(m@));
        i = i + 1;
    }
    assert(found@.take(found@.len() as int) =~= found@);
    ms
}

/// The position of the query for the package version `d` pins.
fn query_position(queries: &Vec<PackageQuery>, d: &Dependency) -> (r: Option<usize>)
    ensures
        match r {
            Some(j) => query_index(query_keys(queries@), key_of(d@)) == Some(j as int),
            None => query_index(query_keys(queries@), key_of(d@)) is None,
        },
{
    let ghost keys = query_keys(queries@);
    let mut i: usize = 0;
    assert(keys.skip(0) =~= keys);
    while i < queries.len()
        invariant
            i <= queries@.len(),
            keys == query_keys(queries@),
            forall|k: int| 0 <= k < i ==> keys[k] != key_of(d@),
            query_index(keys, key_of(d@)) == match query_index(keys.skip(i as int), key_of(d@)) {
                Some(j) => Some(j + i),
                None => None,
            },
        decreases queries@.len() - i,
    {
        assert(keys.skip(i as int).drop_first() =~= keys.skip(i + 1));
        let q = &queries[i];
        if q.name == d.name && q.version == d.version && q.ecosystem == d.ecosystem {
            assert(keys.skip(i as int)[0] == key_of(d@));
            return Some(i);
        }
        i = i + 1;
    }
    None
}

/// The matches a scan reports: each dependency, in order, with each
/// vulnerability found for the query of its package version, in the order
/// found. `found[j]` holds what was found for `queries[j]`; a query with no
/// such entry found nothing.
pub fn assemble_matches(
    deps: &Vec<Dependency>,
    queries: &Vec<PackageQuery>,
    found: &Vec<Vec<ScoredVulnerability>>,
) -> (ms: Vec<VulnerabilityMatch>)
    ensures
        match_views(ms@) == assembled(dependency_views(deps@), query_keys(queries@), found@),
{
    let mut ms: Vec<VulnerabilityMatch> = Vec::new();
    let ghost views = dependency_views(deps@);
    let ghost keys = query_keys(queries@);
    let mut i: usize = 0;
    while i < deps.len()
        invariant
            i <= deps@.len(),
            views == dependency_views(deps@),
            keys == query_keys(queries@),
            match_views(ms@) == assembled(views.take(i as int), keys, found@),
        decreases deps@.len() - i,
    {
        assert(views.take(i + 1).drop_last() =~= views.take(i as int));
        assert(views.take(i + 1).last() == deps@[i as int]@);
        let ghost before = match_views(ms@);
        let d = &deps[i];
        match query_position(queries, d) {
            Some(j) if j < found.len() => {
                let mut here = matches_for(d, &found[j]);
                let ghost added = match_views(here@);
                ms.append(&mut here);
                assert(match_views(ms@) =~= before + added);
            },
            _ => {
                assert(match_views(ms@) =~= before + seq![]);
            },
        }
        i = i + 1;
    }
    assert(views.take(deps@.len() as int) =~= views);
    ms
}

/// The key `name@version` under which a dependency's package is looked up once.
pub open spec fn package_key(d: DependencyView) -> Seq<char> {
    d.name + "@"@ + d.version
}

/// Whether some dependency among `deps` has the key `key`.
pub open spec fn has_package_key(deps: Seq<DependencyView>, key: Seq<char>) -> bool {
    exists|i: int| 0 <= i < deps.len() && package_key(#[trigger] deps[i]) == key
}

/// The first dependency of `deps` with each key `name@version`, in order.
pub open spec fn first_per_package(deps: Seq<DependencyView>) -> Seq<DependencyView>
    decreases deps.len(),
{
    if deps.len() == 0 {
        seq![]
    } else {
        let before = first_per_package(deps.drop_last());
        if has_package_key(before, package_key(deps.last())) {
            before
        } else {
            before.push(deps.last())
        }
    }
}

/// The key `name@version` of `d`.
fn package_key_of(d: &Dependency) -> (k: String)
    ensures
        k@ == package_key(d@),
{
    let mut k = d.name.clone();
    k.append("@");
    k.append(d.version.as_str());
    k
}

/// The first dependency of `deps` with each key `name@version`, in order:
/// no two of them share a key, and every dependency's key is among theirs.
pub fn unique_by_name_and_version(deps: &Vec<Dependency>) -> (unique: Vec<Dependency>)
    ensures
        dependency_views(unique@) == first_per_package(dependency_views(deps@)),
        forall|a: int, b: int|
            0 <= a < b < unique@.len() ==> package_key(#[trigger] unique@[a]@) != package_key(
                #[trigger] unique@[b]@,
            ),
        forall|i: int|
            0 <= i < deps@.len() ==> has_package_key(
                dependency_views(unique@),
                package_key(#[trigger] deps@[i]@),
            ),
{
    let mut unique: Vec<Dependency> = Vec::new();
    let ghost views = dependency_views(deps@);
    let mut i: usize = 0;
    while i < deps.len()
        invariant
            i <= deps@.len(),
            views == dependency_views(deps@),
            dependency_views(unique@) == first_per_package(views.take(i as int)),
            forall|a: int, b: int|
                0 <= a < b < unique@.len() ==> package_key(#[trigger] unique@[a]@) != package_key(
                    #[trigger] unique@[b]@,
                ),
            forall|j: int|
                0 <= j < i ==> has_package_key(
                    dependency_views(unique@),
                    package_key(#[trigger] deps@[j]@),
                ),
        decreases deps@.len() - i,
    {
        assert(views.take(i + 1).drop_last() =~= views.take(i as int));
        assert(views.take(i + 1).last() == deps@[i as int]@);
        let key = package_key_of(&deps[i]);
        let mut found = false;
        let mut j: usize = 0;
        while j < unique.len()
            invariant
                j <= unique@.len(),
                key@ == package_key(deps@[i as int]@),
                found ==> has_package_key(dependency_views(unique@), key@),
                !found ==> forall|k: int| 0 <= k < j ==> package_key(#[trigger] unique@[k]@) != key@,
            decreases unique@.len() - j,
        {
            if package_key_of(&unique[j]) == key {
                assert(dependency_views(unique@)[j as int] == unique@[j as int]@);
                found = true;
            }
            j = j + 1;
        }
        let ghost before = dependency_views(unique@);
        if !found {
            assert forall|k: int| 0 <= k < before.len() implies package_key(#[trigger] before[k])
                != key@ by {
                assert(before[k] == unique@[k]@);
            }
            let copy = deps[i].duplicate();
            unique.push(copy);
            assert(dependency_views(unique@) =~= before.push(deps@[i as int]@));
            assert(dependency_views(unique@)[before.len() as int] == deps@[i as int]@);
        }
        assert forall|j: int|
            0 <= j < i + 1 implies has_package_key(
            dependency_views(unique@),
            package_key(#[trigger] deps@[j]@),
        ) by {
            if j < i {
                let w = choose|w: int|
                    0 <= w < before.len() && package_key(#[trigger] before[w]) == package_key(
                        deps@[j]@,
                    );
                assert(dependency_views(unique@)[w] == before[w]);
            } else if !found {
                assert(dependency_views(unique@)[before.len() as int] == deps@[i as int]@);
            }
        }
        i = i + 1;
    }
    assert(views.take(deps@.len() as int) =~= views);
    unique
}

/// A dependency meets each vulnerability found for its package once, in the
/// order found.
pub proof fn lemma_matches_of_each(dep: DependencyView, found: Seq<ScoredVulnerability>)
    ensures
        matches_of(dep, found).len() == found.len(),
        forall|t: int|
            0 <= t < found.len() ==> #[trigger] matches_of(dep, found)[t] == match_of(
                dep,
                found[t].vulnerability,
                found[t].cvss_score_tenths as nat,
            ),
    decreases found.len(),
{
    if found.len() > 0 {
        lemma_matches_of_each(dep, found.drop_last());
        assert forall|t: int| 0 <= t < found.len() implies #[trigger] matches_of(dep, found)[t]
            == match_of(dep, found[t].vulnerability, found[t].cvss_score_tenths as nat) by {
            if t < found.len() - 1 {
                assert(found.drop_last()[t] == found[t]);
            }
        }
    }
}

/// The matches of dependencies joined are those of each in turn.
pub proof fn lemma_assembled_concat(
    a: Seq<DependencyView>,
    b: Seq<DependencyView>,
    keys: Seq<QueryKey>,
    found: Seq<Vec<ScoredVulnerability>>,
)
    ensures
        assembled(a + b, keys, found) == assembled(a, keys, found) + assembled(b, keys, found),
    decreases b.len(),
{
    if b.len() == 0 {
        assert(a + b =~= a);
        assert(assembled(a, keys, found) + assembled(b, keys, found) =~= assembled(a, keys, found));
    } else {
        assert((a + b).drop_last() =~= a + b.drop_last());
        assert((a + b).last() == b.last());
        lemma_assembled_concat(a, b.drop_last(), keys, found);
        assert(assembled(a + b, keys, found) =~= assembled(a, keys, found) + assembled(
            b,
            keys,
            found,
        ));
    }
}

/// The query of a package version is the first one with its key.
pub proof fn lemma_query_index_first(keys: Seq<QueryKey>, key: QueryKey, j: int)
    requires
        0 <= j < keys.len(),
        keys[j] == key,
        forall|x: int| 0 <= x < j ==> keys[x] != key,
    ensures
        query_index(keys, key) == Some(j),
    decreases j,
{
    if j > 0 {
        let d = keys.drop_first();
        assert(keys[0] != key);
        assert forall|x: int| 0 <= x < j - 1 implies d[x] != key by {
            assert(d[x] == keys[x + 1]);
        }
        lemma_query_index_first(d, key, j - 1);
    }
}

/// Every occurrence of a dependency is reported, with its own file, with
/// each vulnerability found for the query of its package version: the
/// matches of `deps` hold, at the place of `deps[i]`, its match with each of
/// `found[j]` in order, where `queries[j]` is the first query for its package.
pub proof fn lemma_every_occurrence_reported(
    deps: Seq<DependencyView>,
    keys: Seq<QueryKey>,
    found: Seq<Vec<ScoredVulnerability>>,
    i: int,
    j: int,
)
    requires
        0 <= i < deps.len(),
        0 <= j < keys.len(),
        j < found.len(),
        keys[j] == key_of(deps[i]),
        forall|x: int| 0 <= x < j ==> keys[x] != key_of(deps[i]),
    ensures
        assembled(deps, keys, found) == assembled(deps.take(i), keys, found) + matches_of(
            deps[i],
            found[j]@,
        ) + assembled(deps.skip(i + 1), keys, found),
        forall|t: int|
            0 <= t < found[j]@.len() ==> assembled(deps, keys, found).contains(
                match_of(
                    deps[i],
                    #[trigger] found[j]@[t].vulnerability,
                    found[j]@[t].cvss_score_tenths as nat,
                ),
            ),
{
    lemma_query_index_first(keys, key_of(deps[i]), j);
    let pre = deps.take(i);
    let one = seq![deps[i]];
    let post = deps.skip(i + 1);
    assert(deps =~= pre + one + post);
    lemma_assembled_concat(pre + one, post, keys, found);
    lemma_assembled_concat(pre, one, keys, found);
    assert(one.drop_last() =~= Seq::<DependencyView>::empty());
    assert(one.last() == deps[i]);
    assert(assembled(Seq::<DependencyView>::empty(), keys, found) =~= Seq::<MatchView>::empty());
    assert(assembled(one, keys, found) =~= matches_of(deps[i], found[j]@));
    lemma_matches_of_each(deps[i], found[j]@);
    let whole = assembled(deps, keys, found);
    let before = assembled(pre, keys, found);
    assert forall|t: int| 0 <= t < found[j]@.len() implies whole.contains(
        match_of(deps[i], #[trigger] found[j]@[t].vulnerability, found[j]@[t].cvss_score_tenths as nat),
    ) by {
        assert(whole[before.len() + t] == matches_of(deps[i], found[j]@)[t]);
    }
}

/// A dependency whose package version has no query adds no match.
pub proof fn lemma_unqueried_dependency(
    deps: Seq<DependencyView>,
    d: DependencyView,
    keys: Seq<QueryKey>,
    found: Seq<Vec<ScoredVulnerability>>,
)
    requires
        !keys.contains(key_of(d)),
    ensures
        assembled(deps.push(d), keys, found) == assembled(deps, keys, found),
{
    lemma_query_index_bound(keys, key_of(d));
    if let Some(j) = query_index(keys, key_of(d)) {
        assert(keys[j] == key_of(d));
    }
    assert(deps.push(d).drop_last() =~= deps);
    assert(assembled(deps, keys, found) + Seq::<MatchView>::empty() =~= assembled(deps, keys, found));
}

/// A position `query_index` gives holds the key looked up.
proof fn lemma_query_index_bound(keys: Seq<QueryKey>, key: QueryKey)
    ensures
        query_index(keys, key) matches Some(j) ==> 0 <= j < keys.len() && keys[j] == key,
    decreases keys.len(),
{
    if keys.len() > 0 {
        lemma_query_index_bound(keys.drop_first(), key);
    }
}

} // verus!
