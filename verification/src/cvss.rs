//! CVSS v3 base vectors such as `CVSS:3.1/AV:N/AC:L/PR:N/UI:N/S:U/C:H/I:H/A:H`:
//! the metrics a vector states and the weights the base score is computed
//! from, in hundredths.
use vstd::prelude::*;

use crate::text::{
    chars_of, lemma_split_on_join, lemma_split_on_single, occurs_in_at, pieces, split_on,
    split_ranges,
};

verus! {

/// `AV`: how the vulnerable component is reached.
#[derive(Debug, Clone, Copy, PartialEq, Eq)]
pub enum AttackVector {
    Network,
    Adjacent,
    Local,
    Physical,
}

/// `AC`: how hard the attack is to mount.
#[derive(Debug, Clone, Copy, PartialEq, Eq)]
pub enum AttackComplexity {
    Low,
    High,
}

/// `PR`: the privileges the attacker needs. A code other than `N`, `L` or
/// `H` counts as `N`.
#[derive(Debug, Clone, Copy, PartialEq, Eq)]
pub enum PrivilegesRequired {
    NotRequired,
    Low,
    High,
}

/// `UI`: whether a user has to take part.
#[derive(Debug, Clone, Copy, PartialEq, Eq)]
pub enum UserInteraction {
    NotRequired,
    Required,
}

/// `C`, `I`, `A`: the impact on confidentiality, integrity or availability.
#[derive(Debug, Clone, Copy, PartialEq, Eq)]
pub enum ImpactLevel {
    NoImpact,
    Low,
    High,
}

/// The metrics a vector states; `None` where it states no recognised code.
/// Where a metric occurs twice the later occurrence counts.
#[derive(Debug, Clone, Copy, PartialEq, Eq)]
pub struct CvssMetrics {
    pub attack_vector: Option<AttackVector>,
    pub attack_complexity: Option<AttackComplexity>,
    pub privileges_required: Option<PrivilegesRequired>,
    pub user_interaction: Option<UserInteraction>,
    pub scope_changed: bool,
    pub confidentiality: Option<ImpactLevel>,
    pub integrity: Option<ImpactLevel>,
    pub availability: Option<ImpactLevel>,
}

/// The metrics before any part of a vector is read.
pub open spec fn no_metrics() -> CvssMetrics {
    CvssMetrics {
        attack_vector: None,
        attack_complexity: None,
        privileges_required: None,
        user_interaction: None,
        scope_changed: false,
        confidentiality: None,
        integrity: None,
        availability: None,
    }
}

/// Whether `p` begins with `prefix`.
pub open spec fn starts_with(p: Seq<char>, prefix: Seq<char>) -> bool {
    prefix.len() <= p.len() && p.take(prefix.len() as int) == prefix
}

/// Whether `code` is the one letter `c`.
pub open spec fn is_code(code: Seq<char>, c: char) -> bool {
    code.len() == 1 && code[0] == c
}

/// The impact level that a one-letter code names.
pub open spec fn impact_code(code: Seq<char>) -> Option<ImpactLevel> {
    if is_code(code, 'N') {
        Some(ImpactLevel::NoImpact)
    } else if is_code(code, 'L') {
        Some(ImpactLevel::Low)
    } else if is_code(code, 'H') {
        Some(ImpactLevel::High)
    } else {
        None
    }
}

/// `m` after reading the part `p` of a vector. A part sets the metric its
/// prefix names where its code is one that metric has, and leaves `m` as it
/// is otherwise; a `PR:` part always sets the privileges.
pub open spec fn apply_part(m: CvssMetrics, p: Seq<char>) -> CvssMetrics {
    if starts_with(p, seq!['A', 'V', ':']) {
        let code = p.skip(3);
        if is_code(code, 'N') {
            CvssMetrics { attack_vector: Some(AttackVector::Network), ..m }
        } else if is_code(code, 'A') {
            CvssMetrics { attack_vector: Some(AttackVector::Adjacent), ..m }
        } else if is_code(code, 'L') {
            CvssMetrics { attack_vector: Some(AttackVector::Local), ..m }
        } else if is_code(code, 'P') {
            CvssMetrics { attack_vector: Some(AttackVector::Physical), ..m }
        } else {
            m
        }
    } else if starts_with(p, seq!['A', 'C', ':']) {
        let code = p.skip(3);
        if is_code(code, 'L') {
            CvssMetrics { attack_complexity: Some(AttackComplexity::Low), ..m }
        } else if is_code(code, 'H') {
            CvssMetrics { attack_complexity: Some(AttackComplexity::High), ..m }
        } else {
            m
        }
    } else if starts_with(p, seq!['P', 'R', ':']) {
        let code = p.skip(3);
        if is_code(code, 'L') {
            CvssMetrics { privileges_required: Some(PrivilegesRequired::Low), ..m }
        } else if is_code(code, 'H') {
            CvssMetrics { privileges_required: Some(PrivilegesRequired::High), ..m }
        } else {
            CvssMetrics { privileges_required: Some(PrivilegesRequired::NotRequired), ..m }
        }
    } else if starts_with(p, seq!['U', 'I', ':']) {
        let code = p.skip(3);
        if is_code(code, 'N') {
            CvssMetrics { user_interaction: Some(UserInteraction::NotRequired), ..m }
        } else if is_code(code, 'R') {
            CvssMetrics { user_interaction: Some(UserInteraction::Required), ..m }
        } else {
            m
        }
    } else if starts_with(p, seq!['S', ':']) {
        let code = p.skip(2);
        if is_code(code, 'U') {
            CvssMetrics { scope_changed: false, ..m }
        } else if is_code(code, 'C') {
            CvssMetrics { scope_changed: true, ..m }
        } else {
            m
        }
    } else if starts_with(p, seq!['C', ':']) {
        match impact_code(p.skip(2)) {
            Some(level) => CvssMetrics { confidentiality: Some(level), ..m },
            None => m,
        }
    } else if starts_with(p, seq!['I', ':']) {
        match impact_code(p.skip(2)) {
            Some(level) => CvssMetrics { integrity: Some(level), ..m },
            None => m,
        }
    } else if starts_with(p, seq!['A', ':']) {
        match impact_code(p.skip(2)) {
            Some(level) => CvssMetrics { availability: Some(level), ..m },
            None => m,
        }
    } else {
        m
    }
}

/// The metrics that the parts `parts` state, read in order.
pub open spec fn metrics_of_parts(parts: Seq<Seq<char>>) -> CvssMetrics
    decreases parts.len(),
{
    if parts.len() == 0 {
        no_metrics()
    } else {
        apply_part(metrics_of_parts(parts.drop_last()), parts.last())
    }
}

/// The metrics that a vector states; its parts are separated by `/`.
pub open spec fn cvss_metrics(vector: Seq<char>) -> CvssMetrics {
    metrics_of_parts(split_on(vector, '/'))
}

/// Whether `v[lo..hi]` begins with `prefix`.
fn starts_with_in(v: &Vec<char>, lo: usize, hi: usize, prefix: &Vec<char>) -> (r: bool)
    requires
        lo <= hi <= v@.len(),
    ensures
        r == starts_with(v@.subrange(lo as int, hi as int), prefix@),
{
    let r = occurs_in_at(v, lo, hi, prefix, 0);
    let ghost s = v@.subrange(lo as int, hi as int);
    assert(prefix@.len() <= s.len() ==> s.subrange(0, prefix@.len() as int) =~= s.take(
        prefix@.len() as int,
    ));
    r
}

/// The one-letter code `v[lo..hi]`, if it is one letter.
fn code_in(v: &Vec<char>, lo: usize, hi: usize) -> (r: Option<char>)
    requires
        lo <= hi <= v@.len(),
    ensures
        match r {
            Some(c) => is_code(v@.subrange(lo as int, hi as int), c),
            None => v@.subrange(lo as int, hi as int).len() != 1,
        },
{
    if hi - lo == 1 {
        Some(v[lo])
    } else {
        None
    }
}

/// The impact level that the one-letter code `code` names.
fn impact_of(code: Option<char>, ghost_code: Ghost<Seq<char>>) -> (r: Option<ImpactLevel>)
    requires
        match code {
            Some(c) => is_code(ghost_code@, c),
            None => ghost_code@.len() != 1,
        },
    ensures
        r == impact_code(ghost_code@),
{
    match code {
        Some('N') => Some(ImpactLevel::NoImpact),
        Some('L') => Some(ImpactLevel::Low),
        Some('H') => Some(ImpactLevel::High),
        _ => None,
    }
}

/// `m` after reading the part `v[lo..hi]`.
fn apply_part_in(m: CvssMetrics, v: &Vec<char>, lo: usize, hi: usize) -> (r: CvssMetrics)
    requires
        lo <= hi <= v@.len(),
    ensures
        r == apply_part(m, v@.subrange(lo as int, hi as int)),
{
    let ghost p = v@.subrange(lo as int, hi as int);
    if starts_with_in(v, lo, hi, &vec!['A', 'V', ':']) {
        assert(p.skip(3) =~= v@.subrange(lo + 3, hi as int));
        match code_in(v, lo + 3, hi) {
            Some('N') => CvssMetrics { attack_vector: Some(AttackVector::Network), ..m },
            Some('A') => CvssMetrics { attack_vector: Some(AttackVector::Adjacent), ..m },
            Some('L') => CvssMetrics { attack_vector: Some(AttackVector::Local), ..m },
            Some('P') => CvssMetrics { attack_vector: Some(AttackVector::Physical), ..m },
            _ => m,
        }
    } else if starts_with_in(v, lo, hi, &vec!['A', 'C', ':']) {
        assert(p.skip(3) =~= v@.subrange(lo + 3, hi as int));
        match code_in(v, lo + 3, hi) {
            Some('L') => CvssMetrics { attack_complexity: Some(AttackComplexity::Low), ..m },
            Some('H') => CvssMetrics { attack_complexity: Some(AttackComplexity::High), ..m },
            _ => m,
        }
    } else if starts_with_in(v, lo, hi, &vec!['P', 'R', ':']) {
        assert(p.skip(3) =~= v@.subrange(lo + 3, hi as int));
        match code_in(v, lo + 3, hi) {
            Some('L') => CvssMetrics { privileges_required: Some(PrivilegesRequired::Low), ..m },
            Some('H') => CvssMetrics { privileges_required: Some(PrivilegesRequired::High), ..m },
            _ => CvssMetrics {
                privileges_required: Some(PrivilegesRequired::NotRequired),
                ..m
            },
        }
    } else if starts_with_in(v, lo, hi, &vec!['U', 'I', ':']) {
        assert(p.skip(3) =~= v@.subrange(lo + 3, hi as int));
        match code_in(v, lo + 3, hi) {
            Some('N') => CvssMetrics {
                user_interaction: Some(UserInteraction::NotRequired),
                ..m
            },
            Some('R') => CvssMetrics { user_interaction: Some(UserInteraction::Required), ..m },
            _ => m,
        }
    } else if starts_with_in(v, lo, hi, &vec!['S', ':']) {
        assert(p.skip(2) =~= v@.subrange(lo + 2, hi as int));
        match code_in(v, lo + 2, hi) {
            Some('U') => CvssMetrics { scope_changed: false, ..m },
            Some('C') => CvssMetrics { scope_changed: true, ..m },
            _ => m,
        }
    } else if starts_with_in(v, lo, hi, &vec!['C', ':']) {
        assert(p.skip(2) =~= v@.subrange(lo + 2, hi as int));
        match impact_of(code_in(v, lo + 2, hi), Ghost(p.skip(2))) {
            Some(level) => CvssMetrics { confidentiality: Some(level), ..m },
            None => m,
        }
    } else if starts_with_in(v, lo, hi, &vec!['I', ':']) {
        assert(p.skip(2) =~= v@.subrange(lo + 2, hi as int));
        match impact_of(code_in(v, lo + 2, hi), Ghost(p.skip(2))) {
            Some(level) => CvssMetrics { integrity: Some(level), ..m },
            None => m,
        }
    } else if starts_with_in(v, lo, hi, &vec!['A', ':']) {
        assert(p.skip(2) =~= v@.subrange(lo + 2, hi as int));
        match impact_of(code_in(v, lo + 2, hi), Ghost(p.skip(2))) {
            Some(level) => CvssMetrics { availability: Some(level), ..m },
            None => m,
        }
    } else {
        m
    }
}

/// The metrics that the vector `vector` states.
pub fn parse_cvss_vector(vector: &str) -> (m: CvssMetrics)
    ensures
        m == cvss_metrics(vector@),
{
    let v = chars_of(vector);
    let parts = split_ranges(&v, '/');
    let ghost all = split_on(v@, '/');
    assert(pieces(v@, parts@).len() == parts@.len());
    let mut m = CvssMetrics {
        attack_vector: None,
        attack_complexity: None,
        privileges_required: None,
        user_interaction: None,
        scope_changed: false,
        confidentiality: None,
        integrity: None,
        availability: None,
    };
    let mut i: usize = 0;
    while i < parts.len()
        invariant
            pieces(v@, parts@) == all,
            all.len() == parts@.len(),
            forall|k: int| 0 <= k < parts@.len() ==> (#[trigger] parts@[k]).0 <= parts@[k].1 <= v@.len(),
            i <= parts@.len(),
            m == metrics_of_parts(all.take(i as int)),
        decreases parts@.len() - i,
    {
        let (lo, hi) = parts[i];
        assert(all[i as int] == v@.subrange(lo as int, hi as int));
        assert(all.take(i + 1).drop_last() =~= all.take(i as int));
        m = apply_part_in(m, &v, lo, hi);
        i = i + 1;
    }
    assert(all.take(parts@.len() as int) =~= all);
    m
}

/// The weights of the metrics of a vector, in hundredths (`85` is `0.85`);
/// a metric the vector does not state weighs `0`.
#[derive(Debug, Clone, Copy, PartialEq, Eq)]
pub struct CvssWeights {
    pub attack_vector: u32,
    pub attack_complexity: u32,
    pub privileges_required: u32,
    pub user_interaction: u32,
    pub scope_changed: bool,
    pub confidentiality: u32,
    pub integrity: u32,
    pub availability: u32,
}

/// The weight of an attack vector.
pub open spec fn attack_vector_weight(av: Option<AttackVector>) -> u32 {
    match av {
        Some(AttackVector::Network) => 85,
        Some(AttackVector::Adjacent) => 62,
        Some(AttackVector::Local) => 55,
        Some(AttackVector::Physical) => 20,
        None => 0,
    }
}

/// The weight of an attack complexity.
pub open spec fn attack_complexity_weight(ac: Option<AttackComplexity>) -> u32 {
    match ac {
        Some(AttackComplexity::Low) => 77,
        Some(AttackComplexity::High) => 44,
        None => 0,
    }
}

/// The weight of the privileges required, which depends on the scope.
pub open spec fn privileges_weight(pr: Option<PrivilegesRequired>, scope_changed: bool) -> u32 {
    match pr {
        Some(PrivilegesRequired::NotRequired) => 85,
        Some(PrivilegesRequired::Low) => if scope_changed {
            68
        } else {
            62
        },
        Some(PrivilegesRequired::High) => if scope_changed {
            50
        } else {
            27
        },
        None => 0,
    }
}

/// The weight of user interaction.
pub open spec fn user_interaction_weight(ui: Option<UserInteraction>) -> u32 {
    match ui {
        Some(UserInteraction::NotRequired) => 85,
        Some(UserInteraction::Required) => 62,
        None => 0,
    }
}

/// The weight of an impact level.
pub open spec fn impact_weight(level: Option<ImpactLevel>) -> u32 {
    match level {
        Some(ImpactLevel::Low) => 22,
        Some(ImpactLevel::High) => 56,
        Some(ImpactLevel::NoImpact) | None => 0,
    }
}

/// The weights of the metrics `m`.
pub open spec fn weights_of(m: CvssMetrics) -> CvssWeights {
    CvssWeights {
        attack_vector: attack_vector_weight(m.attack_vector),
        attack_complexity: attack_complexity_weight(m.attack_complexity),
        privileges_required: privileges_weight(m.privileges_required, m.scope_changed),
        user_interaction: user_interaction_weight(m.user_interaction),
        scope_changed: m.scope_changed,
        confidentiality: impact_weight(m.confidentiality),
        integrity: impact_weight(m.integrity),
        availability: impact_weight(m.availability),
    }
}

fn impact_weight_of(level: Option<ImpactLevel>) -> (w: u32)
    ensures
        w == impact_weight(level),
{
    match level {
        Some(ImpactLevel::Low) => 22,
        Some(ImpactLevel::High) => 56,
        _ => 0,
    }
}

/// The weights, in hundredths, that the base score of metrics `m` is computed from.
pub fn cvss_weights(m: &CvssMetrics) -> (w: CvssWeights)
    ensures
        w == weights_of(*m),
{
    let attack_vector = match m.attack_vector {
        Some(AttackVector::Network) => 85,
        Some(AttackVector::Adjacent) => 62,
        Some(AttackVector::Local) => 55,
        Some(AttackVector::Physical) => 20,
        None => 0,
    };
    let attack_complexity = match m.attack_complexity {
        Some(AttackComplexity::Low) => 77,
        Some(AttackComplexity::High) => 44,
        None => 0,
    };
    let privileges_required = match m.privileges_required {
        Some(PrivilegesRequired::NotRequired) => 85,
        Some(PrivilegesRequired::Low) => if m.scope_changed {
            68
        } else {
            62
        },
        Some(PrivilegesRequired::High) => if m.scope_changed {
            50
        } else {
            27
        },
        None => 0,
    };
    let user_interaction = match m.user_interaction {
        Some(UserInteraction::NotRequired) => 85,
        Some(UserInteraction::Required) => 62,
        None => 0,
    };
    CvssWeights {
        attack_vector,
        attack_complexity,
        privileges_required,
        user_interaction,
        scope_changed: m.scope_changed,
        confidentiality: impact_weight_of(m.confidentiality),
        integrity: impact_weight_of(m.integrity),
        availability: impact_weight_of(m.availability),
    }
}

/// The metric a part of a vector names by its prefix (`AV:` is `0`, `AC:`
/// `1`, `PR:` `2`, `UI:` `3`, `S:` `4`, `C:` `5`, `I:` `6`, `A:` `7`), or
/// `-1` where it names none, as `CVSS:3.1` does.
pub open spec fn metric_key(p: Seq<char>) -> int {
    if starts_with(p, seq!['A', 'V', ':']) {
        0
    } else if starts_with(p, seq!['A', 'C', ':']) {
        1
    } else if starts_with(p, seq!['P', 'R', ':']) {
        2
    } else if starts_with(p, seq!['U', 'I', ':']) {
        3
    } else if starts_with(p, seq!['S', ':']) {
        4
    } else if starts_with(p, seq!['C', ':']) {
        5
    } else if starts_with(p, seq!['I', ':']) {
        6
    } else if starts_with(p, seq!['A', ':']) {
        7
    } else {
        -1
    }
}

/// Whether no metric is named by two of `parts`.
pub open spec fn distinct_metrics(parts: Seq<Seq<char>>) -> bool {
    forall|i: int, j: int|
        0 <= i < j < parts.len() && metric_key(parts[i]) >= 0 ==> metric_key(#[trigger] parts[i])
            != metric_key(#[trigger] parts[j])
}

/// Whether reading `p` and `q` in either order has the same effect: they
/// name different metrics, or one of them names none.
pub open spec fn parts_commute(p: Seq<char>, q: Seq<char>) -> bool {
    metric_key(p) < 0 || metric_key(q) < 0 || metric_key(p) != metric_key(q)
}

/// A part that names no metric changes nothing.
pub proof fn lemma_unkeyed_part(m: CvssMetrics, p: Seq<char>)
    requires
        metric_key(p) < 0,
    ensures
        apply_part(m, p) == m,
{
}

/// Parts that name different metrics can be read in either order.
pub proof fn lemma_parts_commute(m: CvssMetrics, p: Seq<char>, q: Seq<char>)
    requires
        parts_commute(p, q),
    ensures
        apply_part(apply_part(m, p), q) == apply_part(apply_part(m, q), p),
{
}

/// Reading `s[j]` last instead of in its place changes nothing where it
/// commutes with every part after it.
proof fn lemma_move_to_end(s: Seq<Seq<char>>, j: int)
    requires
        0 <= j < s.len(),
        forall|k: int| j < k < s.len() ==> parts_commute(s[j], #[trigger] s[k]),
    ensures
        metrics_of_parts(s) == apply_part(metrics_of_parts(s.remove(j)), s[j]),
    decreases s.len(),
{
    if j == s.len() - 1 {
        assert(s.remove(j) =~= s.drop_last());
    } else {
        let d = s.drop_last();
        assert(d[j] == s[j]);
        assert forall|k: int| j < k < d.len() implies parts_commute(d[j], #[trigger] d[k]) by {
            assert(d[k] == s[k]);
        }
        lemma_move_to_end(d, j);
        let y = s.last();
        assert(parts_commute(s[j], s[s.len() - 1]));
        lemma_parts_commute(metrics_of_parts(d.remove(j)), s[j], y);
        assert(d.remove(j).push(y) =~= s.remove(j));
        assert(d.remove(j).push(y).drop_last() =~= d.remove(j));
        assert(metrics_of_parts(d.remove(j).push(y)) == apply_part(
            metrics_of_parts(d.remove(j)),
            y,
        ));
    }
}

/// Reordering the parts of a vector changes none of its metrics where no
/// metric is named twice.
pub proof fn lemma_metrics_of_reordered_parts(p1: Seq<Seq<char>>, p2: Seq<Seq<char>>)
    requires
        p1.to_multiset() == p2.to_multiset(),
        distinct_metrics(p1),
    ensures
        metrics_of_parts(p1) == metrics_of_parts(p2),
    decreases p1.len(),
{
    broadcast use vstd::seq_lib::group_to_multiset_ensures;

    if p1.len() == 0 {
        vstd::seq_lib::to_multiset_len(p1);
        vstd::seq_lib::to_multiset_len(p2);
        assert(p2.len() == 0);
        assert(p2 =~= p1);
    } else {
        let x = p1.last();
        let d1 = p1.drop_last();
        assert(d1.push(x) =~= p1);
        assert(p2.to_multiset().count(x) > 0);
        assert(p2.contains(x));
        let j = choose|j: int| 0 <= j < p2.len() && p2[j] == x;
        let r = p2.remove(j);
        assert(r.to_multiset() =~= d1.to_multiset());
        assert forall|a: int, b: int|
            0 <= a < b < d1.len() && metric_key(d1[a]) >= 0 implies metric_key(#[trigger] d1[a])
            != metric_key(#[trigger] d1[b]) by {
            assert(d1[a] == p1[a]);
            assert(d1[b] == p1[b]);
        }
        lemma_metrics_of_reordered_parts(d1, r);
        assert forall|k: int| j < k < p2.len() implies parts_commute(p2[j], #[trigger] p2[k]) by {
            assert(r[k - 1] == p2[k]);
            assert(r.contains(p2[k]));
            assert(r.to_multiset().count(p2[k]) > 0);
            assert(d1.contains(p2[k]));
            let i = choose|i: int| 0 <= i < d1.len() && d1[i] == p2[k];
            assert(p1[i] == p2[k]);
            assert(p1[p1.len() - 1] == x);
        }
        lemma_move_to_end(p2, j);
    }
}

/// Reordering the `/`-separated parts of a vector changes none of its
/// metrics where no metric is named twice.
pub proof fn lemma_reordered_vector(v1: Seq<char>, v2: Seq<char>)
    requires
        split_on(v1, '/').to_multiset() == split_on(v2, '/').to_multiset(),
        distinct_metrics(split_on(v1, '/')),
    ensures
        cvss_metrics(v1) == cvss_metrics(v2),
{
    lemma_metrics_of_reordered_parts(split_on(v1, '/'), split_on(v2, '/'));
}

/// A leading label that names no metric, such as the version label
/// `CVSS:3.1`, changes none of the metrics of a vector.
pub proof fn lemma_labelled_vector(label: Seq<char>, v: Seq<char>)
    requires
        !label.contains('/'),
        metric_key(label) < 0,
    ensures
        cvss_metrics(label + seq!['/'] + v) == cvss_metrics(v),
{
    lemma_split_on_join(label, '/', v);
    lemma_split_on_single(label, '/');
    let s = seq![label] + split_on(v, '/');
    assert(s[0] == label);
    assert forall|k: int| 0 < k < s.len() implies parts_commute(s[0], #[trigger] s[k]) by {}
    lemma_move_to_end(s, 0);
    assert(s.remove(0) =~= split_on(v, '/'));
}

/// The version label `CVSS:3.1/` in front of a vector changes none of its metrics.
pub proof fn lemma_version_prefix(v: Seq<char>)
    ensures
        cvss_metrics("CVSS:3.1/"@ + v) == cvss_metrics(v),
{
    reveal_strlit("CVSS:3.1/");
    let label = seq!['C', 'V', 'S', 'S', ':', '3', '.', '1'];
    assert("CVSS:3.1/"@ + v =~= label + seq!['/'] + v);
    assert(label.take(3) != seq!['A', 'V', ':']);
    assert(label.take(3)[0] != seq!['A', 'V', ':'][0]);
    assert(label.take(3)[0] != seq!['A', 'C', ':'][0]);
    assert(label.take(3)[0] != seq!['P', 'R', ':'][0]);
    assert(label.take(3)[0] != seq!['U', 'I', ':'][0]);
    assert(label.take(2)[0] != seq!['S', ':'][0]);
    assert(label.take(2)[1] != seq!['C', ':'][1]);
    assert(label.take(2)[0] != seq!['I', ':'][0]);
    assert(label.take(2)[0] != seq!['A', ':'][0]);
    assert(metric_key(label) < 0);
    assert(!label.contains('/')) by {
        assert forall|k: int| 0 <= k < label.len() implies label[k] != '/' by {}
    }
    lemma_labelled_vector(label, v);
}

/// A part added at the end of a vector is read last.
pub proof fn lemma_last_part(v: Seq<char>, p: Seq<char>)
    requires
        !p.contains('/'),
    ensures
        cvss_metrics(v + seq!['/'] + p) == apply_part(cvss_metrics(v), p),
{
    lemma_split_on_join(v, '/', p);
    lemma_split_on_single(p, '/');
    let parts = split_on(v, '/') + seq![p];
    assert(parts.drop_last() =~= split_on(v, '/'));
    assert(parts.last() == p);
}

/// Whether a part holds no `/`.
proof fn lemma_no_slash(p: Seq<char>)
    requires
        forall|k: int| 0 <= k < p.len() ==> #[trigger] p[k] != '/',
    ensures
        !p.contains('/'),
{
}

/// The part `prefix` + `c` of a vector, added at the end of `v`.
proof fn lemma_code_part(v: Seq<char>, prefix: Seq<char>, c: char)
    requires
        c != '/',
        forall|k: int| 0 <= k < prefix.len() ==> #[trigger] prefix[k] != '/',
    ensures
        cvss_metrics(v + (seq!['/'] + prefix + seq![c])) == apply_part(
            cvss_metrics(v),
            prefix + seq![c],
        ),
        (prefix + seq![c]).take(prefix.len() as int) == prefix,
        is_code((prefix + seq![c]).skip(prefix.len() as int), c),
{
    let p = prefix + seq![c];
    assert forall|k: int| 0 <= k < p.len() implies #[trigger] p[k] != '/' by {
        if k < prefix.len() {
            assert(p[k] == prefix[k]);
        }
    }
    lemma_no_slash(p);
    lemma_last_part(v, p);
    assert(v + seq!['/'] + p =~= v + (seq!['/'] + prefix + seq![c]));
    assert(p.take(prefix.len() as int) =~= prefix);
    assert(p.skip(prefix.len() as int) =~= seq![c]);
}

/// `AV:N`, `AV:A`, `AV:L` and `AV:P` at the end of any vector set the attack
/// vector to network, adjacent, local and physical, weighing 0.85, 0.62,
/// 0.55 and 0.20; another code leaves it as it was.
pub proof fn lemma_attack_vector_code(v: Seq<char>, c: char)
    requires
        c != '/',
    ensures
        ({
            let m = cvss_metrics(v + seq!['/', 'A', 'V', ':', c]);
            &&& c == 'N' ==> m.attack_vector == Some(AttackVector::Network) && weights_of(m).attack_vector == 85
            &&& c == 'A' ==> m.attack_vector == Some(AttackVector::Adjacent) && weights_of(m).attack_vector == 62
            &&& c == 'L' ==> m.attack_vector == Some(AttackVector::Local) && weights_of(m).attack_vector == 55
            &&& c == 'P' ==> m.attack_vector == Some(AttackVector::Physical) && weights_of(m).attack_vector == 20
            &&& c != 'N' && c != 'A' && c != 'L' && c != 'P' ==> m == cvss_metrics(v)
        }),
{
    let prefix = seq!['A', 'V', ':'];
    lemma_code_part(v, prefix, c);
    assert(seq!['/'] + prefix + seq![c] =~= seq!['/', 'A', 'V', ':', c]);
}

/// `AC:L` and `AC:H` at the end of any vector set a low or high attack
/// complexity, weighing 0.77 and 0.44; another code leaves it as it was.
pub proof fn lemma_attack_complexity_code(v: Seq<char>, c: char)
    requires
        c != '/',
    ensures
        ({
            let m = cvss_metrics(v + seq!['/', 'A', 'C', ':', c]);
            &&& c == 'L' ==> m.attack_complexity == Some(AttackComplexity::Low) && weights_of(m).attack_complexity == 77
            &&& c == 'H' ==> m.attack_complexity == Some(AttackComplexity::High) && weights_of(m).attack_complexity == 44
            &&& c != 'L' && c != 'H' ==> m == cvss_metrics(v)
        }),
{
    let prefix = seq!['A', 'C', ':'];
    lemma_code_part(v, prefix, c);
    let p = prefix + seq![c];
    assert(p.take(3)[1] == 'C');
    assert(seq!['A', 'V', ':'][1] == 'V');
    assert(!starts_with(p, seq!['A', 'V', ':']));
    assert(seq!['/'] + prefix + seq![c] =~= seq!['/', 'A', 'C', ':', c]);
}

/// `UI:N` and `UI:R` at the end of any vector set user interaction to none or
/// required, weighing 0.85 and 0.62; another code leaves it as it was.
pub proof fn lemma_user_interaction_code(v: Seq<char>, c: char)
    requires
        c != '/',
    ensures
        ({
            let m = cvss_metrics(v + seq!['/', 'U', 'I', ':', c]);
            &&& c == 'N' ==> m.user_interaction == Some(UserInteraction::NotRequired) && weights_of(m).user_interaction == 85
            &&& c == 'R' ==> m.user_interaction == Some(UserInteraction::Required) && weights_of(m).user_interaction == 62
            &&& c != 'N' && c != 'R' ==> m == cvss_metrics(v)
        }),
{
    let prefix = seq!['U', 'I', ':'];
    lemma_code_part(v, prefix, c);
    let p = prefix + seq![c];
    assert(p.take(3)[0] == 'U');
    assert(!starts_with(p, seq!['A', 'V', ':']));
    assert(!starts_with(p, seq!['A', 'C', ':']));
    assert(!starts_with(p, seq!['P', 'R', ':']));
    assert(seq!['/'] + prefix + seq![c] =~= seq!['/', 'U', 'I', ':', c]);
}

/// `S:U` and `S:C` at the end of any vector set the scope unchanged or
/// changed; another code leaves it as it was.
pub proof fn lemma_scope_code(v: Seq<char>, c: char)
    requires
        c != '/',
    ensures
        ({
            let m = cvss_metrics(v + seq!['/', 'S', ':', c]);
            &&& c == 'U' ==> !m.scope_changed && !weights_of(m).scope_changed
            &&& c == 'C' ==> m.scope_changed && weights_of(m).scope_changed
            &&& c != 'U' && c != 'C' ==> m == cvss_metrics(v)
        }),
{
    let prefix = seq!['S', ':'];
    lemma_code_part(v, prefix, c);
    let p = prefix + seq![c];
    assert(p.take(3)[0] == 'S');
    assert(!starts_with(p, seq!['A', 'V', ':']));
    assert(!starts_with(p, seq!['A', 'C', ':']));
    assert(!starts_with(p, seq!['P', 'R', ':']));
    assert(!starts_with(p, seq!['U', 'I', ':']));
    assert(seq!['/'] + prefix + seq![c] =~= seq!['/', 'S', ':', c]);
}

/// `C:`, `I:` and `A:` with `N`, `L` or `H` at the end of any vector set the
/// impact on confidentiality, integrity or availability to none, low or
/// high, weighing 0, 0.22 and 0.56; another code leaves it as it was.
pub proof fn lemma_impact_code(v: Seq<char>, c: char)
    requires
        c != '/',
    ensures
        ({
            let mc = cvss_metrics(v + seq!['/', 'C', ':', c]);
            let mi = cvss_metrics(v + seq!['/', 'I', ':', c]);
            let ma = cvss_metrics(v + seq!['/', 'A', ':', c]);
            &&& c == 'N' ==> mc.confidentiality == Some(ImpactLevel::NoImpact) && weights_of(mc).confidentiality == 0
            &&& c == 'L' ==> mc.confidentiality == Some(ImpactLevel::Low) && weights_of(mc).confidentiality == 22
            &&& c == 'H' ==> mc.confidentiality == Some(ImpactLevel::High) && weights_of(mc).confidentiality == 56
            &&& c == 'N' ==> mi.integrity == Some(ImpactLevel::NoImpact) && weights_of(mi).integrity == 0
            &&& c == 'L' ==> mi.integrity == Some(ImpactLevel::Low) && weights_of(mi).integrity == 22
            &&& c == 'H' ==> mi.integrity == Some(ImpactLevel::High) && weights_of(mi).integrity == 56
            &&& c == 'N' ==> ma.availability == Some(ImpactLevel::NoImpact) && weights_of(ma).availability == 0
            &&& c == 'L' ==> ma.availability == Some(ImpactLevel::Low) && weights_of(ma).availability == 22
            &&& c == 'H' ==> ma.availability == Some(ImpactLevel::High) && weights_of(ma).availability == 56
            &&& c != 'N' && c != 'L' && c != 'H' ==> mc == cvss_metrics(v) && mi == cvss_metrics(v) && ma == cvss_metrics(v)
        }),
{
    lemma_impact_prefix(v, 'C', c);
    lemma_impact_prefix(v, 'I', c);
    lemma_impact_prefix(v, 'A', c);
}

proof fn lemma_impact_prefix(v: Seq<char>, letter: char, c: char)
    requires
        c != '/',
        letter == 'C' || letter == 'I' || letter == 'A',
    ensures
        cvss_metrics(v + seq!['/', letter, ':', c]) == apply_part(cvss_metrics(v), seq![letter, ':', c]),
        !starts_with(seq![letter, ':', c], seq!['A', 'V', ':']),
        !starts_with(seq![letter, ':', c], seq!['A', 'C', ':']),
        !starts_with(seq![letter, ':', c], seq!['P', 'R', ':']),
        !starts_with(seq![letter, ':', c], seq!['U', 'I', ':']),
        !starts_with(seq![letter, ':', c], seq!['S', ':']),
        starts_with(seq![letter, ':', c], seq!['C', ':']) == (letter == 'C'),
        starts_with(seq![letter, ':', c], seq!['I', ':']) == (letter == 'I'),
        starts_with(seq![letter, ':', c], seq!['A', ':']) == (letter == 'A'),
        seq![letter, ':', c].skip(2) == seq![c],
{
    let prefix = seq![letter, ':'];
    lemma_code_part(v, prefix, c);
    let p = prefix + seq![c];
    assert(p =~= seq![letter, ':', c]);
    assert(seq!['/'] + prefix + seq![c] =~= seq!['/', letter, ':', c]);
    assert(p.take(3)[1] == ':');
    assert(seq!['A', 'V', ':'][1] == 'V');
    assert(seq!['A', 'C', ':'][1] == 'C');
    assert(seq!['P', 'R', ':'][1] == 'R');
    assert(seq!['U', 'I', ':'][1] == 'I');
    assert(p.take(2)[0] == letter);
    assert(seq!['S', ':'][0] == 'S');
    if letter == 'C' {
        assert(p.take(2) =~= seq!['C', ':']);
    } else {
        assert(seq!['C', ':'][0] == 'C');
    }
    if letter == 'I' {
        assert(p.take(2) =~= seq!['I', ':']);
    } else {
        assert(seq!['I', ':'][0] == 'I');
    }
    if letter == 'A' {
        assert(p.take(2) =~= seq!['A', ':']);
    } else {
        assert(seq!['A', ':'][0] == 'A');
    }
    assert(p.skip(2) =~= seq![c]);
}

/// `PR:` at the end of a vector, read after the scope `S:U` or `S:C`, sets the
/// privileges required: `N` weighs 0.85 either way, `L` 0.62, or 0.68 where
/// the scope changes, `H` 0.27, or 0.50 where the scope changes; any other
/// code weighs as `N`.
pub proof fn lemma_privilege_code(v: Seq<char>, scope: char, c: char)
    requires
        c != '/',
        scope == 'U' || scope == 'C',
    ensures
        ({
            let m = cvss_metrics(v + seq!['/', 'S', ':', scope, '/', 'P', 'R', ':', c]);
            let w = weights_of(m).privileges_required;
            &&& c == 'L' ==> m.privileges_required == Some(PrivilegesRequired::Low) && w == (if scope == 'C' { 68u32 } else { 62u32 })
            &&& c == 'H' ==> m.privileges_required == Some(PrivilegesRequired::High) && w == (if scope == 'C' { 50u32 } else { 27u32 })
            &&& c != 'L' && c != 'H' ==> m.privileges_required == Some(PrivilegesRequired::NotRequired) && w == 85
        }),
{
    let u = v + seq!['/', 'S', ':', scope];
    lemma_scope_code(v, scope);
    let prefix = seq!['P', 'R', ':'];
    lemma_code_part(u, prefix, c);
    let p = prefix + seq![c];
    assert(p.take(3)[0] == 'P');
    assert(!starts_with(p, seq!['A', 'V', ':']));
    assert(!starts_with(p, seq!['A', 'C', ':']));
    assert(u + (seq!['/'] + prefix + seq![c]) =~= v + seq!['/', 'S', ':', scope, '/', 'P', 'R', ':', c]);
}

} // verus!
