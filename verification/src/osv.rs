//! Vulnerability records of the OSV database (`https://osv.dev`): the fields
//! the scanner reads, the version that fixes a vulnerability, and its
//! severity label.
use vstd::prelude::*;
use vstd::string::*;

use crate::text::{same_text, to_uppercase, uppercase};

verus! {

/// The URL that OSV answers package queries at.
pub const OSV_QUERY_URL: &'static str = "https://api.osv.dev/v1/query";

/// An event of an affected range: the version a vulnerability was introduced
/// in, or the one it was fixed in.
#[derive(Debug, Clone, PartialEq)]
pub struct OsvEvent {
    pub introduced: Option<String>,
    pub fixed: Option<String>,
}

/// A range of affected versions.
#[derive(Debug, Clone, PartialEq)]
pub struct OsvRange {
    pub events: Vec<OsvEvent>,
}

/// A package a vulnerability affects, with its affected ranges.
#[derive(Debug, Clone, PartialEq)]
pub struct OsvAffected {
    pub ranges: Vec<OsvRange>,
}

/// A severity rating: its type (such as `CVSS_V3`) and its score (for CVSS,
/// the vector).
#[derive(Debug, Clone, PartialEq)]
pub struct OsvSeverityEntry {
    pub type_: String,
    pub score: String,
}

/// The part of a record that is specific to the database it came from.
#[derive(Debug, Clone, PartialEq)]
pub struct OsvDatabaseSpecific {
    pub severity: Option<String>,
}

/// One vulnerability record.
#[derive(Debug, Clone, PartialEq)]
pub struct OsvVulnerability {
    pub id: String,
    pub summary: Option<String>,
    pub severity: Vec<OsvSeverityEntry>,
    pub affected: Vec<OsvAffected>,
    pub database_specific: Option<OsvDatabaseSpecific>,
}

/// The answer to a package query.
#[derive(Debug, Clone, PartialEq)]
pub struct OsvResponse {
    pub vulns: Vec<OsvVulnerability>,
}

/// How a package query ended.
#[derive(Debug, Clone, PartialEq)]
pub enum OsvReply {
    /// The request could not be sent or got no answer.
    Unreachable,
    /// The answer's status was not a success.
    Rejected,
    /// The answer's body was not a query response.
    Malformed,
    /// The answer, parsed.
    Parsed(OsvResponse),
}

/// The vulnerabilities a package query found: those of a parsed answer, and
/// none where the query failed in any way.
pub fn reply_vulnerabilities(reply: OsvReply) -> (vulns: Vec<OsvVulnerability>)
    ensures
        match reply {
            OsvReply::Parsed(response) => vulns@ == response.vulns@,
            _ => vulns@.len() == 0,
        },
{
    match reply {
        OsvReply::Parsed(response) => response.vulns,
        _ => Vec::new(),
    }
}

/// The first version fixed in an event of `events`.
pub open spec fn fixed_in_events(events: Seq<OsvEvent>) -> Option<Seq<char>>
    decreases events.len(),
{
    if events.len() == 0 {
        None
    } else {
        match events[0].fixed {
            Some(f) => Some(f@),
            None => fixed_in_events(events.drop_first()),
        }
    }
}

/// The first version fixed in an event of the ranges `ranges`.
pub open spec fn fixed_in_ranges(ranges: Seq<OsvRange>) -> Option<Seq<char>>
    decreases ranges.len(),
{
    if ranges.len() == 0 {
        None
    } else {
        match fixed_in_events(ranges[0].events@) {
            Some(f) => Some(f),
            None => fixed_in_ranges(ranges.drop_first()),
        }
    }
}

/// The first version fixed in an event of the affected packages `affected`.
pub open spec fn fixed_in_affected(affected: Seq<OsvAffected>) -> Option<Seq<char>>
    decreases affected.len(),
{
    if affected.len() == 0 {
        None
    } else {
        match fixed_in_ranges(affected[0].ranges@) {
            Some(f) => Some(f),
            None => fixed_in_affected(affected.drop_first()),
        }
    }
}

/// The version that fixes `v`: the first `fixed` event, taking the affected
/// packages, their ranges and their events in order.
pub open spec fn fixed_version(v: OsvVulnerability) -> Option<Seq<char>> {
    fixed_in_affected(v.affected@)
}

fn fixed_event(events: &Vec<OsvEvent>) -> (r: Option<String>)
    ensures
        match r {
            Some(f) => fixed_in_events(events@) == Some(f@),
            None => fixed_in_events(events@) is None,
        },
{
    let mut i: usize = 0;
    assert(events@.skip(0) =~= events@);
    while i < events.len()
        invariant
            i <= events@.len(),
            fixed_in_events(events@) == fixed_in_events(events@.skip(i as int)),
        decreases events@.len() - i,
    {
        assert(events@.skip(i as int).drop_first() =~= events@.skip(i + 1));
        if let Some(f) = &events[i].fixed {
            return Some(f.clone());
        }
        i = i + 1;
    }
    None
}

fn fixed_range(ranges: &Vec<OsvRange>) -> (r: Option<String>)
    ensures
        match r {
            Some(f) => fixed_in_ranges(ranges@) == Some(f@),
            None => fixed_in_ranges(ranges@) is None,
        },
{
    let mut i: usize = 0;
    assert(ranges@.skip(0) =~= ranges@);
    while i < ranges.len()
        invariant
            i <= ranges@.len(),
            fixed_in_ranges(ranges@) == fixed_in_ranges(ranges@.skip(i as int)),
        decreases ranges@.len() - i,
    {
        assert(ranges@.skip(i as int).drop_first() =~= ranges@.skip(i + 1));
        let found = fixed_event(&ranges[i].events);
        if found.is_some() {
            return found;
        }
        i = i + 1;
    }
    None
}

/// The version that fixes `vuln`, if its record names one.
pub fn extract_fixed_version(vuln: &OsvVulnerability) -> (r: Option<String>)
    ensures
        match r {
            Some(f) => fixed_version(*vuln) == Some(f@),
            None => fixed_version(*vuln) is None,
        },
{
    let affected = &vuln.affected;
    let mut i: usize = 0;
    assert(affected@.skip(0) =~= affected@);
    while i < affected.len()
        invariant
            i <= affected@.len(),
            affected@ == vuln.affected@,
            fixed_in_affected(affected@) == fixed_in_affected(affected@.skip(i as int)),
        decreases affected@.len() - i,
    {
        assert(affected@.skip(i as int).drop_first() =~= affected@.skip(i + 1));
        let found = fixed_range(&affected[i].ranges);
        if found.is_some() {
            return found;
        }
        i = i + 1;
    }
    None
}

/// The vector of the first CVSS v3 rating among `entries`.
pub open spec fn first_cvss_vector(entries: Seq<OsvSeverityEntry>) -> Option<Seq<char>>
    decreases entries.len(),
{
    if entries.len() == 0 {
        None
    } else if entries[0].type_@ == "CVSS_V3"@ {
        Some(entries[0].score@)
    } else {
        first_cvss_vector(entries.drop_first())
    }
}

/// The label of a CVSS base score given in tenths (`98` is `9.8`).
pub open spec fn score_label(tenths: nat) -> Seq<char> {
    if tenths >= 90 {
        "CRITICAL"@
    } else if tenths >= 70 {
        "HIGH"@
    } else if tenths >= 40 {
        "MEDIUM"@
    } else {
        "LOW"@
    }
}

/// The severity label of `v`: the database's own rating in upper case where
/// the record has one; else the label of the score of its first CVSS v3
/// vector, given in tenths as `cvss_score_tenths`; else `UNKNOWN`.
pub open spec fn severity_of(v: OsvVulnerability, cvss_score_tenths: nat) -> Seq<char> {
    let from_cvss = if first_cvss_vector(v.severity@) is Some {
        score_label(cvss_score_tenths)
    } else {
        "UNKNOWN"@
    };
    match v.database_specific {
        Some(db) => match db.severity {
            Some(s) => uppercase(s@),
            None => from_cvss,
        },
        None => from_cvss,
    }
}

/// The vector of the first CVSS v3 rating of `vuln`; the score it gives
/// decides the severity where the database gives none.
pub fn cvss_vector(vuln: &OsvVulnerability) -> (r: Option<&String>)
    ensures
        match r {
            Some(s) => first_cvss_vector(vuln.severity@) == Some(s@),
            None => first_cvss_vector(vuln.severity@) is None,
        },
{
    let entries = &vuln.severity;
    let mut i: usize = 0;
    assert(entries@.skip(0) =~= entries@);
    while i < entries.len()
        invariant
            i <= entries@.len(),
            entries@ == vuln.severity@,
            first_cvss_vector(entries@) == first_cvss_vector(entries@.skip(i as int)),
        decreases entries@.len() - i,
    {
        assert(entries@.skip(i as int).drop_first() =~= entries@.skip(i + 1));
        if same_text(entries[i].type_.as_str(), "CVSS_V3") {
            return Some(&entries[i].score);
        }
        i = i + 1;
    }
    None
}

/// The label of a CVSS base score given in tenths: `CRITICAL` from 9.0,
/// `HIGH` from 7.0, `MEDIUM` from 4.0, `LOW` below.
pub fn severity_label(score_tenths: u64) -> (label: String)
    ensures
        label@ == score_label(score_tenths as nat),
{
    if score_tenths >= 90 {
        String::from_str("CRITICAL")
    } else if score_tenths >= 70 {
        String::from_str("HIGH")
    } else if score_tenths >= 40 {
        String::from_str("MEDIUM")
    } else {
        String::from_str("LOW")
    }
}

/// The severity label of `vuln`. `cvss_score_tenths` is the base score, in
/// tenths rounded up, of the vector [`cvss_vector`] gives; it is read only
/// where the record has such a vector and no rating of its database.
pub fn resolve_severity(vuln: &OsvVulnerability, cvss_score_tenths: u64) -> (label: String)
    ensures
        label@ == severity_of(*vuln, cvss_score_tenths as nat),
{
    if let Some(db) = &vuln.database_specific {
        if let Some(sev) = &db.severity {
            return to_uppercase(sev.as_str());
        }
    }
    match cvss_vector(vuln) {
        Some(_) => severity_label(cvss_score_tenths),
        None => String::from_str("UNKNOWN"),
    }
}

/// The rank of a score label: `LOW` 0, `MEDIUM` 1, `HIGH` 2, `CRITICAL` 3.
pub open spec fn label_rank(label: Seq<char>) -> int {
    if label == "CRITICAL"@ {
        3
    } else if label == "HIGH"@ {
        2
    } else if label == "MEDIUM"@ {
        1
    } else {
        0
    }
}

/// A higher CVSS score never gets a milder label.
pub proof fn lemma_score_label_monotone(a: nat, b: nat)
    requires
        a <= b,
    ensures
        label_rank(score_label(a)) <= label_rank(score_label(b)),
{
    reveal_strlit("CRITICAL");
    reveal_strlit("HIGH");
    reveal_strlit("MEDIUM");
    reveal_strlit("LOW");
    assert("CRITICAL"@.len() == 8);
    assert("HIGH"@.len() == 4);
    assert("MEDIUM"@.len() == 6);
    assert("LOW"@.len() == 3);
}

/// The label changes only where the score crosses 4.0, 7.0 or 9.0: from
/// `LOW` at 0 up to `CRITICAL` from 9.0 on.
pub proof fn lemma_score_label_boundaries(n: nat)
    ensures
        score_label(0) == "LOW"@,
        score_label(39) == "LOW"@,
        score_label(40) == "MEDIUM"@,
        score_label(69) == "MEDIUM"@,
        score_label(70) == "HIGH"@,
        score_label(89) == "HIGH"@,
        score_label(90) == "CRITICAL"@,
        n > 0 && n != 40 && n != 70 && n != 90 ==> score_label(n) == score_label((n - 1) as nat),
        n >= 90 ==> score_label(n) == score_label(90),
{
}

/// Whether the database rates `v` itself.
pub open spec fn has_database_rating(v: OsvVulnerability) -> bool {
    match v.database_specific {
        Some(db) => db.severity is Some,
        None => false,
    }
}

/// Where the database rates a vulnerability, its rating in upper case is the
/// label, whatever the CVSS score; where it does not, the label depends on
/// the score only through a CVSS v3 vector, and is `UNKNOWN` without one.
pub proof fn lemma_database_rating_decides(v: OsvVulnerability, sev: String, t1: nat, t2: nat)
    ensures
        v.database_specific == Some(OsvDatabaseSpecific { severity: Some(sev) }) ==> severity_of(
            v,
            t1,
        ) == uppercase(sev@) && severity_of(v, t2) == uppercase(sev@),
        !has_database_rating(v) && first_cvss_vector(v.severity@) is Some ==> severity_of(v, t1)
            == score_label(t1),
        !has_database_rating(v) && first_cvss_vector(v.severity@) is None ==> severity_of(v, t1)
            == "UNKNOWN"@ && severity_of(v, t2) == "UNKNOWN"@,
{
}

/// The first CVSS v3 rating decides: ratings after it, or of other types
/// before it, do not change the vector read.
pub proof fn lemma_first_cvss_vector_concat(a: Seq<OsvSeverityEntry>, b: Seq<OsvSeverityEntry>)
    ensures
        first_cvss_vector(a) is Some ==> first_cvss_vector(a + b) == first_cvss_vector(a),
        first_cvss_vector(a) is None ==> first_cvss_vector(a + b) == first_cvss_vector(b),
    decreases a.len(),
{
    if a.len() > 0 {
        assert((a + b)[0] == a[0]);
        assert((a + b).drop_first() =~= a.drop_first() + b);
        lemma_first_cvss_vector_concat(a.drop_first(), b);
    } else {
        assert(a + b =~= b);
    }
}

/// A rating of type `CVSS_V3` alone gives its score as the vector; a rating
/// of another type alone gives none.
pub proof fn lemma_first_cvss_vector_single(e: OsvSeverityEntry)
    ensures
        e.type_@ == "CVSS_V3"@ ==> first_cvss_vector(seq![e]) == Some(e.score@),
        e.type_@ != "CVSS_V3"@ ==> first_cvss_vector(seq![e]) is None,
{
    assert(seq![e].drop_first() =~= Seq::<OsvSeverityEntry>::empty());
    assert(seq![e][0] == e);
    assert(first_cvss_vector(Seq::<OsvSeverityEntry>::empty()) is None);
}

/// The first `fixed` event decides: events after it do not change the fixed
/// version, and events before it without one do not either.
pub proof fn lemma_fixed_in_events_concat(a: Seq<OsvEvent>, b: Seq<OsvEvent>)
    ensures
        fixed_in_events(a) is Some ==> fixed_in_events(a + b) == fixed_in_events(a),
        fixed_in_events(a) is None ==> fixed_in_events(a + b) == fixed_in_events(b),
    decreases a.len(),
{
    if a.len() > 0 {
        assert((a + b)[0] == a[0]);
        assert((a + b).drop_first() =~= a.drop_first() + b);
        lemma_fixed_in_events_concat(a.drop_first(), b);
    } else {
        assert(a + b =~= b);
    }
}

/// An event alone gives the version it fixes, if any.
pub proof fn lemma_fixed_in_event_single(e: OsvEvent)
    ensures
        fixed_in_events(seq![e]) == match e.fixed {
            Some(f) => Some(f@),
            None => None,
        },
{
    assert(seq![e].drop_first() =~= Seq::<OsvEvent>::empty());
    assert(seq![e][0] == e);
    assert(fixed_in_events(Seq::<OsvEvent>::empty()) is None);
}

/// The first range with a `fixed` event decides.
pub proof fn lemma_fixed_in_ranges_concat(a: Seq<OsvRange>, b: Seq<OsvRange>)
    ensures
        fixed_in_ranges(a) is Some ==> fixed_in_ranges(a + b) == fixed_in_ranges(a),
        fixed_in_ranges(a) is None ==> fixed_in_ranges(a + b) == fixed_in_ranges(b),
    decreases a.len(),
{
    if a.len() > 0 {
        assert((a + b)[0] == a[0]);
        assert((a + b).drop_first() =~= a.drop_first() + b);
        lemma_fixed_in_ranges_concat(a.drop_first(), b);
    } else {
        assert(a + b =~= b);
    }
}

/// A range alone gives the first version its events fix.
pub proof fn lemma_fixed_in_range_single(r: OsvRange)
    ensures
        fixed_in_ranges(seq![r]) == fixed_in_events(r.events@),
{
    assert(seq![r].drop_first() =~= Seq::<OsvRange>::empty());
    assert(seq![r][0] == r);
    assert(fixed_in_ranges(Seq::<OsvRange>::empty()) is None);
}

/// The first affected package with a `fixed` event decides.
pub proof fn lemma_fixed_in_affected_concat(a: Seq<OsvAffected>, b: Seq<OsvAffected>)
    ensures
        fixed_in_affected(a) is Some ==> fixed_in_affected(a + b) == fixed_in_affected(a),
        fixed_in_affected(a) is None ==> fixed_in_affected(a + b) == fixed_in_affected(b),
    decreases a.len(),
{
    if a.len() > 0 {
        assert((a + b)[0] == a[0]);
        assert((a + b).drop_first() =~= a.drop_first() + b);
        lemma_fixed_in_affected_concat(a.drop_first(), b);
    } else {
        assert(a + b =~= b);
    }
}

/// An affected package alone gives the first version its ranges fix.
pub proof fn lemma_fixed_in_affected_single(x: OsvAffected)
    ensures
        fixed_in_affected(seq![x]) == fixed_in_ranges(x.ranges@),
{
    assert(seq![x].drop_first() =~= Seq::<OsvAffected>::empty());
    assert(seq![x][0] == x);
    assert(fixed_in_affected(Seq::<OsvAffected>::empty()) is None);
}

} // verus!
