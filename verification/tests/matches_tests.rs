use pyspector::dependency::Dependency;
use pyspector::matches::{
    assemble_matches, match_for, matches_for, unique_by_name_and_version, unique_queries,
    PackageQuery, ScoredVulnerability, VulnerabilityMatch,
};
use pyspector::osv::{
    OsvAffected, OsvDatabaseSpecific, OsvEvent, OsvRange, OsvSeverityEntry, OsvVulnerability,
};

fn dep(name: &str, version: &str, file: &str, ecosystem: &str) -> Dependency {
    Dependency {
        name: name.to_string(),
        version: version.to_string(),
        file: file.to_string(),
        ecosystem: ecosystem.to_string(),
    }
}

fn query(name: &str, version: &str, ecosystem: &str) -> PackageQuery {
    PackageQuery { name: name.to_string(), version: version.to_string(), ecosystem: ecosystem.to_string() }
}

fn scored(id: &str, tenths: u64) -> ScoredVulnerability {
    ScoredVulnerability {
        vulnerability: OsvVulnerability {
            id: id.to_string(),
            summary: Some(format!("summary of {}", id)),
            severity: vec![OsvSeverityEntry { type_: "CVSS_V3".to_string(), score: "CVSS:3.1/AV:N".to_string() }],
            affected: vec![OsvAffected {
                ranges: vec![OsvRange { events: vec![OsvEvent { introduced: None, fixed: Some("9.9".to_string()) }] }],
            }],
            database_specific: None,
        },
        cvss_score_tenths: tenths,
    }
}

#[test]
fn each_package_version_is_queried_once() {
    let deps = vec![
        dep("a", "1", "r.txt", "PyPI"),
        dep("b", "2", "r.txt", "PyPI"),
        dep("a", "1", "pyproject.toml", "PyPI"),
        dep("a", "1", "Cargo.toml", "crates.io"),
        dep("a", "2", "r.txt", "PyPI"),
    ];
    assert_eq!(
        unique_queries(&deps),
        vec![query("a", "1", "PyPI"), query("b", "2", "PyPI"), query("a", "1", "crates.io"), query("a", "2", "PyPI")]
    );
    assert_eq!(unique_queries(&vec![]), vec![]);
}

#[test]
fn first_dependency_per_name_and_version() {
    let deps = vec![
        dep("a", "1", "x", "PyPI"),
        dep("a", "1", "y", "crates.io"),
        dep("b", "1@2", "z", "PyPI"),
        dep("b@1", "2", "w", "PyPI"),
        dep("c", "1", "v", "PyPI"),
    ];
    // `b` at `1@2` and `b@1` at `2` share the key `b@1@2`.
    assert_eq!(
        unique_by_name_and_version(&deps),
        vec![dep("a", "1", "x", "PyPI"), dep("b", "1@2", "z", "PyPI"), dep("c", "1", "v", "PyPI")]
    );
}

#[test]
fn a_match_reports_dependency_and_vulnerability() {
    let d = dep("requests", "2.0", "requirements.txt", "PyPI");
    let m = match_for(&d, &scored("GHSA-x", 75));
    assert_eq!(
        m,
        VulnerabilityMatch {
            dependency: "requests".to_string(),
            version: "2.0".to_string(),
            vulnerability_id: "GHSA-x".to_string(),
            severity: "HIGH".to_string(),
            summary: "summary of GHSA-x".to_string(),
            file: "requirements.txt".to_string(),
            fixed_version: Some("9.9".to_string()),
        }
    );
}

#[test]
fn missing_summary_is_empty_and_database_severity_wins() {
    let d = dep("a", "1", "f", "PyPI");
    let mut sv = scored("ID", 10);
    sv.vulnerability.summary = None;
    sv.vulnerability.affected = vec![];
    sv.vulnerability.database_specific = Some(OsvDatabaseSpecific { severity: Some("Low".to_string()) });
    let m = match_for(&d, &sv);
    assert_eq!(m.summary, "");
    assert_eq!(m.severity, "LOW");
    assert_eq!(m.fixed_version, None);
    assert_eq!(matches_for(&d, &vec![sv.clone(), scored("B", 95)]).len(), 2);
}

#[test]
fn every_occurrence_is_reported_with_its_file() {
    let deps = vec![
        dep("a", "1", "r.txt", "PyPI"),
        dep("b", "2", "r.txt", "PyPI"),
        dep("a", "1", "pyproject.toml", "PyPI"),
    ];
    let queries = unique_queries(&deps);
    let found = vec![vec![scored("V1", 95), scored("V2", 30)], vec![]];
    let ms = assemble_matches(&deps, &queries, &found);
    let summary: Vec<(String, String, String)> =
        ms.iter().map(|m| (m.dependency.clone(), m.vulnerability_id.clone(), m.file.clone())).collect();
    assert_eq!(
        summary,
        vec![
            ("a".to_string(), "V1".to_string(), "r.txt".to_string()),
            ("a".to_string(), "V2".to_string(), "r.txt".to_string()),
            ("a".to_string(), "V1".to_string(), "pyproject.toml".to_string()),
            ("a".to_string(), "V2".to_string(), "pyproject.toml".to_string()),
        ]
    );
    assert_eq!(ms[0].severity, "CRITICAL");
    assert_eq!(ms[1].severity, "LOW");
}

#[test]
fn a_dependency_without_a_query_gets_no_match() {
    let deps = vec![dep("a", "1", "r.txt", "PyPI")];
    let ms = assemble_matches(&deps, &vec![query("z", "1", "PyPI")], &vec![vec![scored("V", 50)]]);
    assert!(ms.is_empty());
}
