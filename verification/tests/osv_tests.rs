use pyspector::cvss::{
    cvss_weights, parse_cvss_vector, AttackComplexity, AttackVector, CvssMetrics, CvssWeights,
    ImpactLevel, PrivilegesRequired, UserInteraction,
};
use pyspector::osv::{
    cvss_vector, extract_fixed_version, reply_vulnerabilities, resolve_severity, severity_label,
    OsvAffected, OsvDatabaseSpecific, OsvEvent, OsvRange, OsvReply, OsvResponse, OsvSeverityEntry,
    OsvVulnerability, OSV_QUERY_URL,
};

fn vuln(id: &str) -> OsvVulnerability {
    OsvVulnerability {
        id: id.to_string(),
        summary: None,
        severity: vec![],
        affected: vec![],
        database_specific: None,
    }
}

fn event(introduced: Option<&str>, fixed: Option<&str>) -> OsvEvent {
    OsvEvent { introduced: introduced.map(|s| s.to_string()), fixed: fixed.map(|s| s.to_string()) }
}

fn rating(type_: &str, score: &str) -> OsvSeverityEntry {
    OsvSeverityEntry { type_: type_.to_string(), score: score.to_string() }
}

#[test]
fn the_first_fixed_event_gives_the_fixed_version() {
    let mut v = vuln("GHSA-1");
    assert_eq!(extract_fixed_version(&v), None);
    v.affected = vec![
        OsvAffected { ranges: vec![OsvRange { events: vec![event(Some("0"), None)] }] },
        OsvAffected {
            ranges: vec![
                OsvRange { events: vec![] },
                OsvRange { events: vec![event(Some("1.0"), None), event(None, Some("1.2.3")), event(None, Some("2.0"))] },
            ],
        },
        OsvAffected { ranges: vec![OsvRange { events: vec![event(None, Some("9"))] }] },
    ];
    assert_eq!(extract_fixed_version(&v), Some("1.2.3".to_string()));
}

#[test]
fn database_severity_comes_first_in_upper_case() {
    let mut v = vuln("PYSEC-1");
    v.database_specific = Some(OsvDatabaseSpecific { severity: Some("moderate".to_string()) });
    v.severity = vec![rating("CVSS_V3", "CVSS:3.1/AV:N")];
    assert_eq!(resolve_severity(&v, 98), "MODERATE");
}

#[test]
fn cvss_score_decides_without_database_severity() {
    let mut v = vuln("GHSA-2");
    v.database_specific = Some(OsvDatabaseSpecific { severity: None });
    v.severity = vec![rating("CVSS_V2", "AV:N"), rating("CVSS_V3", "CVSS:3.1/AV:N")];
    assert_eq!(resolve_severity(&v, 98), "CRITICAL");
    assert_eq!(resolve_severity(&v, 75), "HIGH");
    assert_eq!(resolve_severity(&v, 40), "MEDIUM");
    assert_eq!(resolve_severity(&v, 0), "LOW");
}

#[test]
fn no_rating_is_unknown() {
    let mut v = vuln("GHSA-3");
    assert_eq!(resolve_severity(&v, 100), "UNKNOWN");
    v.severity = vec![rating("CVSS_V4", "CVSS:4.0/AV:N")];
    assert_eq!(resolve_severity(&v, 100), "UNKNOWN");
}

#[test]
fn score_thresholds() {
    assert_eq!(severity_label(90), "CRITICAL");
    assert_eq!(severity_label(89), "HIGH");
    assert_eq!(severity_label(70), "HIGH");
    assert_eq!(severity_label(69), "MEDIUM");
    assert_eq!(severity_label(40), "MEDIUM");
    assert_eq!(severity_label(39), "LOW");
    assert_eq!(severity_label(108), "CRITICAL");
}

#[test]
fn a_higher_score_is_never_milder() {
    let rank = |s: String| match s.as_str() {
        "LOW" => 0,
        "MEDIUM" => 1,
        "HIGH" => 2,
        _ => 3,
    };
    for a in 0..=110u64 {
        assert!(rank(severity_label(a)) <= rank(severity_label(a + 1)));
    }
}

#[test]
fn the_first_cvss_v3_vector_is_read() {
    let mut v = vuln("x");
    v.severity = vec![rating("CVSS_V2", "a"), rating("CVSS_V3", "b"), rating("CVSS_V3", "c")];
    assert_eq!(cvss_vector(&v), Some(&"b".to_string()));
}

#[test]
fn full_vector_metrics() {
    let m = parse_cvss_vector("CVSS:3.1/AV:N/AC:L/PR:N/UI:N/S:U/C:H/I:H/A:H");
    assert_eq!(
        m,
        CvssMetrics {
            attack_vector: Some(AttackVector::Network),
            attack_complexity: Some(AttackComplexity::Low),
            privileges_required: Some(PrivilegesRequired::NotRequired),
            user_interaction: Some(UserInteraction::NotRequired),
            scope_changed: false,
            confidentiality: Some(ImpactLevel::High),
            integrity: Some(ImpactLevel::High),
            availability: Some(ImpactLevel::High),
        }
    );
    assert_eq!(
        cvss_weights(&m),
        CvssWeights {
            attack_vector: 85,
            attack_complexity: 77,
            privileges_required: 85,
            user_interaction: 85,
            scope_changed: false,
            confidentiality: 56,
            integrity: 56,
            availability: 56,
        }
    );
}

#[test]
fn privileges_weigh_by_scope() {
    let m = parse_cvss_vector("AV:P/AC:H/PR:L/UI:R/S:C/C:L/I:N/A:X");
    assert_eq!(m.attack_vector, Some(AttackVector::Physical));
    assert_eq!(m.privileges_required, Some(PrivilegesRequired::Low));
    assert!(m.scope_changed);
    assert_eq!(m.availability, None);
    let w = cvss_weights(&m);
    assert_eq!(
        (w.attack_vector, w.attack_complexity, w.privileges_required, w.user_interaction),
        (20, 44, 68, 62)
    );
    assert_eq!((w.confidentiality, w.integrity, w.availability), (22, 0, 0));
    let h = cvss_weights(&parse_cvss_vector("PR:H/S:C"));
    assert_eq!(h.privileges_required, 50);
    let h = cvss_weights(&parse_cvss_vector("PR:H/S:U"));
    assert_eq!(h.privileges_required, 27);
    let l = cvss_weights(&parse_cvss_vector("PR:L"));
    assert_eq!(l.privileges_required, 62);
}

#[test]
fn later_parts_override_and_unknown_codes_are_ignored() {
    let m = parse_cvss_vector("AV:N/AV:L/AV:Z/S:C/S:X");
    assert_eq!(m.attack_vector, Some(AttackVector::Local));
    assert!(m.scope_changed);
    // An unknown privilege code counts as none required.
    let m = parse_cvss_vector("PR:H/PR:Q");
    assert_eq!(m.privileges_required, Some(PrivilegesRequired::NotRequired));
    assert_eq!(cvss_weights(&m).privileges_required, 85);
}

#[test]
fn an_empty_vector_states_nothing() {
    let w = cvss_weights(&parse_cvss_vector(""));
    assert_eq!(
        w,
        CvssWeights {
            attack_vector: 0,
            attack_complexity: 0,
            privileges_required: 0,
            user_interaction: 0,
            scope_changed: false,
            confidentiality: 0,
            integrity: 0,
            availability: 0,
        }
    );
    let m = parse_cvss_vector("AV:NN/AVN/C:L/A:H/I:L/UI:X");
    assert_eq!(m.attack_vector, None);
    assert_eq!(m.confidentiality, Some(ImpactLevel::Low));
    assert_eq!(m.integrity, Some(ImpactLevel::Low));
    assert_eq!(m.availability, Some(ImpactLevel::High));
    assert_eq!(m.user_interaction, None);
}

#[test]
fn failed_queries_find_nothing() {
    assert!(reply_vulnerabilities(OsvReply::Unreachable).is_empty());
    assert!(reply_vulnerabilities(OsvReply::Rejected).is_empty());
    assert!(reply_vulnerabilities(OsvReply::Malformed).is_empty());
    let found = reply_vulnerabilities(OsvReply::Parsed(OsvResponse { vulns: vec![vuln("a"), vuln("b")] }));
    assert_eq!(found, vec![vuln("a"), vuln("b")]);
    assert_eq!(OSV_QUERY_URL, "https://api.osv.dev/v1/query");
}

#[test]
fn version_label_and_order_leave_metrics_unchanged() {
    let v = "AV:N/AC:H/PR:L/UI:R/S:C/C:L/I:H/A:N";
    let m = parse_cvss_vector(v);
    assert_eq!(parse_cvss_vector(&format!("CVSS:3.1/{}", v)), m);
    assert_eq!(parse_cvss_vector("A:N/I:H/C:L/S:C/UI:R/PR:L/AC:H/AV:N"), m);
    assert_eq!(parse_cvss_vector("S:C/PR:L/CVSS:3.1/AV:N/A:N/AC:H/I:H/UI:R/C:L"), m);
}
