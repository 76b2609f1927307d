use pyspector::scan_api::{
    bad_request_response, clone_arguments, clone_directory, report_format, scan_response,
    validate_scan_request, ScanOutcome, ScanRequestError, ScanResponse, ScanStep, ScanTarget,
};

#[test]
fn exactly_one_target_is_accepted() {
    assert_eq!(validate_scan_request(None, None), Err(ScanRequestError::MissingTarget));
    assert_eq!(
        validate_scan_request(Some("/src".to_string()), Some("https://x".to_string())),
        Err(ScanRequestError::ConflictingTargets)
    );
    assert_eq!(validate_scan_request(Some("/src".to_string()), None), Ok(ScanTarget::Path("/src".to_string())));
    assert_eq!(
        validate_scan_request(None, Some("https://x".to_string())),
        Ok(ScanTarget::Url("https://x".to_string()))
    );
}

#[test]
fn refused_requests_are_bad_requests() {
    assert_eq!(
        bad_request_response(ScanRequestError::MissingTarget),
        ScanResponse { status: 400, content_type: None, body: "Either 'path' or 'url' must be provided.".to_string() }
    );
    assert_eq!(ScanRequestError::ConflictingTargets.message(), "Cannot provide both 'path' and 'url'.");
}

#[test]
fn clone_directories_carry_the_timestamp() {
    assert_eq!(clone_directory(0), "/tmp/pyspector_scan_0");
    assert_eq!(clone_directory(1700000000123456789), "/tmp/pyspector_scan_1700000000123456789");
    assert_eq!(clone_directory(u128::MAX), format!("/tmp/pyspector_scan_{}", u128::MAX));
    assert_ne!(clone_directory(10), clone_directory(100));
}

#[test]
fn clones_are_shallow() {
    assert_eq!(
        clone_arguments("https://github.com/a/b", "/tmp/d"),
        vec!["clone", "--depth", "1", "https://github.com/a/b", "/tmp/d"]
    );
}

#[test]
fn failure_messages() {
    assert_eq!(
        ScanStep::ImportCli.failure_message("No module"),
        "Failed to import pyspector.cli: No module. Is PySpector installed?"
    );
    assert_eq!(ScanStep::CloneRepository.failure_message("fatal"), "Failed to clone repository: fatal");
    assert_eq!(ScanStep::RunGit.failure_message("not found"), "Failed to execute git clone: not found");
    assert_eq!(ScanStep::RunScan.failure_message("boom"), "Scan failed: boom");
    assert_eq!(ScanStep::ExtractReport.failure_message("e"), "Failed to extract report string: e");
    assert_eq!(ScanStep::GetFileAsts.failure_message("e"), "Failed to get Python file ASTs: e");
}

#[test]
fn report_formats() {
    assert_eq!(report_format(true), "json");
    assert_eq!(report_format(false), "console");
}

#[test]
fn responses() {
    assert_eq!(
        scan_response(true, ScanOutcome::Report("{}".to_string())),
        ScanResponse { status: 200, content_type: Some("application/json".to_string()), body: "{}".to_string() }
    );
    assert_eq!(
        scan_response(false, ScanOutcome::Report("ok".to_string())),
        ScanResponse { status: 200, content_type: Some("text/plain".to_string()), body: "ok".to_string() }
    );
    assert_eq!(
        scan_response(false, ScanOutcome::Failed("Scan failed: x".to_string())),
        ScanResponse { status: 500, content_type: None, body: "Scan failed: Scan failed: x".to_string() }
    );
    assert_eq!(
        scan_response(true, ScanOutcome::Interrupted("canceled".to_string())),
        ScanResponse { status: 500, content_type: None, body: "Internal error: canceled".to_string() }
    );
}
