//! The decisions of the `/scan` endpoint: which target a request names, where
//! a repository is cloned to, what a failed step reports, and the answer the
//! client gets.
use vstd::prelude::*;
use vstd::string::*;

use crate::text::push_char;

verus! {

/// What a scan request asks to scan.
#[derive(Debug, Clone, PartialEq, Eq)]
pub enum ScanTarget {
    /// A directory on the server.
    Path(String),
    /// A git repository to clone first.
    Url(String),
}

/// Why a scan request is refused.
#[derive(Debug, Clone, Copy, PartialEq, Eq)]
pub enum ScanRequestError {
    /// Neither a path nor a URL was given.
    MissingTarget,
    /// Both a path and a URL were given.
    ConflictingTargets,
}

/// The text a refused request is answered with.
pub open spec fn request_error_text(e: ScanRequestError) -> Seq<char> {
    match e {
        ScanRequestError::MissingTarget => "Either 'path' or 'url' must be provided."@,
        ScanRequestError::ConflictingTargets => "Cannot provide both 'path' and 'url'."@,
    }
}

impl ScanRequestError {
    /// The text the request is answered with.
    pub fn message(&self) -> (m: String)
        ensures
            m@ == request_error_text(*self),
    {
        match self {
            ScanRequestError::MissingTarget => String::from_str(
                "Either 'path' or 'url' must be provided.",
            ),
            ScanRequestError::ConflictingTargets => String::from_str(
                "Cannot provide both 'path' and 'url'.",
            ),
        }
    }
}

/// The target of a request that gives `path` or `url`: exactly one of the
/// two must be given.
pub fn validate_scan_request(path: Option<String>, url: Option<String>) -> (r: Result<
    ScanTarget,
    ScanRequestError,
>)
    ensures
        match (path, url) {
            (None, None) => r == Err::<ScanTarget, ScanRequestError>(
                ScanRequestError::MissingTarget,
            ),
            (Some(_), Some(_)) => r == Err::<ScanTarget, ScanRequestError>(
                ScanRequestError::ConflictingTargets,
            ),
            (Some(p), None) => r == Ok::<ScanTarget, ScanRequestError>(ScanTarget::Path(p)),
            (None, Some(u)) => r == Ok::<ScanTarget, ScanRequestError>(ScanTarget::Url(u)),
        },
{
    match (path, url) {
        (None, None) => Err(ScanRequestError::MissingTarget),
        (Some(_), Some(_)) => Err(ScanRequestError::ConflictingTargets),
        (Some(p), None) => Ok(ScanTarget::Path(p)),
        (None, Some(u)) => Ok(ScanTarget::Url(u)),
    }
}

/// The decimal digit `d`.
pub open spec fn digit(d: nat) -> char {
    if d == 0 {
        '0'
    } else if d == 1 {
        '1'
    } else if d == 2 {
        '2'
    } else if d == 3 {
        '3'
    } else if d == 4 {
        '4'
    } else if d == 5 {
        '5'
    } else if d == 6 {
        '6'
    } else if d == 7 {
        '7'
    } else if d == 8 {
        '8'
    } else {
        '9'
    }
}

/// `n` written in decimal, without leading zeros.
pub open spec fn decimal(n: nat) -> Seq<char>
    decreases n,
{
    if n < 10 {
        seq![digit(n)]
    } else {
        decimal(n / 10).push(digit(n % 10))
    }
}

fn digit_char(d: u128) -> (c: char)
    requires
        d < 10,
    ensures
        c == digit(d as nat),
{
    if d == 0 {
        '0'
    } else if d == 1 {
        '1'
    } else if d == 2 {
        '2'
    } else if d == 3 {
        '3'
    } else if d == 4 {
        '4'
    } else if d == 5 {
        '5'
    } else if d == 6 {
        '6'
    } else if d == 7 {
        '7'
    } else if d == 8 {
        '8'
    } else {
        '9'
    }
}

/// Appends `n` in decimal to `s`.
fn push_decimal(s: &mut String, n: u128)
    ensures
        final(s)@ == old(s)@ + decimal(n as nat),
    decreases n,
{
    if n >= 10 {
        push_decimal(s, n / 10);
    }
    push_char(s, digit_char(n % 10));
    assert(n >= 10 ==> decimal(n as nat) == decimal((n / 10) as nat).push(digit((n % 10) as nat)));
    assert(old(s)@ + decimal(n as nat) =~= final(s)@) by {
        if n < 10 {
            assert(decimal(n as nat) == seq![digit(n as nat)]);
        }
    }
}

/// The directory a repository is cloned to for a scan that starts
/// `timestamp_nanos` nanoseconds after the Unix epoch.
pub open spec fn clone_directory_of(timestamp_nanos: nat) -> Seq<char> {
    "/tmp/pyspector_scan_"@ + decimal(timestamp_nanos)
}

/// The directory a repository is cloned to for a scan that starts
/// `timestamp_nanos` nanoseconds after the Unix epoch.
pub fn clone_directory(timestamp_nanos: u128) -> (dir: String)
    ensures
        dir@ == clone_directory_of(timestamp_nanos as nat),
{
    let mut dir = String::from_str("/tmp/pyspector_scan_");
    push_decimal(&mut dir, timestamp_nanos);
    dir
}

/// A decimal numeral has at least one digit.
proof fn lemma_decimal_len(n: nat)
    ensures
        decimal(n).len() >= 1,
        n >= 10 ==> decimal(n).len() >= 2,
    decreases n,
{
    if n >= 10 {
        lemma_decimal_len(n / 10);
    }
}

/// Distinct numbers have distinct decimal numerals.
pub proof fn lemma_decimal_injective(a: nat, b: nat)
    requires
        decimal(a) == decimal(b),
    ensures
        a == b,
    decreases a,
{
    lemma_decimal_len(a);
    lemma_decimal_len(b);
    if a >= 10 && b >= 10 {
        let da = decimal(a);
        let db = decimal(b);
        assert(da.drop_last() =~= decimal(a / 10));
        assert(db.drop_last() =~= decimal(b / 10));
        lemma_decimal_injective(a / 10, b / 10);
        assert(da.last() == digit(a % 10));
        assert(db.last() == digit(b % 10));
    } else if a < 10 && b < 10 {
        assert(decimal(a)[0] == digit(a));
        assert(decimal(b)[0] == digit(b));
    }
}

/// Scans that start at different times clone to different directories.
pub proof fn lemma_clone_directories_distinct(a: nat, b: nat)
    requires
        a != b,
    ensures
        clone_directory_of(a) != clone_directory_of(b),
{
    let prefix = "/tmp/pyspector_scan_"@;
    if clone_directory_of(a) == clone_directory_of(b) {
        assert(clone_directory_of(a).skip(prefix.len() as int) =~= decimal(a));
        assert(clone_directory_of(b).skip(prefix.len() as int) =~= decimal(b));
        lemma_decimal_injective(a, b);
    }
}

/// The arguments of the `git` command that clones `url` into `directory`:
/// a shallow clone of depth one.
pub fn clone_arguments(url: &str, directory: &str) -> (args: Vec<String>)
    ensures
        args@.map_values(|a: String| a@) == seq![
            "clone"@,
            "--depth"@,
            "1"@,
            url@,
            directory@,
        ],
{
    let args = vec![
        String::from_str("clone"),
        String::from_str("--depth"),
        String::from_str("1"),
        String::from_str(url),
        String::from_str(directory),
    ];
    assert(args@.map_values(|a: String| a@) =~= seq![
        "clone"@,
        "--depth"@,
        "1"@,
        url@,
        directory@,
    ]);
    args
}

/// A step of a scan that can fail.
#[derive(Debug, Clone, Copy, PartialEq, Eq)]
pub enum ScanStep {
    /// `git clone` ran and failed.
    CloneRepository,
    /// `git` could not be run.
    RunGit,
    ImportCli,
    ImportConfig,
    ImportReporting,
    ImportRustCore,
    LoadConfig,
    GetDefaultRules,
    ImportPathlib,
    CreatePath,
    GetFileAsts,
    RunScan,
    CreateReporter,
    GenerateReport,
    ExtractReport,
}

/// The text before the cause in the report of a failed step.
pub open spec fn step_prefix(step: ScanStep) -> Seq<char> {
    match step {
        ScanStep::CloneRepository => "Failed to clone repository: "@,
        ScanStep::RunGit => "Failed to execute git clone: "@,
        ScanStep::ImportCli => "Failed to import pyspector.cli: "@,
        ScanStep::ImportConfig => "Failed to import pyspector.config: "@,
        ScanStep::ImportReporting => "Failed to import pyspector.reporting: "@,
        ScanStep::ImportRustCore => "Failed to import pyspector._rust_core: "@,
        ScanStep::LoadConfig => "Failed to load config: "@,
        ScanStep::GetDefaultRules => "Failed to get default rules: "@,
        ScanStep::ImportPathlib => "Failed to import pathlib: "@,
        ScanStep::CreatePath => "Failed to create Path object: "@,
        ScanStep::GetFileAsts => "Failed to get Python file ASTs: "@,
        ScanStep::RunScan => "Scan failed: "@,
        ScanStep::CreateReporter => "Failed to create reporter: "@,
        ScanStep::GenerateReport => "Failed to generate report: "@,
        ScanStep::ExtractReport => "Failed to extract report string: "@,
    }
}

/// The text after the cause in the report of a failed step.
pub open spec fn step_suffix(step: ScanStep) -> Seq<char> {
    match step {
        ScanStep::ImportCli => ". Is PySpector installed?"@,
        _ => seq![],
    }
}

impl ScanStep {
    fn prefix(&self) -> (p: &'static str)
        ensures
            p@ == step_prefix(*self),
    {
        match self {
            ScanStep::CloneRepository => "Failed to clone repository: ",
            ScanStep::RunGit => "Failed to execute git clone: ",
            ScanStep::ImportCli => "Failed to import pyspector.cli: ",
            ScanStep::ImportConfig => "Failed to import pyspector.config: ",
            ScanStep::ImportReporting => "Failed to import pyspector.reporting: ",
            ScanStep::ImportRustCore => "Failed to import pyspector._rust_core: ",
            ScanStep::LoadConfig => "Failed to load config: ",
            ScanStep::GetDefaultRules => "Failed to get default rules: ",
            ScanStep::ImportPathlib => "Failed to import pathlib: ",
            ScanStep::CreatePath => "Failed to create Path object: ",
            ScanStep::GetFileAsts => "Failed to get Python file ASTs: ",
            ScanStep::RunScan => "Scan failed: ",
            ScanStep::CreateReporter => "Failed to create reporter: ",
            ScanStep::GenerateReport => "Failed to generate report: ",
            ScanStep::ExtractReport => "Failed to extract report string: ",
        }
    }

    /// The report of this step failing because of `cause`.
    pub fn failure_message(&self, cause: &str) -> (m: String)
        ensures
            m@ == step_prefix(*self) + cause@ + step_suffix(*self),
    {
        let mut m = String::from_str(self.prefix());
        m.append(cause);
        match self {
            ScanStep::ImportCli => {
                m.append(". Is PySpector installed?");
            },
            _ => {
                assert(m@ =~= m@ + seq![]);
            },
        }
        m
    }
}

/// The format a report is rendered in: `json` where JSON output was asked
/// for, `console` otherwise.
pub fn report_format(json_output: bool) -> (format: &'static str)
    ensures
        format@ == (if json_output {
            "json"@
        } else {
            "console"@
        }),
{
    if json_output {
        "json"
    } else {
        "console"
    }
}

/// How a scan ended.
#[derive(Debug, Clone, PartialEq, Eq)]
pub enum ScanOutcome {
    /// The scan produced this report.
    Report(String),
    /// A step failed, with this report of the failure.
    Failed(String),
    /// The worker that ran the scan stopped, with this cause.
    Interrupted(String),
}

/// The answer to a scan request.
#[derive(Debug, Clone, PartialEq, Eq)]
pub struct ScanResponse {
    /// The HTTP status code.
    pub status: u16,
    /// The content type, where the answer sets one.
    pub content_type: Option<String>,
    pub body: String,
}

/// The text of an optional content type.
pub open spec fn content_type_text(ct: Option<String>) -> Option<Seq<char>> {
    match ct {
        Some(s) => Some(s@),
        None => None,
    }
}

/// The answer to a refused request: `400 Bad Request` with the refusal's text.
pub fn bad_request_response(error: ScanRequestError) -> (r: ScanResponse)
    ensures
        r.status == 400,
        r.content_type is None,
        r.body@ == request_error_text(error),
{
    ScanResponse { status: 400, content_type: None, body: error.message() }
}

/// The answer to a scan that ended with `outcome`: `200 OK` with the report,
/// as `application/json` where JSON output was asked for and as `text/plain`
/// otherwise; `500 Internal Server Error` with `Scan failed: ` and the failure,
/// or with `Internal error: ` and the cause where the worker stopped.
pub fn scan_response(json_output: bool, outcome: ScanOutcome) -> (r: ScanResponse)
    ensures
        match outcome {
            ScanOutcome::Report(report) => {
                &&& r.status == 200
                &&& content_type_text(r.content_type) == Some(
                    if json_output {
                        "application/json"@
                    } else {
                        "text/plain"@
                    },
                )
                &&& r.body@ == report@
            },
            ScanOutcome::Failed(failure) => {
                &&& r.status == 500
                &&& r.content_type is None
                &&& r.body@ == "Scan failed: "@ + failure@
            },
            ScanOutcome::Interrupted(cause) => {
                &&& r.status == 500
                &&& r.content_type is None
                &&& r.body@ == "Internal error: "@ + cause@
            },
        },
{
    match outcome {
        ScanOutcome::Report(report) => {
            let content_type = if json_output {
                String::from_str("application/json")
            } else {
                String::from_str("text/plain")
            };
            ScanResponse { status: 200, content_type: Some(content_type), body: report }
        },
        ScanOutcome::Failed(failure) => {
            let mut body = String::from_str("Scan failed: ");
            body.append(failure.as_str());
            ScanResponse { status: 500, content_type: None, body }
        },
        ScanOutcome::Interrupted(cause) => {
            let mut body = String::from_str("Internal error: ");
            body.append(cause.as_str());
            ScanResponse { status: 500, content_type: None, body }
        },
    }
}

} // verus!
