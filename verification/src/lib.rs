//! Supply-chain scanning: dependency manifests in, vulnerability matches out,
//! and the decisions of the HTTP endpoint that runs a scan.
pub mod cvss;
pub mod dependency;
pub mod manifest;
pub mod matches;
pub mod osv;
pub mod requirements;
pub mod scan_api;
pub mod text;
pub mod toml_value;
