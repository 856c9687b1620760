//! Request and response types of the scanner's tools `scan` and
//! `get-context`.

use vstd::prelude::*;

verus! {

/// Input to `scan`: `{org_id, repo_url, branch, commit_sha}`.
#[derive(Debug, Clone)]
pub struct ScanRequest {
    pub org_id: String,
    pub repo_url: String,
    pub branch: Option<String>,
    pub commit_sha: Option<String>,
}

/// Output of `scan`: object-store paths of the generated artifacts, plus
/// timing.
#[derive(Debug, Clone)]
pub struct ScanResponse {
    pub skill_md_path: String,
    pub instructions_md_path: String,
    pub schema_version: String,
    pub scan_duration_ms: u64,
}

/// Input to `get-context`: `{org_id, repo_url, branch}`.
#[derive(Debug, Clone)]
pub struct GetContextRequest {
    pub org_id: String,
    pub repo_url: String,
    pub branch: Option<String>,
}

/// Output of `get-context`. `stale` is true when the most recent scan
/// attempt for this repo failed, so these paths are from an earlier
/// successful scan rather than the latest commit: a signal to consider a
/// fresh scan, not an error.
#[derive(Debug, Clone)]
pub struct GetContextResponse {
    pub skill_md_path: String,
    pub instructions_md_path: String,
    pub schema_version: String,
    pub stale: bool,
}

} // verus!
