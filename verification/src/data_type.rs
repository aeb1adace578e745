//! Plain data carried through the scanner: run parameters, completed fetch
//! records, scan modes and small option holders.

use vstd::prelude::*;
use vstd::string::StringExecFns;
use crate::rules::{FilterRules, Matches};

verus! {

/// A completed HTTP response captured for downstream evaluation. Produced
/// exactly once per surviving wordlist entry and immutable afterwards. The
/// remote address is carried as its display text; the duration in
/// milliseconds.
pub struct HttpResp {
    pub url: String,
    pub status: u16,
    pub html: Vec<u8>,
    pub duration_ms: u64,
    pub remote_addr: Option<String>,
}

/// How much the run prints: full per-record detail, live stats only, or
/// bare hit URLs.
#[derive(PartialEq, Eq, Structural, Clone, Copy, Debug)]
pub enum ScanMode {
    Debug,
    Stats,
    Silent,
}

impl ScanMode {
    /// The mode's display name.
    pub open spec fn spec_name(self) -> Seq<char> {
        match self {
            ScanMode::Debug => "debug"@,
            ScanMode::Stats => "detail"@,
            ScanMode::Silent => "silent"@,
        }
    }

    /// The mode's display name.
    pub fn to_string(&self) -> (s: String)
        ensures
            s@ == self.spec_name(),
    {
        match self {
            ScanMode::Debug => String::from_str("debug"),
            ScanMode::Stats => String::from_str("detail"),
            ScanMode::Silent => String::from_str("silent"),
        }
    }
}

/// Where the optional per-record script hook lives.
#[derive(Clone, Debug, Default)]
pub struct ScriptOpt {
    pub script_path: String,
}

/// A hit, as persisted: the URL that survived the rules.
#[derive(Clone, Debug)]
pub struct MatchResult {
    pub url: String,
}

/// Everything a run is configured with, as plain data. The HTTP client is
/// built from the connection fields by the caller; the core never touches
/// the network itself.
pub struct Params {
    pub user_agent: String,
    pub request_timeout: u64,
    pub concurrent_num: usize,
    pub proxy_server: String,
    pub proxy_user: String,
    pub proxy_pass: String,
    pub follow_redirect: usize,
    pub wordlist: Vec<String>,
    pub wordlist_len: usize,
    pub fuzz_url: String,
    pub result_file: Option<String>,
    pub print_state: bool,
    pub request_retries: usize,
    pub dns_try: bool,
    pub script_option: Option<ScriptOpt>,
    pub scan_mode: ScanMode,
    pub no_color: bool,
    pub custom_matches: Option<Matches>,
    pub custom_filters: Option<FilterRules>,
}

} // verus!
