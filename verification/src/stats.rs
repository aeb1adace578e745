//! Stats aggregator: increment-only counters keyed by outcome kind.

use vstd::prelude::*;
use vstd::string::StringExecFns;
use crate::text::{spec_decimal, u64_to_string};

verus! {

/// The fixed outcome-kind enumeration the scanner counts.
#[derive(PartialEq, Eq, Structural, Clone, Copy, Debug, Hash)]
pub enum Stats {
    IOErr,
    Done,
    Hits,
    DNSErr,
    TimeOut,
    C404,
    C500,
    C502,
    C200,
    C301,
    C302,
    C403,
    C401,
    C000,
}

/// Typed taxonomy for a failed fetch attempt, decided at the HTTP client
/// boundary: a timed-out request, a name-resolution failure, a transport
/// error while sending the request, or anything else.
#[derive(PartialEq, Eq, Structural, Clone, Copy, Debug)]
pub enum FetchErrorKind {
    Timeout,
    Dns,
    Request,
    Other,
}

/// Counter table: one counter per outcome kind, never reset during a run.
#[derive(PartialEq, Eq, Structural, Clone, Copy, Debug)]
pub struct StatsTable {
    pub io_err: u64,
    pub done: u64,
    pub hits: u64,
    pub dns_err: u64,
    pub time_out: u64,
    pub c404: u64,
    pub c500: u64,
    pub c502: u64,
    pub c200: u64,
    pub c301: u64,
    pub c302: u64,
    pub c403: u64,
    pub c401: u64,
    pub c000: u64,
}

/// A counter bump that cannot overflow: counters stick at the top.
pub open spec fn bump(n: u64) -> u64 {
    if n < u64::MAX {
        (n + 1) as u64
    } else {
        n
    }
}

impl StatsTable {
    /// The table with every counter at zero.
    pub open spec fn spec_zero() -> StatsTable {
        StatsTable {
            io_err: 0,
            done: 0,
            hits: 0,
            dns_err: 0,
            time_out: 0,
            c404: 0,
            c500: 0,
            c502: 0,
            c200: 0,
            c301: 0,
            c302: 0,
            c403: 0,
            c401: 0,
            c000: 0,
        }
    }

    /// The counter that belongs to an outcome kind.
    pub open spec fn spec_get(self, stat: Stats) -> u64 {
        match stat {
            Stats::IOErr => self.io_err,
            Stats::Done => self.done,
            Stats::Hits => self.hits,
            Stats::DNSErr => self.dns_err,
            Stats::TimeOut => self.time_out,
            Stats::C404 => self.c404,
            Stats::C500 => self.c500,
            Stats::C502 => self.c502,
            Stats::C200 => self.c200,
            Stats::C301 => self.c301,
            Stats::C302 => self.c302,
            Stats::C403 => self.c403,
            Stats::C401 => self.c401,
            Stats::C000 => self.c000,
        }
    }

    /// The table after one increment of the counter for `stat`; every other
    /// counter is unchanged.
    pub open spec fn spec_inc(self, stat: Stats) -> StatsTable {
        match stat {
            Stats::IOErr => StatsTable { io_err: bump(self.io_err), ..self },
            Stats::Done => StatsTable { done: bump(self.done), ..self },
            Stats::Hits => StatsTable { hits: bump(self.hits), ..self },
            Stats::DNSErr => StatsTable { dns_err: bump(self.dns_err), ..self },
            Stats::TimeOut => StatsTable { time_out: bump(self.time_out), ..self },
            Stats::C404 => StatsTable { c404: bump(self.c404), ..self },
            Stats::C500 => StatsTable { c500: bump(self.c500), ..self },
            Stats::C502 => StatsTable { c502: bump(self.c502), ..self },
            Stats::C200 => StatsTable { c200: bump(self.c200), ..self },
            Stats::C301 => StatsTable { c301: bump(self.c301), ..self },
            Stats::C302 => StatsTable { c302: bump(self.c302), ..self },
            Stats::C403 => StatsTable { c403: bump(self.c403), ..self },
            Stats::C401 => StatsTable { c401: bump(self.c401), ..self },
            Stats::C000 => StatsTable { c000: bump(self.c000), ..self },
        }
    }

    /// A fresh table, all counters zero.
    pub fn new() -> (t: StatsTable)
        ensures
            t == StatsTable::spec_zero(),
    {
        StatsTable {
            io_err: 0,
            done: 0,
            hits: 0,
            dns_err: 0,
            time_out: 0,
            c404: 0,
            c500: 0,
            c502: 0,
            c200: 0,
            c301: 0,
            c302: 0,
            c403: 0,
            c401: 0,
            c000: 0,
        }
    }

    /// Read accessor for live display.
    pub fn get(&self, stat: &Stats) -> (n: u64)
        ensures
            n == self.spec_get(*stat),
    {
        match stat {
            Stats::IOErr => self.io_err,
            Stats::Done => self.done,
            Stats::Hits => self.hits,
            Stats::DNSErr => self.dns_err,
            Stats::TimeOut => self.time_out,
            Stats::C404 => self.c404,
            Stats::C500 => self.c500,
            Stats::C502 => self.c502,
            Stats::C200 => self.c200,
            Stats::C301 => self.c301,
            Stats::C302 => self.c302,
            Stats::C403 => self.c403,
            Stats::C401 => self.c401,
            Stats::C000 => self.c000,
        }
    }
}

/// One exec bump of a single counter value.
fn bump_counter(n: u64) -> (r: u64)
    ensures
        r == bump(n),
{
    if n < u64::MAX {
        n + 1
    } else {
        n
    }
}

/// Increment the counter for one outcome kind; all other counters keep
/// their value.
pub fn stats_inc(table: &mut StatsTable, stat: &Stats)
    ensures
        *final(table) == old(table).spec_inc(*stat),
{
    match stat {
        Stats::IOErr => table.io_err = bump_counter(table.io_err),
        Stats::Done => table.done = bump_counter(table.done),
        Stats::Hits => table.hits = bump_counter(table.hits),
        Stats::DNSErr => table.dns_err = bump_counter(table.dns_err),
        Stats::TimeOut => table.time_out = bump_counter(table.time_out),
        Stats::C404 => table.c404 = bump_counter(table.c404),
        Stats::C500 => table.c500 = bump_counter(table.c500),
        Stats::C502 => table.c502 = bump_counter(table.c502),
        Stats::C200 => table.c200 = bump_counter(table.c200),
        Stats::C301 => table.c301 = bump_counter(table.c301),
        Stats::C302 => table.c302 = bump_counter(table.c302),
        Stats::C403 => table.c403 = bump_counter(table.c403),
        Stats::C401 => table.c401 = bump_counter(table.c401),
        Stats::C000 => table.c000 = bump_counter(table.c000),
    }
}

/// The status bucket a numeric HTTP status falls into; statuses outside the
/// tracked set land in the catch-all bucket.
pub open spec fn code_bucket(code: u16) -> Stats {
    if code == 502 {
        Stats::C502
    } else if code == 500 {
        Stats::C500
    } else if code == 200 {
        Stats::C200
    } else if code == 404 {
        Stats::C404
    } else if code == 403 {
        Stats::C403
    } else if code == 401 {
        Stats::C401
    } else if code == 301 {
        Stats::C301
    } else if code == 302 {
        Stats::C302
    } else {
        Stats::C000
    }
}

/// Classify a received HTTP status line into its bucket and count it.
pub fn stats_code_inc(table: &mut StatsTable, stat: &u16)
    ensures
        *final(table) == old(table).spec_inc(code_bucket(*stat)),
{
    let code = match stat {
        502 => Stats::C502,
        500 => Stats::C500,
        200 => Stats::C200,
        404 => Stats::C404,
        403 => Stats::C403,
        401 => Stats::C401,
        301 => Stats::C301,
        302 => Stats::C302,
        _ => Stats::C000,
    };
    stats_inc(table, &code)
}

/// The counter touched by a failed fetch attempt of each kind; an error of
/// the catch-all kind is not counted.
pub open spec fn spec_err_counted(t: StatsTable, e: FetchErrorKind) -> StatsTable {
    match e {
        FetchErrorKind::Timeout => t.spec_inc(Stats::TimeOut),
        FetchErrorKind::Dns => t.spec_inc(Stats::DNSErr),
        FetchErrorKind::Request => t.spec_inc(Stats::IOErr),
        FetchErrorKind::Other => t,
    }
}

/// Count a failed fetch attempt under its error kind: timeouts, name
/// resolution failures and request-level transport errors each have their
/// own counter; other errors are not counted.
pub fn stats_err_inc(table: &mut StatsTable, e: &FetchErrorKind)
    ensures
        *final(table) == spec_err_counted(*old(table), *e),
{
    match e {
        FetchErrorKind::Timeout => stats_inc(table, &Stats::TimeOut),
        FetchErrorKind::Dns => stats_inc(table, &Stats::DNSErr),
        FetchErrorKind::Request => stats_inc(table, &Stats::IOErr),
        FetchErrorKind::Other => (),
    }
}

/// The live status-bucket line.
pub open spec fn spec_status_line(t: StatsTable) -> Seq<char> {
    "200: "@ + spec_decimal(t.c200 as nat) + ", 404: "@ + spec_decimal(t.c404 as nat) + ", 301: "@
        + spec_decimal(t.c301 as nat) + ", 302: "@ + spec_decimal(t.c302 as nat) + ", 403: "@
        + spec_decimal(t.c403 as nat) + ", 401: "@ + spec_decimal(t.c401 as nat) + ", 500: "@
        + spec_decimal(t.c500 as nat) + ", 502: "@ + spec_decimal(t.c502 as nat)
}

/// Render the live status-bucket line.
pub fn format_status_line(t: &StatsTable) -> (s: String)
    ensures
        s@ == spec_status_line(*t),
{
    let mut s = String::from_str("200: ");
    let c200 = u64_to_string(t.c200);
    s.append(c200.as_str());
    s.append(", 404: ");
    let c404 = u64_to_string(t.c404);
    s.append(c404.as_str());
    s.append(", 301: ");
    let c301 = u64_to_string(t.c301);
    s.append(c301.as_str());
    s.append(", 302: ");
    let c302 = u64_to_string(t.c302);
    s.append(c302.as_str());
    s.append(", 403: ");
    let c403 = u64_to_string(t.c403);
    s.append(c403.as_str());
    s.append(", 401: ");
    let c401 = u64_to_string(t.c401);
    s.append(c401.as_str());
    s.append(", 500: ");
    let c500 = u64_to_string(t.c500);
    s.append(c500.as_str());
    s.append(", 502: ");
    let c502 = u64_to_string(t.c502);
    s.append(c502.as_str());
    proof {
        assert(s@ =~= spec_status_line(*t));
    }
    s
}

/// The live totals line: hits, queued jobs, and the error counters.
pub open spec fn spec_totals_line(t: StatsTable, jobs: usize) -> Seq<char> {
    "Hits: "@ + spec_decimal(t.hits as nat) + ", , Jobs: "@ + spec_decimal(jobs as nat)
        + ", TO: "@ + spec_decimal(t.time_out as nat) + ", IO: "@ + spec_decimal(t.io_err as nat)
        + ", DNS: "@ + spec_decimal(t.dns_err as nat)
}

/// Render the live totals line for a given queue depth.
pub fn format_totals_line(t: &StatsTable, jobs: usize) -> (s: String)
    ensures
        s@ == spec_totals_line(*t, jobs),
{
    let mut s = String::from_str("Hits: ");
    let hits = u64_to_string(t.hits);
    s.append(hits.as_str());
    s.append(", , Jobs: ");
    let j = u64_to_string(jobs as u64);
    s.append(j.as_str());
    s.append(", TO: ");
    let to = u64_to_string(t.time_out);
    s.append(to.as_str());
    s.append(", IO: ");
    let io = u64_to_string(t.io_err);
    s.append(io.as_str());
    s.append(", DNS: ");
    let dns = u64_to_string(t.dns_err);
    s.append(dns.as_str());
    proof {
        assert(s@ =~= spec_totals_line(*t, jobs));
    }
    s
}

} // verus!
