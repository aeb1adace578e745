//! Dispatch engine decisions: URL building from the template, inline
//! status-code filtering, classification of each attempt into the stats
//! table, and the per-payload retry protocol.
//!
//! The functions here are pure decision logic: the caller performs the
//! actual HTTP attempts and hands their outcomes in as plain values, one
//! at a time (`process_attempt`) or as a whole attempt sequence
//! (`run_payload`).

use vstd::prelude::*;
use std::collections::HashSet;
use crate::data_type::HttpResp;
use crate::queue::ResultQueue;
use crate::stats::{
    code_bucket, spec_err_counted, stats_code_inc, stats_err_inc, FetchErrorKind, Stats,
    StatsTable,
};
use crate::text::{
    chars_to_string, contains_token, replace_chars, spec_contains_token, spec_replace,
    str_to_chars,
};

verus! {

broadcast use vstd::std_specs::hash::group_hash_axioms;

/// The URL a payload produces: every occurrence of the `FUZZ` token in the
/// template replaced by the payload.
pub open spec fn spec_build_url(template: Seq<char>, payload: Seq<char>) -> Seq<char> {
    spec_replace(template, "FUZZ"@, payload)
}

/// Whether a URL template carries the substitution token.
pub open spec fn spec_has_fuzz(template: Seq<char>) -> bool {
    spec_contains_token(template, "FUZZ"@)
}

fn fuzz_token() -> (tok: Vec<char>)
    ensures
        tok@ == "FUZZ"@,
        tok@.len() == 4,
{
    let mut tok: Vec<char> = Vec::new();
    tok.push('F');
    tok.push('U');
    tok.push('Z');
    tok.push('Z');
    proof {
        reveal_strlit("FUZZ");
        assert(tok@ =~= "FUZZ"@);
    }
    tok
}

/// Build a request URL by literal substitution of the token.
pub fn build_url(template: &str, payload: &str) -> (url: String)
    ensures
        url@ == spec_build_url(template@, payload@),
{
    let t = str_to_chars(template);
    let p = str_to_chars(payload);
    let tok = fuzz_token();
    let out = replace_chars(&t, &tok, &p);
    chars_to_string(&out)
}

/// Whether a URL template carries the substitution token.
pub fn has_fuzz_token(template: &str) -> (b: bool)
    ensures
        b == spec_has_fuzz(template@),
{
    let t = str_to_chars(template);
    let tok = fuzz_token();
    contains_token(&t, &tok)
}

/// What one HTTP attempt came back with: the status line, the final URL
/// after redirects, the peer's address as text, the body if it could be
/// read, and the elapsed time.
pub struct AttemptResponse {
    pub status: u16,
    pub final_url: String,
    pub remote_addr: Option<String>,
    pub body: Option<Vec<u8>>,
    pub duration_ms: u64,
}

/// The outcome of one HTTP attempt: a response, or a transport-level
/// failure of some kind.
pub enum AttemptOutcome {
    Response(AttemptResponse),
    Failed(FetchErrorKind),
}

/// The inline status check: a received status survives iff it is not in
/// the configured filter set and, when a match set is configured, is in it.
/// This is the status-only part of the full rule evaluation, applied before
/// the body is buffered.
pub open spec fn spec_inline_allows(
    filter_status: Option<HashSet<u16>>,
    match_status: Option<HashSet<u16>>,
    status: u16,
) -> bool {
    &&& (filter_status matches Some(s) ==> !s@.contains(status))
    &&& (match_status matches Some(s) ==> s@.contains(status))
}

/// Apply the inline status check.
pub fn inline_allows(
    filter_status: &Option<HashSet<u16>>,
    match_status: &Option<HashSet<u16>>,
    status: u16,
) -> (b: bool)
    ensures
        b == spec_inline_allows(*filter_status, *match_status, status),
{
    if let Some(s) = filter_status {
        if s.contains(&status) {
            return false;
        }
    }
    if let Some(s) = match_status {
        if !s.contains(&status) {
            return false;
        }
    }
    true
}

/// The stats table after one attempt is classified: a response counts its
/// status bucket (once per response received, whatever later checks do with
/// it); a failure counts its error kind.
pub open spec fn spec_attempt_stats(t: StatsTable, o: AttemptOutcome) -> StatsTable {
    match o {
        AttemptOutcome::Response(r) => t.spec_inc(code_bucket(r.status)),
        AttemptOutcome::Failed(k) => spec_err_counted(t, k),
    }
}

/// What one attempt decides: `None` means the attempt failed and the next
/// retry runs; `Some(None)` means the attempt ended the payload with no
/// record (inline status check discarded it); `Some(Some(rec))` means the
/// payload produced its record.
pub open spec fn spec_attempt_verdict(
    o: AttemptOutcome,
    filter_status: Option<HashSet<u16>>,
    match_status: Option<HashSet<u16>>,
) -> Option<Option<HttpResp>> {
    match o {
        AttemptOutcome::Failed(_) => None,
        AttemptOutcome::Response(r) => {
            if !spec_inline_allows(filter_status, match_status, r.status) {
                Some(None)
            } else {
                match r.body {
                    Some(b) => Some(
                        Some(
                            HttpResp {
                                url: r.final_url,
                                status: r.status,
                                html: b,
                                duration_ms: r.duration_ms,
                                remote_addr: r.remote_addr,
                            },
                        ),
                    ),
                    None => None,
                }
            }
        },
    }
}

/// What the caller does after one attempt: retry, or stop with the
/// payload's result.
pub enum AttemptVerdict {
    Continue,
    Stop(Option<HttpResp>),
}

/// Classify one attempt outcome into the stats table and decide how the
/// payload goes on: a transport failure or an unreadable body is retried; a
/// received status is counted in its bucket exactly once and then either
/// discarded by the inline status check (payload over, no record) or turned
/// into the payload's record.
pub fn process_attempt(
    stats: &mut StatsTable,
    outcome: AttemptOutcome,
    filter_status: &Option<HashSet<u16>>,
    match_status: &Option<HashSet<u16>>,
) -> (v: AttemptVerdict)
    ensures
        *final(stats) == spec_attempt_stats(*old(stats), outcome),
        match v {
            AttemptVerdict::Continue => spec_attempt_verdict(
                outcome,
                *filter_status,
                *match_status,
            ) is None,
            AttemptVerdict::Stop(x) => spec_attempt_verdict(outcome, *filter_status, *match_status)
                == Some(x),
        },
{
    match outcome {
        AttemptOutcome::Failed(k) => {
            stats_err_inc(stats, &k);
            AttemptVerdict::Continue
        },
        AttemptOutcome::Response(r) => {
            stats_code_inc(stats, &r.status);
            if !inline_allows(filter_status, match_status, r.status) {
                return AttemptVerdict::Stop(None);
            }
            match r.body {
                Some(b) => AttemptVerdict::Stop(
                    Some(
                        HttpResp {
                            url: r.final_url,
                            status: r.status,
                            html: b,
                            duration_ms: r.duration_ms,
                            remote_addr: r.remote_addr,
                        },
                    ),
                ),
                None => AttemptVerdict::Continue,
            }
        },
    }
}

/// The record a whole attempt sequence produces: attempts run in order
/// until one ends the payload; attempts beyond the sequence never happen.
pub open spec fn spec_payload_outcome(
    outcomes: Seq<AttemptOutcome>,
    filter_status: Option<HashSet<u16>>,
    match_status: Option<HashSet<u16>>,
) -> Option<HttpResp>
    decreases outcomes.len(),
{
    if outcomes.len() == 0 {
        None
    } else {
        match spec_attempt_verdict(outcomes[0], filter_status, match_status) {
            Some(x) => x,
            None => spec_payload_outcome(outcomes.skip(1), filter_status, match_status),
        }
    }
}

/// The stats table after a whole attempt sequence is classified, stopping
/// at the attempt that ends the payload.
pub open spec fn spec_payload_stats(
    t: StatsTable,
    outcomes: Seq<AttemptOutcome>,
    filter_status: Option<HashSet<u16>>,
    match_status: Option<HashSet<u16>>,
) -> StatsTable
    decreases outcomes.len(),
{
    if outcomes.len() == 0 {
        t
    } else {
        let t1 = spec_attempt_stats(t, outcomes[0]);
        match spec_attempt_verdict(outcomes[0], filter_status, match_status) {
            Some(_) => t1,
            None => spec_payload_stats(t1, outcomes.skip(1), filter_status, match_status),
        }
    }
}

/// Run one payload's attempts against a given outcome sequence: classify
/// every attempt that happens, retry through failures, and produce the
/// payload's record if one survives.
pub fn run_payload(
    stats: &mut StatsTable,
    outcomes: Vec<AttemptOutcome>,
    filter_status: &Option<HashSet<u16>>,
    match_status: &Option<HashSet<u16>>,
) -> (r: Option<HttpResp>)
    ensures
        *final(stats) == spec_payload_stats(
            *old(stats),
            outcomes@,
            *filter_status,
            *match_status,
        ),
        r == spec_payload_outcome(outcomes@, *filter_status, *match_status),
{
    let mut rem = outcomes;
    loop
        invariant
            spec_payload_stats(*old(stats), outcomes@, *filter_status, *match_status)
                == spec_payload_stats(*stats, rem@, *filter_status, *match_status),
            spec_payload_outcome(outcomes@, *filter_status, *match_status)
                == spec_payload_outcome(rem@, *filter_status, *match_status),
        decreases rem@.len(),
    {
        if rem.len() == 0 {
            return None;
        }
        let ghost pre = rem@;
        let o = rem.remove(0);
        proof {
            assert(pre.remove(0) =~= pre.skip(1));
        }
        match process_attempt(stats, o, filter_status, match_status) {
            AttemptVerdict::Stop(x) => {
                return x;
            },
            AttemptVerdict::Continue => {},
        }
    }
}

/// The attempts of a sequence that actually run: everything up to and
/// including the attempt that ends the payload, or all of them when none
/// does.
pub open spec fn spec_processed(
    outcomes: Seq<AttemptOutcome>,
    filter_status: Option<HashSet<u16>>,
    match_status: Option<HashSet<u16>>,
) -> Seq<AttemptOutcome>
    decreases outcomes.len(),
{
    if outcomes.len() == 0 {
        Seq::empty()
    } else if spec_attempt_verdict(outcomes[0], filter_status, match_status) is Some {
        seq![outcomes[0]]
    } else {
        seq![outcomes[0]] + spec_processed(outcomes.skip(1), filter_status, match_status)
    }
}

/// How many increments one attempt outcome makes to the counter of `b`:
/// a response touches exactly its status bucket; a transport failure
/// touches exactly its error counter; nothing else is touched.
pub open spec fn spec_outcome_touches(o: AttemptOutcome, b: Stats) -> nat {
    match o {
        AttemptOutcome::Response(r) => if code_bucket(r.status) == b {
            1nat
        } else {
            0nat
        },
        AttemptOutcome::Failed(k) => {
            match k {
                FetchErrorKind::Timeout => if b == Stats::TimeOut {
                    1nat
                } else {
                    0nat
                },
                FetchErrorKind::Dns => if b == Stats::DNSErr {
                    1nat
                } else {
                    0nat
                },
                FetchErrorKind::Request => if b == Stats::IOErr {
                    1nat
                } else {
                    0nat
                },
                FetchErrorKind::Other => 0nat,
            }
        },
    }
}

/// The total increments a sequence of attempts makes to the counter of `b`.
pub open spec fn spec_touch_count(os: Seq<AttemptOutcome>, b: Stats) -> nat
    decreases os.len(),
{
    if os.len() == 0 {
        0
    } else {
        spec_outcome_touches(os[0], b) + spec_touch_count(os.skip(1), b)
    }
}

proof fn lemma_inc_get(t: StatsTable, b2: Stats, b: Stats)
    ensures
        t.spec_inc(b2).spec_get(b) == if b2 == b {
            crate::stats::bump(t.spec_get(b))
        } else {
            t.spec_get(b)
        },
{
}

proof fn lemma_attempt_stats_get(t: StatsTable, o: AttemptOutcome, b: Stats)
    ensures
        spec_attempt_stats(t, o).spec_get(b) == if spec_outcome_touches(o, b) == 1 {
            crate::stats::bump(t.spec_get(b))
        } else {
            t.spec_get(b)
        },
{
    match o {
        AttemptOutcome::Response(r) => {
            lemma_inc_get(t, code_bucket(r.status), b);
        },
        AttemptOutcome::Failed(k) => {
            match k {
                FetchErrorKind::Timeout => lemma_inc_get(t, Stats::TimeOut, b),
                FetchErrorKind::Dns => lemma_inc_get(t, Stats::DNSErr, b),
                FetchErrorKind::Request => lemma_inc_get(t, Stats::IOErr, b),
                FetchErrorKind::Other => {},
            }
        },
    }
}

/// Status buckets count once per response received, whatever the filters
/// later decide, and error counters count once per transport failure: after
/// a payload's attempts, each counter has grown by exactly the number of
/// attempts that ran and touched it. Attempts after the one that ends the
/// payload never happened and count nothing.
pub proof fn lemma_stats_accounting(
    t: StatsTable,
    outcomes: Seq<AttemptOutcome>,
    filter_status: Option<HashSet<u16>>,
    match_status: Option<HashSet<u16>>,
    b: Stats,
)
    requires
        t.spec_get(b) + spec_touch_count(spec_processed(outcomes, filter_status, match_status), b)
            <= u64::MAX,
    ensures
        spec_payload_stats(t, outcomes, filter_status, match_status).spec_get(b) == t.spec_get(b)
            + spec_touch_count(spec_processed(outcomes, filter_status, match_status), b),
    decreases outcomes.len(),
{
    if outcomes.len() == 0 {
    } else {
        let o0 = outcomes[0];
        let t1 = spec_attempt_stats(t, o0);
        lemma_attempt_stats_get(t, o0, b);
        match spec_attempt_verdict(o0, filter_status, match_status) {
            Some(_) => {
                assert(spec_processed(outcomes, filter_status, match_status) =~= seq![o0]);
                assert(spec_touch_count(seq![o0], b) == spec_outcome_touches(o0, b) + 0) by {
                    assert(seq![o0][0] == o0);
                    assert(seq![o0].skip(1) =~= Seq::<AttemptOutcome>::empty());
                    assert(spec_touch_count(Seq::<AttemptOutcome>::empty(), b) == 0);
                }
            },
            None => {
                let rest = spec_processed(outcomes.skip(1), filter_status, match_status);
                assert(spec_processed(outcomes, filter_status, match_status) =~= seq![o0] + rest);
                assert((seq![o0] + rest)[0] == o0);
                assert((seq![o0] + rest).skip(1) =~= rest);
                assert(spec_touch_count(seq![o0] + rest, b) == spec_outcome_touches(o0, b)
                    + spec_touch_count(rest, b));
                lemma_stats_accounting(t1, outcomes.skip(1), filter_status, match_status, b);
            },
        }
    }
}

/// The attempt sequences of all payloads, as plain sequences.
pub open spec fn job_views(jobs: Seq<Vec<AttemptOutcome>>) -> Seq<Seq<AttemptOutcome>> {
    jobs.map_values(|v: Vec<AttemptOutcome>| v@)
}

/// The records the whole wordlist produces, in payload order: one record
/// per payload whose attempts survive, none for the others.
pub open spec fn spec_all_records(
    jobs: Seq<Seq<AttemptOutcome>>,
    filter_status: Option<HashSet<u16>>,
    match_status: Option<HashSet<u16>>,
) -> Seq<HttpResp>
    decreases jobs.len(),
{
    if jobs.len() == 0 {
        Seq::empty()
    } else {
        (match spec_payload_outcome(jobs[0], filter_status, match_status) {
            Some(r) => seq![r],
            None => Seq::empty(),
        }) + spec_all_records(jobs.skip(1), filter_status, match_status)
    }
}

/// The stats table after the whole wordlist is classified, payload by
/// payload.
pub open spec fn spec_all_stats(
    t: StatsTable,
    jobs: Seq<Seq<AttemptOutcome>>,
    filter_status: Option<HashSet<u16>>,
    match_status: Option<HashSet<u16>>,
) -> StatsTable
    decreases jobs.len(),
{
    if jobs.len() == 0 {
        t
    } else {
        spec_all_stats(
            spec_payload_stats(t, jobs[0], filter_status, match_status),
            jobs.skip(1),
            filter_status,
            match_status,
        )
    }
}

/// Drive every payload's attempts, appending each surviving record to the
/// shared queue, and flip the shutdown flag only after the last payload has
/// finished: no record is ever enqueued after the flag is down.
pub fn dispatch_all(
    stats: &mut StatsTable,
    q: &mut ResultQueue,
    jobs: Vec<Vec<AttemptOutcome>>,
    filter_status: &Option<HashSet<u16>>,
    match_status: &Option<HashSet<u16>>,
)
    requires
        old(q).is_producing(),
    ensures
        *final(stats) == spec_all_stats(*old(stats), job_views(jobs@), *filter_status, *match_status),
        final(q).contents() == old(q).contents() + spec_all_records(
            job_views(jobs@),
            *filter_status,
            *match_status,
        ),
        !final(q).is_producing(),
{
    let mut rem = jobs;
    while rem.len() > 0
        invariant
            q.is_producing(),
            spec_all_stats(*old(stats), job_views(jobs@), *filter_status, *match_status)
                == spec_all_stats(*stats, job_views(rem@), *filter_status, *match_status),
            old(q).contents() + spec_all_records(job_views(jobs@), *filter_status, *match_status)
                =~= q.contents() + spec_all_records(
                job_views(rem@),
                *filter_status,
                *match_status,
            ),
        decreases rem@.len(),
    {
        let ghost pre = rem@;
        let job = rem.remove(0);
        proof {
            assert(job_views(pre)[0] == pre[0]@);
            assert(job_views(pre.remove(0)) =~= job_views(pre).skip(1));
        }
        let r = run_payload(stats, job, filter_status, match_status);
        match r {
            Some(rec) => {
                proof {
                    let recs = spec_all_records(
                        job_views(pre),
                        *filter_status,
                        *match_status,
                    );
                    let rest = spec_all_records(
                        job_views(pre).skip(1),
                        *filter_status,
                        *match_status,
                    );
                    assert(recs =~= seq![rec] + rest);
                    assert(q.contents() + recs =~= q.contents().push(rec) + rest);
                }
                q.enqueue(rec);
            },
            None => {
                proof {
                    let recs = spec_all_records(
                        job_views(pre),
                        *filter_status,
                        *match_status,
                    );
                    let rest = spec_all_records(
                        job_views(pre).skip(1),
                        *filter_status,
                        *match_status,
                    );
                    assert(recs =~= rest);
                }
            },
        }
    }
    proof {
        assert(job_views(rem@).len() == 0);
        assert(spec_all_records(job_views(rem@), *filter_status, *match_status)
            =~= Seq::<HttpResp>::empty());
        assert(old(q).contents() + spec_all_records(
            job_views(jobs@),
            *filter_status,
            *match_status,
        ) =~= q.contents());
    }
    q.close();
}

} // verus!
