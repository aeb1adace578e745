use std::collections::HashSet;

use kenshi::data_handler::consume_all;
use kenshi::data_type::HttpResp;
use kenshi::dispatch::{
    build_url, dispatch_all, has_fuzz_token, inline_allows, run_payload, AttemptOutcome,
    AttemptResponse, AttemptVerdict, process_attempt,
};
use kenshi::queue::{ConsumerStep, Queue, ResultQueue};
use kenshi::rules::Matches;
use kenshi::stats::{stats_code_inc, stats_err_inc, stats_inc, FetchErrorKind, Stats, StatsTable};

fn response(status: u16, url: &str, body: Option<&[u8]>) -> AttemptOutcome {
    AttemptOutcome::Response(AttemptResponse {
        status,
        final_url: String::from(url),
        remote_addr: None,
        body: body.map(|b| b.to_vec()),
        duration_ms: 5,
    })
}

fn match_status_rules(codes: &[u16]) -> Matches {
    let mut set: HashSet<u16> = HashSet::new();
    for c in codes {
        set.insert(*c);
    }
    Matches {
        regex: None,
        status_code: Some(set),
        line_num: None,
        resp_size: None,
        and_and_and: true,
    }
}

#[test]
fn url_building_substitutes_the_token() {
    assert_eq!(build_url("http://h/FUZZ", "admin"), "http://h/admin");
    assert_eq!(build_url("http://h/FUZZ/FUZZ", "a"), "http://h/a/a");
    assert_eq!(build_url("http://h/x", "a"), "http://h/x");
    assert!(has_fuzz_token("http://h/FUZZ"));
    assert!(!has_fuzz_token("http://h/xxx"));
}

#[test]
fn status_buckets_count_once_per_response() {
    let mut stats = StatsTable::new();
    stats_code_inc(&mut stats, &200);
    assert_eq!(stats.get(&Stats::C200), 1);
    stats_code_inc(&mut stats, &200);
    assert_eq!(stats.get(&Stats::C200), 2);
    stats_code_inc(&mut stats, &404);
    stats_code_inc(&mut stats, &502);
    stats_code_inc(&mut stats, &418);
    assert_eq!(stats.get(&Stats::C404), 1);
    assert_eq!(stats.get(&Stats::C502), 1);
    assert_eq!(stats.get(&Stats::C000), 1);
    assert_eq!(stats.get(&Stats::C200), 2);
}

#[test]
fn error_kinds_touch_their_own_counters() {
    let mut stats = StatsTable::new();
    stats_err_inc(&mut stats, &FetchErrorKind::Timeout);
    stats_err_inc(&mut stats, &FetchErrorKind::Dns);
    stats_err_inc(&mut stats, &FetchErrorKind::Request);
    stats_err_inc(&mut stats, &FetchErrorKind::Other);
    assert_eq!(stats.get(&Stats::TimeOut), 1);
    assert_eq!(stats.get(&Stats::DNSErr), 1);
    assert_eq!(stats.get(&Stats::IOErr), 1);
    assert_eq!(stats.get(&Stats::C000), 0);
    assert_eq!(stats.get(&Stats::Hits), 0);
}

#[test]
fn retried_timeouts_count_transport_errors_not_status() {
    // Two timeouts, then a 200 on the third attempt.
    let outcomes = vec![
        AttemptOutcome::Failed(FetchErrorKind::Timeout),
        AttemptOutcome::Failed(FetchErrorKind::Timeout),
        response(200, "http://h/a", Some(b"ok")),
    ];
    let mut stats = StatsTable::new();
    let record = run_payload(&mut stats, outcomes, &None, &None);
    let record = record.expect("third attempt should produce the record");
    assert_eq!(record.status, 200);
    assert_eq!(record.url, "http://h/a");
    assert_eq!(stats.get(&Stats::C200), 1);
    assert_eq!(stats.get(&Stats::TimeOut), 2);
    assert_eq!(stats.get(&Stats::IOErr), 0);
}

#[test]
fn unreadable_body_retries_and_counts_each_response() {
    let outcomes = vec![
        response(200, "http://h/a", None),
        response(200, "http://h/a", Some(b"ok")),
    ];
    let mut stats = StatsTable::new();
    let record = run_payload(&mut stats, outcomes, &None, &None);
    assert!(record.is_some());
    // Both received responses hit the bucket, though only one record came out.
    assert_eq!(stats.get(&Stats::C200), 2);
}

#[test]
fn inline_status_filter_discards_without_record() {
    let mut filter_set: HashSet<u16> = HashSet::new();
    filter_set.insert(404);
    let filter_status = Some(filter_set);
    assert!(inline_allows(&filter_status, &None, 200));
    assert!(!inline_allows(&filter_status, &None, 404));

    let outcomes = vec![response(404, "http://h/x", Some(b"gone"))];
    let mut stats = StatsTable::new();
    let record = run_payload(&mut stats, outcomes, &filter_status, &None);
    assert!(record.is_none());
    // The response was still classified before being discarded.
    assert_eq!(stats.get(&Stats::C404), 1);
}

#[test]
fn retries_stop_at_first_decision() {
    let mut stats = StatsTable::new();
    let v = process_attempt(
        &mut stats,
        response(200, "http://h/a", Some(b"ok")),
        &None,
        &None,
    );
    assert!(matches!(v, AttemptVerdict::Stop(Some(_))));
    let v2 = process_attempt(&mut stats, AttemptOutcome::Failed(FetchErrorKind::Dns), &None, &None);
    assert!(matches!(v2, AttemptVerdict::Continue));
}

#[test]
fn queue_is_first_in_first_out() {
    let mut q: Queue<u16> = Queue::new();
    assert_eq!(q.dequeue(), None);
    q.enqueue(1);
    q.enqueue(2);
    q.enqueue(3);
    assert_eq!(q.len(), 3);
    assert_eq!(q.dequeue(), Some(1));
    assert_eq!(q.dequeue(), Some(2));
    assert_eq!(q.dequeue(), Some(3));
    assert_eq!(q.dequeue(), None);
}

#[test]
fn consumer_exits_only_on_closed_and_empty() {
    let mut q = ResultQueue::new();
    assert!(!q.is_closed_and_empty());
    assert!(matches!(q.consumer_poll(), ConsumerStep::Idle));
    q.enqueue(HttpResp {
        url: String::from("http://h/a"),
        status: 200,
        html: b"ok".to_vec(),
        duration_ms: 1,
        remote_addr: None,
    });
    q.close();
    // Closed but not empty: the waiting record is still handed out.
    assert!(!q.is_closed_and_empty());
    match q.consumer_poll() {
        ConsumerStep::Work(r) => assert_eq!(r.url, "http://h/a"),
        _ => panic!("expected the waiting record"),
    }
    // Now closed and empty: the consumer terminates.
    assert!(q.is_closed_and_empty());
    assert!(matches!(q.consumer_poll(), ConsumerStep::Exit));
}

#[test]
fn no_record_enqueued_before_shutdown_is_lost() {
    let mut q = ResultQueue::new();
    let n = 25u16;
    for i in 0..n {
        q.enqueue(HttpResp {
            url: format!("http://h/{i}"),
            status: 200,
            html: vec![b'x'; i as usize],
            duration_ms: 1,
            remote_addr: None,
        });
    }
    q.close();
    let mut stats = StatsTable::new();
    let hits = consume_all(&mut q, &mut stats, &None, &None);
    assert_eq!(hits.len(), n as usize);
    assert_eq!(stats.get(&Stats::Hits), n as u64);
    assert_eq!(q.len(), 0);
    for i in 0..n {
        assert_eq!(hits[i as usize], format!("http://h/{i}"));
    }
}

#[test]
fn end_to_end_two_hits_one_miss() {
    let wordlist = ["admin", "login", "xyz"];
    let template = "http://h/FUZZ";
    let urls: Vec<String> = wordlist.iter().map(|w| build_url(template, w)).collect();
    assert_eq!(urls, vec!["http://h/admin", "http://h/login", "http://h/xyz"]);

    // The server answers 200 for admin and login, 404 for xyz.
    let jobs = vec![
        vec![response(200, &urls[0], Some(b"hello"))],
        vec![response(200, &urls[1], Some(b"hello"))],
        vec![response(404, &urls[2], Some(b"gone"))],
    ];
    let rules = match_status_rules(&[200]);
    let match_status = rules.status_code.clone();

    let mut stats = StatsTable::new();
    let mut q = ResultQueue::new();
    dispatch_all(&mut stats, &mut q, jobs, &None, &match_status);
    assert_eq!(q.len(), 2);
    assert!(!q.is_closed_and_empty());

    let match_rules = Some(rules);
    let hits = consume_all(&mut q, &mut stats, &None, &match_rules);
    assert_eq!(hits, vec!["http://h/admin", "http://h/login"]);
    assert_eq!(stats.get(&Stats::Hits), 2);
    assert_eq!(stats.get(&Stats::C200), 2);
    assert_eq!(stats.get(&Stats::C404), 1);
}

#[test]
fn hits_count_only_surviving_records() {
    let mut stats = StatsTable::new();
    stats_inc(&mut stats, &Stats::Hits);
    stats_inc(&mut stats, &Stats::Done);
    assert_eq!(stats.get(&Stats::Hits), 1);
    assert_eq!(stats.get(&Stats::Done), 1);
    assert_eq!(stats.get(&Stats::C200), 0);
}
