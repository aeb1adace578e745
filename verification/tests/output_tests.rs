use std::sync::mpsc::channel;

use kenshi::data_handler::{
    evaluate_record, format_print_data, print_data_of, result_file_line, MsgSender, PrintData,
    RecordVerdict,
};
use kenshi::data_type::HttpResp;
use kenshi::rules::{FilterRules, Matches};
use kenshi::stats::{format_status_line, format_totals_line, StatsTable};
use kenshi::text::u64_to_string;

fn record(url: &str, status: u16, body: &[u8]) -> HttpResp {
    HttpResp {
        url: String::from(url),
        status,
        html: body.to_vec(),
        duration_ms: 12,
        remote_addr: Some(String::from("10.0.0.9")),
    }
}

#[test]
fn decimal_rendering_is_exact() {
    assert_eq!(u64_to_string(0), "0");
    assert_eq!(u64_to_string(7), "7");
    assert_eq!(u64_to_string(1234567890), "1234567890");
    assert_eq!(u64_to_string(u64::MAX), "18446744073709551615");
}

#[test]
fn print_line_has_the_exact_shape() {
    let d = PrintData {
        status: 200,
        ipv4: String::from("10.0.0.9"),
        size: 5,
        lines: 1,
        duration: 12,
        url: String::from("http://h/admin"),
        script_output: String::new(),
    };
    assert_eq!(
        format_print_data(&d),
        "[Status: 200, Size: 5, Lines: 1, Duration: 12ms, IP: 10.0.0.9]\n\t* http://h/admin"
    );
}

#[test]
fn print_line_appends_script_output() {
    let d = PrintData {
        status: 404,
        ipv4: String::from("None"),
        size: 0,
        lines: 0,
        duration: 3,
        url: String::from("http://h/x"),
        script_output: String::from("probe ok"),
    };
    assert_eq!(
        format_print_data(&d),
        "[Status: 404, Size: 0, Lines: 0, Duration: 3ms, IP: None]\n\t* http://h/x\toutput: probe ok"
    );
}

#[test]
fn print_data_measures_the_record() {
    let r = record("http://h/admin", 200, b"one\ntwo");
    let d = print_data_of(&r);
    assert_eq!(d.status, 200);
    assert_eq!(d.size, 7);
    assert_eq!(d.lines, 2);
    assert_eq!(d.duration, 12);
    assert_eq!(d.ipv4, "10.0.0.9");
    assert_eq!(d.url, "http://h/admin");
    assert_eq!(d.script_output, "");

    let bare = HttpResp {
        url: String::from("http://h/x"),
        status: 404,
        html: Vec::new(),
        duration_ms: 0,
        remote_addr: None,
    };
    let d2 = print_data_of(&bare);
    assert_eq!(d2.ipv4, "None");
    assert_eq!(d2.size, 0);
    assert_eq!(d2.lines, 0);
}

#[test]
fn result_file_lines_are_newline_terminated() {
    assert_eq!(result_file_line(&String::from("http://h/a")), "http://h/a\n");
}

#[test]
fn verdict_applies_filter_before_match() {
    let r = record("http://h/a", 200, b"hello");
    let filter_all = FilterRules {
        regex: None,
        status_code: None,
        line_num: None,
        resp_size: Some(vec![String::from("5")]),
        and_and_and: true,
    };
    let match_none = Matches {
        regex: None,
        status_code: None,
        line_num: None,
        resp_size: Some(999),
        and_and_and: true,
    };
    assert_eq!(
        evaluate_record(&r, &Some(filter_all), &Some(match_none)),
        RecordVerdict::Filtered
    );
    let match_none2 = Matches {
        regex: None,
        status_code: None,
        line_num: None,
        resp_size: Some(999),
        and_and_and: true,
    };
    assert_eq!(
        evaluate_record(&r, &None, &Some(match_none2)),
        RecordVerdict::NotMatched
    );
    assert_eq!(evaluate_record(&r, &None, &None), RecordVerdict::Hit);
}

#[test]
fn msg_sender_delivers_plain_messages() {
    let (tx, rx) = channel();
    let mut sender = MsgSender::new(tx);
    // Nothing staged: nothing sent.
    sender.send();
    sender.set_msg(String::from("http://h/a"));
    sender.send();
    assert_eq!(rx.try_recv().unwrap(), "http://h/a");
    assert!(rx.try_recv().is_err());
}

#[test]
fn msg_sender_stages_detail_lines() {
    let (tx, rx) = channel();
    let mut sender = MsgSender::new(tx);
    sender.debug(PrintData {
        status: 200,
        ipv4: String::from("None"),
        size: 2,
        lines: 1,
        duration: 1,
        url: String::from("http://h/a"),
        script_output: String::new(),
    });
    sender.set_script_output(String::from("out"));
    let style = console::Style::new();
    sender.send_color(&style);
    let line = rx.try_recv().unwrap();
    assert!(line.contains("[Status: 200, Size: 2, Lines: 1, Duration: 1ms, IP: None]"));
    assert!(line.contains("\toutput: out"));
}

#[test]
fn status_and_totals_lines() {
    let t = StatsTable::new();
    let line = format_status_line(&t);
    assert_eq!(line, "200: 0, 404: 0, 301: 0, 302: 0, 403: 0, 401: 0, 500: 0, 502: 0");
    let totals = format_totals_line(&t, 3);
    assert_eq!(totals, "Hits: 0, , Jobs: 3, TO: 0, IO: 0, DNS: 0");
}
