//! Consumer-side handling of completed records: per-record rule
//! evaluation, output-line formatting, the message sender that feeds the
//! progress side-channel, and the sequential drain of the shared queue.

use vstd::prelude::*;
use vstd::string::StringExecFns;
use crate::data_type::HttpResp;
use crate::queue::{ConsumerStep, ResultQueue};
use crate::rules::{is_filter, is_match, spec_is_filter, spec_is_match, FilterRules, Matches};
use crate::stats::{Stats, StatsTable};
use crate::text::{count_lines, spec_decimal, spec_line_count, u64_to_string};

verus! {

/// What the body-level rules decide about one record: discarded by the
/// filter rules, rejected by the match rules, or kept as a hit.
#[derive(PartialEq, Eq, Structural, Clone, Copy, Debug)]
pub enum RecordVerdict {
    Filtered,
    NotMatched,
    Hit,
}

/// The verdict of the configured rulesets on a body: a configured filter
/// that evaluates true discards it; else a configured match ruleset that
/// evaluates false rejects it; else it is a hit. An absent ruleset never
/// participates.
pub open spec fn spec_record_verdict(
    filters: Option<FilterRules>,
    match_rules: Option<Matches>,
    body: Seq<u8>,
) -> RecordVerdict {
    if filters matches Some(f) && spec_is_filter(f, body) {
        RecordVerdict::Filtered
    } else if match_rules matches Some(m) && !spec_is_match(m, body) {
        RecordVerdict::NotMatched
    } else {
        RecordVerdict::Hit
    }
}

/// Apply filter-then-match to one record's body.
pub fn evaluate_record(
    record: &HttpResp,
    filters: &Option<FilterRules>,
    match_rules: &Option<Matches>,
) -> (v: RecordVerdict)
    ensures
        v == spec_record_verdict(*filters, *match_rules, record.html@),
{
    if let Some(f) = filters {
        if is_filter(record.html.as_slice(), f) {
            return RecordVerdict::Filtered;
        }
    }
    if let Some(m) = match_rules {
        if !is_match(record.html.as_slice(), m) {
            return RecordVerdict::NotMatched;
        }
    }
    RecordVerdict::Hit
}

/// The fields of one record's detailed output line.
pub struct PrintData {
    pub status: u16,
    pub ipv4: String,
    pub size: usize,
    pub lines: usize,
    pub duration: u64,
    pub url: String,
    pub script_output: String,
}

/// The detailed line printed for one record, with the script hook's output
/// appended when there is any.
pub open spec fn spec_print_line(d: PrintData) -> Seq<char> {
    "[Status: "@ + spec_decimal(d.status as nat) + ", Size: "@ + spec_decimal(d.size as nat)
        + ", Lines: "@ + spec_decimal(d.lines as nat) + ", Duration: "@ + spec_decimal(
        d.duration as nat,
    ) + "ms, IP: "@ + d.ipv4@ + "]\n\t* "@ + d.url@ + (if d.script_output@.len() > 0 {
        "\toutput: "@ + d.script_output@
    } else {
        Seq::<char>::empty()
    })
}

/// Render one record's detailed output line.
pub fn format_print_data(d: &PrintData) -> (s: String)
    ensures
        s@ == spec_print_line(*d),
{
    let mut s = String::new();
    s.append("[Status: ");
    let status_str = u64_to_string(d.status as u64);
    s.append(status_str.as_str());
    s.append(", Size: ");
    let size_str = u64_to_string(d.size as u64);
    s.append(size_str.as_str());
    s.append(", Lines: ");
    let lines_str = u64_to_string(d.lines as u64);
    s.append(lines_str.as_str());
    s.append(", Duration: ");
    let dur_str = u64_to_string(d.duration);
    s.append(dur_str.as_str());
    s.append("ms, IP: ");
    s.append(d.ipv4.as_str());
    s.append("]\n\t* ");
    s.append(d.url.as_str());
    if !d.script_output.as_str().is_empty() {
        s.append("\toutput: ");
        s.append(d.script_output.as_str());
    }
    proof {
        assert(s@ =~= spec_print_line(*d));
    }
    s
}

/// The print fields of a record, before any script output: byte size, line
/// count, duration, and the peer's address or `None`.
pub fn print_data_of(record: &HttpResp) -> (d: PrintData)
    ensures
        d.status == record.status,
        d.size == record.html@.len(),
        d.lines == spec_line_count(record.html@),
        d.duration == record.duration_ms,
        d.url@ == record.url@,
        d.ipv4@ == (match record.remote_addr {
            Some(s) => s@,
            None => "None"@,
        }),
        d.script_output@.len() == 0,
{
    let ipv4 = match &record.remote_addr {
        Some(s) => s.clone(),
        None => String::from_str("None"),
    };
    PrintData {
        status: record.status,
        ipv4,
        size: record.html.len(),
        lines: count_lines(record.html.as_slice()),
        duration: record.duration_ms,
        url: record.url.clone(),
        script_output: String::new(),
    }
}

/// The line appended to the result file for one hit: the URL,
/// newline-terminated.
pub fn result_file_line(url: &String) -> (s: String)
    ensures
        s@ == url@ + "\n"@,
{
    let mut s = url.clone();
    s.append("\n");
    s
}

#[verifier::external_type_specification]
#[verifier::external_body]
#[verifier::reject_recursive_types(T)]
pub struct ExSender<T>(std::sync::mpsc::Sender<T>);

/// Relies on `std::sync::mpsc::Sender::send`: hands the message to the
/// channel's receiver; reports whether the receiver still exists. Nothing
/// else is assumed of it.
#[verifier::external_body]
fn send_text(sender: &std::sync::mpsc::Sender<String>, msg: String) -> (ok: bool) {
    sender.send(msg).is_ok()
}

#[verifier::external_type_specification]
#[verifier::external_body]
pub struct ExStyle(console::Style);

/// Relies on `console::Style::apply_to` and the display of the styled
/// value: renders the text wrapped in the style's terminal codes when
/// coloring is active, plain otherwise. Nothing is assumed of the result's
/// shape, since it depends on the terminal's settings.
#[verifier::external_body]
fn apply_style(style: &console::Style, text: &str) -> (styled: String) {
    style.apply_to(text).to_string()
}

/// Feeds human-readable lines from a consumer back to the UI through the
/// progress side-channel.
pub struct MsgSender {
    sender: std::sync::mpsc::Sender<String>,
    msg: String,
    print_opt: Option<PrintData>,
}

impl MsgSender {
    /// The staged plain message.
    pub closed spec fn spec_msg(&self) -> Seq<char> {
        self.msg@
    }

    /// The staged detail fields, if any.
    pub closed spec fn spec_print(&self) -> Option<PrintData> {
        self.print_opt
    }

    /// A sender with nothing staged yet.
    pub fn new(sender: std::sync::mpsc::Sender<String>) -> (m: MsgSender)
        ensures
            m.spec_msg().len() == 0,
            m.spec_print() is None,
    {
        MsgSender { sender, msg: String::new(), print_opt: None }
    }

    /// Stage a plain message.
    pub fn set_msg(&mut self, msg: String)
        ensures
            final(self).spec_msg() == msg@,
            final(self).spec_print() == old(self).spec_print(),
    {
        self.msg = msg;
    }

    /// Attach the script hook's output to the staged detail line, if one is
    /// staged.
    pub fn set_script_output(&mut self, msg: String)
        ensures
            final(self).spec_msg() == old(self).spec_msg(),
            match old(self).spec_print() {
                Some(d) => final(self).spec_print() == Some(
                    PrintData { script_output: msg, ..d },
                ),
                None => final(self).spec_print() is None,
            },
    {
        if let Some(opt) = &mut self.print_opt {
            opt.script_output = msg;
        }
    }

    /// Stage one record's detail fields for the next colored send.
    pub fn debug(&mut self, data: PrintData)
        ensures
            final(self).spec_msg() == old(self).spec_msg(),
            final(self).spec_print() == Some(data),
    {
        self.print_opt = Some(data);
    }

    /// Send the staged detail line, styled, over the channel; with no
    /// detail staged, send the staged plain message instead, if any.
    pub fn send_color(&self, color: &console::Style) {
        if let Some(d) = &self.print_opt {
            let line = format_print_data(d);
            let _ = send_text(&self.sender, apply_style(color, line.as_str()));
            return;
        }
        if !self.msg.as_str().is_empty() {
            let _ = send_text(&self.sender, apply_style(color, self.msg.as_str()));
        }
    }

    /// Send the staged plain message over the channel, if any.
    pub fn send(&self) {
        if !self.msg.as_str().is_empty() {
            let _ = send_text(&self.sender, self.msg.clone());
        }
    }
}

/// The URLs of the records a consumer keeps, in queue order.
pub open spec fn spec_hit_urls(
    records: Seq<HttpResp>,
    filters: Option<FilterRules>,
    match_rules: Option<Matches>,
) -> Seq<String>
    decreases records.len(),
{
    if records.len() == 0 {
        Seq::empty()
    } else {
        (if spec_record_verdict(filters, match_rules, records[0].html@) == RecordVerdict::Hit {
            seq![records[0].url]
        } else {
            Seq::empty()
        }) + spec_hit_urls(records.skip(1), filters, match_rules)
    }
}

/// The stats table after a consumer counts the kept records: one `Hits`
/// increment per record that survives filter and match, nothing else.
pub open spec fn spec_consume_stats(
    t: StatsTable,
    records: Seq<HttpResp>,
    filters: Option<FilterRules>,
    match_rules: Option<Matches>,
) -> StatsTable
    decreases records.len(),
{
    if records.len() == 0 {
        t
    } else {
        let t1 = if spec_record_verdict(filters, match_rules, records[0].html@)
            == RecordVerdict::Hit {
            t.spec_inc(Stats::Hits)
        } else {
            t
        };
        spec_consume_stats(t1, records.skip(1), filters, match_rules)
    }
}

/// How many of the records survive filter and match.
pub open spec fn spec_hit_count(
    records: Seq<HttpResp>,
    filters: Option<FilterRules>,
    match_rules: Option<Matches>,
) -> nat
    decreases records.len(),
{
    if records.len() == 0 {
        0
    } else {
        (if spec_record_verdict(filters, match_rules, records[0].html@) == RecordVerdict::Hit {
            1nat
        } else {
            0nat
        }) + spec_hit_count(records.skip(1), filters, match_rules)
    }
}

/// A full drain hands out one URL per surviving record: as many hit URLs
/// as there are records that pass filter and match.
pub proof fn lemma_hit_urls_len(
    records: Seq<HttpResp>,
    filters: Option<FilterRules>,
    match_rules: Option<Matches>,
)
    ensures
        spec_hit_urls(records, filters, match_rules).len() == spec_hit_count(
            records,
            filters,
            match_rules,
        ),
    decreases records.len(),
{
    if records.len() > 0 {
        lemma_hit_urls_len(records.skip(1), filters, match_rules);
    }
}

/// The hit counter grows by exactly the number of records that survive
/// filter and match, and no other counter moves while the consumers drain.
pub proof fn lemma_hits_accounting(
    t: StatsTable,
    records: Seq<HttpResp>,
    filters: Option<FilterRules>,
    match_rules: Option<Matches>,
)
    requires
        t.hits + spec_hit_count(records, filters, match_rules) <= u64::MAX,
    ensures
        spec_consume_stats(t, records, filters, match_rules).hits == t.hits + spec_hit_count(
            records,
            filters,
            match_rules,
        ),
        forall|b: Stats|
            b != Stats::Hits ==> #[trigger] spec_consume_stats(
                t,
                records,
                filters,
                match_rules,
            ).spec_get(b) == t.spec_get(b),
    decreases records.len(),
{
    if records.len() > 0 {
        let t1 = if spec_record_verdict(filters, match_rules, records[0].html@)
            == RecordVerdict::Hit {
            t.spec_inc(Stats::Hits)
        } else {
            t
        };
        lemma_hits_accounting(t1, records.skip(1), filters, match_rules);
    }
}

/// Drain the closed queue to the end: evaluate every waiting record, count
/// each hit, and return the hit URLs in queue order. Nothing enqueued
/// before shutdown is lost: every record is taken and judged exactly once.
pub fn consume_all(
    q: &mut ResultQueue,
    stats: &mut StatsTable,
    filters: &Option<FilterRules>,
    match_rules: &Option<Matches>,
) -> (hits: Vec<String>)
    requires
        !old(q).is_producing(),
    ensures
        final(q).contents().len() == 0,
        !final(q).is_producing(),
        hits@ == spec_hit_urls(old(q).contents(), *filters, *match_rules),
        *final(stats) == spec_consume_stats(
            *old(stats),
            old(q).contents(),
            *filters,
            *match_rules,
        ),
{
    let mut hits: Vec<String> = Vec::new();
    loop
        invariant
            !q.is_producing(),
            spec_hit_urls(old(q).contents(), *filters, *match_rules) =~= hits@ + spec_hit_urls(
                q.contents(),
                *filters,
                *match_rules,
            ),
            spec_consume_stats(*old(stats), old(q).contents(), *filters, *match_rules)
                == spec_consume_stats(*stats, q.contents(), *filters, *match_rules),
        decreases q.contents().len(),
    {
        let ghost pre = q.contents();
        match q.consumer_poll() {
            ConsumerStep::Exit => {
                proof {
                    assert(spec_hit_urls(q.contents(), *filters, *match_rules)
                        =~= Seq::<String>::empty());
                    assert(hits@ + Seq::<String>::empty() =~= hits@);
                }
                return hits;
            },
            ConsumerStep::Idle => {
                // unreachable: the queue is closed, so an empty queue exits
                proof {
                    assert(false);
                }
            },
            ConsumerStep::Work(record) => {
                proof {
                    assert(pre[0] == record);
                    assert(pre.skip(1) =~= q.contents());
                }
                let verdict = evaluate_record(&record, filters, match_rules);
                if verdict == RecordVerdict::Hit {
                    crate::stats::stats_inc(stats, &Stats::Hits);
                    proof {
                        let rest = spec_hit_urls(q.contents(), *filters, *match_rules);
                        assert(spec_hit_urls(pre, *filters, *match_rules) =~= seq![record.url]
                            + rest);
                        assert(hits@ + (seq![record.url] + rest) =~= hits@.push(record.url)
                            + rest);
                    }
                    hits.push(record.url);
                } else {
                    proof {
                        assert(spec_hit_urls(pre, *filters, *match_rules) =~= spec_hit_urls(
                            q.contents(),
                            *filters,
                            *match_rules,
                        ));
                    }
                }
            },
        }
    }
}

} // verus!
