//! Match/filter rule engine: evaluates a response body against a ruleset.
//!
//! Match rules keep a record; filter rules discard one. Each configured
//! sub-rule (regex, line count, byte size) produces a verdict and counts as
//! participating; the `and_and_and` flag selects whether every participating
//! sub-rule must hold or any one suffices.

use vstd::prelude::*;
use std::collections::HashSet;
use crate::text::{
    all_digits, count_lines, digits_value, parse_usize_chars, spec_line_count,
    spec_split, split_chars, str_to_chars, views_of,
};

verus! {

broadcast use vstd::std_specs::hash::group_hash_axioms;

/// A compiled regular expression together with the pattern it was compiled
/// from. The pattern is the value the contracts speak about; only the
/// constructor below can pair the two.
pub struct RegexRule {
    pattern: String,
    re: regex::bytes::Regex,
}

#[verifier::external_type_specification]
#[verifier::external_body]
pub struct ExBytesRegex(regex::bytes::Regex);

/// Whether the regex compiled from `pattern` matches somewhere in `text`.
/// The regex crate decides this; it depends on the pattern and the haystack
/// alone.
pub uninterp spec fn regex_match(pattern: Seq<char>, text: Seq<u8>) -> bool;

impl RegexRule {
    /// The pattern this rule was compiled from.
    pub closed spec fn pat(&self) -> Seq<char> {
        self.pattern@
    }

    /// Relies on `regex::bytes::Regex::new`: on success the returned value
    /// is the regex compiled from exactly the given pattern; on an invalid
    /// pattern it reports the compile error's text.
    #[verifier::external_body]
    pub fn compile(pattern: &str) -> (r: Result<RegexRule, String>)
        ensures
            r matches Ok(rr) ==> rr.pat() == pattern@,
    {
        match regex::bytes::Regex::new(pattern) {
            Ok(re) => Ok(RegexRule { pattern: String::from(pattern), re }),
            Err(e) => Err(e.to_string()),
        }
    }

    /// Relies on `regex::bytes::Regex::is_match`: true iff the compiled
    /// pattern matches anywhere in the haystack; deterministic in the
    /// pattern and the haystack.
    #[verifier::external_body]
    pub fn has_match(&self, text: &[u8]) -> (b: bool)
        ensures
            b == regex_match(self.pat(), text@),
    {
        self.re.is_match(text)
    }

    /// The pattern, for display.
    pub fn pattern_str(&self) -> (p: &String)
        ensures
            p@ == self.pat(),
    {
        &self.pattern
    }
}

/// Match ruleset: single target values per sub-rule.
pub struct Matches {
    pub regex: Option<RegexRule>,
    pub status_code: Option<HashSet<u16>>,
    pub line_num: Option<usize>,
    pub resp_size: Option<usize>,
    pub and_and_and: bool,
}

/// Filter ruleset: sets and ranges per sub-rule.
pub struct FilterRules {
    pub regex: Option<RegexRule>,
    pub status_code: Option<HashSet<u16>>,
    pub line_num: Option<HashSet<usize>>,
    pub resp_size: Option<Vec<String>>,
    pub and_and_and: bool,
}

/// No participating sub-rule failed (vacuously true when none participate).
pub open spec fn no_part_fails(parts: Seq<Option<bool>>) -> bool {
    forall|i: int| 0 <= i < parts.len() ==> (#[trigger] parts[i]) != Some(false)
}

/// At least one participating sub-rule holds.
pub open spec fn some_part_holds(parts: Seq<Option<bool>>) -> bool {
    exists|i: int| 0 <= i < parts.len() && (#[trigger] parts[i]) == Some(true)
}

/// Combine participating sub-rule verdicts: under AND every participating
/// sub-rule must hold; under OR one suffices, and an empty participation
/// defaults to a match.
pub open spec fn spec_combine(and_mode: bool, parts: Seq<Option<bool>>) -> bool {
    if and_mode {
        no_part_fails(parts)
    } else {
        some_part_holds(parts) || no_part_fails(parts)
    }
}

/// Under AND the verdict holds iff every participating sub-rule is
/// individually true.
pub proof fn lemma_combine_and(parts: Seq<Option<bool>>)
    ensures
        spec_combine(true, parts) <==> (forall|i: int|
            0 <= i < parts.len() ==> ((#[trigger] parts[i]) is Some ==> parts[i] == Some(true))),
{
    if spec_combine(true, parts) {
        assert forall|i: int|
            0 <= i < parts.len() implies ((#[trigger] parts[i]) is Some ==> parts[i] == Some(
            true,
        )) by {
            assert(parts[i] != Some(false));
            match parts[i] {
                Some(b) => {
                    assert(b != false);
                },
                None => {},
            }
        }
    }
    if (forall|i: int|
        0 <= i < parts.len() ==> ((#[trigger] parts[i]) is Some ==> parts[i] == Some(true))) {
        assert forall|i: int| 0 <= i < parts.len() implies (#[trigger] parts[i]) != Some(
            false,
        ) by {
            match parts[i] {
                Some(b) => {
                    assert(parts[i] == Some(true));
                },
                None => {},
            }
        }
    }
}

/// Under OR the verdict holds iff some participating sub-rule is true, or
/// no sub-rule participates at all.
pub proof fn lemma_combine_or(parts: Seq<Option<bool>>)
    ensures
        spec_combine(false, parts) <==> (some_part_holds(parts) || (forall|i: int|
            0 <= i < parts.len() ==> (#[trigger] parts[i]) is None)),
{
    if spec_combine(false, parts) && !some_part_holds(parts) {
        assert forall|i: int| 0 <= i < parts.len() implies (#[trigger] parts[i]) is None by {
            assert(parts[i] != Some(false));
            match parts[i] {
                Some(b) => {
                    if b {
                        assert(some_part_holds(parts));
                    }
                },
                None => {},
            }
        }
    }
}

/// The participating sub-rule verdicts of a match ruleset on a body:
/// regex, exact line count, exact byte size.
pub open spec fn spec_match_parts(m: Matches, body: Seq<u8>) -> Seq<Option<bool>> {
    seq![
        match m.regex {
            Some(r) => Some(regex_match(r.pat(), body)),
            None => None,
        },
        match m.line_num {
            Some(n) => Some(spec_line_count(body) == n),
            None => None,
        },
        match m.resp_size {
            Some(n) => Some(body.len() == n),
            None => None,
        },
    ]
}

/// The match verdict of a body against a match ruleset.
pub open spec fn spec_is_match(m: Matches, body: Seq<u8>) -> bool {
    spec_combine(m.and_and_and, spec_match_parts(m, body))
}

/// Evaluate a response body against a match ruleset. Status codes are not
/// re-examined here: they are checked earlier, at dispatch.
pub fn is_match(body: &[u8], rules: &Matches) -> (r: bool)
    ensures
        r == spec_is_match(*rules, body@),
{
    let ghost parts = spec_match_parts(*rules, body@);
    let mut ok = true;
    let mut any = false;
    let p0: Option<bool> = match &rules.regex {
        Some(re) => Some(re.has_match(body)),
        None => None,
    };
    let p1: Option<bool> = match &rules.line_num {
        Some(n) => Some(count_lines(body) == *n),
        None => None,
    };
    let p2: Option<bool> = match &rules.resp_size {
        Some(n) => Some(body.len() == *n),
        None => None,
    };
    if let Some(b) = p0 {
        ok = b && ok;
        if b {
            any = true;
        }
    }
    if let Some(b) = p1 {
        ok = b && ok;
        if b {
            any = true;
        }
    }
    if let Some(b) = p2 {
        ok = b && ok;
        if b {
            any = true;
        }
    }
    proof {
        assert(parts[0] == p0 && parts[1] == p1 && parts[2] == p2);
        assert(ok == (parts[0] != Some(false) && parts[1] != Some(false) && parts[2] != Some(
            false,
        )));
        assert(any == (parts[0] == Some(true) || parts[1] == Some(true) || parts[2] == Some(
            true,
        )));
        lemma_parts3(parts, ok, any);
    }
    if !rules.and_and_and && any {
        ok = true;
    }
    ok
}

proof fn lemma_parts3(parts: Seq<Option<bool>>, ok: bool, any: bool)
    requires
        parts.len() == 3,
        ok == (parts[0] != Some(false) && parts[1] != Some(false) && parts[2] != Some(false)),
        any == (parts[0] == Some(true) || parts[1] == Some(true) || parts[2] == Some(true)),
    ensures
        ok == no_part_fails(parts),
        any == some_part_holds(parts),
{
    if ok {
        assert forall|i: int| 0 <= i < parts.len() implies (#[trigger] parts[i]) != Some(
            false,
        ) by {
            if i == 0 || i == 1 || i == 2 {
            }
        }
    }
    if any {
        if parts[0] == Some(true) {
            assert(some_part_holds(parts));
        } else if parts[1] == Some(true) {
            assert(some_part_holds(parts));
        } else {
            assert(parts[2] == Some(true));
            assert(some_part_holds(parts));
        }
    }
    if some_part_holds(parts) {
        let i = choose|i: int| 0 <= i < parts.len() && (#[trigger] parts[i]) == Some(true);
        assert(i == 0 || i == 1 || i == 2);
    }
    if !ok {
        assert(!no_part_fails(parts));
    }
}

/// One size criterion of a filter ruleset: an exact length, an inclusive
/// range, or a strict comparison.
#[derive(PartialEq, Eq, Structural, Clone, Copy, Debug)]
pub enum SizeRule {
    Exact(usize),
    Range(usize, usize),
    Greater(usize),
    Less(usize),
}

/// What a size-rule entry parses to: `"A-B"` is an inclusive range, `">A"`
/// and `"<A"` are comparisons, a bare number is an exact length; anything
/// malformed (non-numeric, wrong arity, out of machine range) parses to
/// nothing and never matches.
pub open spec fn spec_parse_size_rule(entry: Seq<char>) -> Option<SizeRule> {
    let pieces = spec_split(entry, '-');
    if pieces.len() == 2 {
        if all_digits(pieces[0]) && digits_value(pieces[0]) <= usize::MAX && all_digits(pieces[1])
            && digits_value(pieces[1]) <= usize::MAX {
            Some(
                SizeRule::Range(
                    digits_value(pieces[0]) as usize,
                    digits_value(pieces[1]) as usize,
                ),
            )
        } else {
            None
        }
    } else if pieces.len() == 1 {
        let p = pieces[0];
        if p.len() >= 1 && p[0] == '>' && all_digits(p.skip(1)) && digits_value(p.skip(1))
            <= usize::MAX {
            Some(SizeRule::Greater(digits_value(p.skip(1)) as usize))
        } else if p.len() >= 1 && p[0] == '<' && all_digits(p.skip(1)) && digits_value(p.skip(1))
            <= usize::MAX {
            Some(SizeRule::Less(digits_value(p.skip(1)) as usize))
        } else if all_digits(p) && digits_value(p) <= usize::MAX {
            Some(SizeRule::Exact(digits_value(p) as usize))
        } else {
            None
        }
    } else {
        None
    }
}

/// Whether a body length satisfies one parsed size criterion.
pub open spec fn spec_size_rule_hits(r: SizeRule, len: nat) -> bool {
    match r {
        SizeRule::Exact(n) => len == n,
        SizeRule::Range(a, b) => a <= len <= b,
        SizeRule::Greater(n) => len > n,
        SizeRule::Less(n) => len < n,
    }
}

/// Whether a body length falls inside any one listed size entry; malformed
/// entries never match.
pub open spec fn spec_size_list_hits(entries: Seq<Seq<char>>, len: nat) -> bool {
    exists|i: int|
        0 <= i < entries.len() && ((#[trigger] spec_parse_size_rule(entries[i])) matches Some(r)
            && spec_size_rule_hits(r, len))
}

/// Parse one size-rule entry.
pub fn parse_size_rule(entry: &str) -> (r: Option<SizeRule>)
    ensures
        r == spec_parse_size_rule(entry@),
{
    let chars = str_to_chars(entry);
    let pieces = split_chars(&chars, '-');
    proof {
        assert(views_of(pieces@) == spec_split(entry@, '-'));
        assert(pieces@.len() == views_of(pieces@).len());
    }
    if pieces.len() == 2 {
        proof {
            assert(pieces@[0]@ == views_of(pieces@)[0]);
            assert(pieces@[1]@ == views_of(pieces@)[1]);
        }
        let lo = parse_usize_chars(&pieces[0]);
        let hi = parse_usize_chars(&pieces[1]);
        match (lo, hi) {
            (Some(a), Some(b)) => Some(SizeRule::Range(a, b)),
            _ => None,
        }
    } else if pieces.len() == 1 {
        let p = &pieces[0];
        proof {
            assert(p@ == views_of(pieces@)[0]);
        }
        if p.len() >= 1 && (p[0] == '>' || p[0] == '<') {
            let mut rest: Vec<char> = Vec::new();
            let mut i: usize = 1;
            while i < p.len()
                invariant
                    1 <= i <= p@.len(),
                    rest@ == p@.subrange(1, i as int),
                decreases p@.len() - i,
            {
                rest.push(p[i]);
                proof {
                    assert(p@.subrange(1, i + 1) =~= p@.subrange(1, i as int).push(p@[i as int]));
                }
                i = i + 1;
            }
            proof {
                assert(rest@ =~= p@.skip(1));
            }
            let n = parse_usize_chars(&rest);
            match n {
                Some(v) => if p[0] == '>' {
                    Some(SizeRule::Greater(v))
                } else {
                    Some(SizeRule::Less(v))
                },
                None => None,
            }
        } else {
            let n = parse_usize_chars(p);
            match n {
                Some(v) => Some(SizeRule::Exact(v)),
                None => None,
            }
        }
    } else {
        None
    }
}

fn size_rule_hits(r: &SizeRule, len: usize) -> (b: bool)
    ensures
        b == spec_size_rule_hits(*r, len as nat),
{
    match r {
        SizeRule::Exact(n) => len == *n,
        SizeRule::Range(a, b) => len >= *a && len <= *b,
        SizeRule::Greater(n) => len > *n,
        SizeRule::Less(n) => len < *n,
    }
}

/// Whether a body length falls inside any listed size entry; the first
/// satisfying entry short-circuits the scan.
pub fn size_rules_hit(list: &Vec<String>, len: usize) -> (b: bool)
    ensures
        b == spec_size_list_hits(list.deep_view(), len as nat),
{
    let ghost entries = list.deep_view();
    let mut i: usize = 0;
    while i < list.len()
        invariant
            0 <= i <= list@.len(),
            entries == list.deep_view(),
            entries.len() == list@.len(),
            forall|k: int|
                0 <= k < i ==> !((#[trigger] spec_parse_size_rule(entries[k])) matches Some(r)
                    && spec_size_rule_hits(r, len as nat)),
        decreases list@.len() - i,
    {
        proof {
            assert(entries[i as int] == list@[i as int]@);
        }
        let parsed = parse_size_rule(list[i].as_str());
        if let Some(rule) = parsed {
            if size_rule_hits(&rule, len) {
                return true;
            }
        }
        i = i + 1;
    }
    false
}

/// The participating sub-rule verdicts of a filter ruleset on a body:
/// regex, line-count membership, and the size-rule list.
pub open spec fn spec_filter_parts(f: FilterRules, body: Seq<u8>) -> Seq<Option<bool>> {
    seq![
        match f.regex {
            Some(r) => Some(regex_match(r.pat(), body)),
            None => None,
        },
        match f.line_num {
            Some(set) => Some(set@.contains(spec_line_count(body) as usize)),
            None => None,
        },
        match f.resp_size {
            Some(list) => Some(spec_size_list_hits(list.deep_view(), body.len())),
            None => None,
        },
    ]
}

/// The filter verdict of a body against a filter ruleset: true means the
/// record is discarded.
pub open spec fn spec_is_filter(f: FilterRules, body: Seq<u8>) -> bool {
    spec_combine(f.and_and_and, spec_filter_parts(f, body))
}

/// Evaluate a response body against a filter ruleset. Status codes are not
/// re-examined here: they are checked earlier, at dispatch.
pub fn is_filter(body: &[u8], rules: &FilterRules) -> (r: bool)
    ensures
        r == spec_is_filter(*rules, body@),
{
    let ghost parts = spec_filter_parts(*rules, body@);
    let mut ok = true;
    let mut any = false;
    let p0: Option<bool> = match &rules.regex {
        Some(re) => Some(re.has_match(body)),
        None => None,
    };
    let p1: Option<bool> = match &rules.line_num {
        Some(set) => {
            let c = count_lines(body);
            Some(set.contains(&c))
        },
        None => None,
    };
    let p2: Option<bool> = match &rules.resp_size {
        Some(list) => Some(size_rules_hit(list, body.len())),
        None => None,
    };
    if let Some(b) = p0 {
        ok = b && ok;
        if b {
            any = true;
        }
    }
    if let Some(b) = p1 {
        ok = b && ok;
        if b {
            any = true;
        }
    }
    if let Some(b) = p2 {
        ok = b && ok;
        if b {
            any = true;
        }
    }
    proof {
        assert(parts[0] == p0 && parts[1] == p1 && parts[2] == p2);
        assert(ok == (parts[0] != Some(false) && parts[1] != Some(false) && parts[2] != Some(
            false,
        )));
        assert(any == (parts[0] == Some(true) || parts[1] == Some(true) || parts[2] == Some(
            true,
        )));
        lemma_parts3(parts, ok, any);
    }
    if !rules.and_and_and && any {
        ok = true;
    }
    ok
}

/// Running the filter engine twice on the same body and rules yields the
/// same verdict.
pub proof fn lemma_filter_idempotent(f: FilterRules, body: Seq<u8>, r1: bool, r2: bool)
    requires
        r1 == spec_is_filter(f, body),
        r2 == spec_is_filter(f, body),
    ensures
        r1 == r2,
{
}

/// Running the rule engine twice on the same body and rules yields the same
/// verdict.
pub proof fn lemma_match_idempotent(m: Matches, body: Seq<u8>, r1: bool, r2: bool)
    requires
        r1 == spec_is_match(m, body),
        r2 == spec_is_match(m, body),
    ensures
        r1 == r2,
{
}

} // verus!
