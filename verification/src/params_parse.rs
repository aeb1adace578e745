//! Parsing of match/filter flag values into rulesets: numeric flags,
//! comma-separated code lists, and the two ruleset builders. The CLI layer
//! hands in each flag's raw value; everything here is pure.

use vstd::prelude::*;
use std::collections::HashSet;
use crate::rules::{FilterRules, Matches, RegexRule};
use crate::text::{
    all_digits, chars_to_string, digits_value, parse_u16_chars, parse_usize_chars, spec_split,
    spec_trim, split_chars, str_to_chars, trim_chars, views_of,
};

verus! {

broadcast use vstd::std_specs::hash::group_hash_axioms;

/// What a flag value parses to as a number: a non-empty all-digit string
/// in machine range, or nothing.
pub open spec fn spec_opt_usize(s: Seq<char>) -> Option<usize> {
    if all_digits(s) && digits_value(s) <= usize::MAX {
        Some(digits_value(s) as usize)
    } else {
        None
    }
}

/// What a flag value parses to as a `u16`.
pub open spec fn spec_opt_u16(s: Seq<char>) -> Option<u16> {
    if all_digits(s) && digits_value(s) <= u16::MAX {
        Some(digits_value(s) as u16)
    } else {
        None
    }
}

/// A numeric flag's value, or the default when the flag is absent or not a
/// number.
pub fn opt_int_parm(given: &Option<String>, default: usize) -> (r: usize)
    ensures
        r == (match given {
            Some(s) => match spec_opt_usize(s@) {
                Some(v) => v,
                None => default,
            },
            None => default,
        }),
{
    match given {
        Some(s) => {
            let cs = str_to_chars(s.as_str());
            match parse_usize_chars(&cs) {
                Some(v) => v,
                None => default,
            }
        },
        None => default,
    }
}

/// A numeric flag's value, if the flag was given and numeric.
pub fn opt_int_some_parm(given: &Option<String>) -> (r: Option<usize>)
    ensures
        r == (match given {
            Some(s) => spec_opt_usize(s@),
            None => None::<usize>,
        }),
{
    match given {
        Some(s) => {
            let cs = str_to_chars(s.as_str());
            parse_usize_chars(&cs)
        },
        None => None,
    }
}

/// The numbers named by a comma-separated list: each piece that parses
/// contributes its value, the rest are ignored.
pub open spec fn spec_usize_codes(pieces: Seq<Seq<char>>) -> Set<usize>
    decreases pieces.len(),
{
    if pieces.len() == 0 {
        Set::empty()
    } else {
        let rest = spec_usize_codes(pieces.drop_last());
        match spec_opt_usize(pieces.last()) {
            Some(v) => rest.insert(v),
            None => rest,
        }
    }
}

/// The `u16` codes named by a comma-separated list.
pub open spec fn spec_u16_codes(pieces: Seq<Seq<char>>) -> Set<u16>
    decreases pieces.len(),
{
    if pieces.len() == 0 {
        Set::empty()
    } else {
        let rest = spec_u16_codes(pieces.drop_last());
        match spec_opt_u16(pieces.last()) {
            Some(v) => rest.insert(v),
            None => rest,
        }
    }
}

fn collect_usize_codes(s: &str) -> (codes: HashSet<usize>)
    ensures
        codes@ == spec_usize_codes(spec_split(s@, ',')),
{
    let cs = str_to_chars(s);
    let pieces = split_chars(&cs, ',');
    let ghost pviews = spec_split(s@, ',');
    let mut codes: HashSet<usize> = HashSet::new();
    let mut i: usize = 0;
    proof {
        assert(pviews.take(0) =~= Seq::<Seq<char>>::empty());
    }
    while i < pieces.len()
        invariant
            0 <= i <= pieces@.len(),
            views_of(pieces@) == pviews,
            pieces@.len() == pviews.len(),
            codes@ == spec_usize_codes(pviews.take(i as int)),
        decreases pieces@.len() - i,
    {
        proof {
            assert(pieces@[i as int]@ == pviews[i as int]);
            assert(pviews.take(i + 1).drop_last() =~= pviews.take(i as int));
            assert(pviews.take(i + 1).last() == pviews[i as int]);
        }
        let n = parse_usize_chars(&pieces[i]);
        if let Some(v) = n {
            codes.insert(v);
        }
        i = i + 1;
    }
    proof {
        assert(pviews.take(pviews.len() as int) =~= pviews);
    }
    codes
}

fn collect_u16_codes(s: &str) -> (codes: HashSet<u16>)
    ensures
        codes@ == spec_u16_codes(spec_split(s@, ',')),
{
    let cs = str_to_chars(s);
    let pieces = split_chars(&cs, ',');
    let ghost pviews = spec_split(s@, ',');
    let mut codes: HashSet<u16> = HashSet::new();
    let mut i: usize = 0;
    proof {
        assert(pviews.take(0) =~= Seq::<Seq<char>>::empty());
    }
    while i < pieces.len()
        invariant
            0 <= i <= pieces@.len(),
            views_of(pieces@) == pviews,
            pieces@.len() == pviews.len(),
            codes@ == spec_u16_codes(pviews.take(i as int)),
        decreases pieces@.len() - i,
    {
        proof {
            assert(pieces@[i as int]@ == pviews[i as int]);
            assert(pviews.take(i + 1).drop_last() =~= pviews.take(i as int));
            assert(pviews.take(i + 1).last() == pviews[i as int]);
        }
        let n = parse_u16_chars(&pieces[i]);
        if let Some(v) = n {
            codes.insert(v);
        }
        i = i + 1;
    }
    proof {
        assert(pviews.take(pviews.len() as int) =~= pviews);
    }
    codes
}

/// The set a comma-separated numeric flag names: the flag's own value when
/// given, else the default list when one is configured, else nothing.
pub fn opt_usize_split(given: &Option<String>, defaults: &str) -> (r: Option<HashSet<usize>>)
    ensures
        match r {
            Some(codes) => match given {
                Some(s) => codes@ == spec_usize_codes(spec_split(s@, ',')),
                None => defaults@.len() > 0 && codes@ == spec_usize_codes(
                    spec_split(defaults@, ','),
                ),
            },
            None => given is None && defaults@.len() == 0,
        },
{
    match given {
        Some(s) => Some(collect_usize_codes(s.as_str())),
        None => {
            if defaults.is_empty() {
                return None;
            }
            Some(collect_usize_codes(defaults))
        },
    }
}

/// The status-code set a comma-separated flag names: the flag's own value
/// when given; else the default list when one is configured, which always
/// includes 200 and 403; else nothing.
pub fn opt_int_split(given: &Option<String>, defaults: &str) -> (r: Option<HashSet<u16>>)
    ensures
        match r {
            Some(codes) => match given {
                Some(s) => codes@ == spec_u16_codes(spec_split(s@, ',')),
                None => defaults@.len() > 0 && codes@ == spec_u16_codes(
                    spec_split(defaults@, ','),
                ).insert(200).insert(403),
            },
            None => given is None && defaults@.len() == 0,
        },
{
    match given {
        Some(s) => Some(collect_u16_codes(s.as_str())),
        None => {
            if defaults.is_empty() {
                return None;
            }
            let mut codes = collect_u16_codes(defaults);
            codes.insert(200);
            codes.insert(403);
            Some(codes)
        },
    }
}

/// The pieces of a comma-separated list, each trimmed of surrounding
/// whitespace.
pub open spec fn spec_trimmed_pieces(s: Seq<char>) -> Seq<Seq<char>> {
    spec_split(s, ',').map_values(|p: Seq<char>| spec_trim(p))
}

/// Split a comma-separated flag value into its trimmed pieces, if the flag
/// was given.
pub fn opt_vec_split(given: &Option<String>) -> (r: Option<Vec<String>>)
    ensures
        match r {
            Some(list) => given matches Some(s) && list.deep_view() == spec_trimmed_pieces(s@),
            None => given is None,
        },
{
    match given {
        Some(s) => {
            let cs = str_to_chars(s.as_str());
            let pieces = split_chars(&cs, ',');
            let ghost pviews = spec_split(s@, ',');
            let ghost mapped = spec_trimmed_pieces(s@);
            let mut list: Vec<String> = Vec::new();
            let mut i: usize = 0;
            proof {
                assert(list.deep_view() =~= mapped.take(0));
            }
            while i < pieces.len()
                invariant
                    0 <= i <= pieces@.len(),
                    views_of(pieces@) == pviews,
                    pieces@.len() == pviews.len(),
                    mapped == spec_trimmed_pieces(s@),
                    pviews == spec_split(s@, ','),
                    mapped.len() == pviews.len(),
                    list@.len() == i,
                    list.deep_view() == mapped.take(i as int),
                decreases pieces@.len() - i,
            {
                proof {
                    assert(pieces@[i as int]@ == pviews[i as int]);
                    assert(mapped[i as int] == spec_trim(pviews[i as int]));
                }
                let trimmed = trim_chars(&pieces[i]);
                let piece = chars_to_string(&trimmed);
                let ghost lv = list@;
                let ghost prev = list.deep_view();
                list.push(piece);
                proof {
                    assert forall|k: int| 0 <= k < i + 1 implies list.deep_view()[k]
                        == mapped.take(i + 1)[k] by {
                        assert(list.deep_view()[k] == list@[k].deep_view());
                        if k < i {
                            assert(list@[k] == lv[k]);
                            assert(prev[k] == lv[k].deep_view());
                            assert(prev[k] == mapped.take(i as int)[k]);
                        } else {
                            assert(list@[k] == piece);
                        }
                    }
                    assert(list.deep_view() =~= mapped.take(i + 1));
                }
                i = i + 1;
            }
            proof {
                assert(mapped.take(mapped.len() as int) =~= mapped);
            }
            Some(list)
        },
        None => None,
    }
}

/// Build the filter ruleset from the four filter flags. An invalid filter
/// regex is the only error, reported with the compiler's text; with no
/// filter flag given at all there is no ruleset; otherwise each given flag
/// becomes its sub-rule and `or_filter` selects OR combination.
pub fn filter_params(
    fr: &Option<String>,
    fc: &Option<String>,
    fl: &Option<String>,
    fs: &Option<String>,
    or_filter: bool,
) -> (r: Result<Option<FilterRules>, String>)
    ensures
        match r {
            Ok(None) => fr is None && fc is None && fl is None && fs is None,
            Ok(Some(f)) => {
                &&& !(fr is None && fc is None && fl is None && fs is None)
                &&& (match fr {
                    Some(p) => f.regex matches Some(rr) && rr.pat() == p@,
                    None => f.regex is None,
                })
                &&& (match fc {
                    Some(s) => f.status_code matches Some(codes) && codes@ == spec_u16_codes(
                        spec_split(s@, ','),
                    ),
                    None => f.status_code is None,
                })
                &&& (match fl {
                    Some(s) => f.line_num matches Some(codes) && codes@ == spec_usize_codes(
                        spec_split(s@, ','),
                    ),
                    None => f.line_num is None,
                })
                &&& (match fs {
                    Some(s) => f.resp_size matches Some(list) && list.deep_view()
                        == spec_trimmed_pieces(s@),
                    None => f.resp_size is None,
                })
                &&& f.and_and_and == !or_filter
            },
            Err(_) => fr is Some,
        },
{
    proof {
        reveal_strlit("");
    }
    let filter_resp_regex = match fr {
        Some(p) => {
            match RegexRule::compile(p.as_str()) {
                Ok(rr) => Some(rr),
                Err(e) => {
                    return Err(e);
                },
            }
        },
        None => None,
    };
    let filter_http_status_code = opt_int_split(fc, "");
    let filter_resp_line = opt_usize_split(fl, "");
    let filter_resp_size = opt_vec_split(fs);
    if filter_resp_regex.is_none() && filter_http_status_code.is_none()
        && filter_resp_line.is_none() && filter_resp_size.is_none() {
        return Ok(None);
    }
    Ok(
        Some(
            FilterRules {
                regex: filter_resp_regex,
                status_code: filter_http_status_code,
                line_num: filter_resp_line,
                resp_size: filter_resp_size,
                and_and_and: !or_filter,
            },
        ),
    )
}

/// Build the match ruleset from the four match flags. An invalid match
/// regex is the only error; the status-code sub-rule falls back to the
/// default code list when its flag is absent, so a ruleset is always
/// produced.
pub fn match_params(
    mr: &Option<String>,
    mc: &Option<String>,
    ms: &Option<String>,
    ml: &Option<String>,
    or_match: bool,
    default_codes: &str,
) -> (r: Result<Option<Matches>, String>)
    requires
        default_codes@.len() > 0,
    ensures
        match r {
            Ok(None) => false,
            Ok(Some(m)) => {
                &&& (match mr {
                    Some(p) => m.regex matches Some(rr) && rr.pat() == p@,
                    None => m.regex is None,
                })
                &&& (match mc {
                    Some(s) => m.status_code matches Some(codes) && codes@ == spec_u16_codes(
                        spec_split(s@, ','),
                    ),
                    None => m.status_code matches Some(codes) && codes@ == spec_u16_codes(
                        spec_split(default_codes@, ','),
                    ).insert(200).insert(403),
                })
                &&& m.resp_size == (match ms {
                    Some(s) => spec_opt_usize(s@),
                    None => None::<usize>,
                })
                &&& m.line_num == (match ml {
                    Some(s) => spec_opt_usize(s@),
                    None => None::<usize>,
                })
                &&& m.and_and_and == !or_match
            },
            Err(_) => mr is Some,
        },
{
    let match_regex = match mr {
        Some(p) => {
            match RegexRule::compile(p.as_str()) {
                Ok(rr) => Some(rr),
                Err(e) => {
                    return Err(e);
                },
            }
        },
        None => None,
    };
    let match_http_status_code = opt_int_split(mc, default_codes);
    let match_resp_size = opt_int_some_parm(ms);
    let match_resp_line = opt_int_some_parm(ml);
    Ok(
        Some(
            Matches {
                regex: match_regex,
                status_code: match_http_status_code,
                line_num: match_resp_line,
                resp_size: match_resp_size,
                and_and_and: !or_match,
            },
        ),
    )
}

} // verus!
