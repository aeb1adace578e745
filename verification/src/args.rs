//! The pure decisions of argument handling: proxy-auth splitting, wordlist
//! extension expansion, concurrency adjustment, mode selection, the
//! user-agent table and the script path. The CLI layer reads flags and
//! files and hands plain values in.

use vstd::prelude::*;
use vstd::string::StringExecFns;
use crate::data_type::ScanMode;
use crate::text::{
    chars_to_string, contains_token, replace_chars, spec_contains_token, spec_replace,
    str_to_chars,
};

verus! {

/// The index of the first occurrence of a char, if any.
pub open spec fn spec_find_char(s: Seq<char>, c: char) -> Option<int>
    decreases s.len(),
{
    if s.len() == 0 {
        None
    } else if s[0] == c {
        Some(0)
    } else {
        match spec_find_char(s.skip(1), c) {
            Some(i) => Some(i + 1),
            None => None,
        }
    }
}

proof fn lemma_find_char_some(s: Seq<char>, c: char, j: int)
    requires
        0 <= j < s.len(),
        s[j] == c,
        forall|k: int| 0 <= k < j ==> s[k] != c,
    ensures
        spec_find_char(s, c) == Some(j),
    decreases j,
{
    if j == 0 {
    } else {
        assert(s[0] != c);
        assert(s.skip(1)[j - 1] == s[j]);
        assert forall|k: int| 0 <= k < j - 1 implies s.skip(1)[k] != c by {
            assert(s.skip(1)[k] == s[k + 1]);
        }
        lemma_find_char_some(s.skip(1), c, j - 1);
    }
}

proof fn lemma_find_char_none(s: Seq<char>, c: char)
    requires
        forall|k: int| 0 <= k < s.len() ==> s[k] != c,
    ensures
        spec_find_char(s, c) is None,
    decreases s.len(),
{
    if s.len() > 0 {
        assert forall|k: int| 0 <= k < s.skip(1).len() implies s.skip(1)[k] != c by {
            assert(s.skip(1)[k] == s[k + 1]);
        }
        lemma_find_char_none(s.skip(1), c);
    }
}

/// What a `user:pass` credential splits into: the part before the first
/// colon and everything after it; with no colon there is nothing.
pub open spec fn spec_proxy_auth(s: Seq<char>) -> Option<(Seq<char>, Seq<char>)> {
    match spec_find_char(s, ':') {
        Some(i) => Some((s.take(i), s.skip(i + 1))),
        None => None,
    }
}

/// Split a proxy credential at its first colon into user and password;
/// a credential without a colon is rejected with the formatting error.
pub fn split_proxy_auth(auth: &str) -> (r: Result<(String, String), String>)
    ensures
        match r {
            Ok(pair) => spec_proxy_auth(auth@) matches Some(p) && pair.0@ == p.0 && pair.1@
                == p.1,
            Err(e) => spec_proxy_auth(auth@) is None && e@
                == "Failed to format proxy authentication information"@,
        },
{
    let cs = str_to_chars(auth);
    let n = cs.len();
    let mut j: usize = 0;
    while j < n && cs[j] != ':'
        invariant
            0 <= j <= n,
            n == cs@.len(),
            forall|k: int| 0 <= k < j ==> cs@[k] != ':',
        decreases n - j,
    {
        j = j + 1;
    }
    if j == n {
        proof {
            lemma_find_char_none(auth@, ':');
        }
        return Err(String::from_str("Failed to format proxy authentication information"));
    }
    proof {
        lemma_find_char_some(auth@, ':', j as int);
    }
    let mut user: Vec<char> = Vec::new();
    let mut i: usize = 0;
    while i < j
        invariant
            0 <= i <= j <= n,
            n == cs@.len(),
            user@ == cs@.take(i as int),
        decreases j - i,
    {
        user.push(cs[i]);
        proof {
            assert(cs@.take(i + 1) =~= cs@.take(i as int).push(cs@[i as int]));
        }
        i = i + 1;
    }
    let mut pass: Vec<char> = Vec::new();
    let mut k: usize = j + 1;
    while k < n
        invariant
            j + 1 <= k <= n || (j + 1 > n && k == j + 1),
            n == cs@.len(),
            pass@ == cs@.subrange(j + 1, k as int),
        decreases n - k,
    {
        pass.push(cs[k]);
        proof {
            assert(cs@.subrange(j + 1, k + 1) =~= cs@.subrange(j + 1, k as int).push(
                cs@[k as int],
            ));
        }
        k = k + 1;
    }
    proof {
        assert(user@ =~= auth@.take(j as int));
        assert(pass@ =~= auth@.skip(j + 1));
    }
    Ok((chars_to_string(&user), chars_to_string(&pass)))
}

/// Append one line to a list, as sequences of chars.
fn push_line(out: &mut Vec<String>, s: String)
    ensures
        final(out).deep_view() == old(out).deep_view().push(s@),
{
    let ghost lv = out@;
    let ghost prev = out.deep_view();
    out.push(s);
    proof {
        assert forall|k: int| 0 <= k < lv.len() + 1 implies out.deep_view()[k] == prev.push(
            s@,
        )[k] by {
            if k < lv.len() {
                assert(out@[k] == lv[k]);
                assert(prev[k] == lv[k]@);
            } else {
                assert(out@[k] == s);
            }
        }
        assert(out.deep_view() =~= prev.push(s@));
    }
}

/// What one wordlist line expands to: one entry per extension when the
/// line carries the extension token, else the line itself.
pub open spec fn spec_expand_line(line: Seq<char>, exts: Seq<Seq<char>>) -> Seq<Seq<char>>
    decreases exts.len(),
{
    if exts.len() == 0 {
        Seq::empty()
    } else {
        seq![spec_replace(line, "%EXT%"@, exts[0])] + spec_expand_line(line, exts.skip(1))
    }
}

/// What a wordlist expands to under an extension list, line by line, in
/// order.
pub open spec fn spec_expand(wordlist: Seq<Seq<char>>, exts: Seq<Seq<char>>) -> Seq<Seq<char>>
    decreases wordlist.len(),
{
    if wordlist.len() == 0 {
        Seq::empty()
    } else {
        (if spec_contains_token(wordlist[0], "%EXT%"@) {
            spec_expand_line(wordlist[0], exts)
        } else {
            seq![wordlist[0]]
        }) + spec_expand(wordlist.skip(1), exts)
    }
}

fn ext_token() -> (tok: Vec<char>)
    ensures
        tok@ == "%EXT%"@,
        tok@.len() == 5,
{
    let mut tok: Vec<char> = Vec::new();
    tok.push('%');
    tok.push('E');
    tok.push('X');
    tok.push('T');
    tok.push('%');
    proof {
        reveal_strlit("%EXT%");
        assert(tok@ =~= "%EXT%"@);
    }
    tok
}

/// Expand every wordlist line that carries the extension token into one
/// entry per extension; lines without the token pass through unchanged.
pub fn expand_wordlist(wordlist: &Vec<String>, exts: &Vec<String>) -> (out: Vec<String>)
    ensures
        out.deep_view() == spec_expand(wordlist.deep_view(), exts.deep_view()),
{
    let ghost wviews = wordlist.deep_view();
    let ghost eviews = exts.deep_view();
    let tok = ext_token();
    let mut out: Vec<String> = Vec::new();
    let mut i: usize = 0;
    proof {
        assert(out.deep_view() =~= Seq::<Seq<char>>::empty());
        assert(wviews.skip(0) =~= wviews);
    }
    while i < wordlist.len()
        invariant
            0 <= i <= wordlist@.len(),
            wviews == wordlist.deep_view(),
            eviews == exts.deep_view(),
            wviews.len() == wordlist@.len(),
            eviews.len() == exts@.len(),
            tok@ == "%EXT%"@,
            tok@.len() == 5,
            spec_expand(wviews, eviews) =~= out.deep_view() + spec_expand(
                wviews.skip(i as int),
                eviews,
            ),
        decreases wordlist@.len() - i,
    {
        let ghost line = wviews[i as int];
        proof {
            assert(wordlist@[i as int]@ == line);
            assert(wviews.skip(i as int)[0] == line);
            assert(wviews.skip(i as int).skip(1) =~= wviews.skip(i + 1));
        }
        let lchars = str_to_chars(wordlist[i].as_str());
        if contains_token(&lchars, &tok) {
            let ghost before = out.deep_view();
            let mut e: usize = 0;
            proof {
                lemma_expand_line_len(line, eviews);
                assert(spec_expand_line(line, eviews).take(0) =~= Seq::<Seq<char>>::empty());
                assert(before + Seq::<Seq<char>>::empty() =~= before);
            }
            while e < exts.len()
                invariant
                    0 <= e <= exts@.len(),
                    eviews == exts.deep_view(),
                    eviews.len() == exts@.len(),
                    tok@ == "%EXT%"@,
                    tok@.len() == 5,
                    lchars@ == line,
                    out.deep_view() =~= before + spec_expand_line(line, eviews).take(e as int),
                    spec_expand_line(line, eviews).len() == eviews.len(),
                decreases exts@.len() - e,
            {
                proof {
                    lemma_expand_line_len(line, eviews);
                    lemma_expand_line_index(line, eviews, e as int);
                    assert(exts@[e as int]@ == eviews[e as int]);
                }
                let echars = str_to_chars(exts[e].as_str());
                let replaced = replace_chars(&lchars, &tok, &echars);
                let entry = chars_to_string(&replaced);
                push_line(&mut out, entry);
                proof {
                    assert(out.deep_view() =~= before + spec_expand_line(line, eviews).take(
                        e + 1,
                    ));
                }
                e = e + 1;
            }
            proof {
                let el = spec_expand_line(line, eviews);
                assert(el.take(el.len() as int) =~= el);
                assert(out.deep_view() =~= before + el);
                assert(before + spec_expand(wviews.skip(i as int), eviews) =~= before + el
                    + spec_expand(wviews.skip(i + 1), eviews));
            }
        } else {
            let entry = chars_to_string(&lchars);
            push_line(&mut out, entry);
            proof {
                assert(spec_expand(wviews.skip(i as int), eviews) =~= seq![line] + spec_expand(
                    wviews.skip(i + 1),
                    eviews,
                ));
            }
        }
        i = i + 1;
    }
    proof {
        assert(wviews.skip(wviews.len() as int) =~= Seq::<Seq<char>>::empty());
        assert(out.deep_view() + Seq::<Seq<char>>::empty() =~= out.deep_view());
    }
    out
}

proof fn lemma_expand_line_len(line: Seq<char>, exts: Seq<Seq<char>>)
    ensures
        spec_expand_line(line, exts).len() == exts.len(),
    decreases exts.len(),
{
    if exts.len() > 0 {
        lemma_expand_line_len(line, exts.skip(1));
    }
}

proof fn lemma_expand_line_index(line: Seq<char>, exts: Seq<Seq<char>>, e: int)
    requires
        0 <= e < exts.len(),
    ensures
        spec_expand_line(line, exts)[e] == spec_replace(line, "%EXT%"@, exts[e]),
        spec_expand_line(line, exts).take(e + 1) =~= spec_expand_line(line, exts).take(e).push(
            spec_replace(line, "%EXT%"@, exts[e]),
        ),
    decreases e,
{
    lemma_expand_line_len(line, exts);
    if e == 0 {
    } else {
        assert(exts.skip(1)[e - 1] == exts[e]);
        lemma_expand_line_index(line, exts.skip(1), e - 1);
        assert(spec_expand_line(line, exts)[e] == spec_expand_line(line, exts.skip(1))[e - 1]);
    }
}

/// The concurrency a run actually uses: never more than the wordlist is
/// long; a cap that exceeds it falls back to half the wordlist, and at
/// least one slot.
pub fn adjust_concurrency(concurrent_num: usize, wordlist_len: usize) -> (c: usize)
    ensures
        c == (if concurrent_num > wordlist_len {
            if wordlist_len / 2 == 0 {
                1usize
            } else {
                wordlist_len / 2
            }
        } else {
            concurrent_num
        }),
{
    if concurrent_num > wordlist_len {
        let half = wordlist_len / 2;
        if half == 0 {
            1
        } else {
            half
        }
    } else {
        concurrent_num
    }
}

/// The scan mode the flags select: silent wins over stats, stats over the
/// detailed default.
pub fn select_scan_mode(stats_flag: bool, silent_flag: bool) -> (m: ScanMode)
    ensures
        m == (if silent_flag {
            ScanMode::Silent
        } else if stats_flag {
            ScanMode::Stats
        } else {
            ScanMode::Debug
        }),
{
    let mut mode = ScanMode::Debug;
    if stats_flag {
        mode = ScanMode::Stats;
    }
    if silent_flag {
        mode = ScanMode::Silent;
    }
    mode
}

/// Whether a mode shows live progress state.
pub fn print_state_of(mode: &ScanMode) -> (b: bool)
    ensures
        b == (mode == ScanMode::Debug || mode == ScanMode::Stats),
{
    match mode {
        ScanMode::Debug => true,
        ScanMode::Stats => true,
        ScanMode::Silent => false,
    }
}

/// The user-agent of one slot of the table.
pub open spec fn spec_user_agent(idx: usize) -> Seq<char> {
    if idx == 0 {
        "Mozilla/5.0 (Windows NT 10.0; Win64; x64) AppleWebKit/537.36 (KHTML, like Gecko) Chrome/111.0.0.0 Safari/537.36"@
    } else if idx == 1 {
        "Mozilla/5.0 (Windows NT 10.0; Win64; x64) AppleWebKit/537.36 (KHTML, like Gecko) Chrome/112.0.0.0 Safari/537.36"@
    } else if idx == 2 {
        "Mozilla/5.0 (Linux; Android 10; Redmi Note 8) AppleWebKit/537.36 (KHTML, like Gecko) Chrome/111.0.0.0 Mobile Safari/537.36"@
    } else {
        "Mozilla/5.0 (Linux; Android 11; vivo 1906) AppleWebKit/537.36 (KHTML, like Gecko) Chrome/111.0.0.0 Mobile Safari/537.36"@
    }
}

/// How many user-agents the table holds.
pub fn user_agent_count() -> (n: usize)
    ensures
        n == 4,
{
    4
}

/// Pick a user-agent by index; any index lands on a table slot.
pub fn pick_user_agent(idx: usize) -> (ua: String)
    ensures
        ua@ == spec_user_agent(idx),
{
    if idx == 0 {
        String::from_str(
            "Mozilla/5.0 (Windows NT 10.0; Win64; x64) AppleWebKit/537.36 (KHTML, like Gecko) Chrome/111.0.0.0 Safari/537.36",
        )
    } else if idx == 1 {
        String::from_str(
            "Mozilla/5.0 (Windows NT 10.0; Win64; x64) AppleWebKit/537.36 (KHTML, like Gecko) Chrome/112.0.0.0 Safari/537.36",
        )
    } else if idx == 2 {
        String::from_str(
            "Mozilla/5.0 (Linux; Android 10; Redmi Note 8) AppleWebKit/537.36 (KHTML, like Gecko) Chrome/111.0.0.0 Mobile Safari/537.36",
        )
    } else {
        String::from_str(
            "Mozilla/5.0 (Linux; Android 11; vivo 1906) AppleWebKit/537.36 (KHTML, like Gecko) Chrome/111.0.0.0 Mobile Safari/537.36",
        )
    }
}

/// The path a script name resolves to.
pub fn script_path_of(name: &str) -> (p: String)
    ensures
        p@ == "script/"@ + name@ + ".kse"@,
{
    let mut p = String::from_str("script/");
    p.append(name);
    p.append(".kse");
    proof {
        assert(p@ =~= "script/"@ + name@ + ".kse"@);
    }
    p
}

} // verus!
