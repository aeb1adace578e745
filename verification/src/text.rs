//! Small verified text utilities: digit parsing, line counting, splitting,
//! token substitution and decimal rendering. Everything here is pure and
//! stated over sequences of chars or bytes.

use vstd::prelude::*;
use vstd::string::StrSliceExecFns;

verus! {

/// A decimal digit char.
pub open spec fn spec_is_digit(c: char) -> bool {
    48 <= c as u32 <= 57
}

/// The numeric value of a digit char.
pub open spec fn digit_val(c: char) -> nat {
    (c as u32 - 48) as nat
}

/// A non-empty, all-digit char sequence.
pub open spec fn all_digits(s: Seq<char>) -> bool {
    s.len() > 0 && forall|i: int| 0 <= i < s.len() ==> spec_is_digit(#[trigger] s[i])
}

/// The number an all-digit char sequence denotes.
pub open spec fn digits_value(s: Seq<char>) -> nat
    decreases s.len(),
{
    if s.len() == 0 {
        0
    } else {
        digits_value(s.drop_last()) * 10 + digit_val(s.last())
    }
}

proof fn lemma_digits_value_prefix_grows(s: Seq<char>, i: int)
    requires
        0 <= i <= s.len(),
    ensures
        digits_value(s.take(i)) <= digits_value(s),
    decreases s.len() - i,
{
    if i < s.len() {
        assert(s.take(i + 1).drop_last() =~= s.take(i));
        assert(digits_value(s.take(i + 1)) == digits_value(s.take(i)) * 10 + digit_val(
            s.take(i + 1).last(),
        ));
        assert(digits_value(s.take(i)) <= digits_value(s.take(i)) * 10) by (nonlinear_arith);
        lemma_digits_value_prefix_grows(s, i + 1);
        assert(s.take(s.len() as int) =~= s);
    } else {
        assert(s.take(i) =~= s);
    }
}

/// Parse a char sequence as an unsigned number: succeeds exactly on a
/// non-empty all-digit sequence whose value fits in `usize`.
pub fn parse_usize_chars(s: &Vec<char>) -> (r: Option<usize>)
    ensures
        r == if all_digits(s@) && digits_value(s@) <= usize::MAX {
            Some(digits_value(s@) as usize)
        } else {
            None::<usize>
        },
{
    if s.len() == 0 {
        return None;
    }
    let mut acc: usize = 0;
    let mut i: usize = 0;
    while i < s.len()
        invariant
            0 <= i <= s@.len(),
            all_digits(s@.take(i as int)) || i == 0,
            forall|j: int| 0 <= j < i ==> spec_is_digit(#[trigger] s@[j]),
            acc == digits_value(s@.take(i as int)),
        decreases s@.len() - i,
    {
        let c = s[i];
        let cu = c as u32;
        if cu < 48 || cu > 57 {
            return None;
        }
        let d: usize = (cu - 48) as usize;
        proof {
            assert(s@.take(i + 1).drop_last() =~= s@.take(i as int));
        }
        if acc > (usize::MAX - d) / 10 {
            proof {
                assert(digits_value(s@.take(i + 1)) == acc * 10 + d);
                assert(acc * 10 + d > usize::MAX) by (nonlinear_arith)
                    requires
                        acc > (usize::MAX - d) / 10,
                        d <= 9,
                ;
                lemma_digits_value_prefix_grows(s@, i + 1);
            }
            return None;
        }
        proof {
            assert(acc * 10 + d <= usize::MAX) by (nonlinear_arith)
                requires
                    acc <= (usize::MAX - d) / 10,
                    d <= 9,
            ;
        }
        acc = acc * 10 + d;
        i = i + 1;
    }
    proof {
        assert(s@.take(s@.len() as int) =~= s@);
    }
    Some(acc)
}

/// Parse a char sequence as a `u16`: succeeds exactly on a non-empty
/// all-digit sequence whose value fits.
pub fn parse_u16_chars(s: &Vec<char>) -> (r: Option<u16>)
    ensures
        r == if all_digits(s@) && digits_value(s@) <= u16::MAX {
            Some(digits_value(s@) as u16)
        } else {
            None::<u16>
        },
{
    match parse_usize_chars(s) {
        Some(n) => if n <= u16::MAX as usize {
            Some(n as u16)
        } else {
            None
        },
        None => None,
    }
}

/// How often a byte occurs in a byte sequence.
pub open spec fn count_byte(s: Seq<u8>, b: u8) -> nat
    decreases s.len(),
{
    if s.len() == 0 {
        0
    } else {
        count_byte(s.drop_last(), b) + if s.last() == b {
            1nat
        } else {
            0nat
        }
    }
}

pub proof fn lemma_count_byte_le(s: Seq<u8>, b: u8)
    ensures
        count_byte(s, b) <= s.len(),
    decreases s.len(),
{
    if s.len() > 0 {
        lemma_count_byte_le(s.drop_last(), b);
    }
}

/// The number of lines in a body, counted the way text lines are: one line
/// per newline byte, plus a final unterminated line if the body does not end
/// in a newline; the empty body has no lines.
pub open spec fn spec_line_count(s: Seq<u8>) -> nat {
    if s.len() == 0 {
        0
    } else if s.last() == 10 {
        count_byte(s, 10)
    } else {
        count_byte(s, 10) + 1
    }
}

/// Count the lines of a body.
pub fn count_lines(s: &[u8]) -> (n: usize)
    ensures
        n == spec_line_count(s@),
{
    let len = s.len();
    if len == 0 {
        return 0;
    }
    let mut cnt: usize = 0;
    let mut i: usize = 0;
    while i < len
        invariant
            0 <= i <= s@.len(),
            len == s@.len(),
            cnt == count_byte(s@.take(i as int), 10),
            cnt <= i,
        decreases len - i,
    {
        proof {
            assert(s@.take(i + 1).drop_last() =~= s@.take(i as int));
        }
        if s[i] == 10 {
            cnt = cnt + 1;
        }
        i = i + 1;
    }
    proof {
        assert(s@.take(len as int) =~= s@);
        lemma_count_byte_le(s@.drop_last(), 10);
        assert(s@.drop_last().len() == len - 1);
    }
    if s[len - 1] == 10 {
        cnt
    } else {
        cnt + 1
    }
}

/// The chars of a `&str`, as a vector.
pub fn str_to_chars(s: &str) -> (v: Vec<char>)
    ensures
        v@ == s@,
{
    let n = s.unicode_len();
    let mut v: Vec<char> = Vec::new();
    let mut i: usize = 0;
    while i < n
        invariant
            0 <= i <= n,
            n == s@.len(),
            v@ == s@.take(i as int),
        decreases n - i,
    {
        let c = s.get_char(i);
        v.push(c);
        proof {
            assert(s@.take(i + 1) =~= s@.take(i as int).push(s@[i as int]));
        }
        i = i + 1;
    }
    proof {
        assert(s@.take(n as int) =~= s@);
    }
    v
}

/// Relies on `String`'s `FromIterator<char>` impl (through
/// `Iterator::collect`): the collected string holds exactly the chars of the
/// vector, in order.
#[verifier::external_body]
pub(crate) fn chars_to_string(v: &Vec<char>) -> (s: String)
    ensures
        s@ == v@,
{
    v.iter().collect()
}

/// The views of a vector of char vectors.
pub open spec fn views_of(v: Seq<Vec<char>>) -> Seq<Seq<char>> {
    v.map_values(|p: Vec<char>| p@)
}

/// The pieces a char sequence splits into at a separator: one piece more
/// than there are separators, pieces may be empty, and the empty sequence
/// splits into one empty piece.
pub open spec fn spec_split(s: Seq<char>, sep: char) -> Seq<Seq<char>>
    decreases s.len(),
{
    if s.len() == 0 {
        seq![Seq::<char>::empty()]
    } else if s[0] == sep {
        seq![Seq::<char>::empty()] + spec_split(s.skip(1), sep)
    } else {
        let rest = spec_split(s.skip(1), sep);
        seq![seq![s[0]] + rest[0]] + rest.skip(1)
    }
}

pub proof fn lemma_split_len(s: Seq<char>, sep: char)
    ensures
        spec_split(s, sep).len() >= 1,
    decreases s.len(),
{
    if s.len() > 0 {
        lemma_split_len(s.skip(1), sep);
    }
}

/// A partly built split: the piece under construction glued onto the front
/// of the pieces still to come.
spec fn glue(c: Seq<char>, pieces: Seq<Seq<char>>) -> Seq<Seq<char>>
    recommends
        pieces.len() >= 1,
{
    seq![c + pieces[0]] + pieces.skip(1)
}

proof fn lemma_views_push(v: Seq<Vec<char>>, x: Vec<char>)
    ensures
        views_of(v.push(x)) =~= views_of(v).push(x@),
{
}

/// Split a char sequence at every occurrence of a separator.
pub fn split_chars(s: &Vec<char>, sep: char) -> (out: Vec<Vec<char>>)
    ensures
        views_of(out@) == spec_split(s@, sep),
{
    let mut out: Vec<Vec<char>> = Vec::new();
    let mut cur: Vec<char> = Vec::new();
    let mut j: usize = 0;
    proof {
        assert(s@.skip(0) =~= s@);
        lemma_split_len(s@, sep);
        assert(glue(Seq::<char>::empty(), spec_split(s@, sep)) =~= spec_split(s@, sep));
    }
    while j < s.len()
        invariant
            0 <= j <= s@.len(),
            spec_split(s@, sep) =~= views_of(out@) + glue(cur@, spec_split(s@.skip(j as int), sep)),
        decreases s@.len() - j,
    {
        let ghost pre = spec_split(s@.skip(j as int), sep);
        let ghost rest = spec_split(s@.skip(j + 1), sep);
        proof {
            assert(s@.skip(j as int).len() > 0);
            assert(s@.skip(j as int)[0] == s@[j as int]);
            assert(s@.skip(j as int).skip(1) =~= s@.skip(j + 1));
            lemma_split_len(s@.skip(j + 1), sep);
        }
        let c = s[j];
        if c == sep {
            proof {
                assert(pre =~= seq![Seq::<char>::empty()] + rest);
                assert(glue(cur@, pre) =~= seq![cur@] + rest);
                assert(glue(Seq::<char>::empty(), rest) =~= rest);
                lemma_views_push(out@, cur);
            }
            out.push(cur);
            cur = Vec::new();
        } else {
            proof {
                assert(pre =~= seq![seq![s@[j as int]] + rest[0]] + rest.skip(1));
                assert(cur@ + (seq![s@[j as int]] + rest[0]) =~= (cur@.push(s@[j as int]))
                    + rest[0]);
                assert(glue(cur@, pre) =~= glue(cur@.push(s@[j as int]), rest));
            }
            cur.push(c);
        }
        j = j + 1;
    }
    proof {
        assert(s@.skip(s@.len() as int) =~= Seq::<char>::empty());
        assert(spec_split(Seq::<char>::empty(), sep) =~= seq![Seq::<char>::empty()]);
        assert(glue(cur@, seq![Seq::<char>::empty()]) =~= seq![cur@]);
        lemma_views_push(out@, cur);
        assert(views_of(out@) + seq![cur@] =~= views_of(out@.push(cur)));
    }
    out.push(cur);
    out
}

/// A space, tab or line-break char.
pub open spec fn spec_is_space(c: char) -> bool {
    c == ' ' || c == '\t' || c == '\r' || c == '\n'
}

/// A char sequence with its leading spaces dropped.
pub open spec fn trim_start(s: Seq<char>) -> Seq<char>
    decreases s.len(),
{
    if s.len() > 0 && spec_is_space(s[0]) {
        trim_start(s.skip(1))
    } else {
        s
    }
}

/// A char sequence with its trailing spaces dropped.
pub open spec fn trim_end(s: Seq<char>) -> Seq<char>
    decreases s.len(),
{
    if s.len() > 0 && spec_is_space(s.last()) {
        trim_end(s.drop_last())
    } else {
        s
    }
}

/// A char sequence with leading and trailing spaces dropped.
pub open spec fn spec_trim(s: Seq<char>) -> Seq<char> {
    trim_end(trim_start(s))
}

fn is_space_char(c: char) -> (b: bool)
    ensures
        b == spec_is_space(c),
{
    c == ' ' || c == '\t' || c == '\r' || c == '\n'
}

/// Trim leading and trailing whitespace from a char vector.
pub fn trim_chars(s: &Vec<char>) -> (out: Vec<char>)
    ensures
        out@ == spec_trim(s@),
{
    let len = s.len();
    let mut a: usize = 0;
    proof {
        assert(s@.skip(0) =~= s@);
    }
    while a < len && is_space_char(s[a])
        invariant
            0 <= a <= len,
            len == s@.len(),
            trim_start(s@) == trim_start(s@.skip(a as int)),
        decreases len - a,
    {
        proof {
            assert(s@.skip(a as int)[0] == s@[a as int]);
            assert(s@.skip(a as int).skip(1) =~= s@.skip(a + 1));
        }
        a = a + 1;
    }
    proof {
        if a == len {
            assert(s@.skip(a as int) =~= Seq::<char>::empty());
        }
        assert(trim_start(s@) == s@.skip(a as int));
    }
    let mut b: usize = len;
    proof {
        assert(s@.skip(a as int).take(len - a) =~= s@.skip(a as int));
    }
    while b > a && is_space_char(s[b - 1])
        invariant
            a <= b <= len,
            len == s@.len(),
            trim_start(s@) == s@.skip(a as int),
            trim_end(s@.skip(a as int)) == trim_end(s@.skip(a as int).take(b - a)),
        decreases b,
    {
        proof {
            let t = s@.skip(a as int);
            assert(t.take(b - a).len() == b - a);
            assert(t.take(b - a).last() == s@[b - 1]);
            assert(t.take(b - a).drop_last() =~= t.take(b - a - 1));
        }
        b = b - 1;
    }
    proof {
        let t = s@.skip(a as int);
        if b == a {
            assert(t.take(0) =~= Seq::<char>::empty());
        } else {
            assert(t.take(b - a).last() == s@[b - 1]);
        }
        assert(trim_end(t) == t.take(b - a));
    }
    let mut out: Vec<char> = Vec::new();
    let mut i: usize = a;
    while i < b
        invariant
            a <= i <= b <= len,
            len == s@.len(),
            out@ == s@.subrange(a as int, i as int),
        decreases b - i,
    {
        out.push(s[i]);
        proof {
            assert(s@.subrange(a as int, i + 1) =~= s@.subrange(a as int, i as int).push(
                s@[i as int],
            ));
        }
        i = i + 1;
    }
    proof {
        assert(s@.skip(a as int).take(b - a) =~= s@.subrange(a as int, b as int));
    }
    out
}

/// The token stands in `s` at position `i`.
pub open spec fn spec_has_token_at(s: Seq<char>, tok: Seq<char>, i: int) -> bool {
    0 <= i && i + tok.len() <= s.len() && s.subrange(i, i + tok.len()) == tok
}

/// The token occurs somewhere in `s`.
pub open spec fn spec_contains_token(s: Seq<char>, tok: Seq<char>) -> bool {
    exists|i: int| spec_has_token_at(s, tok, i)
}

fn token_at(s: &Vec<char>, tok: &Vec<char>, j: usize) -> (b: bool)
    requires
        j <= s@.len(),
    ensures
        b == spec_has_token_at(s@, tok@, j as int),
{
    if tok.len() > s.len() - j {
        return false;
    }
    let slen = s.len();
    let mut k: usize = 0;
    while k < tok.len()
        invariant
            0 <= k <= tok@.len(),
            j + tok@.len() <= s@.len(),
            slen == s@.len(),
            forall|m: int| 0 <= m < k ==> s@[j + m] == tok@[m],
        decreases tok@.len() - k,
    {
        if s[j + k] != tok[k] {
            proof {
                let sub = s@.subrange(j as int, j + tok@.len());
                assert(sub[k as int] == s@[j + k]);
                assert(sub != tok@);
            }
            return false;
        }
        k = k + 1;
    }
    proof {
        assert(s@.subrange(j as int, j + tok@.len()) =~= tok@);
    }
    true
}

/// Whether the token occurs in the char vector.
pub fn contains_token(s: &Vec<char>, tok: &Vec<char>) -> (b: bool)
    requires
        tok@.len() >= 1,
    ensures
        b == spec_contains_token(s@, tok@),
{
    if tok.len() > s.len() {
        proof {
            assert(forall|i: int| !spec_has_token_at(s@, tok@, i));
        }
        return false;
    }
    let lim = s.len() - tok.len();
    let mut j: usize = 0;
    while j <= lim
        invariant
            0 <= j <= lim + 1,
            lim == s@.len() - tok@.len(),
            s@.len() <= usize::MAX,
            tok@.len() >= 1,
            forall|k: int| 0 <= k < j ==> !spec_has_token_at(s@, tok@, k),
        decreases lim + 1 - j,
    {
        if token_at(s, tok, j) {
            return true;
        }
        j = j + 1;
    }
    proof {
        assert(forall|i: int| !spec_has_token_at(s@, tok@, i));
    }
    false
}

/// The char sequence with every occurrence of a non-empty token replaced,
/// scanning left to right without overlap.
pub open spec fn spec_replace(s: Seq<char>, tok: Seq<char>, repl: Seq<char>) -> Seq<char>
    recommends
        tok.len() >= 1,
    decreases s.len(),
{
    if tok.len() == 0 || s.len() < tok.len() {
        s
    } else if s.take(tok.len() as int) == tok {
        repl + spec_replace(s.skip(tok.len() as int), tok, repl)
    } else {
        seq![s[0]] + spec_replace(s.skip(1), tok, repl)
    }
}

/// Replace every occurrence of a token in a char vector.
pub fn replace_chars(s: &Vec<char>, tok: &Vec<char>, repl: &Vec<char>) -> (out: Vec<char>)
    requires
        tok@.len() >= 1,
    ensures
        out@ == spec_replace(s@, tok@, repl@),
{
    let mut out: Vec<char> = Vec::new();
    let mut j: usize = 0;
    let slen = s.len();
    proof {
        assert(s@.skip(0) =~= s@);
    }
    while j < slen && slen - j >= tok.len()
        invariant
            0 <= j <= s@.len(),
            slen == s@.len(),
            tok@.len() >= 1,
            spec_replace(s@, tok@, repl@) =~= out@ + spec_replace(
                s@.skip(j as int),
                tok@,
                repl@,
            ),
        decreases s@.len() - j,
    {
        let ghost t = s@.skip(j as int);
        if token_at(s, tok, j) {
            proof {
                assert(t.take(tok@.len() as int) =~= s@.subrange(j as int, j + tok@.len()));
                assert(t.skip(tok@.len() as int) =~= s@.skip(j + tok@.len()));
                assert(spec_replace(t, tok@, repl@) == repl@ + spec_replace(
                    s@.skip(j + tok@.len()),
                    tok@,
                    repl@,
                ));
            }
            let ghost old_out = out@;
            let mut k: usize = 0;
            while k < repl.len()
                invariant
                    0 <= k <= repl@.len(),
                    out@ == old_out + repl@.take(k as int),
                decreases repl@.len() - k,
            {
                out.push(repl[k]);
                proof {
                    assert(repl@.take(k + 1) =~= repl@.take(k as int).push(repl@[k as int]));
                }
                k = k + 1;
            }
            proof {
                assert(repl@.take(repl@.len() as int) =~= repl@);
                assert(old_out + (repl@ + spec_replace(s@.skip(j + tok@.len()), tok@, repl@))
                    =~= (old_out + repl@) + spec_replace(s@.skip(j + tok@.len()), tok@, repl@));
            }
            j = j + tok.len();
        } else {
            proof {
                assert(t.take(tok@.len() as int) =~= s@.subrange(j as int, j + tok@.len()));
                assert(t[0] == s@[j as int]);
                assert(t.skip(1) =~= s@.skip(j + 1));
                assert(out@ + (seq![s@[j as int]] + spec_replace(s@.skip(j + 1), tok@, repl@))
                    =~= out@.push(s@[j as int]) + spec_replace(s@.skip(j + 1), tok@, repl@));
            }
            out.push(s[j]);
            j = j + 1;
        }
    }
    while j < slen
        invariant
            0 <= j <= s@.len(),
            slen == s@.len(),
            s@.len() - j < tok@.len(),
            tok@.len() >= 1,
            spec_replace(s@, tok@, repl@) =~= out@ + spec_replace(
                s@.skip(j as int),
                tok@,
                repl@,
            ),
        decreases s@.len() - j,
    {
        proof {
            let t = s@.skip(j as int);
            assert(spec_replace(t, tok@, repl@) == t);
            assert(t[0] == s@[j as int]);
            assert(t.skip(1) =~= s@.skip(j + 1));
            assert(spec_replace(s@.skip(j + 1), tok@, repl@) == s@.skip(j + 1));
            assert(out@ + t =~= out@.push(s@[j as int]) + s@.skip(j + 1));
        }
        out.push(s[j]);
        j = j + 1;
    }
    proof {
        assert(s@.skip(s@.len() as int) =~= Seq::<char>::empty());
        assert(spec_replace(Seq::<char>::empty(), tok@, repl@) == Seq::<char>::empty());
        assert(out@ + Seq::<char>::empty() =~= out@);
    }
    out
}

/// The char of a single decimal digit.
pub open spec fn digit_char(d: nat) -> char {
    if d == 0 {
        '0'
    } else if d == 1 {
        '1'
    } else if d == 2 {
        '2'
    } else if d == 3 {
        '3'
    } else if d == 4 {
        '4'
    } else if d == 5 {
        '5'
    } else if d == 6 {
        '6'
    } else if d == 7 {
        '7'
    } else if d == 8 {
        '8'
    } else {
        '9'
    }
}

/// The decimal rendering of a number, most significant digit first, with no
/// leading zeros (zero renders as a single `'0'`).
pub open spec fn spec_decimal(n: nat) -> Seq<char>
    decreases n,
{
    if n < 10 {
        seq![digit_char(n)]
    } else {
        spec_decimal(n / 10).push(digit_char(n % 10))
    }
}

fn digit_to_char(d: u64) -> (c: char)
    requires
        d < 10,
    ensures
        c == digit_char(d as nat),
{
    match d {
        0 => '0',
        1 => '1',
        2 => '2',
        3 => '3',
        4 => '4',
        5 => '5',
        6 => '6',
        7 => '7',
        8 => '8',
        _ => '9',
    }
}

fn push_decimal(n: u64, out: &mut Vec<char>)
    ensures
        final(out)@ == old(out)@ + spec_decimal(n as nat),
    decreases n,
{
    if n < 10 {
        out.push(digit_to_char(n));
        proof {
            assert(old(out)@ + spec_decimal(n as nat) =~= old(out)@.push(digit_char(n as nat)));
        }
    } else {
        push_decimal(n / 10, out);
        out.push(digit_to_char(n % 10));
        proof {
            assert(old(out)@ + spec_decimal(n as nat) =~= (old(out)@ + spec_decimal(
                (n / 10) as nat,
            )).push(digit_char((n % 10) as nat)));
        }
    }
}

/// Render a number in decimal.
pub fn u64_to_string(n: u64) -> (s: String)
    ensures
        s@ == spec_decimal(n as nat),
{
    let mut v: Vec<char> = Vec::new();
    push_decimal(n, &mut v);
    chars_to_string(&v)
}

} // verus!
