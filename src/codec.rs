//! The origin reference: a (server, channel, message) triple written into an
//! issue description as `Report Origin: https://chat.example/channels/{s}/{c}/{m}`,
//! and read back from it.

use vstd::prelude::*;

verus! {

/// The marker that introduces the origin reference in a description.
pub open spec fn marker_text() -> Seq<char> {
    seq!['R', 'e', 'p', 'o', 'r', 't', ' ', 'O', 'r', 'i', 'g', 'i', 'n', ':', ' ']
}

pub open spec fn scheme_token() -> Seq<char> {
    seq!['h', 't', 't', 'p', 's', ':']
}

pub open spec fn host_token() -> Seq<char> {
    seq!['c', 'h', 'a', 't', '.', 'e', 'x', 'a', 'm', 'p', 'l', 'e']
}

pub open spec fn channels_token() -> Seq<char> {
    seq!['c', 'h', 'a', 'n', 'n', 'e', 'l', 's']
}

/// `https://chat.example/channels/`
pub open spec fn url_prefix() -> Seq<char> {
    scheme_token() + seq!['/', '/'] + host_token() + seq!['/'] + channels_token() + seq!['/']
}

pub open spec fn digit_char(d: nat) -> char {
    if d == 0 { '0' }
    else if d == 1 { '1' }
    else if d == 2 { '2' }
    else if d == 3 { '3' }
    else if d == 4 { '4' }
    else if d == 5 { '5' }
    else if d == 6 { '6' }
    else if d == 7 { '7' }
    else if d == 8 { '8' }
    else { '9' }
}

/// The decimal digits of `n`, most significant first, with no leading zero.
pub open spec fn decimal(n: nat) -> Seq<char>
    decreases n,
{
    if n < 10 {
        seq![digit_char(n)]
    } else {
        decimal(n / 10).push(digit_char(n % 10))
    }
}

/// The full text that `encode_report_origin` writes.
pub open spec fn origin_text(server: u64, channel: u64, message: u64) -> Seq<char> {
    marker_text() + url_prefix() + decimal(server as nat) + seq!['/'] + decimal(channel as nat)
        + seq!['/'] + decimal(message as nat)
}

fn digit_str(d: u64) -> (r: &'static str)
    requires
        d < 10,
    ensures
        r@ == seq![digit_char(d as nat)],
{
    proof {
        reveal_strlit("0");
        reveal_strlit("1");
        reveal_strlit("2");
        reveal_strlit("3");
        reveal_strlit("4");
        reveal_strlit("5");
        reveal_strlit("6");
        reveal_strlit("7");
        reveal_strlit("8");
        reveal_strlit("9");
    }
    match d {
        0 => "0",
        1 => "1",
        2 => "2",
        3 => "3",
        4 => "4",
        5 => "5",
        6 => "6",
        7 => "7",
        8 => "8",
        _ => "9",
    }
}

/// Appends the decimal digits of `n` to `out`.
pub(crate) fn push_decimal(out: &mut String, n: u64)
    ensures
        final(out)@ == old(out)@ + decimal(n as nat),
    decreases n,
{
    if n < 10 {
        out.append(digit_str(n));
    } else {
        push_decimal(out, n / 10);
        out.append(digit_str(n % 10));
    }
}

/// `pat` stands in `s` at index `i`.
pub open spec fn occurs_at(s: Seq<char>, pat: Seq<char>, i: int) -> bool {
    0 <= i && i + pat.len() <= s.len() && s.subrange(i, i + pat.len()) == pat
}

/// The first index at or after `i` where `pat` stands in `s`.
pub open spec fn find_from(s: Seq<char>, pat: Seq<char>, i: int) -> Option<int>
    decreases s.len() + 1 - i,
{
    if i < 0 || i + pat.len() > s.len() {
        None
    } else if occurs_at(s, pat, i) {
        Some(i)
    } else {
        find_from(s, pat, i + 1)
    }
}

/// A character that ends the URL of an origin reference: a closing
/// parenthesis (the link-wrapped form) or white space (the bare form).
pub open spec fn ends_url(c: char) -> bool {
    c == ')' || c == ' ' || c == '\n' || c == '\r' || c == '\t'
}

/// The first index at or after `i` whose character ends a URL, or the length.
pub open spec fn url_end_from(s: Seq<char>, i: int) -> int
    decreases s.len() - i,
{
    if i < 0 || i >= s.len() {
        s.len() as int
    } else if ends_url(s[i]) {
        i
    } else {
        url_end_from(s, i + 1)
    }
}

/// The pieces of `s` between the `/` characters, as `str::split('/')` gives them.
pub open spec fn split_slash(s: Seq<char>) -> Seq<Seq<char>>
    decreases s.len(),
{
    if s.len() == 0 {
        seq![Seq::empty()]
    } else {
        let p = split_slash(s.drop_last());
        if s.last() == '/' {
            p.push(Seq::empty())
        } else {
            p.update(p.len() - 1, p.last().push(s.last()))
        }
    }
}

pub open spec fn is_digit(c: char) -> bool {
    '0' as u32 <= c as u32 <= '9' as u32
}

pub open spec fn digit_value(c: char) -> nat {
    if is_digit(c) {
        (c as u32 - '0' as u32) as nat
    } else {
        0
    }
}

/// The number that the digits of `t` write in base ten.
pub open spec fn digits_value(t: Seq<char>) -> nat
    decreases t.len(),
{
    if t.len() == 0 {
        0
    } else {
        digits_value(t.drop_last()) * 10 + digit_value(t.last())
    }
}

pub open spec fn all_digits(t: Seq<char>) -> bool {
    forall|i: int| 0 <= i < t.len() ==> is_digit(#[trigger] t[i])
}

/// `t` read as plain digits: one or more decimal digits whose value fits in
/// 64 bits.
pub open spec fn parse_digits(t: Seq<char>) -> Option<u64> {
    if t.len() > 0 && all_digits(t) && digits_value(t) <= u64::MAX {
        Some(digits_value(t) as u64)
    } else {
        None
    }
}

/// `t` without the one `+` sign that may lead it.
pub open spec fn unsigned_part(t: Seq<char>) -> Seq<char> {
    if t.len() > 0 && t[0] == '+' {
        t.drop_first()
    } else {
        t
    }
}

/// `t` read as a 64-bit unsigned integer: an optional `+`, then one or more
/// decimal digits whose value fits.
pub open spec fn parse_u64(t: Seq<char>) -> Option<u64> {
    parse_digits(unsigned_part(t))
}

/// The URL that follows the first marker in `d`, which stands at `i`.
pub open spec fn reference_url(d: Seq<char>, i: int) -> Seq<char> {
    let start = i + marker_text().len();
    d.subrange(start, url_end_from(d, start))
}

/// What decoding `d` gives: the triple, or an error that holds the offending
/// token (`Some`) or tells that no marker was found (`None`).
pub open spec fn decode_reference(d: Seq<char>) -> Result<(u64, u64, u64), Option<Seq<char>>> {
    match find_from(d, marker_text(), 0) {
        None => Err(None),
        Some(i) => {
            let url = reference_url(d, i);
            let toks = split_slash(url);
            if toks.len() < 7 {
                Err(Some(url))
            } else if parse_u64(toks[4]) is None {
                Err(Some(toks[4]))
            } else if parse_u64(toks[5]) is None {
                Err(Some(toks[5]))
            } else if parse_u64(toks[6]) is None {
                Err(Some(toks[6]))
            } else {
                Ok((parse_u64(toks[4])->0, parse_u64(toks[5])->0, parse_u64(toks[6])->0))
            }
        },
    }
}

/// Writes the origin reference of a thread's seed message.
pub fn encode_report_origin(server_id: u64, channel_id: u64, message_id: u64) -> (r: String)
    ensures
        r@ == origin_text(server_id, channel_id, message_id),
{
    proof {
        reveal_strlit("Report Origin: https://chat.example/channels/");
        reveal_strlit("/");
    }
    let mut out = String::from_str("Report Origin: https://chat.example/channels/");
    assert(out@ =~= marker_text() + url_prefix());
    push_decimal(&mut out, server_id);
    out.append("/");
    push_decimal(&mut out, channel_id);
    out.append("/");
    push_decimal(&mut out, message_id);
    out
}

/// The origin of a report: the server, the thread and the thread's seed message.
#[derive(Debug, Clone, Copy, PartialEq, Eq, Structural)]
pub struct ParsedMessageURL {
    pub server_id: u64,
    pub channel_id: u64,
    pub message_id: u64,
}

/// Why a description gave no origin reference.
#[derive(Debug, Clone)]
pub enum ReferenceError {
    /// The description holds no `Report Origin: ` marker.
    ReferenceNotFound,
    /// The reference is cut short, or one of its identifiers is not a
    /// 64-bit unsigned integer; `token` is the offending part.
    MalformedReference { token: String },
}

/// What a decoding outcome says, in the terms of `decode_reference`.
pub open spec fn decode_outcome(r: Result<ParsedMessageURL, ReferenceError>) -> Result<(u64, u64, u64), Option<Seq<char>>> {
    match r {
        Ok(p) => Ok((p.server_id, p.channel_id, p.message_id)),
        Err(ReferenceError::ReferenceNotFound) => Err(None),
        Err(ReferenceError::MalformedReference { token }) => Err(Some(token@)),
    }
}

fn chars_of(s: &str) -> (v: Vec<char>)
    ensures
        v@ == s@,
{
    let mut v: Vec<char> = Vec::new();
    for c in iter: s.chars()
        invariant
            iter.seq() == s@,
            v@ == iter.seq().subrange(0, iter.index() as int),
    {
        v.push(c);
    }
    assert(v@ =~= s@);
    v
}

fn occurs_at_exec(s: &Vec<char>, pat: &Vec<char>, i: usize) -> (r: bool)
    requires
        i + pat@.len() <= s@.len(),
    ensures
        r == occurs_at(s@, pat@, i as int),
{
    let n = s.len();
    let mut j: usize = 0;
    while j < pat.len()
        invariant
            n == s@.len(),
            i + pat@.len() <= s@.len(),
            j <= pat@.len(),
            forall|k: int| 0 <= k < j ==> s@[i + k] == pat@[k],
        decreases pat@.len() - j,
    {
        if s[i + j] != pat[j] {
            assert(s@.subrange(i as int, i + pat@.len())[j as int] != pat@[j as int]);
            return false;
        }
        j = j + 1;
    }
    assert(s@.subrange(i as int, i + pat@.len()) =~= pat@);
    true
}

fn find_exec(s: &Vec<char>, pat: &Vec<char>) -> (r: Option<usize>)
    ensures
        match r {
            None => find_from(s@, pat@, 0) is None,
            Some(i) => find_from(s@, pat@, 0) == Some(i as int),
        },
{
    if pat.len() > s.len() {
        return None;
    }
    if pat.len() == 0 {
        assert(s@.subrange(0, 0) =~= pat@);
        return Some(0);
    }
    let n = s.len();
    let last = n - pat.len();
    let mut i: usize = 0;
    while i <= last
        invariant
            last == s@.len() - pat@.len(),
            pat@.len() > 0,
            s@.len() <= usize::MAX,
            i <= last + 1,
            find_from(s@, pat@, 0) == find_from(s@, pat@, i as int),
        decreases last + 1 - i,
    {
        if occurs_at_exec(s, pat, i) {
            return Some(i);
        }
        i = i + 1;
    }
    None
}

fn url_end_exec(s: &Vec<char>, start: usize) -> (r: usize)
    requires
        start <= s@.len(),
    ensures
        r == url_end_from(s@, start as int),
        start <= r <= s@.len(),
{
    let mut i: usize = start;
    while i < s.len()
        invariant
            start <= i <= s@.len(),
            url_end_from(s@, start as int) == url_end_from(s@, i as int),
        decreases s@.len() - i,
    {
        let c = s[i];
        if c == ')' || c == ' ' || c == '\n' || c == '\r' || c == '\t' {
            return i;
        }
        i = i + 1;
    }
    i
}

proof fn lemma_find_from_found(s: Seq<char>, pat: Seq<char>, j: int, i: int)
    requires
        find_from(s, pat, j) == Some(i),
    ensures
        occurs_at(s, pat, i),
        j <= i,
    decreases s.len() + 1 - j,
{
    if !(j < 0 || j + pat.len() > s.len()) && !occurs_at(s, pat, j) {
        lemma_find_from_found(s, pat, j + 1, i);
    }
}

proof fn lemma_prefix_value_le(t: Seq<char>, j: int)
    requires
        0 <= j <= t.len(),
    ensures
        digits_value(t.subrange(0, j)) <= digits_value(t),
    decreases t.len(),
{
    if j < t.len() {
        lemma_prefix_value_le(t.drop_last(), j);
        assert(t.drop_last().subrange(0, j) =~= t.subrange(0, j));
    } else {
        assert(t.subrange(0, j) =~= t);
    }
}

/// Reads `s[a..b]` as a 64-bit unsigned integer.
fn parse_decimal(s: &Vec<char>, a: usize, b: usize) -> (r: Option<u64>)
    requires
        a <= b <= s@.len(),
    ensures
        r == parse_u64(s@.subrange(a as int, b as int)),
{
    let start = if a < b && s[a] == '+' {
        a + 1
    } else {
        a
    };
    assert(s@.subrange(start as int, b as int) =~= unsigned_part(s@.subrange(a as int, b as int)));
    parse_plain(s, start, b)
}

/// Reads `s[a..b]` as plain decimal digits.
fn parse_plain(s: &Vec<char>, a: usize, b: usize) -> (r: Option<u64>)
    requires
        a <= b <= s@.len(),
    ensures
        r == parse_digits(s@.subrange(a as int, b as int)),
{
    let ghost t = s@.subrange(a as int, b as int);
    if a == b {
        return None;
    }
    let mut acc: u64 = 0;
    let mut i: usize = a;
    assert(s@.subrange(a as int, a as int) =~= Seq::<char>::empty());
    while i < b
        invariant
            a < b <= s@.len(),
            a <= i <= b,
            t == s@.subrange(a as int, b as int),
            acc as nat == digits_value(s@.subrange(a as int, i as int)),
            all_digits(s@.subrange(a as int, i as int)),
        decreases b - i,
    {
        let c = s[i];
        assert(t[i - a] == c);
        let code = c as u32;
        if code < 48 || code > 57 {
            assert(!is_digit(t[i - a]));
            return None;
        }
        let d = (code - 48) as u64;
        let ghost next = s@.subrange(a as int, i + 1);
        assert(next.drop_last() =~= s@.subrange(a as int, i as int));
        assert(digits_value(next) == acc * 10 + d);
        proof {
            assert(t.subrange(0, i + 1 - a) =~= next);
            lemma_prefix_value_le(t, i + 1 - a);
        }
        match acc.checked_mul(10) {
            None => {
                return None;
            },
            Some(m) => match m.checked_add(d) {
                None => {
                    return None;
                },
                Some(v) => {
                    acc = v;
                },
            },
        }
        i = i + 1;
        assert(all_digits(next)) by {
            assert forall|k: int| 0 <= k < next.len() implies is_digit(#[trigger] next[k]) by {
                if k < next.len() - 1 {
                    assert(next[k] == s@.subrange(a as int, i - 1)[k]);
                }
            }
        }
    }
    assert(s@.subrange(a as int, i as int) =~= t);
    Some(acc)
}

/// The bounds of the `/`-separated pieces of `s[start..end]`.
fn split_bounds(s: &Vec<char>, start: usize, end: usize) -> (r: Vec<(usize, usize)>)
    requires
        start <= end <= s@.len(),
    ensures
        r@.len() == split_slash(s@.subrange(start as int, end as int)).len(),
        forall|k: int|
            0 <= k < r@.len() ==> start <= (#[trigger] r@[k]).0 <= r@[k].1 <= end
                && s@.subrange(r@[k].0 as int, r@[k].1 as int) == split_slash(
                s@.subrange(start as int, end as int),
            )[k],
{
    let mut done: Vec<(usize, usize)> = Vec::new();
    let mut cur: usize = start;
    let mut pos: usize = start;
    assert(s@.subrange(start as int, start as int) =~= Seq::<char>::empty());
    assert(s@.subrange(cur as int, pos as int) =~= Seq::<char>::empty());
    while pos < end
        invariant
            start <= cur <= pos <= end <= s@.len(),
            split_slash(s@.subrange(start as int, pos as int)).len() == done@.len() + 1,
            forall|k: int|
                0 <= k < done@.len() ==> start <= (#[trigger] done@[k]).0 <= done@[k].1 <= pos
                    && s@.subrange(done@[k].0 as int, done@[k].1 as int) == split_slash(
                    s@.subrange(start as int, pos as int),
                )[k],
            split_slash(s@.subrange(start as int, pos as int))[done@.len() as int] == s@.subrange(
                cur as int,
                pos as int,
            ),
        decreases end - pos,
    {
        let ghost before = split_slash(s@.subrange(start as int, pos as int));
        let c = s[pos];
        assert(s@.subrange(start as int, pos + 1).drop_last() =~= s@.subrange(
            start as int,
            pos as int,
        ));
        if c == '/' {
            done.push((cur, pos));
            cur = pos + 1;
            pos = pos + 1;
            assert(s@.subrange(cur as int, pos as int) =~= Seq::<char>::empty());
        } else {
            assert(s@.subrange(cur as int, pos + 1) =~= s@.subrange(cur as int, pos as int).push(c));
            pos = pos + 1;
        }
    }
    done.push((cur, end));
    done
}

fn token_string(description: &str, a: usize, b: usize) -> (r: String)
    requires
        a <= b <= description@.len(),
    ensures
        r@ == description@.subrange(a as int, b as int),
{
    String::from_str(description.substring_char(a, b))
}

/// Reads the origin reference out of an issue description.
pub fn parse_message_url_from_issue_update(description: &str) -> (r: Result<
    ParsedMessageURL,
    ReferenceError,
>)
    ensures
        decode_outcome(r) == decode_reference(description@),
{
    let d = chars_of(description);
    let marker_str = "Report Origin: ";
    proof {
        reveal_strlit("Report Origin: ");
    }
    let marker = chars_of(marker_str);
    assert(marker@ =~= marker_text());
    match find_exec(&d, &marker) {
        None => Err(ReferenceError::ReferenceNotFound),
        Some(i) => {
            proof {
                lemma_find_from_found(d@, marker_text(), 0, i as int);
            }
            let n = d.len();
            assert(i + marker@.len() <= n);
            let start = i + marker.len();
            let end = url_end_exec(&d, start);
            let toks = split_bounds(&d, start, end);
            if toks.len() < 7 {
                return Err(ReferenceError::MalformedReference { token: token_string(description, start, end) });
            }
            let (a4, b4) = toks[4];
            let (a5, b5) = toks[5];
            let (a6, b6) = toks[6];
            let server_id = match parse_decimal(&d, a4, b4) {
                None => {
                    return Err(ReferenceError::MalformedReference { token: token_string(description, a4, b4) });
                },
                Some(v) => v,
            };
            let channel_id = match parse_decimal(&d, a5, b5) {
                None => {
                    return Err(ReferenceError::MalformedReference { token: token_string(description, a5, b5) });
                },
                Some(v) => v,
            };
            let message_id = match parse_decimal(&d, a6, b6) {
                None => {
                    return Err(ReferenceError::MalformedReference { token: token_string(description, a6, b6) });
                },
                Some(v) => v,
            };
            Ok(ParsedMessageURL { server_id, channel_id, message_id })
        },
    }
}

pub open spec fn has_no_slash(t: Seq<char>) -> bool {
    forall|k: int| 0 <= k < t.len() ==> #[trigger] t[k] != '/'
}

pub open spec fn has_no_url_end(t: Seq<char>) -> bool {
    forall|k: int| 0 <= k < t.len() ==> !ends_url(#[trigger] t[k])
}

/// The pieces of `ts` with a `/` between each two.
pub open spec fn join_slash(ts: Seq<Seq<char>>) -> Seq<char>
    decreases ts.len(),
{
    if ts.len() == 0 {
        Seq::empty()
    } else if ts.len() == 1 {
        ts[0]
    } else {
        join_slash(ts.drop_last()) + seq!['/'] + ts.last()
    }
}

proof fn lemma_digit_char(d: nat)
    requires
        d < 10,
    ensures
        is_digit(digit_char(d)),
        digit_value(digit_char(d)) == d,
{
}

proof fn lemma_decimal(n: nat)
    ensures
        decimal(n).len() >= 1,
        all_digits(decimal(n)),
        digits_value(decimal(n)) == n,
    decreases n,
{
    let t = decimal(n);
    if n < 10 {
        lemma_digit_char(n);
        assert(t.drop_last() =~= Seq::<char>::empty());
        assert(digits_value(Seq::<char>::empty()) == 0);
        assert(t.last() == digit_char(n));
        assert(digits_value(t) == digits_value(t.drop_last()) * 10 + digit_value(t.last()));
    } else {
        lemma_decimal(n / 10);
        lemma_digit_char(n % 10);
        assert(t.drop_last() =~= decimal(n / 10));
        vstd::arithmetic::div_mod::lemma_fundamental_div_mod(n as int, 10);
        assert(t.last() == digit_char(n % 10));
        assert(digits_value(t) == digits_value(decimal(n / 10)) * 10 + digit_value(t.last()));
        assert(digits_value(t) == (n / 10) * 10 + n % 10);
        assert forall|k: int| 0 <= k < t.len() implies is_digit(#[trigger] t[k]) by {
            if k < t.len() - 1 {
                assert(t[k] == decimal(n / 10)[k]);
            }
        }
    }
}

proof fn lemma_split_append_plain(a: Seq<char>, b: Seq<char>)
    requires
        has_no_slash(b),
    ensures
        split_slash(a + b).len() == split_slash(a).len(),
        split_slash(a + b) == split_slash(a).update(
            split_slash(a).len() - 1,
            split_slash(a).last() + b,
        ),
    decreases b.len(),
{
    lemma_split_nonempty(a);
    if b.len() == 0 {
        assert(a + b =~= a);
        assert(split_slash(a).last() + b =~= split_slash(a).last());
        assert(split_slash(a).update(split_slash(a).len() - 1, split_slash(a).last())
            =~= split_slash(a));
    } else {
        let b0 = b.drop_last();
        assert(has_no_slash(b0)) by {
            assert forall|k: int| 0 <= k < b0.len() implies #[trigger] b0[k] != '/' by {
                assert(b0[k] == b[k]);
            }
        }
        lemma_split_append_plain(a, b0);
        assert((a + b).drop_last() =~= a + b0);
        assert((a + b).last() == b.last());
        assert(b[b.len() - 1] != '/');
        let p = split_slash(a + b0);
        assert(split_slash(a + b) == p.update(p.len() - 1, p.last().push(b.last())));
        assert((split_slash(a).last() + b0).push(b.last()) =~= split_slash(a).last() + b);
        assert(split_slash(a + b) =~= split_slash(a).update(
            split_slash(a).len() - 1,
            split_slash(a).last() + b,
        ));
    }
}

proof fn lemma_split_nonempty(a: Seq<char>)
    ensures
        split_slash(a).len() >= 1,
    decreases a.len(),
{
    if a.len() > 0 {
        lemma_split_nonempty(a.drop_last());
    }
}

proof fn lemma_split_join(ts: Seq<Seq<char>>)
    requires
        ts.len() >= 1,
        forall|i: int| 0 <= i < ts.len() ==> has_no_slash(#[trigger] ts[i]),
    ensures
        split_slash(join_slash(ts)) == ts,
    decreases ts.len(),
{
    if ts.len() == 1 {
        let e = Seq::<char>::empty();
        assert(split_slash(e) == seq![e]);
        assert(e + ts[0] =~= ts[0]);
        lemma_split_append_plain(e, ts[0]);
        assert(seq![e].update(0, e + ts[0]) =~= ts);
    } else {
        let init = ts.drop_last();
        assert forall|i: int| 0 <= i < init.len() implies has_no_slash(#[trigger] init[i]) by {
            assert(init[i] == ts[i]);
        }
        lemma_split_join(init);
        let j = join_slash(init) + seq!['/'];
        assert(j.drop_last() =~= join_slash(init));
        assert(split_slash(j) == init.push(Seq::<char>::empty()));
        lemma_split_append_plain(j, ts.last());
        assert(Seq::<char>::empty() + ts.last() =~= ts.last());
        assert(init.push(Seq::<char>::empty()).update(init.len() as int, ts.last()) =~= ts);
    }
}

proof fn lemma_url_end(d: Seq<char>, j: int, e: int)
    requires
        0 <= j <= e <= d.len(),
        forall|k: int| j <= k < e ==> !ends_url(#[trigger] d[k]),
        e == d.len() || ends_url(d[e]),
    ensures
        url_end_from(d, j) == e,
    decreases e - j,
{
    if j < e {
        lemma_url_end(d, j + 1, e);
    }
}

/// The URL part of an origin reference, as its `/`-separated pieces.
pub open spec fn origin_url_pieces(server: u64, channel: u64, message: u64) -> Seq<Seq<char>> {
    seq![
        scheme_token(),
        Seq::empty(),
        host_token(),
        channels_token(),
        decimal(server as nat),
        decimal(channel as nat),
        decimal(message as nat),
    ]
}

proof fn lemma_parse_decimal(n: u64)
    ensures
        parse_u64(decimal(n as nat)) == Some(n),
{
    lemma_decimal(n as nat);
    assert(is_digit(decimal(n as nat)[0]));
}

proof fn lemma_no_url_end_concat(a: Seq<char>, b: Seq<char>)
    requires
        has_no_url_end(a),
        has_no_url_end(b),
    ensures
        has_no_url_end(a + b),
{
    assert forall|k: int| 0 <= k < (a + b).len() implies !ends_url(#[trigger] (a + b)[k]) by {
        if k < a.len() {
            assert((a + b)[k] == a[k]);
        } else {
            assert((a + b)[k] == b[k - a.len()]);
        }
    }
}

proof fn lemma_decimal_plain(n: nat)
    ensures
        has_no_url_end(decimal(n)),
        has_no_slash(decimal(n)),
{
    lemma_decimal(n);
    let t = decimal(n);
    assert forall|k: int| 0 <= k < t.len() implies !ends_url(#[trigger] t[k]) by {
        assert(is_digit(t[k]));
    }
    assert forall|k: int| 0 <= k < t.len() implies #[trigger] t[k] != '/' by {
        assert(is_digit(t[k]));
    }
}

proof fn lemma_origin_url_text(server: u64, channel: u64, message: u64)
    ensures
        join_slash(origin_url_pieces(server, channel, message)) == url_prefix() + decimal(
            server as nat,
        ) + seq!['/'] + decimal(channel as nat) + seq!['/'] + decimal(message as nat),
        origin_text(server, channel, message) == marker_text() + join_slash(
            origin_url_pieces(server, channel, message),
        ),
{
    let ts = origin_url_pieces(server, channel, message);
    assert(ts.subrange(0, 1).len() == 1);
    assert(join_slash(ts.subrange(0, 1)) == ts[0]);
    assert(ts.subrange(0, 2).drop_last() =~= ts.subrange(0, 1));
    assert(join_slash(ts.subrange(0, 2)) == join_slash(ts.subrange(0, 1)) + seq!['/'] + ts[1]);
    assert(ts.subrange(0, 3).drop_last() =~= ts.subrange(0, 2));
    assert(join_slash(ts.subrange(0, 3)) == join_slash(ts.subrange(0, 2)) + seq!['/'] + ts[2]);
    assert(ts.subrange(0, 4).drop_last() =~= ts.subrange(0, 3));
    assert(join_slash(ts.subrange(0, 4)) == join_slash(ts.subrange(0, 3)) + seq!['/'] + ts[3]);
    assert(ts.subrange(0, 5).drop_last() =~= ts.subrange(0, 4));
    assert(join_slash(ts.subrange(0, 5)) == join_slash(ts.subrange(0, 4)) + seq!['/'] + ts[4]);
    assert(ts.subrange(0, 6).drop_last() =~= ts.subrange(0, 5));
    assert(join_slash(ts.subrange(0, 6)) == join_slash(ts.subrange(0, 5)) + seq!['/'] + ts[5]);
    assert(ts.drop_last() =~= ts.subrange(0, 6));
    assert(join_slash(ts) == join_slash(ts.subrange(0, 6)) + seq!['/'] + ts[6]);
    assert(join_slash(ts.subrange(0, 5)) =~= url_prefix() + ts[4]);
    assert(join_slash(ts) =~= url_prefix() + ts[4] + seq!['/'] + ts[5] + seq!['/'] + ts[6]);
    assert(origin_text(server, channel, message) =~= marker_text() + join_slash(ts));
}

proof fn lemma_origin_url(server: u64, channel: u64, message: u64)
    ensures
        origin_text(server, channel, message) == marker_text() + join_slash(
            origin_url_pieces(server, channel, message),
        ),
        has_no_url_end(join_slash(origin_url_pieces(server, channel, message))),
        split_slash(join_slash(origin_url_pieces(server, channel, message))) == origin_url_pieces(
            server,
            channel,
            message,
        ),
{
    let ts = origin_url_pieces(server, channel, message);
    let ds = decimal(server as nat);
    let dc = decimal(channel as nat);
    let dm = decimal(message as nat);
    lemma_origin_url_text(server, channel, message);
    lemma_decimal_plain(server as nat);
    lemma_decimal_plain(channel as nat);
    lemma_decimal_plain(message as nat);
    let slash = seq!['/'];
    assert(has_no_url_end(slash));
    assert(has_no_url_end(scheme_token() + seq!['/', '/'] + host_token() + seq!['/']
        + channels_token() + seq!['/']));
    lemma_no_url_end_concat(url_prefix(), ds);
    lemma_no_url_end_concat(url_prefix() + ds, slash);
    lemma_no_url_end_concat(url_prefix() + ds + slash, dc);
    lemma_no_url_end_concat(url_prefix() + ds + slash + dc, slash);
    lemma_no_url_end_concat(url_prefix() + ds + slash + dc + slash, dm);
    assert(join_slash(ts) =~= url_prefix() + ds + slash + dc + slash + dm);
    assert(has_no_slash(scheme_token()));
    assert(has_no_slash(host_token()));
    assert(has_no_slash(channels_token()));
    assert(has_no_slash(Seq::<char>::empty()));
    assert forall|i: int| 0 <= i < ts.len() implies has_no_slash(#[trigger] ts[i]) by {
        assert(i == 0 || i == 1 || i == 2 || i == 3 || i == 4 || i == 5 || i == 6);
    }
    lemma_split_join(ts);
}

/// Decoding fails with no token when the marker is nowhere in the text, and
/// with the captured URL when the marker is followed by fewer than seven
/// `/`-separated pieces.
pub proof fn lemma_decode_failures(d: Seq<char>)
    ensures
        (forall|i: int| !occurs_at(d, marker_text(), i)) ==> decode_reference(d) == Err::<
            (u64, u64, u64),
            Option<Seq<char>>,
        >(None),
        forall|i: int|
            find_from(d, marker_text(), 0) == Some(i) && split_slash(#[trigger] reference_url(d, i)).len()
                < 7 ==> decode_reference(d) == Err::<(u64, u64, u64), Option<Seq<char>>>(
                Some(reference_url(d, i)),
            ),
{
    if let Some(i) = find_from(d, marker_text(), 0) {
        lemma_find_from_found(d, marker_text(), 0, i);
    }
}

/// Decoding gives back the triple that was encoded, also when the
/// reference is followed by text that starts with white space or a closing
/// parenthesis, as in an issue description.
pub proof fn lemma_decode_encode(server: u64, channel: u64, message: u64, rest: Seq<char>)
    requires
        rest.len() == 0 || ends_url(rest[0]),
    ensures
        decode_reference(origin_text(server, channel, message) + rest) == Ok::<
            (u64, u64, u64),
            Option<Seq<char>>,
        >((server, channel, message)),
{
    lemma_origin_url(server, channel, message);
    lemma_decimal(server as nat);
    lemma_decimal(channel as nat);
    lemma_decimal(message as nat);
    let ts = origin_url_pieces(server, channel, message);
    let url = join_slash(ts);
    let d = origin_text(server, channel, message) + rest;
    let m = marker_text().len() as int;
    assert(d.subrange(0, m) =~= marker_text());
    assert(find_from(d, marker_text(), 0) == Some(0int));
    assert forall|k: int| m <= k < m + url.len() implies !ends_url(#[trigger] d[k]) by {
        assert(d[k] == url[k - m]);
    }
    if rest.len() > 0 {
        assert(d[m + url.len()] == rest[0]);
    }
    lemma_url_end(d, m, m + url.len());
    assert(reference_url(d, 0) =~= url);
    lemma_parse_decimal(server);
    lemma_parse_decimal(channel);
    lemma_parse_decimal(message);
    assert(ts[4] == decimal(server as nat));
}

} // verus!
