//! The head of the HTTP request that carries a hook to the listener.
use vstd::prelude::*;
use vstd::utf8::{decode_utf8, encode_utf8, encode_utf8_decode_utf8, valid_utf8};
use crate::activity::registry::MAX_HOOK_BYTES;
use crate::text::{ascii_lower, chars_of, is_literal, sub_chars, to_ascii_lower};

verus! {

/// The largest request head, in bytes, that the listener reads.
pub const MAX_HEADER_BYTES: usize = 16384;

/// How far the reading of a request head has come.
#[derive(Debug, PartialEq, Eq, Structural, Clone, Copy)]
pub enum HeaderProgress {
    /// The head ends with an empty line.
    Complete,
    /// The head is too large and does not end yet.
    TooLarge,
    /// Another byte is needed.
    NeedMore,
}

/// `bytes` ends with the empty line that closes a request head.
pub open spec fn ends_head(bytes: Seq<u8>) -> bool {
    bytes.len() >= 4 && bytes[bytes.len() - 4] == 13u8 && bytes[bytes.len() - 3] == 10u8
        && bytes[bytes.len() - 2] == 13u8 && bytes[bytes.len() - 1] == 10u8
}

/// Whether the head read so far is complete, too large, or needs another byte.
pub fn header_progress(headers: &[u8]) -> (p: HeaderProgress)
    ensures
        p == (if ends_head(headers@) {
            HeaderProgress::Complete
        } else if headers@.len() >= MAX_HEADER_BYTES {
            HeaderProgress::TooLarge
        } else {
            HeaderProgress::NeedMore
        }),
{
    let n = headers.len();
    if n >= 4 && headers[n - 4] == 13u8 && headers[n - 3] == 10u8 && headers[n - 2] == 13u8
        && headers[n - 1] == 10u8 {
        HeaderProgress::Complete
    } else if n >= MAX_HEADER_BYTES {
        HeaderProgress::TooLarge
    } else {
        HeaderProgress::NeedMore
    }
}

/// Why a request was refused.
#[derive(Debug, PartialEq, Eq, Structural, Clone, Copy)]
pub enum RequestError {
    HeaderTooLarge,
    InvalidEncoding,
    InvalidRequestLine,
    MissingContentLength,
    InvalidBodyLength,
}

impl RequestError {
    /// The message of the error.
    pub open spec fn spec_message(self) -> Seq<char> {
        match self {
            RequestError::HeaderTooLarge => "HTTP 请求头过大"@,
            RequestError::InvalidEncoding => "HTTP 请求头编码无效"@,
            RequestError::InvalidRequestLine => "HTTP 方法或路径无效"@,
            RequestError::MissingContentLength => "缺少有效的 Content-Length"@,
            RequestError::InvalidBodyLength => "Hook 请求体长度无效"@,
        }
    }

    /// The message of the error.
    pub fn message(&self) -> (m: &'static str)
        ensures
            m@ == self.spec_message(),
    {
        match self {
            RequestError::HeaderTooLarge => "HTTP 请求头过大",
            RequestError::InvalidEncoding => "HTTP 请求头编码无效",
            RequestError::InvalidRequestLine => "HTTP 方法或路径无效",
            RequestError::MissingContentLength => "缺少有效的 Content-Length",
            RequestError::InvalidBodyLength => "Hook 请求体长度无效",
        }
    }
}

/// Calls `std::str::from_utf8`: the string whose UTF-8 encoding is `bytes`, when `bytes` is
/// valid UTF-8.
#[verifier::external_body]
fn utf8_string(bytes: &[u8]) -> (r: Option<String>)
    ensures
        r is Some <==> valid_utf8(bytes@),
        r matches Some(s) ==> encode_utf8(s@) == bytes@,
{
    match std::str::from_utf8(bytes) {
        Ok(s) => Some(s.to_string()),
        Err(_) => None,
    }
}

/// A line break (`"\r\n"`) starts at `i`.
pub open spec fn crlf_at(s: Seq<char>, i: int) -> bool {
    0 <= i && i + 1 < s.len() && s[i] == '\r' && s[i + 1] == '\n'
}

/// Where the first line break starts.
pub open spec fn first_crlf(s: Seq<char>) -> Option<int>
    decreases s.len(),
{
    if s.len() < 2 {
        None
    } else if s[0] == '\r' && s[1] == '\n' {
        Some(0)
    } else {
        match first_crlf(s.drop_first()) {
            Some(i) => Some(i + 1),
            None => None,
        }
    }
}

/// The lines of `s`, as `str::split("\r\n")` gives them.
pub open spec fn split_lines(s: Seq<char>) -> Seq<Seq<char>>
    decreases s.len(),
{
    match first_crlf(s) {
        Some(i) => if 0 <= i && i + 2 <= s.len() {
            seq![s.take(i)] + split_lines(s.skip(i + 2))
        } else {
            seq![s]
        },
        None => seq![s],
    }
}

/// Where the first `':'` of `s` stands.
pub open spec fn colon_index(s: Seq<char>) -> Option<int>
    decreases s.len(),
{
    if s.len() == 0 {
        None
    } else if s[0] == ':' {
        Some(0)
    } else {
        match colon_index(s.drop_first()) {
            Some(i) => Some(i + 1),
            None => None,
        }
    }
}

/// The value of the first header line among `lines` whose name is `Content-Length`, in any
/// ASCII case; the name is what precedes the line's first `':'`, the value what follows it.
pub open spec fn length_header_value(lines: Seq<Seq<char>>) -> Option<Seq<char>>
    decreases lines.len(),
{
    if lines.len() == 0 {
        None
    } else {
        let l = lines[0];
        match colon_index(l) {
            Some(c) => if 0 <= c < l.len() && ascii_lower(l.take(c)) == "content-length"@ {
                Some(l.skip(c + 1))
            } else {
                length_header_value(lines.drop_first())
            },
            None => length_header_value(lines.drop_first()),
        }
    }
}

/// Unicode `White_Space`, which `str::trim` removes.
pub open spec fn is_white_space(c: char) -> bool {
    ('\u{9}' <= c && c <= '\u{d}') || c == ' ' || c == '\u{85}' || c == '\u{a0}' || c
        == '\u{1680}' || ('\u{2000}' <= c && c <= '\u{200a}') || c == '\u{2028}' || c
        == '\u{2029}' || c == '\u{202f}' || c == '\u{205f}' || c == '\u{3000}'
}

/// `s` without its leading white space.
pub open spec fn trim_start(s: Seq<char>) -> Seq<char>
    decreases s.len(),
{
    if s.len() > 0 && is_white_space(s[0]) {
        trim_start(s.drop_first())
    } else {
        s
    }
}

/// `s` without its trailing white space.
pub open spec fn trim_end(s: Seq<char>) -> Seq<char>
    decreases s.len(),
{
    if s.len() > 0 && is_white_space(s.last()) {
        trim_end(s.drop_last())
    } else {
        s
    }
}

/// `s` without leading and trailing white space.
pub open spec fn trim(s: Seq<char>) -> Seq<char> {
    trim_end(trim_start(s))
}

/// An ASCII decimal digit.
pub open spec fn is_digit(c: char) -> bool {
    '0' <= c && c <= '9'
}

/// The number that the decimal digits `d` spell.
pub open spec fn digits_value(d: Seq<char>) -> int
    decreases d.len(),
{
    if d.len() == 0 {
        0
    } else {
        digits_value(d.drop_last()) * 10 + (d.last() as int - '0' as int)
    }
}

/// `s` without its leading `+`, if it has one.
pub open spec fn digits_part(s: Seq<char>) -> Seq<char> {
    if s.len() > 0 && s[0] == '+' {
        s.drop_first()
    } else {
        s
    }
}

/// What `str::parse::<u64>` gives: an optional `+` and at least one decimal digit, whose
/// value fits in a `u64`.
pub open spec fn parse_u64(s: Seq<char>) -> Option<u64> {
    let d = digits_part(s);
    if d.len() > 0 && (forall|i: int| 0 <= i < d.len() ==> is_digit(#[trigger] d[i])) && digits_value(
        d,
    ) <= u64::MAX {
        Some(digits_value(d) as u64)
    } else {
        None
    }
}

/// The request lines that the listener accepts.
pub open spec fn request_line_ok(l: Seq<char>) -> bool {
    l == "POST /api/codex/hook HTTP/1.1"@ || l == "POST /api/codex/hook HTTP/1.0"@
}

/// The body length that a request head announces, or why the head is refused: it must be
/// UTF-8, post to the hook path, and carry a `Content-Length` between 1 and the largest hook
/// body the listener accepts.
pub open spec fn spec_body_length(bytes: Seq<u8>) -> Result<u64, RequestError> {
    if !valid_utf8(bytes) {
        Err(RequestError::InvalidEncoding)
    } else {
        let lines = split_lines(decode_utf8(bytes));
        if !request_line_ok(lines[0]) {
            Err(RequestError::InvalidRequestLine)
        } else {
            match length_header_value(lines.drop_first()) {
                None => Err(RequestError::MissingContentLength),
                Some(v) => match parse_u64(trim(v)) {
                    None => Err(RequestError::MissingContentLength),
                    Some(n) => if n == 0 || n > MAX_HOOK_BYTES {
                        Err(RequestError::InvalidBodyLength)
                    } else {
                        Ok(n)
                    },
                },
            }
        }
    }
}

proof fn lemma_first_crlf(s: Seq<char>, i: int)
    requires
        0 <= i <= s.len(),
        forall|k: int| 0 <= k < i ==> !crlf_at(s, k),
    ensures
        crlf_at(s, i) ==> first_crlf(s) == Some(i),
        i + 1 >= s.len() ==> first_crlf(s) is None,
    decreases i,
{
    if i > 0 {
        let t = s.drop_first();
        assert forall|k: int| 0 <= k < i - 1 implies !crlf_at(t, k) by {
            assert(!crlf_at(s, k + 1));
            if k + 1 < t.len() {
                assert(t[k] == s[k + 1] && t[k + 1] == s[k + 2]);
            }
        }
        lemma_first_crlf(t, i - 1);
        assert(!crlf_at(s, 0));
        if i + 1 < s.len() {
            assert(t[i - 1] == s[i] && t[i] == s[i + 1]);
            assert(crlf_at(s, i) == crlf_at(t, i - 1));
        }
    }
}

/// The views of a sequence of character vectors.
pub open spec fn lines_view(lines: Seq<Vec<char>>) -> Seq<Seq<char>> {
    lines.map_values(|l: Vec<char>| l@)
}

/// Splits `c` at its line breaks.
fn split_crlf(c: &[char]) -> (lines: Vec<Vec<char>>)
    ensures
        lines_view(lines@) == split_lines(c@),
{
    let n = c.len();
    let mut lines: Vec<Vec<char>> = Vec::new();
    let mut p: usize = 0;
    assert(c@.skip(0) =~= c@);
    loop
        invariant
            n == c@.len(),
            p <= n,
            lines_view(lines@) + split_lines(c@.skip(p as int)) == split_lines(c@),
        decreases n - p,
    {
        let ghost t = c@.skip(p as int);
        let ghost before = lines@;
        match find_crlf_from(c, p) {
            Some(j) => {
                proof {
                    assert(t.take(j - p) =~= c@.subrange(p as int, j as int));
                    assert(t.skip(j - p + 2) =~= c@.skip(j + 2));
                }
                let line = sub_chars(c, p, j);
                lines.push(line);
                proof {
                    assert(lines_view(lines@) =~= lines_view(before).push(line@));
                    assert(split_lines(t) == seq![t.take(j - p)] + split_lines(t.skip(j - p + 2)));
                    assert(lines_view(lines@) + split_lines(c@.skip(j + 2)) =~= lines_view(before)
                        + split_lines(t));
                }
                p = j + 2;
            },
            None => {
                assert(c@.subrange(p as int, n as int) =~= t);
                let line = sub_chars(c, p, n);
                lines.push(line);
                proof {
                    assert(lines_view(lines@) =~= lines_view(before).push(line@));
                    assert(lines_view(lines@) =~= lines_view(before) + split_lines(t));
                }
                return lines;
            },
        }
    }
}

/// Where the first line break of `c[p..]` starts, counted in `c`.
fn find_crlf_from(c: &[char], p: usize) -> (r: Option<usize>)
    requires
        p <= c@.len(),
    ensures
        match r {
            Some(j) => p <= j && j + 1 < c@.len() && first_crlf(c@.skip(p as int)) == Some(j - p),
            None => first_crlf(c@.skip(p as int)) is None,
        },
{
    let ghost t = c@.skip(p as int);
    let n = c.len();
    let mut j: usize = p;
    while n - j > 1
        invariant
            n == c@.len(),
            p <= j <= n,
            t == c@.skip(p as int),
            forall|k: int| 0 <= k < j - p ==> !crlf_at(t, k),
        decreases n - j,
    {
        if c[j] == '\r' && c[j + 1] == '\n' {
            proof {
                assert(crlf_at(t, j - p));
                lemma_first_crlf(t, j - p);
            }
            return Some(j);
        }
        assert(!crlf_at(t, j - p));
        j = j + 1;
    }
    proof {
        lemma_first_crlf(t, j - p);
    }
    None
}

proof fn lemma_colon_index(s: Seq<char>, i: int)
    requires
        0 <= i <= s.len(),
        forall|k: int| 0 <= k < i ==> s[k] != ':',
    ensures
        i < s.len() && s[i] == ':' ==> colon_index(s) == Some(i),
        i == s.len() ==> colon_index(s) is None,
    decreases i,
{
    if i > 0 {
        lemma_colon_index(s.drop_first(), i - 1);
    }
}

fn find_colon(l: &[char]) -> (r: Option<usize>)
    ensures
        match r {
            Some(c) => c < l@.len() && colon_index(l@) == Some(c as int),
            None => colon_index(l@) is None,
        },
{
    let n = l.len();
    let mut i: usize = 0;
    while i < n
        invariant
            n == l@.len(),
            i <= n,
            forall|k: int| 0 <= k < i ==> l@[k] != ':',
        decreases n - i,
    {
        if l[i] == ':' {
            proof {
                lemma_colon_index(l@, i as int);
            }
            return Some(i);
        }
        i = i + 1;
    }
    proof {
        lemma_colon_index(l@, n as int);
    }
    None
}

/// The value of the first `Content-Length` header among the lines after the request line.
fn find_length_value(lines: &Vec<Vec<char>>) -> (r: Option<Vec<char>>)
    requires
        lines@.len() >= 1,
    ensures
        match r {
            Some(v) => length_header_value(lines_view(lines@).drop_first()) == Some(v@),
            None => length_header_value(lines_view(lines@).drop_first()) is None,
        },
{
    let ghost all = lines_view(lines@);
    let n = lines.len();
    let mut k: usize = 1;
    assert(all.drop_first() =~= all.skip(1));
    while k < n
        invariant
            n == lines@.len(),
            1 <= k <= n,
            all == lines_view(lines@),
            length_header_value(all.drop_first()) == length_header_value(all.skip(k as int)),
        decreases n - k,
    {
        let l = lines[k].as_slice();
        assert(all.skip(k as int)[0] == l@);
        assert(all.skip(k as int).drop_first() =~= all.skip(k + 1));
        match find_colon(l) {
            Some(c) => {
                let name = sub_chars(l, 0, c);
                let lower = to_ascii_lower(name.as_slice());
                assert(name@ =~= l@.take(c as int));
                if is_literal(lower.as_slice(), "content-length") {
                    let len = l.len();
                    let v = sub_chars(l, c + 1, len);
                    assert(v@ =~= l@.skip(c + 1));
                    return Some(v);
                }
            },
            None => {},
        }
        k = k + 1;
    }
    assert(all.skip(n as int) =~= Seq::<Seq<char>>::empty());
    None
}

/// Unicode `White_Space`.
pub(crate) fn white_space(c: char) -> (r: bool)
    ensures
        r == is_white_space(c),
{
    ('\u{9}' <= c && c <= '\u{d}') || c == ' ' || c == '\u{85}' || c == '\u{a0}' || c
        == '\u{1680}' || ('\u{2000}' <= c && c <= '\u{200a}') || c == '\u{2028}' || c
        == '\u{2029}' || c == '\u{202f}' || c == '\u{205f}' || c == '\u{3000}'
}

/// `s` without leading and trailing white space, as `str::trim` gives it.
fn trim_chars(s: &[char]) -> (r: Vec<char>)
    ensures
        r@ == trim(s@),
{
    let n = s.len();
    let mut a: usize = 0;
    assert(s@.skip(0) =~= s@);
    while a < n && white_space(s[a])
        invariant
            n == s@.len(),
            a <= n,
            trim_start(s@) == trim_start(s@.skip(a as int)),
        decreases n - a,
    {
        assert(s@.skip(a as int).drop_first() =~= s@.skip(a + 1));
        a = a + 1;
    }
    let ghost w = s@.skip(a as int);
    assert(trim_start(w) == w);
    let mut b: usize = n;
    assert(w.take(w.len() as int) =~= w);
    while b > a && white_space(s[b - 1])
        invariant
            n == s@.len(),
            a <= b <= n,
            w == s@.skip(a as int),
            trim_end(w) == trim_end(w.take(b - a)),
        decreases b,
    {
        assert(w.take(b - a).drop_last() =~= w.take(b - a - 1));
        b = b - 1;
    }
    assert(trim_end(w.take(b - a)) == w.take(b - a));
    let r = sub_chars(s, a, b);
    assert(r@ =~= w.take(b - a));
    r
}

proof fn lemma_digits_monotone(d: Seq<char>, i: int)
    requires
        0 <= i <= d.len(),
        forall|k: int| 0 <= k < d.len() ==> is_digit(#[trigger] d[k]),
    ensures
        digits_value(d.take(i)) <= digits_value(d),
        0 <= digits_value(d.take(i)),
    decreases d.len() - i,
{
    if i < d.len() {
        lemma_digits_monotone(d, i + 1);
        assert(d.take(i + 1).drop_last() =~= d.take(i));
        assert(forall|k: int| 0 <= k < i ==> is_digit(#[trigger] d.take(i)[k]));
        lemma_digits_nonneg(d.take(i));
    } else {
        assert(d.take(i) =~= d);
        lemma_digits_nonneg(d);
    }
}

proof fn lemma_digits_nonneg(d: Seq<char>)
    requires
        forall|k: int| 0 <= k < d.len() ==> is_digit(#[trigger] d[k]),
    ensures
        0 <= digits_value(d),
    decreases d.len(),
{
    if d.len() > 0 {
        assert(forall|k: int| 0 <= k < d.len() - 1 ==> is_digit(#[trigger] d.drop_last()[k]) && d.drop_last()[k] == d[k]);
        lemma_digits_nonneg(d.drop_last());
    }
}

/// What `str::parse::<u64>` gives on `s`.
pub(crate) fn parse_decimal(s: &[char]) -> (r: Option<u64>)
    ensures
        r == parse_u64(s@),
{
    let n = s.len();
    let start: usize = if n > 0 && s[0] == '+' {
        1
    } else {
        0
    };
    let ghost d = s@.skip(start as int);
    assert(d =~= digits_part(s@));
    if start == n {
        assert(d.len() == 0);
        return None;
    }
    let mut i: usize = start;
    while i < n
        invariant
            n == s@.len(),
            start <= i <= n,
            d == s@.skip(start as int),
            d == digits_part(s@),
            forall|k: int| 0 <= k < i - start ==> is_digit(#[trigger] d[k]),
        decreases n - i,
    {
        assert(d[i - start] == s@[i as int]);
        if !('0' <= s[i] && s[i] <= '9') {
            assert(!is_digit(d[i - start]));
            assert(!(forall|k: int| 0 <= k < d.len() ==> is_digit(#[trigger] d[k])));
            return None;
        }
        i = i + 1;
    }
    let mut value: u64 = 0;
    let mut i: usize = start;
    assert(d.take(0) =~= Seq::<char>::empty());
    while i < n
        invariant
            n == s@.len(),
            start <= i <= n,
            d == s@.skip(start as int),
            d == digits_part(s@),
            forall|k: int| 0 <= k < d.len() ==> is_digit(#[trigger] d[k]),
            value == digits_value(d.take(i - start)),
        decreases n - i,
    {
        assert(d[i - start] == s@[i as int]);
        assert(is_digit(s@[i as int]));
        let digit = ((s[i] as u32) - ('0' as u32)) as u64;
        assert(d.take(i - start + 1).drop_last() =~= d.take(i - start));
        assert(d.take(i - start + 1).last() == s@[i as int]);
        assert(digit == s@[i as int] as int - '0' as int);
        match value.checked_mul(10) {
            Some(m) => match m.checked_add(digit) {
                Some(v) => {
                    value = v;
                },
                None => {
                    proof {
                        lemma_digits_monotone(d, i - start + 1);
                        assert(digits_value(d.take(i - start + 1)) == m + digit);
                    }
                    return None;
                },
            },
            None => {
                proof {
                    lemma_digits_monotone(d, i - start + 1);
                    assert(digits_value(d.take(i - start + 1)) == value * 10 + digit);
                }
                return None;
            },
        }
        i = i + 1;
    }
    assert(d.take(d.len() as int) =~= d);
    Some(value)
}

/// The body length that a request head announces, or why the head is refused.
pub fn parse_request_head(headers: &[u8]) -> (r: Result<u64, RequestError>)
    ensures
        r == spec_body_length(headers@),
{
    let text = match utf8_string(headers) {
        Some(t) => t,
        None => {
            return Err(RequestError::InvalidEncoding);
        },
    };
    proof {
        encode_utf8_decode_utf8(text@);
    }
    let chars = chars_of(text.as_str());
    let lines = split_crlf(chars.as_slice());
    proof {
        reveal_with_fuel(split_lines, 1);
    }
    assert(lines@.len() >= 1) by {
        assert(lines_view(lines@).len() == split_lines(chars@).len());
    }
    let first = lines[0].as_slice();
    assert(first@ == lines_view(lines@)[0]);
    if !(is_literal(first, "POST /api/codex/hook HTTP/1.1") || is_literal(
        first,
        "POST /api/codex/hook HTTP/1.0",
    )) {
        return Err(RequestError::InvalidRequestLine);
    }
    let value = match find_length_value(&lines) {
        Some(v) => v,
        None => {
            return Err(RequestError::MissingContentLength);
        },
    };
    let trimmed = trim_chars(value.as_slice());
    match parse_decimal(trimmed.as_slice()) {
        None => Err(RequestError::MissingContentLength),
        Some(n) => if n == 0 || n > MAX_HOOK_BYTES {
            Err(RequestError::InvalidBodyLength)
        } else {
            Ok(n)
        },
    }
}

} // verus!
