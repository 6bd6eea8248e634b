//! Reading an HTTP response: the status code out of the status line, and
//! the body that follows the header block.

use vstd::prelude::*;
use vstd::string::StringSliceAdditionalSpecFns;

verus! {

/// Why an HTTP response could not be read.
#[derive(Clone, Copy, Debug, PartialEq, Eq, Structural)]
pub enum HttpParseError {
    /// The status line has no second field to read a code from.
    InvalidStatusLine,
    /// The status line's second field is not a number a `u16` can hold.
    InvalidStatusCode,
}

/// True when a CRLF pair begins at `i`.
pub open spec fn crlf_at(s: Seq<u8>, i: int) -> bool {
    0 <= i && i + 1 < s.len() && s[i] == 13u8 && s[i + 1] == 10u8
}

/// The first index at or after `i` where a CRLF pair begins, or the length.
pub open spec fn find_crlf(s: Seq<u8>, i: int) -> int
    decreases s.len() - i,
{
    if i + 1 >= s.len() {
        s.len() as int
    } else if crlf_at(s, i) {
        i
    } else {
        find_crlf(s, i + 1)
    }
}

/// The first index at or after `i` where an empty header line begins — one
/// CRLF pair immediately followed by another — or the length.
pub open spec fn find_empty_line(s: Seq<u8>, i: int) -> int
    decreases s.len() - i,
{
    if i + 1 >= s.len() {
        s.len() as int
    } else if crlf_at(s, i) && crlf_at(s, i + 2) {
        i
    } else {
        find_empty_line(s, i + 1)
    }
}

/// The first index at or after `i` that does not continue a run of CRLF
/// pairs.
pub open spec fn skip_crlf(s: Seq<u8>, i: int) -> int
    decreases s.len() - i,
{
    if crlf_at(s, i) {
        skip_crlf(s, i + 2)
    } else {
        i
    }
}

/// The body of the response: what follows the first empty header line,
/// with any further blank lines before the first content dropped. A
/// response without an empty header line has an empty body.
pub open spec fn body_of(s: Seq<u8>) -> Seq<u8> {
    let d = find_empty_line(s, 0);
    if d < s.len() {
        s.subrange(skip_crlf(s, d + 4), s.len() as int)
    } else {
        Seq::empty()
    }
}

/// True for the ASCII whitespace bytes.
pub open spec fn is_ws(b: u8) -> bool {
    b == 32 || (9 <= b && b <= 13)
}

/// The first index in `[i, end)` holding a non-whitespace byte, or `end`.
pub open spec fn skip_ws(s: Seq<u8>, i: int, end: int) -> int
    decreases end - i,
{
    if i < end && 0 <= i < s.len() && is_ws(s[i]) {
        skip_ws(s, i + 1, end)
    } else {
        i
    }
}

/// The first index in `[i, end)` holding a whitespace byte, or `end`.
pub open spec fn skip_token(s: Seq<u8>, i: int, end: int) -> int
    decreases end - i,
{
    if i < end && 0 <= i < s.len() && !is_ws(s[i]) {
        skip_token(s, i + 1, end)
    } else {
        i
    }
}

/// The second whitespace-separated field of the status line — the line up
/// to the first CRLF — as its half-open byte range, if the line has at
/// least two fields.
pub open spec fn second_field(s: Seq<u8>) -> Option<(int, int)> {
    let end = find_crlf(s, 0);
    let s1 = skip_ws(s, 0, end);
    let e1 = skip_token(s, s1, end);
    let s2 = skip_ws(s, e1, end);
    if s2 < end {
        Some((s2, skip_token(s, s2, end)))
    } else {
        None
    }
}

/// True when every byte of `t` is an ASCII digit.
pub open spec fn all_digits(t: Seq<u8>) -> bool {
    forall|i: int| 0 <= i < t.len() ==> 48 <= #[trigger] t[i] <= 57
}

/// The number the digit bytes of `t` spell in decimal.
pub open spec fn digits_value(t: Seq<u8>) -> int
    decreases t.len(),
{
    if t.len() == 0 {
        0
    } else {
        digits_value(t.drop_last()) * 10 + (t.last() - 48)
    }
}

/// `t` without its optional leading plus sign.
pub open spec fn numeral_digits(t: Seq<u8>) -> Seq<u8> {
    if t.len() > 0 && t[0] == 43 {
        t.subrange(1, t.len() as int)
    } else {
        t
    }
}

/// True when `t` is a numeral that parses as a `u16`: an optional leading
/// plus sign, then one or more digits, spelling a value of at most 65535.
pub open spec fn is_u16_numeral(t: Seq<u8>) -> bool {
    let d = numeral_digits(t);
    d.len() > 0 && all_digits(d) && digits_value(d) <= 65535
}

/// Scanning for a token's end never moves backwards.
proof fn lemma_skip_token_lb(s: Seq<u8>, i: int, end: int)
    ensures
        skip_token(s, i, end) >= i,
    decreases end - i,
{
    if i < end && 0 <= i < s.len() && !is_ws(s[i]) {
        lemma_skip_token_lb(s, i + 1, end);
    }
}

/// A token that starts on a non-whitespace byte is at least one byte long.
proof fn lemma_skip_token_advances(s: Seq<u8>, i: int, end: int)
    requires
        0 <= i < end <= s.len(),
        !is_ws(s[i]),
    ensures
        skip_token(s, i, end) > i,
{
    lemma_skip_token_lb(s, i + 1, end);
}

/// Skipping whitespace stops on a non-whitespace byte or at the end.
proof fn lemma_skip_ws_stops(s: Seq<u8>, i: int, end: int)
    requires
        0 <= i <= end <= s.len(),
    ensures
        i <= skip_ws(s, i, end) <= end,
        skip_ws(s, i, end) < end ==> !is_ws(s[skip_ws(s, i, end)]),
    decreases end - i,
{
    if i < end && is_ws(s[i]) {
        lemma_skip_ws_stops(s, i + 1, end);
    }
}

/// The value a digit numeral spells never shrinks as digits are appended.
proof fn lemma_digits_prefix_bound(t: Seq<u8>, j: int)
    requires
        0 <= j <= t.len(),
        all_digits(t),
    ensures
        digits_value(t) >= 0,
        digits_value(t.subrange(0, j)) <= digits_value(t),
    decreases t.len(),
{
    if t.len() == 0 {
        assert(t.subrange(0, j) =~= t);
    } else {
        assert(all_digits(t.drop_last())) by {
            assert forall|i: int|
                0 <= i < t.drop_last().len() implies 48 <= #[trigger] t.drop_last()[i] <= 57 by {
                assert(t.drop_last()[i] == t[i]);
            }
        }
        lemma_digits_prefix_bound(t.drop_last(), if j < t.len() { j } else { j - 1 });
        if j == t.len() {
            assert(t.subrange(0, j) =~= t);
        } else {
            assert(t.subrange(0, j) =~= t.drop_last().subrange(0, j));
        }
    }
}

/// Reads the status code and the body out of an HTTP response. The code is
/// the second whitespace-separated field of the status line, read as a
/// `u16`; the body is everything after the empty line that ends the
/// headers, returned as raw bytes. A status line with fewer than two
/// fields is `InvalidStatusLine`; a second field that is not a `u16`
/// numeral is `InvalidStatusCode`.
pub fn parse_http_response(response: &str) -> (r: Result<(u16, Vec<u8>), HttpParseError>)
    ensures
        match second_field(response.spec_bytes()) {
            None => r == Err::<(u16, Vec<u8>), HttpParseError>(HttpParseError::InvalidStatusLine),
            Some(f) => {
                let t = response.spec_bytes().subrange(f.0, f.1);
                &&& !is_u16_numeral(t) ==> r == Err::<(u16, Vec<u8>), HttpParseError>(
                    HttpParseError::InvalidStatusCode,
                )
                &&& is_u16_numeral(t) ==> (r matches Ok(ok) && ok.0 == digits_value(
                    numeral_digits(t),
                ) && ok.1@ == body_of(response.spec_bytes()))
            },
        },
{
    let bytes = response.as_bytes();
    let ghost s = bytes@;
    let line_end = find_crlf_from(bytes, 0);
    let s1 = skip_ws_from(bytes, 0, line_end);
    let e1 = skip_token_from(bytes, s1, line_end);
    let s2 = skip_ws_from(bytes, e1, line_end);
    if s2 >= line_end {
        proof {
            assert(second_field(s) is None);
        }
        return Err(HttpParseError::InvalidStatusLine);
    }
    let e2 = skip_token_from(bytes, s2, line_end);
    proof {
        lemma_skip_ws_stops(s, e1 as int, line_end as int);
        lemma_skip_token_advances(s, s2 as int, line_end as int);
        assert(second_field(s) == Some((s2 as int, e2 as int)));
    }
    let ghost t = s.subrange(s2 as int, e2 as int);
    let mut p = s2;
    if bytes[p] == 43 {
        p += 1;
    }
    proof {
        assert(numeral_digits(t) =~= s.subrange(p as int, e2 as int));
    }
    let ghost d = s.subrange(p as int, e2 as int);
    if p == e2 {
        proof {
            assert(numeral_digits(t).len() == 0);
            assert(!is_u16_numeral(t));
        }
        return Err(HttpParseError::InvalidStatusCode);
    }
    let mut acc: u32 = 0;
    let mut i = p;
    while i < e2
        invariant
            s == bytes@,
            s == response.spec_bytes(),
            second_field(s) == Some((s2 as int, e2 as int)),
            t == s.subrange(s2 as int, e2 as int),
            p <= i <= e2 <= s.len(),
            d == s.subrange(p as int, e2 as int),
            numeral_digits(t) == d,
            acc <= 65535,
            all_digits(s.subrange(p as int, i as int)),
            acc == digits_value(s.subrange(p as int, i as int)),
        decreases e2 - i,
    {
        let b = bytes[i];
        proof {
            assert(s.subrange(p as int, i + 1).drop_last() =~= s.subrange(p as int, i as int));
            assert(s.subrange(p as int, i + 1).last() == s[i as int]);
            assert(s.subrange(p as int, i + 1) =~= d.subrange(0, i + 1 - p));
        }
        if b < 48 || b > 57 {
            proof {
                assert(d[i - p] == s[i as int]);
                assert(!all_digits(d));
                assert(!is_u16_numeral(t));
            }
            return Err(HttpParseError::InvalidStatusCode);
        }
        acc = acc * 10 + ((b - 48) as u32);
        if acc > 65535 {
            proof {
                assert(acc == digits_value(d.subrange(0, i + 1 - p)));
                if all_digits(d) {
                    lemma_digits_prefix_bound(d, i + 1 - p);
                    assert(digits_value(d) > 65535);
                }
                assert(!is_u16_numeral(t));
            }
            return Err(HttpParseError::InvalidStatusCode);
        }
        i += 1;
    }
    proof {
        assert(s.subrange(p as int, i as int) =~= d);
    }
    let code: u16 = acc as u16;
    let header_end = find_empty_line_from(bytes, 0);
    let mut body: Vec<u8> = Vec::new();
    if header_end < bytes.len() {
        let body_start = skip_crlf_from(bytes, header_end + 4);
        let mut j = body_start;
        while j < bytes.len()
            invariant
                s == bytes@,
                body_start <= j <= s.len(),
                body@ == s.subrange(body_start as int, j as int),
            decreases bytes.len() - j,
        {
            let byte = bytes[j];
            body.push(byte);
            proof {
                assert(s.subrange(body_start as int, j + 1) =~= s.subrange(
                    body_start as int,
                    j as int,
                ).push(s[j as int]));
            }
            j += 1;
        }
        proof {
            assert(body@ =~= body_of(s));
        }
    } else {
        proof {
            assert(body@ =~= body_of(s));
        }
    }
    Ok((code, body))
}

/// True when the buffered text already holds a complete header block —
/// an empty header line — so a reader accumulating an HTTP response can
/// stop reading and parse.
pub fn response_complete(response: &str) -> (r: bool)
    ensures
        r == (find_empty_line(response.spec_bytes(), 0) < response.spec_bytes().len()),
{
    let bytes = response.as_bytes();
    find_empty_line_from(bytes, 0) < bytes.len()
}

/// Scans for the first CRLF pair at or after `from`.
fn find_crlf_from(bytes: &[u8], from: usize) -> (r: usize)
    requires
        from <= bytes@.len(),
    ensures
        r == find_crlf(bytes@, from as int),
        from <= r <= bytes@.len(),
{
    let ghost s = bytes@;
    let mut i = from;
    while bytes.len() - i > 1
        invariant
            s == bytes@,
            from <= i <= s.len(),
            find_crlf(s, from as int) == find_crlf(s, i as int),
        decreases bytes.len() - i,
    {
        if bytes[i] == 13 && bytes[i + 1] == 10 {
            return i;
        }
        proof {
            assert(find_crlf(s, i as int) == find_crlf(s, i + 1));
        }
        i += 1;
    }
    bytes.len()
}

/// Scans for the first empty header line at or after `from`.
fn find_empty_line_from(bytes: &[u8], from: usize) -> (r: usize)
    requires
        from <= bytes@.len(),
    ensures
        r == find_empty_line(bytes@, from as int),
        from <= r <= bytes@.len(),
        r < bytes@.len() ==> crlf_at(bytes@, r as int) && crlf_at(bytes@, r + 2),
{
    let ghost s = bytes@;
    let mut i = from;
    while bytes.len() - i > 1
        invariant
            s == bytes@,
            from <= i <= s.len(),
            find_empty_line(s, from as int) == find_empty_line(s, i as int),
        decreases bytes.len() - i,
    {
        if bytes[i] == 13 && bytes[i + 1] == 10 && bytes.len() - i > 3 && bytes[i + 2] == 13
            && bytes[i + 3] == 10 {
            return i;
        }
        proof {
            assert(find_empty_line(s, i as int) == find_empty_line(s, i + 1));
        }
        i += 1;
    }
    bytes.len()
}

/// Scans past a run of CRLF pairs starting at `from`.
fn skip_crlf_from(bytes: &[u8], from: usize) -> (r: usize)
    requires
        from <= bytes@.len(),
    ensures
        r == skip_crlf(bytes@, from as int),
        from <= r <= bytes@.len(),
{
    let ghost s = bytes@;
    let mut i = from;
    while bytes.len() - i > 1 && bytes[i] == 13 && bytes[i + 1] == 10
        invariant
            s == bytes@,
            from <= i <= s.len(),
            skip_crlf(s, from as int) == skip_crlf(s, i as int),
        decreases bytes.len() - i,
    {
        proof {
            assert(skip_crlf(s, i as int) == skip_crlf(s, i + 2));
        }
        i += 2;
    }
    i
}

/// Scans past whitespace within `[from, end)`.
fn skip_ws_from(bytes: &[u8], from: usize, end: usize) -> (r: usize)
    requires
        from <= end <= bytes@.len(),
    ensures
        r == skip_ws(bytes@, from as int, end as int),
        from <= r <= end,
{
    let ghost s = bytes@;
    let mut i = from;
    while i < end && (bytes[i] == 32 || (9 <= bytes[i] && bytes[i] <= 13))
        invariant
            s == bytes@,
            from <= i <= end <= s.len(),
            skip_ws(s, from as int, end as int) == skip_ws(s, i as int, end as int),
        decreases end - i,
    {
        proof {
            assert(skip_ws(s, i as int, end as int) == skip_ws(s, i + 1, end as int));
        }
        i += 1;
    }
    i
}

/// Scans past non-whitespace within `[from, end)`.
fn skip_token_from(bytes: &[u8], from: usize, end: usize) -> (r: usize)
    requires
        from <= end <= bytes@.len(),
    ensures
        r == skip_token(bytes@, from as int, end as int),
        from <= r <= end,
{
    let ghost s = bytes@;
    let mut i = from;
    while i < end && !(bytes[i] == 32 || (9 <= bytes[i] && bytes[i] <= 13))
        invariant
            s == bytes@,
            from <= i <= end <= s.len(),
            skip_token(s, from as int, end as int) == skip_token(s, i as int, end as int),
        decreases end - i,
    {
        proof {
            assert(skip_token(s, i as int, end as int) == skip_token(s, i + 1, end as int));
        }
        i += 1;
    }
    i
}

} // verus!
