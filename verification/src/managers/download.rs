use vstd::prelude::*;

use crate::text::seg_start;

verus! {

/// Whether `c` is one of `0`..`9`.
pub open spec fn is_digit(c: char) -> bool {
    '0' <= c <= '9'
}

/// The number that a run of decimal digits writes.
pub open spec fn digits_value(s: Seq<char>) -> nat
    decreases s.len(),
{
    if s.len() == 0 {
        0
    } else {
        digits_value(s.drop_last()) * 10 + ((s.last() as nat) - ('0' as nat)) as nat
    }
}

/// `s` without its leading `+`, if it has one.
pub open spec fn unsigned_digits(s: Seq<char>) -> Seq<char> {
    if s.len() > 0 && s[0] == '+' {
        s.drop_first()
    } else {
        s
    }
}

/// Whether every character of `d` is a decimal digit.
pub open spec fn all_digits(d: Seq<char>) -> bool {
    forall|i: int| 0 <= i < d.len() ==> is_digit(#[trigger] d[i])
}

/// What `str::parse::<u64>` gives for `s`: an optional `+`, then one or more
/// decimal digits whose value fits in a `u64`.
pub open spec fn parse_u64_spec(s: Seq<char>) -> Option<u64> {
    let d = unsigned_digits(s);
    if d.len() > 0 && all_digits(d) && digits_value(d) <= u64::MAX {
        Some(digits_value(d) as u64)
    } else {
        None
    }
}

proof fn lemma_digits_value_prefix(d: Seq<char>, k: int)
    requires
        0 <= k <= d.len(),
        forall|i: int| 0 <= i < d.len() ==> is_digit(#[trigger] d[i]),
    ensures
        digits_value(d.subrange(0, k)) <= digits_value(d),
    decreases d.len() - k,
{
    if k < d.len() {
        lemma_digits_value_prefix(d, k + 1);
        let p = d.subrange(0, k + 1);
        assert(p.drop_last() =~= d.subrange(0, k));
        assert(p.last() == d[k]);
        assert(is_digit(d[k]));
    } else {
        assert(d.subrange(0, k) =~= d);
    }
}

/// `s` read as an unsigned 64-bit number, as `str::parse::<u64>` reads it.
pub fn parse_u64(s: &str) -> (res: Option<u64>)
    ensures
        res == parse_u64_spec(s@),
{
    let n = s.unicode_len();
    let mut i: usize = 0;
    if n > 0 && s.get_char(0) == '+' {
        i = 1;
    }
    let ghost d = unsigned_digits(s@);
    let ghost start = i as int;
    assert(d =~= s@.subrange(start, n as int));
    if i == n {
        return None;
    }
    let mut acc: u64 = 0;
    while i < n
        invariant
            n == s@.len(),
            0 <= start <= i <= n,
            d == unsigned_digits(s@),
            d == s@.subrange(start, n as int),
            forall|k: int| 0 <= k < i - start ==> is_digit(#[trigger] d[k]),
            acc == digits_value(d.subrange(0, i - start)),
        decreases n - i,
    {
        let c = s.get_char(i);
        assert(c == d[i - start]);
        if c < '0' || c > '9' {
            assert(!is_digit(d[i - start]));
            return None;
        }
        let digit = (c as u32 - '0' as u32) as u64;
        let ghost p = d.subrange(0, i - start + 1);
        assert(p.drop_last() =~= d.subrange(0, i - start));
        assert(p.last() == c);
        let next = match acc.checked_mul(10) {
            Some(m) => m.checked_add(digit),
            None => None,
        };
        match next {
            Some(v) => {
                acc = v;
            },
            None => {
                proof {
                    assert(digits_value(p) == digits_value(p.drop_last()) * 10 + digit);
                    if all_digits(d) {
                        lemma_digits_value_prefix(d, i - start + 1);
                    }
                }
                return None;
            },
        }
        i = i + 1;
    }
    assert(d.subrange(0, n - start) =~= d);
    Some(acc)
}

/// The character of the decimal digit `d`.
pub open spec fn digit_char(d: nat) -> char {
    if d == 0 {
        '0'
    } else if d == 1 {
        '1'
    } else if d == 2 {
        '2'
    } else if d == 3 {
        '3'
    } else if d == 4 {
        '4'
    } else if d == 5 {
        '5'
    } else if d == 6 {
        '6'
    } else if d == 7 {
        '7'
    } else if d == 8 {
        '8'
    } else {
        '9'
    }
}

/// The decimal digits of `n`, with no leading zero.
pub open spec fn decimal(n: nat) -> Seq<char>
    decreases n,
{
    if n < 10 {
        seq![digit_char(n)]
    } else {
        decimal(n / 10) + seq![digit_char(n % 10)]
    }
}

fn digit_str(d: u64) -> (res: &'static str)
    requires
        d < 10,
    ensures
        res@ == seq![digit_char(d as nat)],
{
    proof {
        reveal_strlit("0");
        reveal_strlit("1");
        reveal_strlit("2");
        reveal_strlit("3");
        reveal_strlit("4");
        reveal_strlit("5");
        reveal_strlit("6");
        reveal_strlit("7");
        reveal_strlit("8");
        reveal_strlit("9");
    }
    let res = if d == 0 {
        "0"
    } else if d == 1 {
        "1"
    } else if d == 2 {
        "2"
    } else if d == 3 {
        "3"
    } else if d == 4 {
        "4"
    } else if d == 5 {
        "5"
    } else if d == 6 {
        "6"
    } else if d == 7 {
        "7"
    } else if d == 8 {
        "8"
    } else {
        "9"
    };
    assert(res@ =~= seq![digit_char(d as nat)]);
    res
}

/// `n` written in decimal.
pub fn decimal_string(n: u64) -> (res: String)
    ensures
        res@ == decimal(n as nat),
    decreases n,
{
    if n < 10 {
        digit_str(n).to_owned()
    } else {
        let mut s = decimal_string(n / 10);
        s.append(digit_str(n % 10));
        s
    }
}

proof fn lemma_digit_char(k: nat)
    requires
        k < 10,
    ensures
        (digit_char(k) as nat) - ('0' as nat) == k,
        is_digit(digit_char(k)),
{
    assert('0' as nat == 48 && '1' as nat == 49 && '2' as nat == 50 && '3' as nat == 51 && '4' as nat == 52);
    assert('5' as nat == 53 && '6' as nat == 54 && '7' as nat == 55 && '8' as nat == 56 && '9' as nat == 57);
}

proof fn lemma_decimal_digits(n: nat)
    ensures
        decimal(n).len() > 0,
        all_digits(decimal(n)),
        digits_value(decimal(n)) == n,
    decreases n,
{
    if n < 10 {
        lemma_digit_char(n);
        let d = decimal(n);
        assert(d.drop_last() =~= Seq::<char>::empty());
        assert(d.last() == digit_char(n));
        assert(digits_value(d.drop_last()) == 0);
        assert(digits_value(d) == n);
    } else {
        lemma_decimal_digits(n / 10);
        lemma_digit_char(n % 10);
        let d = decimal(n);
        assert(d.drop_last() =~= decimal(n / 10));
        assert(d.last() == digit_char(n % 10));
        assert(digits_value(d) == digits_value(decimal(n / 10)) * 10 + n % 10);
        assert(digits_value(d) == n);
        assert forall|i: int| 0 <= i < d.len() implies is_digit(#[trigger] d[i]) by {
            if i < d.len() - 1 {
                assert(d[i] == decimal(n / 10)[i]);
            }
        }
    }
}

/// A number written in decimal reads back as itself.
pub proof fn lemma_parse_decimal(n: u64)
    ensures
        parse_u64_spec(decimal(n as nat)) == Some(n),
{
    lemma_decimal_digits(n as nat);
    let d = decimal(n as nat);
    assert(is_digit(d[0]));
    assert(unsigned_digits(d) == d);
}

/// `x` written in decimal, with a leading `-` when it is negative.
pub open spec fn signed_decimal(x: int) -> Seq<char> {
    if x < 0 {
        "-"@ + decimal((-x) as nat)
    } else {
        decimal(x as nat)
    }
}

/// `x` written in decimal (see `signed_decimal`).
pub fn signed_decimal_string(x: i32) -> (res: String)
    ensures
        res@ == signed_decimal(x as int),
{
    if x < 0 {
        let magnitude = (-(x as i64)) as u64;
        let mut s = "-".to_owned();
        s.append(decimal_string(magnitude).as_str());
        s
    } else {
        decimal_string(x as u64)
    }
}

/// The `Range` header value that resumes a download after `downloaded` bytes;
/// none when nothing was downloaded yet.
pub open spec fn range_header_spec(downloaded: u64) -> Option<Seq<char>> {
    if downloaded > 0 {
        Some("bytes="@ + decimal(downloaded as nat) + "-"@)
    } else {
        None
    }
}

/// The `Range` header value that resumes a download (see `range_header_spec`).
pub fn range_header(downloaded: u64) -> (res: Option<String>)
    ensures
        crate::text::opt_view(res) == range_header_spec(downloaded),
{
    if downloaded > 0 {
        let mut h = "bytes=".to_owned();
        h.append(decimal_string(downloaded).as_str());
        h.append("-");
        Some(h)
    } else {
        None
    }
}

/// The total size that a `Content-Range` value gives: the number after its
/// last `/`.
pub open spec fn content_range_total_spec(value: Seq<char>) -> Option<u64> {
    parse_u64_spec(value.subrange(seg_start(value) as int, value.len() as int))
}

/// The total size that a `Content-Range` value gives (see
/// `content_range_total_spec`).
pub fn content_range_total(value: &str) -> (res: Option<u64>)
    ensures
        res == content_range_total_spec(value@),
{
    let n = value.unicode_len();
    let mut start: usize = n;
    while start > 0 && value.get_char(start - 1) != '/'
        invariant
            n == value@.len(),
            start <= n,
            forall|k: int| start <= k < n ==> value@[k] != '/',
        decreases start,
    {
        start = start - 1;
    }
    proof {
        crate::text::lemma_seg_start_at(value@, start as int);
    }
    parse_u64(value.substring_char(start, n))
}

/// Bytes in a mebibyte.
pub const MIB: u64 = 1048576;

/// How a download proceeds once the server has answered: from which byte on
/// the file is written (a positive start appends to the partial file, zero
/// starts it over) and how many bytes the whole file has.
#[derive(Debug, Clone, Copy, PartialEq, Eq, Structural)]
pub struct ResumePlan {
    pub start_bytes: u64,
    pub total_bytes: u64,
}

/// The plan for a download that had `downloaded` bytes on disk, given the
/// server's status, its `Content-Range` and `Content-Length`, and the model's
/// nominal size; the status alone when it is not a success.
pub open spec fn plan_spec(
    status: u16,
    downloaded: u64,
    content_range: Option<Seq<char>>,
    content_length: Option<u64>,
    size_mb: u64,
) -> Result<ResumePlan, u16> {
    let fallback = (size_mb * MIB) as u64;
    if !(200 <= status <= 299) {
        Err(status)
    } else if status == 206 {
        let total = match content_range {
            Some(v) => match content_range_total_spec(v) {
                Some(t) => t,
                None => fallback,
            },
            None => fallback,
        };
        Ok(ResumePlan { start_bytes: downloaded, total_bytes: total })
    } else {
        Ok(
            ResumePlan {
                start_bytes: 0,
                total_bytes: match content_length {
                    Some(l) => l,
                    None => fallback,
                },
            },
        )
    }
}

/// A status outside 200..=299 is refused with that status. A partial answer
/// (206) resumes after the bytes already on disk and takes the total from the
/// end of its `Content-Range`; any other success starts over and takes the
/// total from `Content-Length`. Without the header it needs, the total is the
/// model's nominal size in mebibytes.
pub proof fn lemma_plan_rules(
    status: u16,
    downloaded: u64,
    content_range: Option<Seq<char>>,
    content_length: Option<u64>,
    size_mb: u64,
)
    requires
        size_mb * MIB <= u64::MAX,
    ensures
        !(200 <= status <= 299) ==> plan_spec(status, downloaded, content_range, content_length, size_mb) == Err::<
            ResumePlan,
            u16,
        >(status),
        status == 206 ==> (plan_spec(status, downloaded, content_range, content_length, size_mb) matches Ok(p)
            && p.start_bytes == downloaded && p.total_bytes == (match content_range {
            Some(v) => match content_range_total_spec(v) {
                Some(t) => t as int,
                None => size_mb * MIB,
            },
            None => size_mb * MIB,
        })),
        200 <= status <= 299 && status != 206 ==> (plan_spec(status, downloaded, content_range, content_length, size_mb)
            matches Ok(p) && p.start_bytes == 0 && p.total_bytes == (match content_length {
            Some(l) => l as int,
            None => size_mb * MIB,
        })),
{
}

/// The plan for a download once the server has answered (see `plan_spec`).
pub fn plan_download(
    status: u16,
    downloaded: u64,
    content_range: Option<String>,
    content_length: Option<u64>,
    size_mb: u64,
) -> (res: Result<ResumePlan, u16>)
    requires
        size_mb * MIB <= u64::MAX,
    ensures
        res == plan_spec(status, downloaded, crate::text::opt_view(content_range), content_length, size_mb),
{
    let fallback = size_mb * MIB;
    if !(200 <= status && status <= 299) {
        return Err(status);
    }
    if status == 206 {
        let total = match content_range {
            Some(v) => match content_range_total(v.as_str()) {
                Some(t) => t,
                None => fallback,
            },
            None => fallback,
        };
        Ok(ResumePlan { start_bytes: downloaded, total_bytes: total })
    } else {
        let total = match content_length {
            Some(l) => l,
            None => fallback,
        };
        Ok(ResumePlan { start_bytes: 0, total_bytes: total })
    }
}

/// How long, in milliseconds, a download waits between progress reports.
pub const PROGRESS_INTERVAL_MS: u64 = 200;

/// Whether a progress report is due `elapsed_ms` after the last one.
pub fn progress_due(elapsed_ms: u64) -> (res: bool)
    ensures
        res == (elapsed_ms >= PROGRESS_INTERVAL_MS),
{
    elapsed_ms >= PROGRESS_INTERVAL_MS
}

} // verus!
