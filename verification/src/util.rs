//! Small helpers around results.
use vstd::prelude::*;
use crate::geom::{floor_div, floor_mod, Time, UVec2};

verus! {

/// Passes on the value of a successful result and turns an error into `Err(())`.
/// `msg` says what failed; writing it to a log is left to the caller.
pub fn report_err<T, E>(result: Result<T, E>, msg: &str) -> (r: Result<T, ()>)
    ensures
        match result {
            Ok(v) => r == Ok::<T, ()>(v),
            Err(_) => r == Err::<T, ()>(()),
        },
{
    match result {
        Ok(v) => Ok(v),
        Err(_) => Err(()),
    }
}

/// Like `report_err`, for failures that are only worth a warning.
pub fn report_warn<T, E>(result: Result<T, E>, msg: &str) -> (r: Result<T, ()>)
    ensures
        match result {
            Ok(v) => r == Ok::<T, ()>(v),
            Err(_) => r == Err::<T, ()>(()),
        },
{
    match result {
        Ok(v) => Ok(v),
        Err(_) => Err(()),
    }
}

pub open spec fn is_digit(c: char) -> bool {
    '0' <= c <= '9'
}

/// The number written by the decimal digits `d`.
pub open spec fn digits_value(d: Seq<char>) -> int
    decreases d.len(),
{
    if d.len() == 0 {
        0
    } else {
        digits_value(d.drop_last()) * 10 + (d.last() as int - '0' as int)
    }
}

/// `s` without a leading `+`.
pub open spec fn strip_plus(s: Seq<char>) -> Seq<char> {
    if s.len() > 0 && s[0] == '+' { s.drop_first() } else { s }
}

/// The number written by `d`, if it is one or more decimal digits of a value
/// that fits a `usize`.
pub open spec fn spec_parse_digits(d: Seq<char>) -> Option<usize> {
    if d.len() > 0 && (forall|i: int| 0 <= i < d.len() ==> is_digit(#[trigger] d[i])) && digits_value(d) <= usize::MAX {
        Some(digits_value(d) as usize)
    } else {
        None
    }
}

/// What parsing `s` as a `usize` gives: an optional `+` and then one or more
/// decimal digits, of a value that fits.
pub open spec fn spec_parse_usize(s: Seq<char>) -> Option<usize> {
    spec_parse_digits(strip_plus(s))
}

/// A size written `WIDTHxHEIGHT`: two numbers around exactly one `x`.
pub open spec fn spec_parse_size(s: Seq<char>) -> Option<UVec2> {
    if exists|k: int| 0 <= k < s.len() && s[k] == 'x' {
        let k = choose|k: int| 0 <= k < s.len() && s[k] == 'x' && forall|j: int| 0 <= j < k ==> s[j] != 'x';
        let rest = s.skip(k + 1);
        if rest.contains('x') {
            None
        } else {
            match (spec_parse_usize(s.take(k)), spec_parse_usize(rest)) {
                (Some(w), Some(h)) => Some(UVec2 { x: w, y: h }),
                _ => None,
            }
        }
    } else {
        None
    }
}

/// Parses one number of a size; see `spec_parse_usize`.
fn parse_usize(s: &Vec<char>) -> (r: Option<usize>)
    ensures
        r == spec_parse_usize(s@),
{
    let n = s.len();
    let mut i: usize = 0;
    if n > 0 && s[0] == '+' {
        i = 1;
    }
    let ghost d = strip_plus(s@);
    let start = i;
    assert(d =~= s@.skip(start as int));
    if start == n {
        return None;
    }
    let mut v: usize = 0;
    while i < n
        invariant
            start <= i <= n,
            n == s@.len(),
            start == n - d.len(),
            d == s@.skip(start as int),
            d == strip_plus(s@),
            forall|j: int| 0 <= j < i - start ==> is_digit(#[trigger] d[j]),
            v == digits_value(d.take(i - start)),
        decreases n - i,
    {
        let c = s[i];
        assert(d[i - start] == c);
        if !('0' <= c && c <= '9') {
            assert(!is_digit(d[i - start]));
            assert(!(forall|j: int| 0 <= j < d.len() ==> is_digit(#[trigger] d[j])));
            return None;
        }
        let digit = (c as u32 - '0' as u32) as usize;
        assert(digit == c as int - '0' as int);
        assert(d.take(i - start + 1).drop_last() =~= d.take(i - start));
        assert(d.take(i - start + 1).last() == c);
        match v.checked_mul(10) {
            Some(t) => match t.checked_add(digit) {
                Some(u) => {
                    v = u;
                },
                None => {
                    proof {
                        lemma_too_large(d, (i - start + 1) as int);
                    }
                    return None;
                },
            },
            None => {
                proof {
                    lemma_too_large(d, (i - start + 1) as int);
                }
                return None;
            },
        }
        i += 1;
    }
    assert(d.take(n - start) =~= d);
    Some(v)
}

/// Digits whose start is already too large for a `usize` parse to nothing.
proof fn lemma_too_large(d: Seq<char>, m: int)
    requires
        0 <= m <= d.len(),
        digits_value(d.take(m)) > usize::MAX,
        forall|j: int| 0 <= j < m ==> is_digit(#[trigger] d[j]),
    ensures
        !((forall|i: int| 0 <= i < d.len() ==> is_digit(#[trigger] d[i])) && digits_value(d) <= usize::MAX),
{
    if forall|i: int| 0 <= i < d.len() ==> is_digit(#[trigger] d[i]) {
        lemma_digits_grow(d, m, d.len() as int);
        assert(d.take(d.len() as int) =~= d);
    }
}

/// A longer run of digits has at least the value of its start.
proof fn lemma_digits_grow(d: Seq<char>, m: int, n: int)
    requires
        0 <= m <= n <= d.len(),
        forall|j: int| 0 <= j < n ==> is_digit(#[trigger] d[j]),
    ensures
        digits_value(d.take(m)) <= digits_value(d.take(n)),
    decreases n - m,
{
    if n > m {
        lemma_digits_grow(d, m, n - 1);
        assert(d.take(n).drop_last() =~= d.take(n - 1));
        assert(is_digit(d[n - 1]));
        assert(digits_value(d.take(n - 1)) >= 0) by {
            assert forall|j: int| 0 <= j < d.take(n - 1).len() implies is_digit(#[trigger] d.take(n - 1)[j]) by {
                assert(d.take(n - 1)[j] == d[j]);
            }
            lemma_digits_nonneg(d.take(n - 1));
        }
    }
}

proof fn lemma_digits_nonneg(d: Seq<char>)
    requires
        forall|j: int| 0 <= j < d.len() ==> is_digit(#[trigger] d[j]),
    ensures
        digits_value(d) >= 0,
    decreases d.len(),
{
    if d.len() > 0 {
        assert(forall|j: int| 0 <= j < d.drop_last().len() ==> is_digit(#[trigger] d.drop_last()[j]) ) by {
            assert forall|j: int| 0 <= j < d.drop_last().len() implies is_digit(#[trigger] d.drop_last()[j]) by {
                assert(d.drop_last()[j] == d[j]);
            }
        }
        lemma_digits_nonneg(d.drop_last());
    }
}

/// Parses a size written `WIDTHxHEIGHT`, such as `16x8`.
pub fn parse_size(input: &str) -> (r: Option<UVec2>)
    ensures
        r == spec_parse_size(input@),
{
    let mut first: Vec<char> = Vec::new();
    let mut second: Vec<char> = Vec::new();
    let mut seps: usize = 0;
    let ghost mut k: int = 0;
    let ghost mut k2: int = 0;
    for c in it: input.chars()
        invariant
            it.seq() == input@,
            seps <= 2,
            seps == 0 ==> second@.len() == 0,
            seps == 0 ==> first@ == input@.take(it.index()) && forall|j: int| 0 <= j < it.index() ==> input@[j] != 'x',
            seps >= 1 ==> {
                &&& 0 <= k < it.index()
                &&& input@[k] == 'x'
                &&& forall|j: int| 0 <= j < k ==> input@[j] != 'x'
                &&& first@ == input@.take(k)
            },
            seps == 1 ==> second@ == input@.subrange(k + 1, it.index() as int)
                && forall|j: int| k < j < it.index() ==> input@[j] != 'x',
            seps == 2 ==> k < k2 < it.index() && input@[k2] == 'x',
    {
        proof {
            assert(c == input@[it.index()]);
        }
        if c == 'x' {
            if seps == 0 {
                proof {
                    k = it.index();
                    assert(second@ =~= input@.subrange(k + 1, it.index() + 1));
                }
            } else if seps == 1 {
                proof {
                    k2 = it.index();
                }
            }
            if seps < 2 {
                seps += 1;
            }
        } else if seps == 0 {
            first.push(c);
        } else if seps == 1 {
            second.push(c);
            assert(second@ =~= input@.subrange(k + 1, it.index() + 1));
        }
    }
    let ghost s = input@;
    proof {
        if seps >= 1 {
            assert(0 <= k < s.len() && s[k] == 'x' && forall|j: int| 0 <= j < k ==> s[j] != 'x');
            let kk = choose|kk: int| 0 <= kk < s.len() && s[kk] == 'x' && forall|j: int| 0 <= j < kk ==> s[j] != 'x';
            if kk < k {
                assert(s[kk] != 'x');
            }
            if kk > k {
                assert(s[k] != 'x');
            }
            assert(kk == k);
            if seps == 2 {
                assert(s.skip(k + 1)[k2 - k - 1] == 'x');
            } else {
                assert(second@ =~= s.skip(k + 1));
                assert(!s.skip(k + 1).contains('x')) by {
                    assert forall|j: int| 0 <= j < s.skip(k + 1).len() implies #[trigger] s.skip(k + 1)[j] != 'x' by {
                        assert(s.skip(k + 1)[j] == s[k + 1 + j]);
                    }
                }
            }
        } else {
            assert(!(exists|kk: int| 0 <= kk < s.len() && s[kk] == 'x'));
        }
    }
    if seps != 1 {
        return None;
    }
    match parse_usize(&first) {
        Some(w) => match parse_usize(&second) {
            Some(h) => Some(UVec2 { x: w, y: h }),
            None => None,
        },
        None => None,
    }
}

/// Microseconds in a minute and in a second.
pub const MINUTE: Time = 60_000_000;
pub const SECOND: Time = 1_000_000;

/// A point in time as whole minutes, whole seconds and the rest in milliseconds
/// (a `Time` whose value counts milliseconds): minutes round down and count no
/// fewer than zero and no more than `u32::MAX`, as a float cast would.
pub open spec fn spec_time_ms(t: int) -> (u32, u32, Time) {
    let minutes = t / MINUTE as int;
    let rest = t % MINUTE as int;
    (
        if minutes < 0 { 0 } else if minutes > u32::MAX { u32::MAX } else { minutes as u32 },
        (rest / SECOND as int) as u32,
        ((rest % SECOND as int) * 1000) as Time,
    )
}

pub fn time_ms(time: Time) -> (r: (u32, u32, Time))
    ensures
        r == spec_time_ms(time as int),
{
    let minutes = floor_div(time, MINUTE);
    let rest = floor_mod(time, MINUTE);
    let m: u32 = if minutes < 0 {
        0
    } else if minutes > u32::MAX as i64 {
        u32::MAX
    } else {
        minutes as u32
    };
    (m, (rest / SECOND) as u32, (rest % SECOND) * 1000)
}

} // verus!
