//! The retry policy of the synthesis client: which failures are worth
//! another attempt, how long to wait before it, and when to give up. The
//! client performs the requests and the waiting; the decisions are here.

use vstd::prelude::*;
use crate::text::{
    all_digits, chars_of, decimal_value, is_ascii_digit, is_digit, skip_spaces, skip_spaces_back,
    trimmed,
};

verus! {

/// How many times a request is tried again before giving up.
pub const MAX_RETRIES: usize = 6;

/// The longest wait that the exponential schedule asks for, in seconds.
pub const MAX_BACKOFF_SECS: u64 = 60;

/// How long to wait: whole seconds and additional milliseconds.
#[derive(Clone, Copy, Debug, PartialEq, Eq, Structural)]
pub struct Backoff {
    pub secs: u64,
    pub millis: u64,
}

/// What to do after an attempt.
#[derive(Clone, Copy, Debug, PartialEq, Eq, Structural)]
pub enum Step {
    /// Wait this long, then try again as the next attempt.
    Wait(Backoff),
    /// Report the failure.
    GiveUp,
}

/// An HTTP status that may pass: 408, 429, 500, 502, 503 or 504.
pub open spec fn is_transient(status: u16) -> bool {
    status == 408 || status == 429 || status == 500 || status == 502 || status == 503 || status
        == 504
}

/// Two to the power `k`.
pub open spec fn doubled(k: nat) -> nat
    decreases k,
{
    if k == 0 {
        1
    } else {
        2 * doubled((k - 1) as nat)
    }
}

/// The seconds of the exponential schedule: one second doubled once per
/// earlier attempt and held at 60. The attempt is taken as a 32-bit number.
pub open spec fn exponential_secs(attempt: nat) -> nat {
    let shift = attempt % 0x1_0000_0000;
    if shift < 6 {
        doubled(shift)
    } else {
        60
    }
}

/// The milliseconds that spread attempts apart: a fixed sequence below 500.
pub open spec fn jitter_millis(attempt: nat) -> nat {
    ((attempt + 1) * 137) % 500
}

/// The number that a `Retry-After` value gives in seconds: its text without
/// surrounding white space must be ASCII digits, after an optional `+`, and
/// fit 64 bits.
pub open spec fn retry_after_secs(value: Seq<char>) -> Option<u64> {
    let t = trimmed(value);
    let digits = if t.len() > 0 && t[0] == '+' {
        t.drop_first()
    } else {
        t
    };
    if digits.len() > 0 && all_digits(digits) && decimal_value(digits) <= u64::MAX {
        Some(decimal_value(digits) as u64)
    } else {
        None
    }
}

/// The wait before the next attempt: what the server asked for, but at least
/// a second; else the exponential schedule with its jitter.
pub open spec fn backoff_for(attempt: nat, retry_after: Option<Seq<char>>) -> Backoff {
    let asked = match retry_after {
        Some(value) => retry_after_secs(value),
        None => None,
    };
    match asked {
        Some(secs) => Backoff {
            secs: if secs < 1 {
                1
            } else {
                secs
            },
            millis: 0,
        },
        None => Backoff {
            secs: exponential_secs(attempt) as u64,
            millis: jitter_millis(attempt) as u64,
        },
    }
}

/// The characters of an optional string.
pub open spec fn opt_view(s: Option<&str>) -> Option<Seq<char>> {
    match s {
        Some(s) => Some(s@),
        None => None,
    }
}

/// The schedule never asks for less than a second or more than a minute,
/// and the jitter stays under half a second.
pub proof fn lemma_schedule_bounds(attempt: nat)
    ensures
        1 <= exponential_secs(attempt) <= MAX_BACKOFF_SECS,
        jitter_millis(attempt) < 500,
{
    reveal_with_fuel(doubled, 7);
}

/// Whatever the server asked for, the wait is at least a second; without
/// its word it is under a minute and a half second.
pub proof fn lemma_backoff_bounds(attempt: nat, retry_after: Option<Seq<char>>)
    ensures
        backoff_for(attempt, retry_after).secs >= 1,
        backoff_for(attempt, retry_after).millis < 500,
        retry_after is None ==> backoff_for(attempt, retry_after).secs <= MAX_BACKOFF_SECS,
{
    lemma_schedule_bounds(attempt);
}

/// Whether a response with this HTTP status is worth another attempt.
pub fn should_retry(status: u16) -> (r: bool)
    ensures
        r == is_transient(status),
{
    status == 429 || status == 408 || status == 500 || status == 502 || status == 503 || status
        == 504
}

/// Reads the digits `from..to` as a 64-bit number; nothing where the range is
/// empty, holds another character, or the number does not fit.
fn read_digits(text: &[char], from: usize, to: usize) -> (r: Option<u64>)
    requires
        from <= to <= text@.len(),
    ensures
        ({
            let s = text@.subrange(from as int, to as int);
            r == if s.len() > 0 && all_digits(s) && decimal_value(s) <= u64::MAX {
                Some(decimal_value(s) as u64)
            } else {
                None
            }
        }),
{
    let ghost s = text@.subrange(from as int, to as int);
    if from == to {
        return None;
    }
    // The number read so far, held at 2^64 once it has passed the 64-bit range.
    let mut value: u128 = 0;
    let mut i: usize = from;
    proof {
        assert(s.take(0) =~= Seq::<char>::empty());
    }
    while i < to
        invariant
            from <= i <= to <= text@.len(),
            s == text@.subrange(from as int, to as int),
            forall|j: int| 0 <= j < i - from ==> is_digit(#[trigger] s[j]),
            value <= 0x1_0000_0000_0000_0000,
            value as nat == if decimal_value(s.take(i - from)) < 0x1_0000_0000_0000_0000 {
                decimal_value(s.take(i - from))
            } else {
                0x1_0000_0000_0000_0000
            },
        decreases to - i,
    {
        let c: char = text[i];
        if !is_ascii_digit(c) {
            proof {
                assert(s[i - from] == c);
            }
            return None;
        }
        let digit: u128 = (c as u32 - '0' as u32) as u128;
        proof {
            let next = s.take(i - from + 1);
            assert(next.drop_last() =~= s.take(i - from));
            assert(next.last() == c);
        }
        let grown: u128 = value * 10 + digit;
        value = if grown > 0xffff_ffff_ffff_ffff {
            0x1_0000_0000_0000_0000
        } else {
            grown
        };
        i = i + 1;
    }
    proof {
        assert(s.take(to - from) =~= s);
    }
    if value > 0xffff_ffff_ffff_ffff {
        None
    } else {
        Some(value as u64)
    }
}

/// The seconds that a `Retry-After` value asks for.
pub fn parse_retry_after(value: &str) -> (r: Option<u64>)
    ensures
        r == retry_after_secs(value@),
{
    let chars: Vec<char> = chars_of(value);
    let n: usize = chars.len();
    let start: usize = skip_spaces(chars.as_slice(), 0, n);
    let end: usize = skip_spaces_back(chars.as_slice(), start, n);
    proof {
        assert(chars@.subrange(0, n as int) =~= value@);
        assert(value@.skip(start as int) =~= chars@.subrange(start as int, n as int));
        assert(trimmed(value@) =~= chars@.subrange(start as int, end as int));
    }
    let first: usize = if start < end && chars[start] == '+' {
        start + 1
    } else {
        start
    };
    proof {
        let t = chars@.subrange(start as int, end as int);
        if start < end && chars@[start as int] == '+' {
            assert(t.drop_first() =~= chars@.subrange(first as int, end as int));
        }
    }
    read_digits(chars.as_slice(), first, end)
}

/// The seconds of the exponential schedule for an attempt.
fn exponential(attempt: usize) -> (secs: u64)
    ensures
        secs == exponential_secs(attempt as nat),
        secs <= MAX_BACKOFF_SECS,
{
    let shift: u64 = (attempt as u64) % 0x1_0000_0000;
    if shift >= 6 {
        return MAX_BACKOFF_SECS;
    }
    let mut secs: u64 = 1;
    let mut k: u64 = 0;
    while k < shift
        invariant
            k <= shift < 6,
            secs == doubled(k as nat),
            secs <= 32,
        decreases shift - k,
    {
        proof {
            reveal_with_fuel(doubled, 7);
        }
        secs = secs * 2;
        k = k + 1;
    }
    secs
}

/// The milliseconds of jitter for an attempt.
fn jitter(attempt: usize) -> (millis: u64)
    ensures
        millis == jitter_millis(attempt as nat),
        millis < 500,
{
    let reduced: u64 = (attempt as u64) % 500;
    assert(((attempt + 1) * 137) % 500 == ((reduced + 1) * 137) % 500) by {
        let q = attempt as int / 500;
        assert(attempt as int == 500 * q + reduced);
        assert((attempt + 1) * 137 == 500 * (q * 137) + (reduced + 1) * 137) by (nonlinear_arith)
            requires
                attempt as int == 500 * q + reduced,
        ;
        vstd::arithmetic::div_mod::lemma_mod_multiples_vanish(
            q * 137,
            (reduced + 1) * 137,
            500,
        );
    }
    ((reduced + 1) * 137) % 500
}

/// How long to wait before the attempt after `attempt`. `retry_after` is the
/// text of the response's `Retry-After` header, where it has one.
pub fn compute_backoff(attempt: usize, retry_after: Option<&str>) -> (r: Backoff)
    ensures
        r == backoff_for(attempt as nat, opt_view(retry_after)),
{
    let asked: Option<u64> = match retry_after {
        Some(value) => parse_retry_after(value),
        None => None,
    };
    match asked {
        Some(secs) => Backoff {
            secs: if secs < 1 {
                1
            } else {
                secs
            },
            millis: 0,
        },
        None => Backoff { secs: exponential(attempt), millis: jitter(attempt) },
    }
}

/// What to do after attempt number `attempt` (counted from 0) was answered
/// with an HTTP error status.
pub fn after_http_error(attempt: usize, status: u16, retry_after: Option<&str>) -> (r: Step)
    ensures
        r == if is_transient(status) && attempt < MAX_RETRIES {
            Step::Wait(backoff_for(attempt as nat, opt_view(retry_after)))
        } else {
            Step::GiveUp
        },
{
    if should_retry(status) && attempt < MAX_RETRIES {
        Step::Wait(compute_backoff(attempt, retry_after))
    } else {
        Step::GiveUp
    }
}

/// What to do after attempt number `attempt` (counted from 0) failed without
/// a response.
pub fn after_network_error(attempt: usize) -> (r: Step)
    ensures
        r == if attempt < MAX_RETRIES {
            Step::Wait(backoff_for(attempt as nat, None))
        } else {
            Step::GiveUp
        },
{
    if attempt < MAX_RETRIES {
        Step::Wait(compute_backoff(attempt, None))
    } else {
        Step::GiveUp
    }
}

} // verus!
