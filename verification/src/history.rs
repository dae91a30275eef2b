//! Points in the past, as the operator writes them: a time span back from
//! now, such as `15days 2min 2s`, or a date, such as `2018-01-01T12:53:00Z`.

use vstd::prelude::*;
use vstd::string::*;
use crate::console::{Span, in_class, spec_is_digit, text, CharClass};

verus! {

/// The time span that `humantime::parse_duration` reads from a text, in
/// whole seconds and the nanoseconds beyond them; nothing where it refuses
/// the text.
pub uninterp spec fn humantime_duration(s: Seq<char>) -> Option<(u64, u32)>;

/// The date that `humantime::parse_rfc3339` reads from a text, in whole
/// seconds since 1970 and the nanoseconds beyond them; nothing where it
/// refuses the text. The last date that it takes depends on the target: the
/// end of the year 9999 where pointers have 64 bits, the start of 2038 on
/// most targets where they have 32. The name stands for the former.
pub uninterp spec fn humantime_rfc3339(s: Seq<char>) -> Option<(u64, u32)>;

/// Whether a character ends a number of a time span: a letter of a unit,
/// the micro sign, or the point before a fraction. Through white space a
/// number goes on: `1 000s` is a thousand seconds.
pub open spec fn spec_ends_number(c: char) -> bool {
    let u = c as u32;
    (65 <= u <= 90) || (97 <= u <= 122) || u == 0xB5 || u == 46
}

/// Whether a character ends a number of a time span.
pub fn ends_number(c: char) -> (r: bool)
    ensures
        r == spec_ends_number(c),
{
    let u = c as u32;
    (65 <= u && u <= 90) || (97 <= u && u <= 122) || u == 0xB5 || u == 46
}

/// The number of digits of the number that a text ends in: the digits
/// behind the last character that ends a number.
pub open spec fn spec_tail_run(s: Seq<char>) -> nat
    decreases s.len(),
{
    if s.len() == 0 || spec_ends_number(s.last()) {
        0
    } else if spec_is_digit(s.last()) {
        spec_tail_run(s.drop_last()) + 1
    } else {
        spec_tail_run(s.drop_last())
    }
}

/// The number of digits of the longest number in a text.
pub open spec fn spec_longest_run(s: Seq<char>) -> nat
    decreases s.len(),
{
    if s.len() == 0 {
        0
    } else if spec_longest_run(s.drop_last()) >= spec_tail_run(s) {
        spec_longest_run(s.drop_last())
    } else {
        spec_tail_run(s)
    }
}

/// How many numbers a text holds.
pub open spec fn spec_runs(s: Seq<char>) -> nat
    decreases s.len(),
{
    if s.len() == 0 {
        0
    } else if spec_tail_run(s) == 1 && spec_tail_run(s.drop_last()) == 0 {
        spec_runs(s.drop_last()) + 1
    } else {
        spec_runs(s.drop_last())
    }
}

/// The most digits that a number of a time span may have.
pub const RUN_DIGITS: usize = 9;

/// The most numbers that a time span may hold.
pub const SPAN_RUNS: usize = 100;

/// Whether a text may be read as a time span: none of its numbers has
/// more digits than `RUN_DIGITS`, and it holds no more numbers than
/// `SPAN_RUNS`.
pub open spec fn spec_readable(s: Seq<char>) -> bool {
    spec_longest_run(s) <= RUN_DIGITS && spec_runs(s) <= SPAN_RUNS
}

/// `humantime::parse_duration`: the time span that a text such as
/// `15days 2min 2s` spells. The outside function panics on a text whose
/// seconds come to the last value of `u64` while its nanoseconds come to a
/// whole second. A readable text stays far below that: the outside
/// function makes each number of digits that nothing but white space
/// parts, so each is under 10^9; with the longest unit, the year of
/// 31,557,600 seconds, it adds less than 3.2 * 10^16 seconds, and a
/// hundred of them less than 3.2 * 10^18.
#[verifier::external_body]
pub(crate) fn parse_duration(s: &str) -> (r: Option<(u64, u32)>)
    requires
        spec_readable(s@),
    ensures
        r == humantime_duration(s@),
{
    humantime::parse_duration(s).ok().map(|d| (d.as_secs(), d.subsec_nanos()))
}

/// `humantime::parse_rfc3339`: the date that a text such as
/// `2018-01-01T12:53:00Z` spells.
#[verifier::external_body]
pub(crate) fn parse_rfc3339(s: &str) -> (r: Option<(u64, u32)>)
    ensures
        r == humantime_rfc3339(s@),
{
    let since = humantime::parse_rfc3339(s).ok()?.duration_since(std::time::UNIX_EPOCH).ok()?;
    Some((since.as_secs(), since.subsec_nanos()))
}

/// Whether a text may be read as a time span.
pub fn readable(s: &str) -> (r: bool)
    ensures
        r == spec_readable(s@),
{
    let n = s.unicode_len();
    let mut tail: usize = 0;
    let mut longest: usize = 0;
    let mut runs: usize = 0;
    let mut i: usize = 0;
    while i < n
        invariant
            0 <= i <= n == s@.len(),
            tail == spec_tail_run(s@.take(i as int)),
            longest == spec_longest_run(s@.take(i as int)),
            runs == spec_runs(s@.take(i as int)),
            tail <= i,
            longest <= i,
            runs <= i,
        decreases n - i,
    {
        let c = s.get_char(i);
        proof {
            assert(s@.take(i + 1).drop_last() =~= s@.take(i as int));
            assert(s@.take(i + 1).last() == c);
        }
        if ends_number(c) {
            tail = 0;
        } else if in_class(c, CharClass::Digit) {
            if tail == 0 {
                runs = runs + 1;
            }
            tail = tail + 1;
        }
        if tail > longest {
            longest = tail;
        }
        i = i + 1;
    }
    assert(s@.take(i as int) =~= s@);
    longest <= RUN_DIGITS && runs <= SPAN_RUNS
}

/// The time span that a text spells: what `humantime` reads from it, and
/// nothing where the text is not readable as a time span.
pub open spec fn spec_duration(s: Seq<char>) -> Option<(u64, u32)> {
    if spec_readable(s) {
        humantime_duration(s)
    } else {
        None
    }
}

/// The time span that a text such as `15days 2min 2s` spells, in whole
/// seconds and the nanoseconds beyond them. A text with a number of ten
/// digits or more, or with more than a hundred numbers, is refused
/// unread: a number of seconds of nine digits is more than thirty years.
pub fn read_duration(s: &str) -> (r: Option<(u64, u32)>)
    ensures
        r == spec_duration(s@),
{
    if readable(s) {
        parse_duration(s)
    } else {
        None
    }
}

/// A day, in milliseconds.
pub const DAY: u64 = 86_400_000;

/// Seconds and nanoseconds as whole milliseconds.
pub open spec fn spec_millis(t: (u64, u32)) -> int {
    t.0 * 1000 + t.1 / 1_000_000
}

/// The point in the past that a time span or a date names: the time span
/// back from now, and not before the start of the clock; else the date.
pub open spec fn spec_past(duration: Option<(u64, u32)>, date: Option<(u64, u32)>, now: u64) -> Option<
    u64,
> {
    match duration {
        Some(d) => Some(
            if spec_millis(d) >= now {
                0
            } else {
                (now - spec_millis(d)) as u64
            },
        ),
        None => match date {
            Some(t) => Some(
                if spec_millis(t) > u64::MAX {
                    u64::MAX
                } else {
                    spec_millis(t) as u64
                },
            ),
            None => None,
        },
    }
}

/// Seconds and nanoseconds as whole milliseconds, as far as they can be
/// counted.
pub fn millis(t: (u64, u32)) -> (r: u64)
    ensures
        r == if spec_millis(t) > u64::MAX {
            u64::MAX as int
        } else {
            spec_millis(t)
        },
{
    let sub = (t.1 / 1_000_000) as u64;
    if t.0 > (u64::MAX - sub) / 1000 {
        u64::MAX
    } else {
        t.0 * 1000 + sub
    }
}

/// The point in the past that a time span or a date names.
pub fn past_time(duration: Option<(u64, u32)>, date: Option<(u64, u32)>, now: u64) -> (r: Option<u64>)
    ensures
        r == spec_past(duration, date, now),
{
    match duration {
        Some(d) => {
            let back = millis(d);
            Some(if back >= now {
                0
            } else {
                now - back
            })
        },
        None => match date {
            Some(t) => Some(millis(t)),
            None => None,
        },
    }
}

/// Parses durations in free form like 15days 2min 2s
/// Parses timestamp in RFC 3339/ ISO 8601 format: 2018-01-01T12:53:00Z
pub fn parse_past_datetime(s: &str, now: u64) -> (r: Option<u64>)
    ensures
        r == spec_past(spec_duration(s@), humantime_rfc3339(s@), now),
{
    let duration = read_duration(s);
    let date = match duration {
        Some(_) => None,
        None => parse_rfc3339(s),
    };
    past_time(duration, date, now)
}

/// The time from which `show history` lists the entries: the time that
/// the text behind the command names; without text, a day ago.
pub fn history_start(line: &str, since: Span, now: u64) -> (r: Option<u64>)
    requires
        since.start <= since.end <= line@.len(),
    ensures
        r == if since.start == since.end {
            Some(if now >= DAY {
                (now - DAY) as u64
            } else {
                0
            })
        } else {
            let t = line@.subrange(since.start as int, since.end as int);
            spec_past(spec_duration(t), humantime_rfc3339(t), now)
        },
{
    if since.start == since.end {
        Some(if now >= DAY {
            now - DAY
        } else {
            0
        })
    } else {
        parse_past_datetime(text(line, since), now)
    }
}

} // verus!
