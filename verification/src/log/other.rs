//! Lines of the other core families.

use vstd::prelude::*;
use vstd::string::*;

use crate::log::clock;
use crate::log::clock::{
    day_number, day_seconds, half_day_after, instant_of, next_day, parse_clock, parse_rfc3339_ms,
    previous_day, Moment, Reading,
};
use crate::log::common;
use crate::log::common::{parse_level, take_token};
use crate::log::frame;
use crate::log::frame::StampView;
use crate::log::line::{ParsedLine, ParsedView};
use crate::metadata::log::{LogField, LogTimestamp};
use crate::text;
use crate::text::{
    char_at_byte, chars, collect, find_pattern, is_ascii_digit, parse_digits, rfind_char,
    rfind_whitespace, skip_digits, split_at_first, strip_prefix,
};

verus! {

// ---------------------------------------------------------------------------
// meow: `<rfc 3339> <LEVEL> <target>: <message>`
// ---------------------------------------------------------------------------

pub open spec fn meow_line(line: Seq<char>) -> Option<ParsedView> {
    match common::first_token(line) {
        None => None,
        Some((time, rest)) => match common::first_token(rest) {
            None => None,
            Some((word, rest)) => match (common::level_of(word), text::split_once(rest, ": "@)) {
                (Some(level), Some((target, message))) => if target.len() == 0 {
                    None
                } else {
                    Some(
                        ParsedView {
                            timestamp: Some(
                                StampView {
                                    raw: time,
                                    unix_ms: clock::rfc3339_ms(time),
                                    inferred: false,
                                },
                            ),
                            level,
                            target: Some(target),
                            message,
                            fields: Seq::empty(),
                        },
                    )
                },
                _ => None,
            },
        },
    }
}

pub fn parse_meow(line: &str) -> (r: Option<ParsedLine>)
    ensures
        match r {
            Some(p) => meow_line(line@) == Some(p@),
            None => meow_line(line@) is None,
        },
{
    let (raw_time, rest) = match take_token(line) {
        Some(t) => t,
        None => {
            return None;
        },
    };
    let (word, rest) = match take_token(rest.as_str()) {
        Some(t) => t,
        None => {
            return None;
        },
    };
    let level = match parse_level(word.as_str()) {
        Some(level) => level,
        None => {
            return None;
        },
    };
    let (target, message) = match split_at_first(rest.as_str(), ": ") {
        Some(t) => t,
        None => {
            return None;
        },
    };
    if target.as_str().is_empty() {
        return None;
    }
    let fields: Vec<LogField> = Vec::new();
    assert(frame::field_views(fields@) =~= Seq::empty());
    let unix_ms = parse_rfc3339_ms(raw_time.as_str());
    Some(
        ParsedLine {
            timestamp: Some(LogTimestamp { raw: raw_time, unix_ms, inferred: false }),
            level,
            target: Some(target),
            message,
            fields,
        },
    )
}

// ---------------------------------------------------------------------------
// clash-rs: `yy-mm-dd hh:mm:ss:fraction LEVEL <file>:<line>: <message>`
// ---------------------------------------------------------------------------

/// `s` starts with `dd-dd-dd dd:dd:dd:`, where each `d` is a digit.
pub open spec fn stamp_shape(s: Seq<char>) -> bool {
    &&& s.len() >= 20
    &&& s[2] == '-' && s[5] == '-' && s[8] == ' '
    &&& s[11] == ':' && s[14] == ':' && s[17] == ':'
    &&& text::is_digit(s[0]) && text::is_digit(s[1])
    &&& text::is_digit(s[3]) && text::is_digit(s[4])
    &&& text::is_digit(s[6]) && text::is_digit(s[7])
    &&& text::is_digit(s[9]) && text::is_digit(s[10])
    &&& text::is_digit(s[12]) && text::is_digit(s[13])
    &&& text::is_digit(s[15]) && text::is_digit(s[16])
}

/// Where the time stamp ends: after one to nine digits of a fraction, before a
/// space.
pub open spec fn stamp_end(s: Seq<char>) -> Option<int> {
    let end = text::first_where(s, 18, text::not_digit());
    if stamp_shape(s) && 1 <= end - 18 <= 9 && end < s.len() && s[end] == ' ' {
        Some(end)
    } else {
        None
    }
}

pub fn clash_rs_timestamp_end(cs: &[char]) -> (r: Option<usize>)
    ensures
        match r {
            Some(end) => stamp_end(cs@) == Some(end as int) && 19 <= end <= 27 && end < cs@.len(),
            None => stamp_end(cs@) is None,
        },
{
    if cs.len() < 20 {
        return None;
    }
    if cs[2] != '-' || cs[5] != '-' || cs[8] != ' ' || cs[11] != ':' || cs[14] != ':' || cs[17]
        != ':' {
        return None;
    }
    let starts: [usize; 6] = [0, 3, 6, 9, 12, 15];
    let mut k: usize = 0;
    while k < 6
        invariant
            k <= 6,
            cs@.len() >= 20,
            starts@ == seq![0usize, 3, 6, 9, 12, 15],
            forall|j: int|
                0 <= j < k ==> text::is_digit(cs@[#[trigger] starts@[j] as int])
                    && text::is_digit(cs@[starts@[j] + 1]),
        decreases 6 - k,
    {
        let at: usize = starts[k];
        assert(at <= 15);
        if !is_ascii_digit(cs[at]) || !is_ascii_digit(cs[at + 1]) {
            assert(!stamp_shape(cs@));
            return None;
        }
        k += 1;
    }
    assert(stamp_shape(cs@)) by {
        assert(starts@[0] == 0 && starts@[1] == 3 && starts@[2] == 6);
        assert(starts@[3] == 9 && starts@[4] == 12 && starts@[5] == 15);
    }
    let end = skip_digits(cs, 18);
    if end - 18 >= 1 && end - 18 <= 9 && end < cs.len() && cs[end] == ' ' {
        Some(end)
    } else {
        None
    }
}

pub open spec fn pow10(n: int) -> int
    decreases n,
{
    if n <= 0 {
        1
    } else {
        10 * pow10(n - 1)
    }
}

/// The two-digit number at `i`.
pub open spec fn two(s: Seq<char>, i: int) -> int {
    text::decimal_value(s.subrange(i, i + 2)) as int
}

/// The nanoseconds of a fraction of a second.
pub open spec fn fraction_nanos(digits: Seq<char>) -> int {
    text::decimal_value(digits) * pow10(9 - digits.len())
}

/// The instant of a time stamp that ends at `end`, in the century from 2000 on
/// and at a given offset from UTC.
pub open spec fn stamp_instant(s: Seq<char>, end: int, offset: int) -> Option<i64> {
    let nanos = fraction_nanos(s.subrange(18, end));
    match (
        clock::civil_day(2000 + two(s, 0), two(s, 3), two(s, 6)),
        clock::time_of_day(two(s, 9), two(s, 12), two(s, 15), nanos),
    ) {
        (Some(days), Some((secs, nanos))) => clock::local_instant(days, secs, nanos, offset),
        _ => None,
    }
}

proof fn lemma_decimal_bound(s: Seq<char>)
    requires
        text::all_digits(s),
    ensures
        text::decimal_value(s) < pow10(s.len() as int),
    decreases s.len(),
{
    if s.len() > 0 {
        let rest = s.drop_last();
        assert forall|i: int| 0 <= i < rest.len() implies text::is_digit(#[trigger] rest[i]) by {
            assert(rest[i] == s[i]);
        }
        lemma_decimal_bound(rest);
        assert(text::is_digit(s[s.len() - 1]));
    }
}

/// The number at `from..to`, which holds digits only.
fn digits_value(cs: &[char], from: usize, to: usize) -> (r: u32)
    requires
        from < to <= cs@.len(),
        to - from <= 9,
        text::all_digits(cs@.subrange(from as int, to as int)),
    ensures
        r == text::decimal_value(cs@.subrange(from as int, to as int)),
        r < pow10(to - from),
        r < 1_000_000_000,
{
    let ghost s = cs@.subrange(from as int, to as int);
    proof {
        lemma_decimal_bound(s);
        lemma_pow10_table();
        lemma_pow10_monotonic(to - from, 9);
        assert(text::is_digit(s[0]));
    }
    match parse_digits(cs, from, to) {
        Some(v) => v as u32,
        None => {
            assert(false);
            0
        },
    }
}

proof fn lemma_pow10_table()
    ensures
        pow10(0) == 1,
        pow10(1) == 10,
        pow10(2) == 100,
        pow10(9) == 1_000_000_000,
{
    reveal_with_fuel(pow10, 11);
}

proof fn lemma_pow10_monotonic(a: int, b: int)
    requires
        0 <= a <= b,
    ensures
        1 <= pow10(a) <= pow10(b),
    decreases b,
{
    if a < b {
        lemma_pow10_monotonic(a, b - 1);
    } else if a > 0 {
        lemma_pow10_monotonic(a - 1, b - 1);
    }
}

proof fn lemma_pow10_product(a: int, b: int)
    requires
        0 <= a,
        0 <= b,
    ensures
        pow10(a) * pow10(b) == pow10(a + b),
    decreases a,
{
    if a > 0 {
        lemma_pow10_product(a - 1, b);
        assert(pow10(a) * pow10(b) == 10 * (pow10(a - 1) * pow10(b))) by (nonlinear_arith)
            requires
                pow10(a) == 10 * pow10(a - 1),
        ;
    }
}

/// `value` followed by `zeros` zeros.
fn scale(value: u32, zeros: u32) -> (r: u32)
    requires
        zeros <= 9,
        value * pow10(zeros as int) < 1_000_000_000,
    ensures
        r == value * pow10(zeros as int),
{
    let mut out: u32 = value;
    let mut i: u32 = 0;
    assert(value * pow10(0) == value) by {
        assert(pow10(0) == 1);
    }
    while i < zeros
        invariant
            i <= zeros <= 9,
            out == value * pow10(i as int),
            value * pow10(zeros as int) < 1_000_000_000,
        decreases zeros - i,
    {
        proof {
            lemma_pow10_monotonic(i + 1, zeros as int);
            assert(pow10(i + 1) == 10 * pow10(i as int));
            assert(value * pow10(i + 1) == 10 * (value * pow10(i as int))) by (nonlinear_arith)
                requires
                    pow10(i + 1) == 10 * pow10(i as int),
            ;
            assert(value * pow10(i + 1) <= value * pow10(zeros as int)) by (nonlinear_arith)
                requires
                    pow10(i + 1) <= pow10(zeros as int),
                    value >= 0,
            ;
        }
        out = out * 10;
        i += 1;
    }
    out
}

pub fn clash_rs_unix_ms(cs: &[char], end: usize, offset: i32) -> (r: Option<i64>)
    requires
        stamp_end(cs@) == Some(end as int),
    ensures
        r == stamp_instant(cs@, end as int, offset as int),
{
    proof {
        text::lemma_first_where_bounds(cs@, 18, text::not_digit());
        assert(text::all_digits(cs@.subrange(18, end as int))) by {
            let t = cs@.subrange(18, end as int);
            assert forall|i: int| 0 <= i < t.len() implies text::is_digit(#[trigger] t[i]) by {
                assert(t[i] == cs@[i + 18]);
            }
        }
    }
    let subsecond = digits_value(cs, 18, end);
    let zeros: u32 = (27 - end) as u32;
    proof {
        lemma_pow10_table();
        lemma_pow10_monotonic(0, zeros as int);
        lemma_pow10_product(end - 18, zeros as int);
        assert(subsecond * pow10(zeros as int) < pow10(end - 18) * pow10(zeros as int))
            by (nonlinear_arith)
            requires
                subsecond < pow10(end - 18),
                pow10(zeros as int) >= 1,
        ;
    }
    let nanos = scale(subsecond, zeros);
    let year = digits_value(cs, 0, 2);
    let month = digits_value(cs, 3, 5);
    let day = digits_value(cs, 6, 8);
    let hour = digits_value(cs, 9, 11);
    let minute = digits_value(cs, 12, 14);
    let second = digits_value(cs, 15, 17);
    let days = match day_number(2000 + year as i32, month, day) {
        Some(days) => days,
        None => {
            return None;
        },
    };
    match day_seconds(hour, minute, second, nanos) {
        Some((secs, nanos)) => instant_of(days, secs, nanos, offset),
        None => None,
    }
}

/// The source position and the message around a `: ` at `sep`: the position ends
/// in a colon and digits, and starts after the white space before them.
pub open spec fn source_at(s: Seq<char>, sep: int) -> Option<(Seq<char>, Seq<char>)> {
    let colon = text::last_where(s, sep, text::is_char(':'));
    let digits = s.subrange(colon + 1, sep);
    let start = text::last_where(s, colon, text::space()) + 1;
    if colon < 0 || digits.len() == 0 || !text::all_digits(digits) || start == colon {
        None
    } else {
        Some((s.subrange(start, sep), s.subrange(sep + 2, s.len() as int)))
    }
}

/// The first source position at or after `from`.
pub open spec fn source_from(s: Seq<char>, from: int) -> Option<(Seq<char>, Seq<char>)>
    decreases s.len() - from,
    when 0 <= from
{
    proof {
        text::lemma_find_sub_bounds(s, ": "@, from);
        reveal_strlit(": ");
        assert(": "@.len() == 2);
    }
    match text::find_sub(s, ": "@, from) {
        None => None,
        Some(sep) => match source_at(s, sep) {
            Some(found) => Some(found),
            None => source_from(s, sep + 2),
        },
    }
}

pub fn clash_rs_source(rest: &str) -> (r: Option<(String, String)>)
    ensures
        match r {
            Some(t) => source_from(rest@, 0) == Some((t.0@, t.1@)),
            None => source_from(rest@, 0) is None,
        },
{
    let cs = chars(rest);
    let pat = chars(": ");
    let n: usize = cs.len();
    let mut from: usize = 0;
    proof {
        reveal_strlit(": ");
        assert(": "@.len() == 2);
    }
    while from <= n
        invariant
            cs@ == rest@,
            pat@ == ": "@,
            ": "@.len() == 2,
            n == cs@.len(),
            from <= n,
            source_from(rest@, 0) == source_from(rest@, from as int),
        decreases n - from,
    {
        let sep = match find_pattern(&cs, &pat, from) {
            Some(sep) => sep,
            None => {
                return None;
            },
        };
        match rfind_char(&cs, sep, ':') {
            Some(colon) => {
                let start = match rfind_whitespace(&cs, colon) {
                    Some(i) => i + 1,
                    None => 0usize,
                };
                let digits_end = skip_digits(&cs, colon + 1);
                proof {
                    lemma_digits_between(cs@, colon + 1, sep as int);
                }
                if colon + 1 < sep && digits_end >= sep && start != colon {
                    return Some((collect(&cs, start, sep), collect(&cs, sep + 2, n)));
                }
            },
            None => {},
        }
        from = sep + 2;
    }
    None
}

/// `from..to` holds digits only where the first non-digit is at `to` or later.
proof fn lemma_digits_between(s: Seq<char>, from: int, to: int)
    requires
        0 <= from <= to <= s.len(),
    ensures
        text::all_digits(s.subrange(from, to)) == (text::first_where(s, from, text::not_digit())
            >= to),
{
    text::lemma_first_where_bounds(s, from, text::not_digit());
    let k = text::first_where(s, from, text::not_digit());
    let t = s.subrange(from, to);
    if k >= to {
        assert forall|i: int| 0 <= i < t.len() implies text::is_digit(#[trigger] t[i]) by {
            assert(t[i] == s[i + from]);
        }
    } else {
        assert(t[k - from] == s[k]);
    }
}

pub open spec fn clash_rs_line(line: Seq<char>, offset: int) -> Option<ParsedView> {
    match stamp_end(line) {
        None => None,
        Some(end) => match common::first_token(line.subrange(end, line.len() as int)) {
            None => None,
            Some((word, rest)) => match (common::level_of(word), source_from(rest, 0)) {
                (Some(level), Some((target, message))) => Some(
                    ParsedView {
                        timestamp: Some(
                            StampView {
                                raw: line.subrange(0, end),
                                unix_ms: stamp_instant(line, end, offset),
                                inferred: true,
                            },
                        ),
                        level,
                        target: Some(target),
                        message,
                        fields: Seq::empty(),
                    },
                ),
                _ => None,
            },
        },
    }
}

pub fn parse_clash_rs(line: &str, observed_at: Moment) -> (r: Option<ParsedLine>)
    ensures
        match r {
            Some(p) => clash_rs_line(line@, observed_at.offset as int) == Some(p@),
            None => clash_rs_line(line@, observed_at.offset as int) is None,
        },
{
    let cs = chars(line);
    let end = match clash_rs_timestamp_end(&cs) {
        Some(end) => end,
        None => {
            return None;
        },
    };
    let tail = collect(&cs, end, cs.len());
    let (word, rest) = match take_token(tail.as_str()) {
        Some(t) => t,
        None => {
            return None;
        },
    };
    let level = match parse_level(word.as_str()) {
        Some(level) => level,
        None => {
            return None;
        },
    };
    let (target, message) = match clash_rs_source(rest.as_str()) {
        Some(t) => t,
        None => {
            return None;
        },
    };
    let unix_ms = clash_rs_unix_ms(&cs, end, observed_at.offset);
    let fields: Vec<LogField> = Vec::new();
    assert(frame::field_views(fields@) =~= Seq::empty());
    Some(
        ParsedLine {
            timestamp: Some(LogTimestamp { raw: collect(&cs, 0, end), unix_ms, inferred: true }),
            level,
            target: Some(target),
            message,
            fields,
        },
    )
}

// ---------------------------------------------------------------------------
// premium: `hh:mm:ss LVL [Target] <message>`
// ---------------------------------------------------------------------------

/// A tag in brackets before the message, where there is one without spaces.
pub open spec fn tagged_message(body: Seq<char>) -> (Option<Seq<char>>, Seq<char>) {
    let tagged = match text::after_prefix(body, "["@) {
        Some(rest) => text::split_once(rest, "] "@),
        None => None,
    };
    match tagged {
        Some((tag, message)) => if tag.len() > 0 && !text::contains_sub(tag, " "@) {
            (Some(tag), message)
        } else {
            (None, body)
        },
        None => (None, body),
    }
}

pub fn premium_target(body: &str) -> (r: (Option<String>, String))
    ensures
        (frame::text_view(r.0), r.1@) == tagged_message(body@),
{
    let tagged = match strip_prefix(body, "[") {
        Some(rest) => split_at_first(rest.as_str(), "] "),
        None => None,
    };
    match tagged {
        Some((tag, message)) => if !tag.as_str().is_empty() && !text::contains(tag.as_str(), " ") {
            (Some(tag), message)
        } else {
            (None, body.to_owned())
        },
        None => (None, body.to_owned()),
    }
}

/// The date of a bare time of day. It follows the reading before it, one day on
/// where the clock went back by more than half a day; the first reading is of
/// the day on which it was observed, or of the day before where it lies more
/// than half a day ahead.
pub open spec fn premium_date(time: (u32, u32), at: Moment, last: Option<Reading>) -> Option<i32> {
    match last {
        Some(c) => if clock::time_between((c.secs, c.nanos), time) > clock::HALF_DAY_NANOS {
            clock::following_day(c.days as int)
        } else {
            Some(c.days)
        },
        None => if clock::time_between(time, (at.secs, at.nanos)) > clock::HALF_DAY_NANOS {
            clock::preceding_day(at.days as int)
        } else {
            Some(at.days)
        },
    }
}

/// The instant of a bare time of day, and the reading to go on from.
pub open spec fn premium_instant(time: (u32, u32), at: Moment, last: Option<Reading>) -> (
    Option<i64>,
    Option<Reading>,
) {
    match premium_date(time, at, last) {
        Some(days) => (
            clock::local_instant(days as int, time.0 as int, time.1 as int, at.offset as int),
            Some(Reading { days, secs: time.0, nanos: time.1 }),
        ),
        None => (None, last),
    }
}

pub fn premium_unix_ms(
    time: (u32, u32),
    observed_at: Moment,
    clock: &mut Option<Reading>,
) -> (r: Option<i64>)
    ensures
        (r, *final(clock)) == premium_instant(time, observed_at, *old(clock)),
{
    let date = match *clock {
        Some(c) => if half_day_after((c.secs, c.nanos), time) {
            next_day(c.days)
        } else {
            Some(c.days)
        },
        None => if half_day_after(time, (observed_at.secs, observed_at.nanos)) {
            previous_day(observed_at.days)
        } else {
            Some(observed_at.days)
        },
    };
    match date {
        Some(days) => {
            *clock = Some(Reading { days, secs: time.0, nanos: time.1 });
            instant_of(days, time.0, time.1, observed_at.offset)
        },
        None => None,
    }
}

/// The place of the space at byte `n`.
pub open spec fn space_at_byte(s: Seq<char>, n: int) -> Option<int> {
    match text::byte_index(s, n) {
        Some(k) => if k < s.len() && s[k] == ' ' {
            Some(k)
        } else {
            None
        },
        None => None,
    }
}

/// What a premium line says, and the clock reading after it.
pub open spec fn premium_line(line: Seq<char>, at: Moment, last: Option<Reading>) -> (
    Option<ParsedView>,
    Option<Reading>,
) {
    match (space_at_byte(line, 8), space_at_byte(line, 12)) {
        (Some(a), Some(b)) => {
            let raw = line.subrange(0, a);
            match (
                clock::clock_reading(raw, "%H:%M:%S"@),
                common::level_of(line.subrange(a + 1, b)),
            ) {
                (Some(time), Some(level)) => {
                    let (target, message) = tagged_message(
                        line.subrange(b + 1, line.len() as int),
                    );
                    let (unix_ms, next) = premium_instant(time, at, last);
                    (
                        Some(
                            ParsedView {
                                timestamp: Some(StampView { raw, unix_ms, inferred: true }),
                                level,
                                target,
                                message,
                                fields: Seq::empty(),
                            },
                        ),
                        next,
                    )
                },
                _ => (None, last),
            }
        },
        _ => (None, last),
    }
}

fn find_space_at_byte(cs: &[char], n: usize) -> (r: Option<usize>)
    ensures
        match r {
            Some(k) => space_at_byte(cs@, n as int) == Some(k as int) && k < cs@.len(),
            None => space_at_byte(cs@, n as int) is None,
        },
{
    match char_at_byte(cs, n) {
        Some(k) => if k < cs.len() && cs[k] == ' ' {
            Some(k)
        } else {
            None
        },
        None => None,
    }
}

/// A character at a greater byte stands later.
proof fn lemma_byte_index_order(s: Seq<char>, m: int, n: int)
    requires
        0 <= m < n,
        byte_found(s, m),
        byte_found(s, n),
    ensures
        text::byte_index(s, m)->0 < text::byte_index(s, n)->0,
    decreases s.len(),
{
    if m > 0 {
        let w = text::char_width(s[0]) as int;
        lemma_byte_index_order(s.drop_first(), m - w, n - w);
    } else {
        lemma_byte_index_nonneg(s.drop_first(), n - text::char_width(s[0]));
    }
}

spec fn byte_found(s: Seq<char>, n: int) -> bool {
    text::byte_index(s, n) is Some
}

proof fn lemma_byte_index_nonneg(s: Seq<char>, n: int)
    ensures
        text::byte_index(s, n) is Some ==> text::byte_index(s, n)->0 >= 0,
    decreases s.len(),
{
    if n != 0 && s.len() > 0 && n >= text::char_width(s[0]) {
        lemma_byte_index_nonneg(s.drop_first(), n - text::char_width(s[0]));
    }
}

pub fn parse_premium(
    line: &str,
    observed_at: Moment,
    clock: &mut Option<Reading>,
) -> (r: Option<ParsedLine>)
    ensures
        match r {
            Some(p) => premium_line(line@, observed_at, *old(clock)) == (Some(p@), *final(clock)),
            None => premium_line(line@, observed_at, *old(clock)) == (
                None::<ParsedView>,
                *final(clock),
            ),
        },
{
    let cs = chars(line);
    let n: usize = cs.len();
    let first = match find_space_at_byte(&cs, 8) {
        Some(k) => k,
        None => {
            return None;
        },
    };
    let second = match find_space_at_byte(&cs, 12) {
        Some(k) => k,
        None => {
            return None;
        },
    };
    proof {
        lemma_byte_index_order(cs@, 8, 12);
    }
    let raw_time = collect(&cs, 0, first);
    let time = match parse_clock(raw_time.as_str(), "%H:%M:%S") {
        Some(t) => t,
        None => {
            return None;
        },
    };
    let level = match parse_level(collect(&cs, first + 1, second).as_str()) {
        Some(level) => level,
        None => {
            return None;
        },
    };
    let (target, message) = premium_target(collect(&cs, second + 1, n).as_str());
    let unix_ms = premium_unix_ms(time, observed_at, clock);
    let fields: Vec<LogField> = Vec::new();
    assert(frame::field_views(fields@) =~= Seq::empty());
    Some(
        ParsedLine {
            timestamp: Some(LogTimestamp { raw: raw_time, unix_ms, inferred: true }),
            level,
            target,
            message,
            fields,
        },
    )
}

proof fn lemma_found_first(s: Seq<char>, pat: Seq<char>, n: int)
    requires
        text::matches_at(s, pat, n),
        forall|j: int| 0 <= j < n ==> !#[trigger] text::matches_at(s, pat, j),
    ensures
        text::find_sub(s, pat, 0) == Some(n),
{
    text::lemma_find_sub_bounds(s, pat, 0);
}

/// A line that a meow core writes (the time, the level, the part of the core and the
/// message) is read back.
pub proof fn law_meow_lines_are_read_back(
    time: Seq<char>,
    word: Seq<char>,
    target: Seq<char>,
    message: Seq<char>,
)
    requires
        time.len() > 0,
        forall|i: int| 0 <= i < time.len() ==> !text::is_space(#[trigger] time[i]),
        word.len() > 0,
        forall|i: int| 0 <= i < word.len() ==> !text::is_space(#[trigger] word[i]),
        common::level_of(word) is Some,
        target.len() > 0,
        !text::is_space(target[0]),
        forall|i: int| 0 <= i < target.len() ==> #[trigger] target[i] != ':' || (i + 1
            < target.len() && target[i + 1] != ' '),
    ensures
        meow_line(time + seq![' '] + (word + seq![' '] + (target + seq![':', ' '] + message)))
            == Some(
            ParsedView {
                timestamp: Some(
                    StampView { raw: time, unix_ms: clock::rfc3339_ms(time), inferred: false },
                ),
                level: common::level_of(word)->0,
                target: Some(target),
                message,
                fields: Seq::empty(),
            },
        ),
{
    reveal_strlit(": ");
    assert(": "@.len() == 2 && ": "@[0] == ':' && ": "@[1] == ' ');
    let rest = target + seq![':', ' '] + message;
    let middle = word + seq![' '] + rest;
    assert(rest[0] == target[0]);
    assert(middle[0] == word[0]);
    common::law_words_are_taken_off(time, middle);
    common::law_words_are_taken_off(word, rest);
    let n = target.len() as int;
    assert(rest.subrange(n, n + 2) =~= ": "@);
    assert forall|j: int| 0 <= j < n implies !#[trigger] text::matches_at(rest, ": "@, j) by {
        assert(rest[j] == target[j]);
        if j + 2 <= rest.len() {
            assert(rest.subrange(j, j + 2)[0] == rest[j]);
            assert(rest.subrange(j, j + 2)[1] == rest[j + 1]);
            if j + 1 < n {
                assert(rest[j + 1] == target[j + 1]);
            }
        }
    }
    lemma_found_first(rest, ": "@, n);
    assert(rest.subrange(0, n) =~= target);
    assert(rest.subrange(n + 2, rest.len() as int) =~= message);
}

/// A source position that a clash-rs core writes before a message (a path, a colon and
/// a line) is told apart from the message.
pub proof fn law_sources_are_read_back(
    path: Seq<char>,
    line: Seq<char>,
    message: Seq<char>,
)
    requires
        path.len() > 0,
        forall|i: int|
            0 <= i < path.len() ==> #[trigger] path[i] != ':' && !text::is_space(path[i]),
        line.len() > 0,
        text::all_digits(line),
    ensures
        source_from(path + seq![':'] + line + seq![':', ' '] + message, 0) == Some(
            (path + seq![':'] + line, message),
        ),
{
    reveal_strlit(": ");
    assert(": "@.len() == 2 && ": "@[0] == ':' && ": "@[1] == ' ');
    let head = path + seq![':'] + line;
    let s = head + seq![':', ' '] + message;
    let colon = path.len() as int;
    let sep = head.len() as int;
    assert(s.subrange(sep, sep + 2) =~= ": "@);
    assert forall|j: int| 0 <= j < sep implies !#[trigger] text::matches_at(s, ": "@, j) by {
        assert(s.subrange(j, j + 2)[0] == s[j]);
        assert(s.subrange(j, j + 2)[1] == s[j + 1]);
        if j < colon {
            assert(s[j] == path[j]);
        } else if j == colon {
            assert(s[j + 1] == line[0]);
        } else {
            assert(s[j] == line[j - colon - 1]);
        }
    }
    lemma_found_first(s, ": "@, sep);
    assert(s[colon] == ':');
    assert forall|j: int| colon < j < sep implies #[trigger] s[j] != ':' by {
        assert(s[j] == line[j - colon - 1]);
    }
    lemma_last(s, sep, text::is_char(':'), colon);
    assert forall|j: int| 0 <= j < colon implies !text::space()(#[trigger] s[j]) by {
        assert(s[j] == path[j]);
    }
    lemma_last(s, colon, text::space(), -1);
    assert(s.subrange(colon + 1, sep) =~= line);
    assert(s.subrange(0, sep) =~= head);
    assert(s.subrange(sep + 2, s.len() as int) =~= message);
}

proof fn lemma_last(s: Seq<char>, end: int, p: spec_fn(char) -> bool, r: int)
    requires
        -1 <= r < end <= s.len() || (r == -1 && end == 0),
        r >= 0 ==> p(s[r]),
        forall|j: int| r < j < end ==> !p(#[trigger] s[j]),
    ensures
        text::last_where(s, end, p) == r,
    decreases end,
{
    if end > 0 && end - 1 > r {
        assert(!p(s[end - 1]));
        lemma_last(s, end - 1, p, r);
    }
}

/// A tag that stands in brackets before a message is told apart from it, and a message
/// without one is kept whole.
pub proof fn law_tags_are_told_apart(tag: Seq<char>, message: Seq<char>)
    ensures
        tag.len() > 0 && (forall|i: int| 0 <= i < tag.len() ==> #[trigger] tag[i] != ' ')
            ==> tagged_message(seq!['['] + (tag + seq![']', ' '] + message)) == (
            Some(tag),
            message,
        ),
        message.len() == 0 || message[0] != '[' ==> tagged_message(message) == (
            None::<Seq<char>>,
            message,
        ),
{
    reveal_strlit("[");
    reveal_strlit("] ");
    reveal_strlit(" ");
    assert("["@.len() == 1 && "["@[0] == '[');
    assert("] "@.len() == 2 && "] "@[0] == ']' && "] "@[1] == ' ');
    assert(" "@.len() == 1 && " "@[0] == ' ');
    let rest = tag + seq![']', ' '] + message;
    let body = seq!['['] + rest;
    let n = tag.len() as int;
    assert(body.subrange(0, 1) =~= "["@);
    assert(body.subrange(1, body.len() as int) =~= rest);
    if message.len() > 0 {
        assert(message.subrange(0, 1)[0] == message[0]);
    }
    if n > 0 && (forall|i: int| 0 <= i < n ==> #[trigger] tag[i] != ' ') {
        assert(rest.subrange(n, n + 2) =~= "] "@);
        assert forall|j: int| 0 <= j < n implies !#[trigger] text::matches_at(rest, "] "@, j) by {
            assert(rest.subrange(j, j + 2)[1] == rest[j + 1]);
            if j + 1 < n {
                assert(rest[j + 1] == tag[j + 1]);
            }
        }
        lemma_found_first(rest, "] "@, n);
        assert(rest.subrange(0, n) =~= tag);
        assert(rest.subrange(n + 2, rest.len() as int) =~= message);
        assert forall|j: int| 0 <= j implies !#[trigger] text::matches_at(tag, " "@, j) by {
            if j + 1 <= n {
                assert(tag.subrange(j, j + 1)[0] == tag[j]);
            }
        }
        text::lemma_find_sub_bounds(tag, " "@, 0);
    }
}

/// A bare time of day is of the day of the reading before it or of the day after, and
/// of the day after exactly where the clock went back by more than twelve hours. The
/// first one is of the day on which it was observed, or of the day before where it is
/// more than twelve hours ahead.
pub proof fn law_bare_times_follow_each_other(time: (u32, u32), at: Moment, last: Option<Reading>)
    requires
        time.1 < 1_000_000_000,
        at.nanos < 1_000_000_000,
        last matches Some(c) ==> c.nanos < 1_000_000_000,
    ensures
        premium_date(time, at, last) matches Some(day) ==> match last {
            Some(c) => day == (if (c.secs - time.0) * 1_000_000_000 + (c.nanos - time.1)
                > 43_200_000_000_000 {
                c.days + 1
            } else {
                c.days as int
            }),
            None => day == (if (time.0 - at.secs) * 1_000_000_000 + (time.1 - at.nanos)
                > 43_200_000_000_000 {
                at.days - 1
            } else {
                at.days as int
            }),
        },
        premium_date(time, at, last) matches Some(day) ==> premium_instant(time, at, last).1
            == Some(Reading { days: day, secs: time.0, nanos: time.1 }) && premium_instant(
            time,
            at,
            last,
        ).0 == clock::local_instant(
            day as int,
            time.0 as int,
            time.1 as int,
            at.offset as int,
        ),
        premium_date(time, at, last) is None ==> premium_instant(time, at, last).1 == last,
{
}

/// A premium line is a time, a level and a body, with a blank between them; nothing
/// of it is lost.
pub proof fn law_premium_lines_are_read(line: Seq<char>, at: Moment, last: Option<Reading>)
    requires
        premium_line(line, at, last).0 is Some,
    ensures
        exists|raw: Seq<char>, word: Seq<char>, body: Seq<char>| #[trigger]
            (raw + seq![' '] + word + seq![' '] + body) == line && premium_reads(
                premium_line(line, at, last).0->0,
                raw,
                word,
                body,
            ),
{
    let a = space_at_byte(line, 8)->0;
    let b = space_at_byte(line, 12)->0;
    lemma_byte_index_nonneg(line, 8);
    lemma_byte_index_order(line, 8, 12);
    let raw = line.subrange(0, a);
    let word = line.subrange(a + 1, b);
    let body = line.subrange(b + 1, line.len() as int);
    assert(raw + seq![' '] + word + seq![' '] + body =~= line);
}

/// What is read of a premium line that consists of these parts.
pub open spec fn premium_reads(
    p: ParsedView,
    raw: Seq<char>,
    word: Seq<char>,
    body: Seq<char>,
) -> bool {
    &&& p.timestamp matches Some(stamp) && stamp.raw == raw && stamp.inferred
    &&& common::level_of(word) == Some(p.level)
    &&& (p.target, p.message) == tagged_message(body)
    &&& p.fields.len() == 0
}

/// A fraction of a second is worth the same with a zero behind it, and nine digits
/// are nanoseconds.
pub proof fn law_fractions_may_end_in_zeros(digits: Seq<char>)
    requires
        digits.len() <= 9,
    ensures
        digits.len() == 9 ==> fraction_nanos(digits) == text::decimal_value(digits),
        digits.len() < 9 ==> fraction_nanos(digits.push('0')) == fraction_nanos(digits),
{
    let v = text::decimal_value(digits) as int;
    let more = digits.push('0');
    assert(more.drop_last() =~= digits);
    assert(text::decimal_value(more) == 10 * v);
    if digits.len() < 9 {
        let p = pow10(9 - more.len());
        assert(pow10(9 - digits.len()) == 10 * p);
        assert((10 * v) * p == v * (10 * p)) by (nonlinear_arith);
    } else {
        assert(pow10(0) == 1);
    }
}

/// A clash-rs line is a time stamp, a level and the rest, in which the source position
/// and the message are found; the time stamp is the beginning of the line.
pub proof fn law_clash_rs_lines_are_read(line: Seq<char>, offset: int)
    requires
        clash_rs_line(line, offset) is Some,
    ensures
        ({
            let p = clash_rs_line(line, offset)->0;
            let end = p.timestamp->0.raw.len() as int;
            &&& p.timestamp is Some
            &&& p.timestamp->0.inferred
            &&& 19 <= end < line.len()
            &&& line[end] == ' '
            &&& p.timestamp->0.raw == line.take(end)
            &&& common::first_token(line.skip(end)) matches Some((word, rest))
                && common::level_of(word) == Some(p.level) && source_from(rest, 0) == Some(
                (p.target->0, p.message),
            )
            &&& p.target is Some
            &&& p.fields.len() == 0
        }),
{
    let end = stamp_end(line)->0;
    assert(line.subrange(0, end) =~= line.take(end));
    assert(line.subrange(end, line.len() as int) =~= line.skip(end));
}

} // verus!
