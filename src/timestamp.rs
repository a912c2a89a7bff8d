//! The upstream timestamp format `YYYY-MM-DD HH:MM:SS`, written in Warsaw local
//! time, and its conversion to and from UTC seconds since the Unix epoch.
use vstd::prelude::*;
use chrono::{Datelike, TimeZone, Timelike};
use crate::api::{digit_char, push_digit};

verus! {

/// Local calendar fields: (year, month, day, hour, minute, second).
pub type Fields = (int, int, int, int, int, int);

/// UTC seconds of a Warsaw local date and time; `None` where the fields name no
/// valid date and time, or a local time that the zone skips or repeats.
pub uninterp spec fn warsaw_utc(y: int, mo: int, d: int, h: int, mi: int, s: int) -> Option<int>;

/// The Warsaw local date and time of an instant given in UTC seconds; `None`
/// outside the representable range.
pub uninterp spec fn warsaw_local(t: int) -> Option<Fields>;

/// Relies on chrono's `NaiveDate::from_ymd_opt` and `NaiveDate::and_hms_opt` to build
/// a calendar date and time, and on chrono-tz's `Europe::Warsaw` through
/// `TimeZone::from_local_datetime` to place it in the zone. A single match is an
/// instant whose local time in the zone is the given one.
#[verifier::external_body]
fn warsaw_to_utc(y: i32, mo: u32, d: u32, h: u32, mi: u32, s: u32) -> (r: Option<i64>)
    ensures
        match r {
            Some(t) => warsaw_utc(y as int, mo as int, d as int, h as int, mi as int, s as int)
                == Some(t as int) && warsaw_local(t as int) == Some(
                (y as int, mo as int, d as int, h as int, mi as int, s as int),
            ),
            None => warsaw_utc(y as int, mo as int, d as int, h as int, mi as int, s as int)
                == None::<int>,
        },
        !in_calendar((y as int, mo as int, d as int, h as int, mi as int, s as int)) ==> r is None,
{
    let ndt = chrono::NaiveDate::from_ymd_opt(y, mo, d)?.and_hms_opt(h, mi, s)?;
    chrono_tz::Europe::Warsaw.from_local_datetime(&ndt).single().map(|dt| dt.timestamp())
}

/// Relies on chrono's `DateTime::from_timestamp` for the instant and on chrono-tz's
/// `Europe::Warsaw` through `DateTime::with_timezone` for its local fields. A local
/// time that occurs once in the zone belongs to one instant: this one.
#[verifier::external_body]
fn utc_to_warsaw(t: i64) -> (r: Option<(i32, u32, u32, u32, u32, u32)>)
    ensures
        match r {
            Some(f) => warsaw_local(t as int) == Some(
                (f.0 as int, f.1 as int, f.2 as int, f.3 as int, f.4 as int, f.5 as int),
            ) && (warsaw_utc(f.0 as int, f.1 as int, f.2 as int, f.3 as int, f.4 as int, f.5 as int)
                is Some ==> warsaw_utc(
                f.0 as int,
                f.1 as int,
                f.2 as int,
                f.3 as int,
                f.4 as int,
                f.5 as int,
            ) == Some(t as int)),
            None => warsaw_local(t as int) == None::<Fields>,
        },
{
    let local = chrono::DateTime::from_timestamp(t, 0)?.with_timezone(&chrono_tz::Europe::Warsaw);
    Some((local.year(), local.month(), local.day(), local.hour(), local.minute(), local.second()))
}

/// Fields within the calendar's ranges (month, day of month, time of day).
pub open spec fn in_calendar(f: Fields) -> bool {
    &&& 1 <= f.1 <= 12
    &&& 1 <= f.2 <= 31
    &&& 0 <= f.3 < 24
    &&& 0 <= f.4 < 60
    &&& 0 <= f.5 < 60
}

pub open spec fn is_digit(c: char) -> bool {
    '0' <= c <= '9'
}

pub open spec fn digit_value(c: char) -> int {
    c as int - '0' as int
}

/// The number written by the `w` characters of `s` from `i` on.
pub open spec fn number_at(s: Seq<char>, i: int, w: nat) -> int
    decreases w,
{
    if w == 0 {
        0
    } else {
        number_at(s, i, (w - 1) as nat) * 10 + digit_value(s[i + w - 1])
    }
}

pub open spec fn digits_at(s: Seq<char>, i: int, w: nat) -> bool {
    forall|j: int| i <= j < i + w ==> is_digit(#[trigger] s[j])
}

/// A well-formed timestamp: `YYYY-MM-DD HH:MM:SS`, every field written in full.
pub open spec fn is_stamp(s: Seq<char>) -> bool {
    &&& s.len() == 19
    &&& digits_at(s, 0, 4)
    &&& s[4] == '-'
    &&& digits_at(s, 5, 2)
    &&& s[7] == '-'
    &&& digits_at(s, 8, 2)
    &&& s[10] == ' '
    &&& digits_at(s, 11, 2)
    &&& s[13] == ':'
    &&& digits_at(s, 14, 2)
    &&& s[16] == ':'
    &&& digits_at(s, 17, 2)
}

/// The fields that a well-formed timestamp writes.
pub open spec fn stamp_fields(s: Seq<char>) -> Fields {
    (
        number_at(s, 0, 4),
        number_at(s, 5, 2),
        number_at(s, 8, 2),
        number_at(s, 11, 2),
        number_at(s, 14, 2),
        number_at(s, 17, 2),
    )
}

/// The last `w` decimal digits of `n`, zero-padded.
pub open spec fn padded(n: int, w: nat) -> Seq<char>
    decreases w,
{
    if w == 0 {
        seq![]
    } else {
        padded(n / 10, (w - 1) as nat).push(digit_char((n % 10) as nat))
    }
}

/// Fields that the format can write: a four-digit year, two digits for the rest.
pub open spec fn writable(f: Fields) -> bool {
    &&& 0 <= f.0 <= 9999
    &&& 0 <= f.1 <= 99
    &&& 0 <= f.2 <= 99
    &&& 0 <= f.3 <= 99
    &&& 0 <= f.4 <= 99
    &&& 0 <= f.5 <= 99
}

/// The timestamp text of the fields.
pub open spec fn stamp_text(f: Fields) -> Seq<char> {
    padded(f.0, 4) + seq!['-'] + padded(f.1, 2) + seq!['-'] + padded(f.2, 2) + seq![' ']
        + padded(f.3, 2) + seq![':'] + padded(f.4, 2) + seq![':'] + padded(f.5, 2)
}

/// The text of an instant in Warsaw local time, where the format can write it.
pub open spec fn stamp_encoding(t: int) -> Option<Seq<char>> {
    match warsaw_local(t) {
        Some(f) => if writable(f) {
            Some(stamp_text(f))
        } else {
            None
        },
        None => None,
    }
}

/// Why a timestamp could not be read or written.
#[derive(Clone, Copy, Debug, PartialEq, Eq, Structural)]
pub enum TimestampError {
    /// The text is not of the form `YYYY-MM-DD HH:MM:SS`.
    Malformed,
    /// The fields name no date and time that occurs exactly once in Warsaw.
    NoSuchLocalTime,
    /// The instant has no local time that the format can write.
    OutOfRange,
}

proof fn lemma_number_bounds(s: Seq<char>, i: int, w: nat)
    requires
        0 <= i,
        i + w <= s.len(),
        digits_at(s, i, w),
    ensures
        0 <= number_at(s, i, w),
        w == 2 ==> number_at(s, i, w) <= 99,
        w == 4 ==> number_at(s, i, w) <= 9999,
    decreases w,
{
    if w > 0 {
        lemma_number_bounds(s, i, (w - 1) as nat);
        assert(is_digit(s[i + w - 1]));
        if w == 2 {
            lemma_number_bounds(s, i, 1);
            assert(number_at(s, i, 0) == 0);
        }
        if w == 4 {
            lemma_number_bounds(s, i, 3);
            lemma_number_bounds(s, i, 2);
            lemma_number_bounds(s, i, 1);
            assert(number_at(s, i, 0) == 0);
        }
    }
}

/// Writing back the number read from digits gives the same digits.
proof fn lemma_padded_number(s: Seq<char>, i: int, w: nat)
    requires
        0 <= i,
        i + w <= s.len(),
        digits_at(s, i, w),
    ensures
        padded(number_at(s, i, w), w) =~= s.subrange(i, i + w),
    decreases w,
{
    if w > 0 {
        let c = s[i + w - 1];
        assert(is_digit(c));
        lemma_number_bounds(s, i, (w - 1) as nat);
        lemma_padded_number(s, i, (w - 1) as nat);
        let n = number_at(s, i, w);
        assert(n / 10 == number_at(s, i, (w - 1) as nat));
        assert(n % 10 == digit_value(c));
        assert(digit_char((n % 10) as nat) == c);
        assert(s.subrange(i, i + w) =~= s.subrange(i, i + w - 1).push(c));
    }
}

/// Reading the digits written for a number gives the number back.
proof fn lemma_number_padded(n: int, w: nat, s: Seq<char>, i: int)
    requires
        0 <= n,
        0 <= i,
        i + w <= s.len(),
        s.subrange(i, i + w) == padded(n, w),
    ensures
        digits_at(s, i, w),
        number_at(s, i, w) == n % pow10(w),
    decreases w,
{
    if w > 0 {
        let p = padded(n / 10, (w - 1) as nat);
        assert(s.subrange(i, i + w - 1) =~= s.subrange(i, i + w).drop_last());
        assert(s.subrange(i, i + w).drop_last() =~= p);
        lemma_number_padded(n / 10, (w - 1) as nat, s, i);
        assert(s[i + w - 1] == s.subrange(i, i + w)[w - 1]);
        assert(s[i + w - 1] == digit_char((n % 10) as nat));
        assert(digit_value(s[i + w - 1]) == n % 10);
        lemma_pow10_mono(0, (w - 1) as nat);
        lemma_mod_step(n, pow10((w - 1) as nat));
    }
}

pub open spec fn pow10(w: nat) -> int
    decreases w,
{
    if w == 0 {
        1
    } else {
        10 * pow10((w - 1) as nat)
    }
}

proof fn lemma_mod_step(n: int, p: int)
    requires
        0 <= n,
        1 <= p,
    ensures
        ((n / 10) % p) * 10 + n % 10 == n % (10 * p),
{
    vstd::arithmetic::div_mod::lemma_breakdown(n, 10, p);
    assert(10 * ((n / 10) % p) == ((n / 10) % p) * 10);
}

/// Reads the number written by `w` digits of `s` from `i` on.
fn read_number(s: &str, i: usize, w: usize) -> (r: u32)
    requires
        w <= 4,
        i + w <= s@.len(),
        digits_at(s@, i as int, w as nat),
    ensures
        r == number_at(s@, i as int, w as nat),
{
    let len = s.unicode_len();
    let mut k: usize = 0;
    let mut acc: u32 = 0;
    while k < w
        invariant
            len == s@.len(),
            k <= w,
            w <= 4,
            i + w <= s@.len(),
            digits_at(s@, i as int, w as nat),
            acc == number_at(s@, i as int, k as nat),
            acc < pow10(k as nat),
        decreases w - k,
    {
        let c = s.get_char(i + k);
        assert(is_digit(s@[i + k]));
        assert(pow10((k + 1) as nat) == 10 * pow10(k as nat));
        proof {
            lemma_pow10_mono(k as nat, 3);
            reveal_with_fuel(pow10, 4);
        }
        acc = acc * 10 + (c as u32 - '0' as u32);
        k = k + 1;
    }
    acc
}

proof fn lemma_pow10_mono(a: nat, b: nat)
    requires
        a <= b,
    ensures
        1 <= pow10(a) <= pow10(b),
    decreases b,
{
    if b > 0 {
        if a < b {
            lemma_pow10_mono(a, (b - 1) as nat);
        } else {
            lemma_pow10_mono((a - 1) as nat, (b - 1) as nat);
        }
    }
}

fn digits_here(s: &str, i: usize, w: usize) -> (r: bool)
    requires
        i + w <= s@.len(),
    ensures
        r == digits_at(s@, i as int, w as nat),
{
    let len = s.unicode_len();
    let mut k: usize = 0;
    while k < w
        invariant
            len == s@.len(),
            k <= w,
            i + w <= s@.len(),
            forall|j: int| i <= j < i + k ==> is_digit(#[trigger] s@[j]),
        decreases w - k,
    {
        let c = s.get_char(i + k);
        if !('0' <= c && c <= '9') {
            return false;
        }
        k = k + 1;
    }
    true
}

/// Reads a timestamp's local fields; `None` where the text is not well-formed.
pub fn parse_stamp(s: &str) -> (r: Option<(i32, u32, u32, u32, u32, u32)>)
    ensures
        match r {
            Some(f) => is_stamp(s@) && stamp_fields(s@) == (
                f.0 as int,
                f.1 as int,
                f.2 as int,
                f.3 as int,
                f.4 as int,
                f.5 as int,
            ),
            None => !is_stamp(s@),
        },
{
    if s.unicode_len() != 19 {
        return None;
    }
    if !(digits_here(s, 0, 4) && s.get_char(4) == '-' && digits_here(s, 5, 2) && s.get_char(7)
        == '-' && digits_here(s, 8, 2) && s.get_char(10) == ' ' && digits_here(s, 11, 2)
        && s.get_char(13) == ':' && digits_here(s, 14, 2) && s.get_char(16) == ':'
        && digits_here(s, 17, 2)) {
        return None;
    }
    let year = read_number(s, 0, 4);
    proof {
        lemma_number_bounds(s@, 0, 4);
    }
    Some(
        (
            year as i32,
            read_number(s, 5, 2),
            read_number(s, 8, 2),
            read_number(s, 11, 2),
            read_number(s, 14, 2),
            read_number(s, 17, 2),
        ),
    )
}

/// Appends the last `w` digits of `n`, zero-padded.
fn push_padded(out: &mut String, n: u32, w: u32)
    ensures
        final(out)@ == old(out)@ + padded(n as int, w as nat),
    decreases w,
{
    if w > 0 {
        push_padded(out, n / 10, w - 1);
        push_digit(out, n % 10);
        assert(final(out)@ =~= old(out)@ + padded(n as int, w as nat));
    }
}

/// Writes local fields as a timestamp; `None` where a field does not fit its width.
pub fn format_stamp(f: (i32, u32, u32, u32, u32, u32)) -> (r: Option<String>)
    ensures
        match r {
            Some(s) => writable(
                (f.0 as int, f.1 as int, f.2 as int, f.3 as int, f.4 as int, f.5 as int),
            ) && s@ == stamp_text(
                (f.0 as int, f.1 as int, f.2 as int, f.3 as int, f.4 as int, f.5 as int),
            ),
            None => !writable(
                (f.0 as int, f.1 as int, f.2 as int, f.3 as int, f.4 as int, f.5 as int),
            ),
        },
{
    if !(0 <= f.0 && f.0 <= 9999 && f.1 <= 99 && f.2 <= 99 && f.3 <= 99 && f.4 <= 99 && f.5
        <= 99) {
        return None;
    }
    let mut out = String::new();
    push_padded(&mut out, f.0 as u32, 4);
    out.append("-");
    push_padded(&mut out, f.1, 2);
    out.append("-");
    push_padded(&mut out, f.2, 2);
    out.append(" ");
    push_padded(&mut out, f.3, 2);
    out.append(":");
    push_padded(&mut out, f.4, 2);
    out.append(":");
    push_padded(&mut out, f.5, 2);
    proof {
        reveal_strlit("-");
        reveal_strlit(" ");
        reveal_strlit(":");
    }
    assert(out@ =~= stamp_text(
        (f.0 as int, f.1 as int, f.2 as int, f.3 as int, f.4 as int, f.5 as int),
    ));
    Some(out)
}

/// Every well-formed timestamp is the text of the fields it writes.
pub proof fn lemma_stamp_text_of_fields(s: Seq<char>)
    requires
        is_stamp(s),
    ensures
        writable(stamp_fields(s)),
        stamp_text(stamp_fields(s)) == s,
{
    lemma_number_bounds(s, 0, 4);
    lemma_number_bounds(s, 5, 2);
    lemma_number_bounds(s, 8, 2);
    lemma_number_bounds(s, 11, 2);
    lemma_number_bounds(s, 14, 2);
    lemma_number_bounds(s, 17, 2);
    lemma_padded_number(s, 0, 4);
    lemma_padded_number(s, 5, 2);
    lemma_padded_number(s, 8, 2);
    lemma_padded_number(s, 11, 2);
    lemma_padded_number(s, 14, 2);
    lemma_padded_number(s, 17, 2);
    assert(stamp_text(stamp_fields(s)) =~= s);
}

/// The text of writable fields is a well-formed timestamp that reads back as them.
pub proof fn lemma_fields_of_stamp_text(f: Fields)
    requires
        writable(f),
    ensures
        is_stamp(stamp_text(f)),
        stamp_fields(stamp_text(f)) == f,
{
    let s = stamp_text(f);
    reveal_with_fuel(pow10, 5);
    lemma_padded_len(f.0, 4);
    lemma_padded_len(f.1, 2);
    lemma_padded_len(f.2, 2);
    lemma_padded_len(f.3, 2);
    lemma_padded_len(f.4, 2);
    lemma_padded_len(f.5, 2);
    assert(s.subrange(0, 4) =~= padded(f.0, 4));
    assert(s.subrange(5, 7) =~= padded(f.1, 2));
    assert(s.subrange(8, 10) =~= padded(f.2, 2));
    assert(s.subrange(11, 13) =~= padded(f.3, 2));
    assert(s.subrange(14, 16) =~= padded(f.4, 2));
    assert(s.subrange(17, 19) =~= padded(f.5, 2));
    lemma_number_padded(f.0, 4, s, 0);
    lemma_number_padded(f.1, 2, s, 5);
    lemma_number_padded(f.2, 2, s, 8);
    lemma_number_padded(f.3, 2, s, 11);
    lemma_number_padded(f.4, 2, s, 14);
    lemma_number_padded(f.5, 2, s, 17);
    assert(pow10(4) == 10000 && pow10(2) == 100);
    vstd::arithmetic::div_mod::lemma_small_mod(f.0 as nat, 10000);
    vstd::arithmetic::div_mod::lemma_small_mod(f.1 as nat, 100);
    vstd::arithmetic::div_mod::lemma_small_mod(f.2 as nat, 100);
    vstd::arithmetic::div_mod::lemma_small_mod(f.3 as nat, 100);
    vstd::arithmetic::div_mod::lemma_small_mod(f.4 as nat, 100);
    vstd::arithmetic::div_mod::lemma_small_mod(f.5 as nat, 100);
}

proof fn lemma_padded_len(n: int, w: nat)
    ensures
        padded(n, w).len() == w,
    decreases w,
{
    if w > 0 {
        lemma_padded_len(n / 10, (w - 1) as nat);
    }
}

/// Reads a Warsaw local timestamp as UTC seconds; fields outside the calendar are
/// rejected. A timestamp that is read
/// writes back as the same text.
pub fn deserialize(s: &str) -> (r: Result<i64, TimestampError>)
    ensures
        match r {
            Ok(t) => {
                &&& is_stamp(s@)
                &&& warsaw_utc(
                    stamp_fields(s@).0,
                    stamp_fields(s@).1,
                    stamp_fields(s@).2,
                    stamp_fields(s@).3,
                    stamp_fields(s@).4,
                    stamp_fields(s@).5,
                ) == Some(t as int)
                &&& stamp_encoding(t as int) == Some(s@)
            },
            Err(TimestampError::Malformed) => !is_stamp(s@),
            Err(TimestampError::NoSuchLocalTime) => is_stamp(s@) && warsaw_utc(
                stamp_fields(s@).0,
                stamp_fields(s@).1,
                stamp_fields(s@).2,
                stamp_fields(s@).3,
                stamp_fields(s@).4,
                stamp_fields(s@).5,
            ) == None::<int>,
            Err(TimestampError::OutOfRange) => false,
        },
        is_stamp(s@) && !in_calendar(stamp_fields(s@)) ==> r == Err::<i64, TimestampError>(
            TimestampError::NoSuchLocalTime,
        ),
{
    match parse_stamp(s) {
        None => Err(TimestampError::Malformed),
        Some(f) => match warsaw_to_utc(f.0, f.1, f.2, f.3, f.4, f.5) {
            Some(t) => {
                proof {
                    lemma_stamp_text_of_fields(s@);
                }
                Ok(t)
            },
            None => Err(TimestampError::NoSuchLocalTime),
        },
    }
}

/// The instant that a well-formed timestamp names, where its local time occurs
/// exactly once in Warsaw.
pub open spec fn stamp_instant(s: Seq<char>) -> Option<int> {
    warsaw_utc(
        stamp_fields(s).0,
        stamp_fields(s).1,
        stamp_fields(s).2,
        stamp_fields(s).3,
        stamp_fields(s).4,
        stamp_fields(s).5,
    )
}

/// Writes UTC seconds as a Warsaw local timestamp. The text written reads back as
/// the same instant wherever its local time occurs once.
pub fn serialize(t: i64) -> (r: Result<String, TimestampError>)
    ensures
        match r {
            Ok(s) => stamp_encoding(t as int) == Some(s@) && is_stamp(s@) && (stamp_instant(
                s@,
            ) is Some ==> stamp_instant(s@) == Some(t as int)),
            Err(e) => e == TimestampError::OutOfRange && stamp_encoding(t as int) == None::<
                Seq<char>,
            >,
        },
{
    match utc_to_warsaw(t) {
        None => Err(TimestampError::OutOfRange),
        Some(f) => match format_stamp(f) {
            Some(s) => {
                proof {
                    lemma_fields_of_stamp_text(
                        (f.0 as int, f.1 as int, f.2 as int, f.3 as int, f.4 as int, f.5 as int),
                    );
                }
                Ok(s)
            },
            None => Err(TimestampError::OutOfRange),
        },
    }
}

} // verus!
