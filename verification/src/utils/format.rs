//! Wall-clock time formatting: `HH:MM:SS.mmm`, and ISO 8601 stamps in the
//! basic format (for file names) and the extended format (for metadata).

use std::time::{Duration, SystemTime, SystemTimeError};

use vstd::prelude::*;

use crate::text::{
    dec_pad, lemma_dec_pad_len, lemma_dec_pad_order, lemma_lex_concat, lemma_lex_lt_not_eq, lex_lt,
    pow10, push_char, push_dec_pad, push_signed_dec_pad, signed_dec_pad,
};
use crate::utils::calendar::{
    civil_from_days, days_from_civil, lemma_days_from_civil_increasing,
    lemma_days_from_civil_injective, valid_date,
};

verus! {

#[verifier::external_type_specification]
#[verifier::external_body]
pub struct ExSystemTime(SystemTime);

#[verifier::external_type_specification]
#[verifier::external_body]
pub struct ExSystemTimeError(SystemTimeError);

/// Calls `SystemTime::duration_since(UNIX_EPOCH)`: the time elapsed since the
/// Unix epoch, or an error for an instant before it.  Nothing is claimed of
/// the value.
#[verifier::external_body]
fn since_epoch(t: &SystemTime) -> Result<Duration, SystemTimeError> {
    t.duration_since(std::time::UNIX_EPOCH)
}

/// Calls `Duration::as_secs`: the whole seconds of a duration.  Nothing is
/// claimed of the value.
#[verifier::external_body]
fn whole_secs(d: &Duration) -> u64 {
    d.as_secs()
}

/// Calls `Duration::subsec_millis`, which its documentation says is the
/// fractional part of the duration in whole milliseconds, so below 1000.
#[verifier::external_body]
fn subsec_millis(d: &Duration) -> (ms: u32)
    ensures
        ms < 1000,
{
    d.subsec_millis()
}

/// An instant as whole seconds and milliseconds since the Unix epoch.
#[derive(Clone, Copy, PartialEq, Eq, Debug, Structural)]
pub struct EpochInstant {
    pub secs: u64,
    pub millis: u32,
}

/// Seconds and milliseconds since the Unix epoch, zero for an instant before
/// it.
pub fn epoch_parts(t: &SystemTime) -> (r: EpochInstant)
    ensures
        r.millis < 1000,
{
    match since_epoch(t) {
        Ok(d) => EpochInstant { secs: whole_secs(&d), millis: subsec_millis(&d) },
        Err(_) => EpochInstant { secs: 0, millis: 0 },
    }
}

/// Rust's `/` on integers: the quotient rounded toward zero.
pub open spec fn trunc_div(a: int, b: int) -> int {
    if a >= 0 {
        a / b
    } else {
        -((-a) / b)
    }
}

/// Seconds since the epoch of local time `offset_min` minutes east of UTC,
/// in 64-bit arithmetic that wraps as a release build's does.
pub open spec fn local_secs(unix_secs: u64, offset_min: i32) -> i64 {
    (unix_secs as i64).wrapping_add((offset_min * 60) as i64)
}

/// `HH:MM:SS.mmm` of the wall clock `secs` seconds after a midnight (before
/// it, for negative `secs`): the hour, minute and second of the day.
pub open spec fn clock_text(secs: int, millis: nat) -> Seq<char> {
    let s = secs % 60;
    let m = (secs / 60) % 60;
    let h = (secs / 3600) % 24;
    dec_pad(h as nat, 2) + seq![':'] + dec_pad(m as nat, 2) + seq![':'] + dec_pad(s as nat, 2)
        + seq!['.'] + dec_pad(millis, 3)
}

/// The ISO 8601 offset designator: `Z` at UTC, else `+hhmm` / `-hhmm`, with
/// a colon between hours and minutes in the extended format.
pub open spec fn offset_text(offset_min: int, extended: bool) -> Seq<char> {
    if offset_min == 0 {
        seq!['Z']
    } else {
        let a = if offset_min < 0 {
            -offset_min
        } else {
            offset_min
        };
        let sign = if offset_min < 0 {
            '-'
        } else {
            '+'
        };
        seq![sign] + dec_pad((a / 60) as nat, 2) + (if extended {
            seq![':']
        } else {
            Seq::empty()
        }) + dec_pad((a % 60) as nat, 2)
    }
}

/// An ISO 8601 stamp of the date `y-mo-d` and the time `tod` seconds after
/// its midnight: `YYYYMMDDTHHMMSS.mmm` in the basic format,
/// `YYYY-MM-DDTHH:MM:SS.mmm` in the extended one, then the offset.
pub open spec fn stamp_text(
    y: int,
    mo: int,
    d: int,
    tod: int,
    millis: nat,
    offset_min: int,
    extended: bool,
) -> Seq<char> {
    let dsep: Seq<char> = if extended {
        seq!['-']
    } else {
        Seq::empty()
    };
    let tsep: Seq<char> = if extended {
        seq![':']
    } else {
        Seq::empty()
    };
    signed_dec_pad(y, 4) + dsep + dec_pad(mo as nat, 2) + dsep + dec_pad(d as nat, 2) + seq!['T']
        + dec_pad((tod / 3600) as nat, 2) + tsep + dec_pad(((tod / 60) % 60) as nat, 2) + tsep
        + dec_pad((tod % 60) as nat, 2) + seq!['.'] + dec_pad(millis, 3) + offset_text(
        offset_min,
        extended,
    )
}

/// The stamp of the instant `unix_secs` seconds (and `millis` ms) after the
/// epoch, read at `offset_min`: the civil date is the one date whose day
/// count is the local day.
pub open spec fn is_stamp_of(
    s: Seq<char>,
    unix_secs: u64,
    millis: nat,
    offset_min: i32,
    extended: bool,
) -> bool {
    let local = local_secs(unix_secs, offset_min) as int;
    exists|y: int, mo: int, d: int|
        valid_date(y, mo, d) && days_from_civil(y, mo, d) == local / 86400 && s == stamp_text(
            y,
            mo,
            d,
            local % 86400,
            millis,
            offset_min as int,
            extended,
        )
}

proof fn lemma_pow10_small()
    ensures
        pow10(2) == 100,
        pow10(3) == 1000,
        pow10(4) == 10000,
{
    reveal_with_fuel(pow10, 5);
}

/// A clock reading is always twelve characters, `HH:MM:SS.mmm`.
pub proof fn lemma_clock_width(secs: int, millis: nat)
    requires
        millis < 1000,
    ensures
        clock_text(secs, millis).len() == 12,
{
    lemma_pow10_small();
    lemma_dec_pad_len((secs % 60) as nat, 2);
    lemma_dec_pad_len(((secs / 60) % 60) as nat, 2);
    lemma_dec_pad_len(((secs / 3600) % 24) as nat, 2);
    lemma_dec_pad_len(millis, 3);
}

/// A stamp of a four-digit year at a non-zero offset of less than 100 hours
/// has one width whatever the zone: 24 characters basic, 29 extended.
pub proof fn lemma_stamp_width(
    y: int,
    mo: int,
    d: int,
    tod: int,
    millis: nat,
    offset_min: int,
    extended: bool,
)
    requires
        0 <= y <= 9999,
        valid_date(y, mo, d),
        0 <= tod < 86400,
        millis < 1000,
        offset_min != 0,
        -6000 < offset_min < 6000,
    ensures
        stamp_text(y, mo, d, tod, millis, offset_min, extended).len() == if extended {
            29int
        } else {
            24int
        },
{
    lemma_pow10_small();
    lemma_dec_pad_len(y as nat, 4);
    lemma_dec_pad_len(mo as nat, 2);
    lemma_dec_pad_len(d as nat, 2);
    lemma_dec_pad_len((tod / 3600) as nat, 2);
    lemma_dec_pad_len(((tod / 60) % 60) as nat, 2);
    lemma_dec_pad_len((tod % 60) as nat, 2);
    lemma_dec_pad_len(millis, 3);
    let a = if offset_min < 0 {
        -offset_min
    } else {
        offset_min
    };
    lemma_dec_pad_len((a / 60) as nat, 2);
    lemma_dec_pad_len((a % 60) as nat, 2);
}

/// The parts of a list of strings, joined.
pub open spec fn concat_all(parts: Seq<Seq<char>>) -> Seq<char>
    decreases parts.len(),
{
    if parts.len() == 0 {
        Seq::empty()
    } else {
        concat_all(parts.drop_last()) + parts.last()
    }
}

proof fn lemma_concat_all_len(p1: Seq<Seq<char>>, p2: Seq<Seq<char>>)
    requires
        p1.len() == p2.len(),
        forall|j: int| 0 <= j < p1.len() ==> (#[trigger] p1[j]).len() == p2[j].len(),
    ensures
        concat_all(p1).len() == concat_all(p2).len(),
    decreases p1.len(),
{
    if p1.len() > 0 {
        lemma_concat_all_len(p1.drop_last(), p2.drop_last());
    }
}

/// Joined lists of parts of equal widths sort by their first differing
/// part.
proof fn lemma_concat_all_lex(p1: Seq<Seq<char>>, p2: Seq<Seq<char>>, k: int)
    requires
        p1.len() == p2.len(),
        0 <= k < p1.len(),
        forall|j: int| 0 <= j < p1.len() ==> (#[trigger] p1[j]).len() == p2[j].len(),
        forall|j: int| 0 <= j < k ==> #[trigger] p1[j] == p2[j],
        lex_lt(p1[k], p2[k]),
    ensures
        lex_lt(concat_all(p1), concat_all(p2)),
    decreases p1.len(),
{
    let n = p1.len() - 1;
    if k == n {
        assert(p1.drop_last() =~= p2.drop_last());
        lemma_lex_concat(concat_all(p1.drop_last()), p1.last(), concat_all(p2.drop_last()), p2.last());
    } else {
        lemma_concat_all_lex(p1.drop_last(), p2.drop_last(), k);
        lemma_concat_all_len(p1.drop_last(), p2.drop_last());
        lemma_lex_concat(concat_all(p1.drop_last()), p1.last(), concat_all(p2.drop_last()), p2.last());
    }
}

/// The fields of a stamp before its offset, separators included.
pub open spec fn stamp_fields(y: int, mo: int, d: int, tod: int, millis: nat, extended: bool) -> Seq<
    Seq<char>,
> {
    let dsep: Seq<char> = if extended {
        seq!['-']
    } else {
        Seq::empty()
    };
    let tsep: Seq<char> = if extended {
        seq![':']
    } else {
        Seq::empty()
    };
    seq![
        signed_dec_pad(y, 4),
        dsep,
        dec_pad(mo as nat, 2),
        dsep,
        dec_pad(d as nat, 2),
        seq!['T'],
        dec_pad((tod / 3600) as nat, 2),
        tsep,
        dec_pad(((tod / 60) % 60) as nat, 2),
        tsep,
        dec_pad((tod % 60) as nat, 2),
        seq!['.'],
        dec_pad(millis, 3),
    ]
}

proof fn lemma_stamp_is_fields(
    y: int,
    mo: int,
    d: int,
    tod: int,
    millis: nat,
    offset_min: int,
    extended: bool,
)
    ensures
        stamp_text(y, mo, d, tod, millis, offset_min, extended) == concat_all(
            stamp_fields(y, mo, d, tod, millis, extended),
        ) + offset_text(offset_min, extended),
{
    let f = stamp_fields(y, mo, d, tod, millis, extended);
    reveal_with_fuel(concat_all, 14);
    assert(f.drop_last().drop_last().drop_last().drop_last().drop_last().drop_last().drop_last().drop_last().drop_last().drop_last().drop_last().drop_last().drop_last() =~= Seq::<Seq<char>>::empty());
    assert(stamp_text(y, mo, d, tod, millis, offset_min, extended) =~= concat_all(f) + offset_text(
        offset_min,
        extended,
    ));
}

/// The time-of-day fields sort as the seconds do.
proof fn lemma_tod_fields(t1: int, t2: int)
    requires
        0 <= t1 < t2 < 86400,
    ensures
        t1 / 3600 < t2 / 3600 || (t1 / 3600 == t2 / 3600 && ((t1 / 60) % 60 < (t2 / 60) % 60 || ((
        t1 / 60) % 60 == (t2 / 60) % 60 && t1 % 60 < t2 % 60))),
        0 <= t1 / 3600 < 24,
        0 <= t2 / 3600 < 24,
{
    assert(t1 / 60 == 60 * (t1 / 3600) + (t1 / 60) % 60);
    assert(t2 / 60 == 60 * (t2 / 3600) + (t2 / 60) % 60);
    assert(t1 == 60 * (t1 / 60) + t1 % 60);
    assert(t2 == 60 * (t2 / 60) + t2 % 60);
}

proof fn lemma_year_in_range(day: int, y: int, mo: int, d: int)
    requires
        valid_date(y, mo, d),
        days_from_civil(y, mo, d) == day,
        -719528 <= day <= 2932896,
    ensures
        0 <= y <= 9999,
{
    assert(days_from_civil(0, 1, 1) == -719528) by {
        assert(-1int / 400 == -1);
    }
    assert(days_from_civil(9999, 12, 31) == 2932896);
    if y < 0 {
        lemma_days_from_civil_increasing(y, mo, d, 0, 1, 1);
    }
    if y > 9999 {
        lemma_days_from_civil_increasing(9999, 12, 31, y, mo, d);
    }
}

/// An earlier day has the earlier date.
proof fn lemma_day_order(y1: int, mo1: int, d1: int, y2: int, mo2: int, d2: int)
    requires
        valid_date(y1, mo1, d1),
        valid_date(y2, mo2, d2),
        days_from_civil(y1, mo1, d1) < days_from_civil(y2, mo2, d2),
    ensures
        y1 < y2 || (y1 == y2 && (mo1 < mo2 || (mo1 == mo2 && d1 < d2))),
{
    if !(y1 < y2 || (y1 == y2 && (mo1 < mo2 || (mo1 == mo2 && d1 < d2)))) {
        if !(y1 == y2 && mo1 == mo2 && d1 == d2) {
            lemma_days_from_civil_increasing(y2, mo2, d2, y1, mo1, d1);
        }
    }
}

proof fn lemma_fields_widths(y: int, mo: int, d: int, tod: int, millis: nat, extended: bool)
    requires
        0 <= y <= 9999,
        valid_date(y, mo, d),
        0 <= tod < 86400,
        millis < 1000,
    ensures
        ({
            let f = stamp_fields(y, mo, d, tod, millis, extended);
            &&& f.len() == 13
            &&& f[0].len() == 4
            &&& f[2].len() == 2
            &&& f[4].len() == 2
            &&& f[6].len() == 2
            &&& f[8].len() == 2
            &&& f[10].len() == 2
            &&& f[12].len() == 3
            &&& f[1].len() == (if extended { 1int } else { 0int })
            &&& f[3].len() == (if extended { 1int } else { 0int })
            &&& f[5].len() == 1
            &&& f[7].len() == (if extended { 1int } else { 0int })
            &&& f[9].len() == (if extended { 1int } else { 0int })
            &&& f[11].len() == 1
        }),
{
    assert(pow10(2) == 100 && pow10(3) == 1000 && pow10(4) == 10000) by {
        reveal_with_fuel(pow10, 5);
    }
    lemma_dec_pad_len(y as nat, 4);
    lemma_dec_pad_len(mo as nat, 2);
    lemma_dec_pad_len(d as nat, 2);
    lemma_dec_pad_len((tod / 3600) as nat, 2);
    lemma_dec_pad_len(((tod / 60) % 60) as nat, 2);
    lemma_dec_pad_len((tod % 60) as nat, 2);
    lemma_dec_pad_len(millis, 3);
}

/// Stamp fields of an earlier date and time, or the same second and fewer
/// milliseconds, join to the earlier text.
#[verifier::rlimit(40)]
proof fn lemma_fields_order(
    y1: int,
    mo1: int,
    d1: int,
    t1: int,
    ms1: nat,
    y2: int,
    mo2: int,
    d2: int,
    t2: int,
    ms2: nat,
    extended: bool,
)
    requires
        0 <= y1 <= 9999,
        0 <= y2 <= 9999,
        valid_date(y1, mo1, d1),
        valid_date(y2, mo2, d2),
        0 <= t1 < 86400,
        0 <= t2 < 86400,
        ms1 < 1000,
        ms2 < 1000,
        (y1 < y2 || (y1 == y2 && (mo1 < mo2 || (mo1 == mo2 && d1 < d2)))) || (y1 == y2 && mo1
            == mo2 && d1 == d2 && (t1 < t2 || (t1 == t2 && ms1 < ms2))),
    ensures
        lex_lt(
            concat_all(stamp_fields(y1, mo1, d1, t1, ms1, extended)),
            concat_all(stamp_fields(y2, mo2, d2, t2, ms2, extended)),
        ),
        concat_all(stamp_fields(y1, mo1, d1, t1, ms1, extended)).len() == concat_all(
            stamp_fields(y2, mo2, d2, t2, ms2, extended),
        ).len(),
{
    let f1 = stamp_fields(y1, mo1, d1, t1, ms1, extended);
    let f2 = stamp_fields(y2, mo2, d2, t2, ms2, extended);
    lemma_fields_widths(y1, mo1, d1, t1, ms1, extended);
    lemma_fields_widths(y2, mo2, d2, t2, ms2, extended);
    assert(pow10(2) == 100 && pow10(3) == 1000 && pow10(4) == 10000) by {
        reveal_with_fuel(pow10, 5);
    }
    assert forall|j: int| 0 <= j < f1.len() implies (#[trigger] f1[j]).len() == f2[j].len() by {
    }
    let k: int = if y1 < y2 {
        lemma_dec_pad_order(y1 as nat, y2 as nat, 4);
        0
    } else if y1 == y2 && mo1 < mo2 {
        lemma_dec_pad_order(mo1 as nat, mo2 as nat, 2);
        2
    } else if y1 == y2 && mo1 == mo2 && d1 < d2 {
        lemma_dec_pad_order(d1 as nat, d2 as nat, 2);
        4
    } else if t1 < t2 {
        lemma_tod_fields(t1, t2);
        if t1 / 3600 < t2 / 3600 {
            lemma_dec_pad_order((t1 / 3600) as nat, (t2 / 3600) as nat, 2);
            6
        } else if (t1 / 60) % 60 < (t2 / 60) % 60 {
            lemma_dec_pad_order(((t1 / 60) % 60) as nat, ((t2 / 60) % 60) as nat, 2);
            8
        } else {
            lemma_dec_pad_order((t1 % 60) as nat, (t2 % 60) as nat, 2);
            10
        }
    } else {
        lemma_dec_pad_order(ms1, ms2, 3);
        12
    };
    assert forall|j: int| 0 <= j < k implies #[trigger] f1[j] == f2[j] by {
    }
    lemma_concat_all_lex(f1, f2, k);
    lemma_concat_all_len(f1, f2);
}

/// Stamps of one offset and format sort into time order and never collide,
/// for instants from 0000-01-01 to 9999-12-31: a later instant, or the same
/// second a millisecond on, has the later name.
#[verifier::rlimit(30)]
pub proof fn lemma_stamps_sort_by_time(
    a: Seq<char>,
    b: Seq<char>,
    u1: u64,
    ms1: nat,
    u2: u64,
    ms2: nat,
    offset_min: i32,
    extended: bool,
)
    requires
        is_stamp_of(a, u1, ms1, offset_min, extended),
        is_stamp_of(b, u2, ms2, offset_min, extended),
        ms1 < 1000,
        ms2 < 1000,
        -62167219200 <= local_secs(u1, offset_min) <= 253402300799,
        -62167219200 <= local_secs(u2, offset_min) <= 253402300799,
        local_secs(u1, offset_min) < local_secs(u2, offset_min) || (local_secs(u1, offset_min)
            == local_secs(u2, offset_min) && ms1 < ms2),
    ensures
        lex_lt(a, b),
        a != b,
{
    let l1 = local_secs(u1, offset_min) as int;
    let l2 = local_secs(u2, offset_min) as int;
    let day1 = l1 / 86400;
    let day2 = l2 / 86400;
    let t1 = l1 % 86400;
    let t2 = l2 % 86400;
    let w1 = choose|w: (int, int, int)|
        valid_date(w.0, w.1, w.2) && days_from_civil(w.0, w.1, w.2) == day1 && a == stamp_text(
            w.0,
            w.1,
            w.2,
            t1,
            ms1,
            offset_min as int,
            extended,
        );
    let w2 = choose|w: (int, int, int)|
        valid_date(w.0, w.1, w.2) && days_from_civil(w.0, w.1, w.2) == day2 && b == stamp_text(
            w.0,
            w.1,
            w.2,
            t2,
            ms2,
            offset_min as int,
            extended,
        );
    assert(exists|w: (int, int, int)|
        valid_date(w.0, w.1, w.2) && days_from_civil(w.0, w.1, w.2) == day1 && a == stamp_text(
            w.0,
            w.1,
            w.2,
            t1,
            ms1,
            offset_min as int,
            extended,
        )) by {
        let (y, mo, d) = choose|y: int, mo: int, d: int|
            valid_date(y, mo, d) && days_from_civil(y, mo, d) == day1 && a == stamp_text(
                y,
                mo,
                d,
                t1,
                ms1,
                offset_min as int,
                extended,
            );
        assert(valid_date((y, mo, d).0, (y, mo, d).1, (y, mo, d).2));
    }
    assert(exists|w: (int, int, int)|
        valid_date(w.0, w.1, w.2) && days_from_civil(w.0, w.1, w.2) == day2 && b == stamp_text(
            w.0,
            w.1,
            w.2,
            t2,
            ms2,
            offset_min as int,
            extended,
        )) by {
        let (y, mo, d) = choose|y: int, mo: int, d: int|
            valid_date(y, mo, d) && days_from_civil(y, mo, d) == day2 && b == stamp_text(
                y,
                mo,
                d,
                t2,
                ms2,
                offset_min as int,
                extended,
            );
        assert(valid_date((y, mo, d).0, (y, mo, d).1, (y, mo, d).2));
    }
    lemma_year_in_range(day1, w1.0, w1.1, w1.2);
    lemma_year_in_range(day2, w2.0, w2.1, w2.2);
    if day1 < day2 {
        lemma_day_order(w1.0, w1.1, w1.2, w2.0, w2.1, w2.2);
    } else {
        lemma_days_from_civil_injective(w1.0, w1.1, w1.2, w2.0, w2.1, w2.2);
    }
    lemma_fields_order(w1.0, w1.1, w1.2, t1, ms1, w2.0, w2.1, w2.2, t2, ms2, extended);
    lemma_stamp_is_fields(w1.0, w1.1, w1.2, t1, ms1, offset_min as int, extended);
    lemma_stamp_is_fields(w2.0, w2.1, w2.2, t2, ms2, offset_min as int, extended);
    lemma_lex_concat(
        concat_all(stamp_fields(w1.0, w1.1, w1.2, t1, ms1, extended)),
        offset_text(offset_min as int, extended),
        concat_all(stamp_fields(w2.0, w2.1, w2.2, t2, ms2, extended)),
        offset_text(offset_min as int, extended),
    );
    lemma_lex_lt_not_eq(a, b);
}

fn push_two(s: &mut String, n: u64)
    ensures
        final(s)@ == old(s)@ + dec_pad(n as nat, 2),
{
    push_dec_pad(s, n, 2);
}

/// `HH:MM:SS.mmm` of an instant given as seconds and milliseconds since the
/// epoch, `offset_min` minutes east of UTC.
pub fn format_time_parts(unix_secs: u64, millis: u32, offset_min: i32) -> (r: String)
    ensures
        r@ == clock_text(local_secs(unix_secs, offset_min) as int, millis as nat),
{
    let secs = (unix_secs as i64).wrapping_add(offset_min as i64 * 60);
    let s = secs.checked_rem_euclid(60).unwrap();
    let m = secs.checked_div_euclid(60).unwrap().checked_rem_euclid(60).unwrap();
    let h = secs.checked_div_euclid(3600).unwrap().checked_rem_euclid(24).unwrap();
    let mut out = String::new();
    push_two(&mut out, h as u64);
    push_char(&mut out, ':');
    push_two(&mut out, m as u64);
    push_char(&mut out, ':');
    push_two(&mut out, s as u64);
    push_char(&mut out, '.');
    push_dec_pad(&mut out, millis as u64, 3);
    out
}

/// Format an instant as `HH:MM:SS.mmm` on the wall clock `offset_min`
/// minutes from UTC (positive = east of UTC, negative = west, 0 = UTC).
pub fn format_time(t: EpochInstant, offset_min: i32) -> (r: String)
    ensures
        r@ == clock_text(local_secs(t.secs, offset_min) as int, t.millis as nat),
{
    format_time_parts(t.secs, t.millis, offset_min)
}

/// The ISO 8601 offset designator.
fn iso_offset(offset_min: i32, extended: bool) -> (r: String)
    requires
        offset_min != i32::MIN,
    ensures
        r@ == offset_text(offset_min as int, extended),
{
    let mut out = String::new();
    if offset_min == 0 {
        push_char(&mut out, 'Z');
        return out;
    }
    let sign = if offset_min < 0 {
        '-'
    } else {
        '+'
    };
    let a: i32 = if offset_min < 0 {
        -offset_min
    } else {
        offset_min
    };
    push_char(&mut out, sign);
    push_two(&mut out, (a / 60) as u64);
    if extended {
        push_char(&mut out, ':');
    }
    push_two(&mut out, (a % 60) as u64);
    out
}

/// An ISO 8601 stamp of an instant given as seconds and milliseconds since
/// the epoch, at `offset_min`, in the basic or the extended format.
pub fn format_stamp_parts(unix_secs: u64, millis: u32, offset_min: i32, extended: bool) -> (r:
    String)
    requires
        offset_min != i32::MIN,
    ensures
        is_stamp_of(r@, unix_secs, millis as nat, offset_min, extended),
{
    let secs = (unix_secs as i64).wrapping_add(offset_min as i64 * 60);
    let days = secs.checked_div_euclid(86_400).unwrap();
    let tod = secs.checked_rem_euclid(86_400).unwrap();
    let (y, mo, d) = civil_from_days(days);
    let mut out = String::new();
    push_signed_dec_pad(&mut out, y, 4);
    if extended {
        push_char(&mut out, '-');
    }
    push_two(&mut out, mo as u64);
    if extended {
        push_char(&mut out, '-');
    }
    push_two(&mut out, d as u64);
    push_char(&mut out, 'T');
    push_two(&mut out, (tod / 3600) as u64);
    if extended {
        push_char(&mut out, ':');
    }
    push_two(&mut out, ((tod / 60) % 60) as u64);
    if extended {
        push_char(&mut out, ':');
    }
    push_two(&mut out, (tod % 60) as u64);
    push_char(&mut out, '.');
    push_dec_pad(&mut out, millis as u64, 3);
    let off = iso_offset(offset_min, extended);
    let ghost before = out@;
    crate::text::push_str(&mut out, off.as_str());
    proof {
        let sd = stamp_text(
            y as int,
            mo as int,
            d as int,
            tod as int,
            millis as nat,
            offset_min as int,
            extended,
        );
        assert(out@ =~= sd);
        assert(valid_date(y as int, mo as int, d as int));
    }
    out
}

/// Format an instant as an ISO 8601 basic-format stamp with milliseconds,
/// e.g. `20260815T112233.456Z` or `20260815T062233.456-0500`.  The offset
/// designator is always present.
pub fn format_stamp(t: EpochInstant, offset_min: i32) -> (r: String)
    requires
        offset_min != i32::MIN,
    ensures
        is_stamp_of(r@, t.secs, t.millis as nat, offset_min, false),
{
    format_stamp_parts(t.secs, t.millis, offset_min, false)
}

/// Format an instant as an ISO 8601 extended-format timestamp, e.g.
/// `2026-08-15T11:22:33.456Z`.
pub fn format_iso8601(t: EpochInstant, offset_min: i32) -> (r: String)
    requires
        offset_min != i32::MIN,
    ensures
        is_stamp_of(r@, t.secs, t.millis as nat, offset_min, true),
{
    format_stamp_parts(t.secs, t.millis, offset_min, true)
}

} // verus!
