//! Timestamp text and calendar arithmetic.
//!
//! The forecast carries RFC-3339-style timestamps (the upstream feed also
//! emits them without a seconds field, which the decoder accepts), and the
//! observation report carries `day.month.two-digit-year` with `hour:minute`.
//! Both are converted to milliseconds since the Unix epoch, interpreted in
//! the proleptic Gregorian calendar.
use vstd::prelude::*;

use crate::numbers::digit_val;
use crate::numbers::digit_run_end;
use crate::numbers::is_digit;

verus! {

/// A leap year of the Gregorian calendar.
pub open spec fn is_leap(y: int) -> bool {
    y % 4 == 0 && (y % 100 != 0 || y % 400 == 0)
}

/// The number of days of month `m` in year `y`.
pub open spec fn days_in_month(y: int, m: int) -> int {
    if m == 1 {
        31
    } else if m == 2 {
        if is_leap(y) {
            29
        } else {
            28
        }
    } else if m == 3 {
        31
    } else if m == 4 {
        30
    } else if m == 5 {
        31
    } else if m == 6 {
        30
    } else if m == 7 {
        31
    } else if m == 8 {
        31
    } else if m == 9 {
        30
    } else if m == 10 {
        31
    } else if m == 11 {
        30
    } else {
        31
    }
}

/// A calendar date the decoders accept: four-digit year, real month and
/// day.
pub open spec fn valid_date(y: int, m: int, d: int) -> bool {
    0 <= y <= 9999 && 1 <= m <= 12 && 1 <= d <= days_in_month(y, m)
}

/// Days between a civil date and 1970-01-01, by the standard shift of the
/// year to start in March: eras of 400 years hold exactly 146097 days. The
/// year is first moved 800 years up so every intermediate value stays
/// non-negative over the supported range.
pub open spec fn days_from_civil(y: int, m: int, d: int) -> int {
    let ys = if m <= 2 {
        y + 799
    } else {
        y + 800
    };
    let era = ys / 400;
    let yoe = ys % 400;
    let mp = if m <= 2 {
        m + 9
    } else {
        m - 3
    };
    let doy = (153 * mp + 2) / 5 + d - 1;
    let doe = yoe * 365 + yoe / 4 - yoe / 100 + doy;
    era * 146097 + doe - 2 * 146097 - 719468
}

/// Milliseconds since the Unix epoch of a civil date and UTC time of day.
pub open spec fn civil_ms(y: int, m: int, d: int, h: int, mi: int, sec: int, ms: int) -> int {
    ((days_from_civil(y, m, d) * 24 + h) * 3600 + mi * 60 + sec) * 1000 + ms
}

/// Executable twin of [`civil_ms`].
pub fn epoch_ms(y: i64, m: i64, d: i64, h: i64, mi: i64, sec: i64, ms: i64) -> (r: i64)
    requires
        valid_date(y as int, m as int, d as int),
        0 <= h <= 23,
        0 <= mi <= 59,
        0 <= sec <= 60,
        0 <= ms <= 999,
    ensures
        r == civil_ms(y as int, m as int, d as int, h as int, mi as int, sec as int, ms as int),
{
    let ys: i64 = if m <= 2 {
        y + 799
    } else {
        y + 800
    };
    let era: i64 = ys / 400;
    let yoe: i64 = ys % 400;
    let mp: i64 = if m <= 2 {
        m + 9
    } else {
        m - 3
    };
    let doy: i64 = (153 * mp + 2) / 5 + d - 1;
    let doe: i64 = yoe * 365 + yoe / 4 - yoe / 100 + doy;
    let days: i64 = era * 146097 + doe - 2 * 146097 - 719468;
    ((days * 24 + h) * 3600 + mi * 60 + sec) * 1000 + ms
}

/// Both characters at `i` and `i + 1` are digits.
pub open spec fn is_d2(s: Seq<char>, i: int) -> bool {
    0 <= i && i + 2 <= s.len() && is_digit(s[i]) && is_digit(s[i + 1])
}

/// The value of the two digits at `i`.
pub open spec fn d2(s: Seq<char>, i: int) -> int {
    digit_val(s[i]) * 10 + digit_val(s[i + 1])
}

/// All four characters from `i` on are digits.
pub open spec fn is_d4(s: Seq<char>, i: int) -> bool {
    0 <= i && i + 4 <= s.len() && is_digit(s[i]) && is_digit(s[i + 1]) && is_digit(s[i + 2])
        && is_digit(s[i + 3])
}

/// The value of the four digits at `i`.
pub open spec fn d4(s: Seq<char>, i: int) -> int {
    ((digit_val(s[i]) * 10 + digit_val(s[i + 1])) * 10 + digit_val(s[i + 2])) * 10 + digit_val(
        s[i + 3],
    )
}

/// The milliseconds named by a fraction-of-a-second digit run: the first
/// three digits count, a shorter run is scaled up.
pub open spec fn frac_ms(s: Seq<char>, start: int, end: int) -> int {
    if end - start >= 3 {
        (digit_val(s[start]) * 10 + digit_val(s[start + 1])) * 10 + digit_val(s[start + 2])
    } else if end - start == 2 {
        (digit_val(s[start]) * 10 + digit_val(s[start + 1])) * 10
    } else {
        digit_val(s[start]) * 100
    }
}

/// What an RFC-3339-style timestamp denotes, in epoch milliseconds:
/// `YYYY-MM-DDTHH:MM`, an optional `:SS`, an optional fraction, and a
/// mandatory offset, `Z` or `+HH:MM` or `-HH:MM`. The seconds field is
/// optional here because the upstream feed omits it; everything else
/// follows the RFC's shape. A text of any other shape, or with an
/// impossible date, time or offset, denotes nothing.
pub open spec fn rfc3339_ms(s: Seq<char>) -> Option<int> {
    if s.len() >= 16 && is_d4(s, 0) && s[4] == '-' && is_d2(s, 5) && s[7] == '-' && is_d2(s, 8) && (
    s[10] == 'T' || s[10] == 't') && is_d2(s, 11) && s[13] == ':' && is_d2(s, 14) {
        let y = d4(s, 0);
        let m = d2(s, 5);
        let d = d2(s, 8);
        let h = d2(s, 11);
        let mi = d2(s, 14);
        let p1 = if s.len() >= 19 && s[16] == ':' && is_d2(s, 17) {
            19int
        } else {
            16int
        };
        let sec = if p1 == 19 {
            d2(s, 17)
        } else {
            0int
        };
        let p2 = if p1 < s.len() && s[p1] == '.' {
            digit_run_end(s, p1 + 1)
        } else {
            p1
        };
        let ms = if p2 > p1 {
            frac_ms(s, p1 + 1, p2)
        } else {
            0int
        };
        if p1 < s.len() && s[p1] == '.' && p2 == p1 + 1 {
            // A point with no digit after it.
            None
        } else if !(valid_date(y, m, d) && h <= 23 && mi <= 59 && sec <= 60) {
            None
        } else if p2 < s.len() && (s[p2] == 'Z' || s[p2] == 'z') && p2 + 1 == s.len() {
            Some(civil_ms(y, m, d, h, mi, sec, ms))
        } else if p2 + 6 == s.len() && (s[p2] == '+' || s[p2] == '-') && is_d2(s, p2 + 1) && s[p2
            + 3] == ':' && is_d2(s, p2 + 4) && d2(s, p2 + 1) <= 23 && d2(s, p2 + 4) <= 59 {
            let off = d2(s, p2 + 1) * 60 + d2(s, p2 + 4);
            if s[p2] == '+' {
                Some(civil_ms(y, m, d, h, mi, sec, ms) - off * 60000)
            } else {
                Some(civil_ms(y, m, d, h, mi, sec, ms) + off * 60000)
            }
        } else {
            None
        }
    } else {
        None
    }
}


/// The digits of a digit run: every position before the run's end holds a
/// digit, and the end stays within the text.
pub proof fn lemma_digit_run(s: Seq<char>, i: int)
    requires
        0 <= i <= s.len(),
    ensures
        i <= digit_run_end(s, i) <= s.len(),
        forall|k: int| i <= k < digit_run_end(s, i) ==> is_digit(s[k]),
        digit_run_end(s, i) < s.len() ==> !is_digit(s[digit_run_end(s, i)]),
    decreases s.len() - i,
{
    if i < s.len() && is_digit(s[i]) {
        lemma_digit_run(s, i + 1);
    }
}

/// Executable twin of [`days_in_month`].
fn month_days(y: i64, m: i64) -> (r: i64)
    requires
        0 <= y,
    ensures
        r == days_in_month(y as int, m as int),
{
    let leap: bool = y % 4 == 0 && (y % 100 != 0 || y % 400 == 0);
    if m == 1 {
        31
    } else if m == 2 {
        if leap {
            29
        } else {
            28
        }
    } else if m == 3 {
        31
    } else if m == 4 {
        30
    } else if m == 5 {
        31
    } else if m == 6 {
        30
    } else if m == 7 {
        31
    } else if m == 8 {
        31
    } else if m == 9 {
        30
    } else if m == 10 {
        31
    } else if m == 11 {
        30
    } else {
        31
    }
}

/// Read the two digits at `i`.
fn read_d2(s: &[char], i: usize) -> (r: i64)
    requires
        is_d2(s@, i as int),
    ensures
        r == d2(s@, i as int),
        0 <= r <= 99,
{
    let a = (s[i] as u32 as i64) - 48;
    let b = (s[i + 1] as u32 as i64) - 48;
    a * 10 + b
}

/// Whether the two characters at `i` are digits.
fn check_d2(s: &[char], i: usize) -> (r: bool)
    requires
        i + 2 <= s@.len(),
    ensures
        r == is_d2(s@, i as int),
{
    s[i] >= '0' && s[i] <= '9' && s[i + 1] >= '0' && s[i + 1] <= '9'
}

/// Parse an RFC-3339-style timestamp, exactly as [`rfc3339_ms`] states.
/// The value of any accepted text lies far inside the 64-bit range.
#[verifier::loop_isolation(false)]
#[verifier::rlimit(100)]
pub fn parse_rfc3339_ms(s: &[char]) -> (r: Option<i64>)
    ensures
        match r {
            Some(v) => rfc3339_ms(s@) == Some(v as int),
            None => rfc3339_ms(s@) is None,
        },
{
    if !(s.len() >= 16) {
        return None;
    }
    if !(check_d2(s, 0) && check_d2(s, 2) && s[4] == '-' && check_d2(s, 5) && s[7] == '-'
        && check_d2(s, 8) && (s[10] == 'T' || s[10] == 't') && check_d2(s, 11) && s[13] == ':'
        && check_d2(s, 14)) {
        return None;
    }
    let y = read_d2(s, 0) * 100 + read_d2(s, 2);
    let m = read_d2(s, 5);
    let d = read_d2(s, 8);
    let h = read_d2(s, 11);
    let mi = read_d2(s, 14);
    let p1: usize = if s.len() >= 19 && s[16] == ':' && check_d2(s, 17) {
        19
    } else {
        16
    };
    let sec: i64 = if p1 == 19 {
        read_d2(s, 17)
    } else {
        0
    };
    let mut p2: usize = p1;
    let mut ms: i64 = 0;
    if p1 < s.len() && s[p1] == '.' {
        let mut e: usize = p1 + 1;
        while e < s.len() && s[e] >= '0' && s[e] <= '9'
            invariant
                p1 + 1 <= e <= s@.len(),
                digit_run_end(s@, p1 + 1) == digit_run_end(s@, e as int),
            decreases s@.len() - e,
        {
            e += 1;
        }
        assert(e == digit_run_end(s@, p1 + 1));
        proof {
            lemma_digit_run(s@, p1 + 1);
        }
        if e == p1 + 1 {
            return None;
        }
        p2 = e;
        ms = if e - p1 - 1 >= 3 {
            (read_d2(s, p1 + 1)) * 10 + ((s[p1 + 3] as u32 as i64) - 48)
        } else if e - p1 - 1 == 2 {
            read_d2(s, p1 + 1) * 10
        } else {
            ((s[p1 + 1] as u32 as i64) - 48) * 100
        };
        assert(ms == frac_ms(s@, p1 + 1, p2 as int));
    }
    // Validity of the date and time of day.
    let dim: i64 = month_days(y, m);
    if !(1 <= m && m <= 12 && 1 <= d && d <= dim && h <= 23 && mi <= 59 && sec <= 60) {
        return None;
    }
    let base = epoch_ms(y, m, d, h, mi, sec, ms);
    if p2 < s.len() && (s[p2] == 'Z' || s[p2] == 'z') && p2 + 1 == s.len() {
        return Some(base);
    }
    if s.len() - p2 == 6 && (s[p2] == '+' || s[p2] == '-') && check_d2(s, p2 + 1) && s[p2 + 3]
        == ':' && check_d2(s, p2 + 4) {
        let oh = read_d2(s, p2 + 1);
        let om = read_d2(s, p2 + 4);
        if oh <= 23 && om <= 59 {
            let off = oh * 60 + om;
            if s[p2] == '+' {
                return Some(base - off * 60000);
            } else {
                return Some(base + off * 60000);
            }
        }
    }
    None
}

/// What the observation report's date and time columns denote, in epoch
/// milliseconds: `DD.MM.YY` and `HH:MM`, read as UTC. Two-digit years up
/// to 68 fall in the 2000s, later ones in the 1900s. A pair of any other
/// shape, or naming an impossible date or time, denotes nothing.
pub open spec fn report_ms(date: Seq<char>, time: Seq<char>) -> Option<int> {
    if date.len() == 8 && is_d2(date, 0) && date[2] == '.' && is_d2(date, 3) && date[5] == '.'
        && is_d2(date, 6) && time.len() == 5 && is_d2(time, 0) && time[2] == ':' && is_d2(time, 3) {
        let dd = d2(date, 0);
        let mm = d2(date, 3);
        let yy = d2(date, 6);
        let y = if yy <= 68 {
            2000 + yy
        } else {
            1900 + yy
        };
        let h = d2(time, 0);
        let mi = d2(time, 3);
        if 1 <= mm <= 12 && 1 <= dd <= days_in_month(y, mm) && h <= 23 && mi <= 59 {
            Some(civil_ms(y, mm, dd, h, mi, 0, 0))
        } else {
            None
        }
    } else {
        None
    }
}

/// Parse the report's date and time columns, exactly as [`report_ms`]
/// states.
pub fn parse_report_ms(date: &[char], time: &[char]) -> (r: Option<i64>)
    ensures
        match r {
            Some(v) => report_ms(date@, time@) == Some(v as int),
            None => report_ms(date@, time@) is None,
        },
{
    if !(date.len() == 8 && time.len() == 5) {
        return None;
    }
    if !(check_d2(date, 0) && date[2] == '.' && check_d2(date, 3) && date[5] == '.' && check_d2(
        date,
        6,
    ) && check_d2(time, 0) && time[2] == ':' && check_d2(time, 3)) {
        return None;
    }
    let dd = read_d2(date, 0);
    let mm = read_d2(date, 3);
    let yy = read_d2(date, 6);
    let y: i64 = if yy <= 68 {
        2000 + yy
    } else {
        1900 + yy
    };
    let h = read_d2(time, 0);
    let mi = read_d2(time, 3);
    let dim: i64 = month_days(y, mm);
    if !(1 <= mm && mm <= 12 && 1 <= dd && dd <= dim && h <= 23 && mi <= 59) {
        return None;
    }
    Some(epoch_ms(y, mm, dd, h, mi, 0, 0))
}

} // verus!
