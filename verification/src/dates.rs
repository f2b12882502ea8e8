use vstd::prelude::*;
use vstd::string::StrSliceExecFns;

verus! {

/// A leap year of the proleptic Gregorian calendar.
pub open spec fn is_leap_year(y: int) -> bool {
    y % 4 == 0 && (y % 100 != 0 || y % 400 == 0)
}

/// Days in a month of the proleptic Gregorian calendar.
pub open spec fn days_in_month(y: int, m: int) -> int {
    if m == 2 {
        if is_leap_year(y) {
            29
        } else {
            28
        }
    } else if m == 4 || m == 6 || m == 9 || m == 11 {
        30
    } else {
        31
    }
}

/// A valid calendar date within the supported year range.
pub open spec fn valid_date(y: int, m: int, d: int) -> bool {
    &&& 0 <= y <= 9999
    &&& 1 <= m <= 12
    &&& 1 <= d <= days_in_month(y, m)
}

/// Days from the Unix epoch (1970-01-01) to the given date of the proleptic
/// Gregorian calendar; negative for earlier dates. This is the standard
/// civil-calendar day count, written over a year that starts in March so that
/// the leap day falls last.
pub open spec fn days_from_civil(y: int, m: int, d: int) -> int {
    let yy = if m <= 2 {
        y - 1
    } else {
        y
    };
    let era = yy / 400;
    let yoe = yy - era * 400;
    let mp = (m + 9) % 12;
    let doy = (153 * mp + 2) / 5 + d - 1;
    let doe = yoe * 365 + yoe / 4 - yoe / 100 + doy;
    era * 146097 + doe - 719468
}

/// Seconds from the Unix epoch to midnight UTC of the given date.
pub open spec fn unix_of_date(y: int, m: int, d: int) -> int {
    86400 * days_from_civil(y, m, d)
}

/// Relies on time's Date::from_calendar_date, PlainDateTime::assume_utc and
/// OffsetDateTime::unix_timestamp: midnight UTC of a valid calendar date, as
/// seconds since the Unix epoch. The supported years 0 through 9999 keep the
/// result between the timestamps of 0000-01-01 and 9999-12-31.
#[verifier::external_body]
pub(crate) fn civil_to_unix(y: i32, m: u8, d: u8) -> (r: i64)
    requires
        valid_date(y as int, m as int, d as int),
    ensures
        r == unix_of_date(y as int, m as int, d as int),
        -62167219200 <= r <= 253402214400,
{
    let month = time::Month::try_from(m).unwrap();
    let date = time::Date::from_calendar_date(y, month, d).unwrap();
    date.midnight().assume_utc().unix_timestamp()
}

/// Relies on time's OffsetDateTime::from_unix_timestamp and
/// to_calendar_date: the UTC calendar date containing the given second. The
/// bounds are midnight of 0000-01-01 and the last second of 9999-12-31.
#[verifier::external_body]
pub(crate) fn unix_to_civil(ts: i64) -> (r: (i32, u8, u8))
    requires
        -62167219200 <= ts <= 253402300799,
    ensures
        valid_date(r.0 as int, r.1 as int, r.2 as int),
        days_from_civil(r.0 as int, r.1 as int, r.2 as int) == ts / 86400,
{
    let odt = time::OffsetDateTime::from_unix_timestamp(ts).unwrap();
    let (y, month, d) = odt.to_calendar_date();
    (y, month as u8, d)
}

/// The inclusive period the spend report uses for one calendar month: from
/// one second before the month's first midnight UTC to one second before the
/// next month's first midnight, so that transactions stamped exactly at a
/// month boundary fall into one month only.
pub fn month_period(year: i32, month: u8) -> (r: Option<(i64, i64)>)
    ensures
        r is Some <==> (0 <= year <= 9999 && 1 <= month <= 12 && !(year == 9999 && month == 12)),
        r is Some ==> ({
            let p = r->0;
            &&& p.0 == unix_of_date(year as int, month as int, 1) - 1
            &&& p.1 == (if month == 12 {
                unix_of_date(year as int + 1, 1, 1)
            } else {
                unix_of_date(year as int, month as int + 1, 1)
            }) - 1
        }),
{
    if year < 0 || year > 9999 || month < 1 || month > 12 || (year == 9999 && month == 12) {
        return None;
    }
    let start = civil_to_unix(year, month, 1);
    let end = if month == 12 {
        civil_to_unix(year + 1, 1, 1)
    } else {
        civil_to_unix(year, month + 1, 1)
    };
    Some((start - 1, end - 1))
}

/// The value of a decimal digit character.
pub open spec fn digit_val(c: char) -> int {
    c as int - 48
}

/// A decimal digit.
pub open spec fn is_digit(c: char) -> bool {
    '0' <= c && c <= '9'
}

/// The number named by a sequence of decimal digits, most significant first.
pub open spec fn digits_val(s: Seq<char>) -> int
    decreases s.len(),
{
    if s.len() == 0 {
        0
    } else {
        digits_val(s.drop_last()) * 10 + digit_val(s.last())
    }
}

/// All characters are decimal digits.
pub open spec fn all_digits(s: Seq<char>) -> bool {
    forall|i: int| 0 <= i < s.len() ==> is_digit(#[trigger] s[i])
}

/// What a date field of the external format means: exactly `YYYY-MM-DD`, and
/// the three numbers form a valid calendar date.
pub open spec fn spec_parse_date(s: Seq<char>) -> Option<(int, int, int)> {
    if s.len() == 10 && s[4] == '-' && s[7] == '-' && all_digits(s.take(4)) && all_digits(
        s.subrange(5, 7),
    ) && all_digits(s.subrange(8, 10)) {
        let y = digits_val(s.take(4));
        let m = digits_val(s.subrange(5, 7));
        let d = digits_val(s.subrange(8, 10));
        if valid_date(y, m, d) {
            Some((y, m, d))
        } else {
            None
        }
    } else {
        None
    }
}

proof fn lemma_digits_val_bound(s: Seq<char>)
    requires
        all_digits(s),
        s.len() <= 4,
    ensures
        0 <= digits_val(s),
        digits_val(s) < (if s.len() == 0 {
            1int
        } else if s.len() == 1 {
            10int
        } else if s.len() == 2 {
            100int
        } else if s.len() == 3 {
            1000int
        } else {
            10000int
        }),
    decreases s.len(),
{
    if s.len() > 0 {
        assert(all_digits(s.drop_last())) by {
            assert(forall|i: int|
                0 <= i < s.drop_last().len() ==> #[trigger] s.drop_last()[i] == s[i]);
        }
        lemma_digits_val_bound(s.drop_last());
        assert(0 <= digit_val(s.last()) <= 9);
    }
}

/// Reads the digits of `s` between `from` and `to` as a number.
fn read_digits(s: &str, from: usize, to: usize) -> (r: Option<u32>)
    requires
        from <= to <= s@.len(),
        to - from <= 4,
    ensures
        r is Some <==> all_digits(s@.subrange(from as int, to as int)),
        r is Some ==> r->0 as int == digits_val(s@.subrange(from as int, to as int)),
        r is Some ==> r->0 < 10000,
{
    let mut val: u32 = 0;
    let mut i: usize = from;
    proof {
        assert(s@.subrange(from as int, from as int) =~= Seq::<char>::empty());
    }
    while i < to
        invariant
            from <= i <= to,
            to <= s@.len(),
            to - from <= 4,
            all_digits(s@.subrange(from as int, i as int)),
            val as int == digits_val(s@.subrange(from as int, i as int)),
        decreases to - i,
    {
        let c = s.get_char(i);
        if c < '0' || c > '9' {
            proof {
                assert(s@.subrange(from as int, to as int)[i - from] == s@[i as int]);
            }
            return None;
        }
        let digit: u32 = (c as u32) - 48;
        proof {
            lemma_digits_val_bound(s@.subrange(from as int, i as int));
        }
        val = val * 10 + digit;
        proof {
            assert(s@.subrange(from as int, i as int + 1).drop_last() =~= s@.subrange(
                from as int,
                i as int,
            ));
            assert(s@.subrange(from as int, i as int + 1).last() == s@[i as int]);
        }
        i = i + 1;
    }
    proof {
        lemma_digits_val_bound(s@.subrange(from as int, to as int));
    }
    Some(val)
}

/// Parses a date field of the external format (`YYYY-MM-DD`) into the Unix
/// timestamp of its midnight UTC.
pub fn parse_date_to_unix(s: &str) -> (r: Option<i64>)
    ensures
        r is Some <==> spec_parse_date(s@) is Some,
        r is Some ==> {
            let (y, m, d) = spec_parse_date(s@)->0;
            r->0 == unix_of_date(y, m, d)
        },
{
    let n = s.unicode_len();
    if n != 10 {
        return None;
    }
    if s.get_char(4) != '-' || s.get_char(7) != '-' {
        return None;
    }
    let y = match read_digits(s, 0, 4) {
        Some(v) => v,
        None => {
            proof {
                assert(s@.take(4) =~= s@.subrange(0, 4));
            }
            return None;
        },
    };
    proof {
        assert(s@.take(4) =~= s@.subrange(0, 4));
    }
    let m = match read_digits(s, 5, 7) {
        Some(v) => v,
        None => {
            return None;
        },
    };
    let d = match read_digits(s, 8, 10) {
        Some(v) => v,
        None => {
            return None;
        },
    };
    let valid = check_valid_date(y, m, d);
    if !valid {
        return None;
    }
    Some(civil_to_unix(y as i32, m as u8, d as u8))
}

/// Whether the three numbers form a valid calendar date in range.
fn check_valid_date(y: u32, m: u32, d: u32) -> (r: bool)
    ensures
        r <==> valid_date(y as int, m as int, d as int),
{
    if y > 9999 || m < 1 || m > 12 || d < 1 {
        return false;
    }
    let dim: u32 = if m == 2 {
        let leap = y % 4 == 0 && (y % 100 != 0 || y % 400 == 0);
        if leap {
            29
        } else {
            28
        }
    } else if m == 4 || m == 6 || m == 9 || m == 11 {
        30
    } else {
        31
    };
    d <= dim
}

} // verus!
