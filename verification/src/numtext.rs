use num_format::ToFormattedString;
use vstd::prelude::*;
use vstd::string::{StrSliceExecFns, StringExecFns};

use crate::amounts::trunc_div;

verus! {

/// The character of a decimal digit value.
pub open spec fn dec_digit(d: int) -> char {
    if d == 0 {
        '0'
    } else if d == 1 {
        '1'
    } else if d == 2 {
        '2'
    } else if d == 3 {
        '3'
    } else if d == 4 {
        '4'
    } else if d == 5 {
        '5'
    } else if d == 6 {
        '6'
    } else if d == 7 {
        '7'
    } else if d == 8 {
        '8'
    } else {
        '9'
    }
}

/// The decimal digits of a natural number, most significant first.
pub open spec fn dec_str_nat(n: nat) -> Seq<char>
    decreases n,
{
    if n < 10 {
        seq![dec_digit(n as int)]
    } else {
        dec_str_nat(n / 10).push(dec_digit((n % 10) as int))
    }
}

/// The decimal rendering of an integer: a leading minus for negatives.
pub open spec fn dec_str_int(n: int) -> Seq<char> {
    if n < 0 {
        seq!['-'] + dec_str_nat((-n) as nat)
    } else {
        dec_str_nat(n as nat)
    }
}

/// Exactly two decimal digits, for a value below one hundred.
pub open spec fn two_digits(n: int) -> Seq<char> {
    seq![dec_digit(n / 10), dec_digit(n % 10)]
}

/// A cents value rendered as a decimal dollar amount with two fraction
/// digits, such as `-117.34`.
pub open spec fn money_text(c: int) -> Seq<char> {
    let m = if c < 0 {
        -c
    } else {
        c
    };
    (if c < 0 {
        seq!['-']
    } else {
        Seq::<char>::empty()
    }) + dec_str_nat((m / 100) as nat) + seq!['.'] + two_digits(m % 100)
}

/// Decimal digits grouped in threes by commas, least significant group last.
pub open spec fn group_digits(s: Seq<char>) -> Seq<char>
    decreases s.len(),
{
    if s.len() <= 3 {
        s
    } else {
        group_digits(s.take(s.len() - 3)) + seq![','] + s.skip(s.len() - 3)
    }
}

/// A cents value rendered for display: whole dollars only (truncated toward
/// zero), grouped by commas, behind a dollar sign.
pub open spec fn amount_display_text(cents: int) -> Seq<char> {
    let dollars = trunc_div(cents, 100);
    seq!['$'] + (if dollars < 0 {
        seq!['-'] + group_digits(dec_str_nat((-dollars) as nat))
    } else {
        group_digits(dec_str_nat(dollars as nat))
    })
}

/// Relies on std's Display implementation for u64: the decimal digits of the
/// value, most significant first.
#[verifier::external_body]
fn u64_to_string(n: u64) -> (s: String)
    ensures
        s@ == dec_str_nat(n as nat),
{
    format!("{}", n)
}

/// Relies on num-format's ToFormattedString with the `en` locale: the decimal
/// digits grouped in threes by commas, with a leading minus for negatives.
#[verifier::external_body]
fn format_grouped(n: i64) -> (s: String)
    ensures
        s@ == (if n < 0 {
            seq!['-'] + group_digits(dec_str_nat((-(n as int)) as nat))
        } else {
            group_digits(dec_str_nat(n as nat))
        }),
{
    n.to_formatted_string(&num_format::Locale::en)
}

/// The magnitude of a 64-bit value, widened so the minimum is representable.
fn magnitude(n: i64) -> (r: u64)
    ensures
        r as int == (if n < 0 {
            -(n as int)
        } else {
            n as int
        }),
{
    if n >= 0 {
        n as u64
    } else if n == i64::MIN {
        9223372036854775808u64
    } else {
        (-n) as u64
    }
}

/// The decimal rendering of a 64-bit integer.
pub fn i64_to_string(n: i64) -> (s: String)
    ensures
        s@ == dec_str_int(n as int),
{
    if n >= 0 {
        u64_to_string(n as u64)
    } else {
        let digits = u64_to_string(magnitude(n));
        let sign: String = "-".to_owned();
        proof {
            reveal_strlit("-");
        }
        let out = sign.concat(digits.as_str());
        proof {
            assert(out@ =~= dec_str_int(n as int));
        }
        out
    }
}

/// A cents value as a decimal dollar amount with two fraction digits.
pub fn cents_text(c: i64) -> (s: String)
    ensures
        s@ == money_text(c as int),
{
    let m = magnitude(c);
    let q: u64 = m / 100;
    let r: u64 = m % 100;
    let mut out: String = if c < 0 {
        "-".to_owned()
    } else {
        "".to_owned()
    };
    proof {
        reveal_strlit("-");
        reveal_strlit("");
        reveal_strlit(".");
        reveal_strlit("0");
    }
    let whole = u64_to_string(q);
    out.append(whole.as_str());
    out.append(".");
    if r < 10 {
        out.append("0");
        let ones = u64_to_string(r);
        out.append(ones.as_str());
        proof {
            assert(dec_str_nat(r as nat) =~= seq![dec_digit(r as int)]);
            assert(two_digits((m as int) % 100) =~= seq!['0'] + dec_str_nat(r as nat));
        }
    } else {
        let frac = u64_to_string(r);
        out.append(frac.as_str());
        proof {
            reveal_with_fuel(dec_str_nat, 2);
            assert(dec_str_nat(r as nat) =~= seq![
                dec_digit(((r as int) / 10) as int),
                dec_digit((r as int) % 10),
            ]);
            assert(two_digits((m as int) % 100) =~= dec_str_nat(r as nat));
        }
    }
    proof {
        assert(out@ =~= money_text(c as int));
    }
    out
}

/// A cents value rendered for display: whole dollars, grouped by commas,
/// behind a dollar sign.
pub fn amount_to_display(cents: i64) -> (s: String)
    ensures
        s@ == amount_display_text(cents as int),
{
    let dollars: i64 = match cents.checked_div(100) {
        Some(d) => d,
        None => 0,
    };
    proof {
        assert(dollars as int == trunc_div(cents as int, 100));
    }
    let grouped = format_grouped(dollars);
    let sign: String = "$".to_owned();
    proof {
        reveal_strlit("$");
    }
    let out = sign.concat(grouped.as_str());
    proof {
        assert(out@ =~= amount_display_text(cents as int));
    }
    out
}


/// At least two digits, zero-padded.
pub open spec fn pad2(n: int) -> Seq<char> {
    if n < 10 {
        seq!['0'] + dec_str_nat(n as nat)
    } else {
        dec_str_nat(n as nat)
    }
}

/// At least four digits, zero-padded.
pub open spec fn pad4(n: int) -> Seq<char> {
    (if n < 10 {
        seq!['0', '0', '0']
    } else if n < 100 {
        seq!['0', '0']
    } else if n < 1000 {
        seq!['0']
    } else {
        Seq::<char>::empty()
    }) + dec_str_nat(n as nat)
}

/// A calendar date rendered as `YYYY-MM-DD`.
pub open spec fn civil_text(y: int, m: int, d: int) -> Seq<char> {
    pad4(y) + seq!['-'] + pad2(m) + seq!['-'] + pad2(d)
}

/// Renders a calendar date as `YYYY-MM-DD`.
pub fn civil_text_exec(y: i32, m: u8, d: u8) -> (s: String)
    requires
        0 <= y <= 9999,
    ensures
        s@ == civil_text(y as int, m as int, d as int),
{
    proof {
        reveal_strlit("-");
        reveal_strlit("0");
        reveal_strlit("00");
        reveal_strlit("000");
        assert("0"@ =~= seq!['0']);
        assert("00"@ =~= seq!['0', '0']);
        assert("000"@ =~= seq!['0', '0', '0']);
        assert("-"@ =~= seq!['-']);
    }
    let mut out: String = String::new();
    if y < 10 {
        out.append("000");
    } else if y < 100 {
        out.append("00");
    } else if y < 1000 {
        out.append("0");
    }
    let ys = u64_to_string(y as u64);
    out.append(ys.as_str());
    out.append("-");
    if m < 10 {
        out.append("0");
    }
    let ms = u64_to_string(m as u64);
    out.append(ms.as_str());
    out.append("-");
    if d < 10 {
        out.append("0");
    }
    let ds = u64_to_string(d as u64);
    out.append(ds.as_str());
    proof {
        assert(out@ =~= civil_text(y as int, m as int, d as int));
    }
    out
}

} // verus!
