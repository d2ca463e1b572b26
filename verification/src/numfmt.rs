//! Decimal text for the dashboard's numeric cells: plain integers,
//! fixed-point values held in hundredths, and the in-game clock.

use vstd::prelude::*;

verus! {

/// The decimal digit character for `d` (0 through 9).
pub open spec fn digit_char(d: int) -> char {
    if d == 0 {
        '0'
    } else if d == 1 {
        '1'
    } else if d == 2 {
        '2'
    } else if d == 3 {
        '3'
    } else if d == 4 {
        '4'
    } else if d == 5 {
        '5'
    } else if d == 6 {
        '6'
    } else if d == 7 {
        '7'
    } else if d == 8 {
        '8'
    } else {
        '9'
    }
}

/// The decimal representation of a natural number, most significant digit
/// first, with no leading zeros (a single '0' for zero).
pub open spec fn spec_dec(n: nat) -> Seq<char>
    decreases n,
{
    if n < 10 {
        seq![digit_char(n as int)]
    } else {
        spec_dec(n / 10) + seq![digit_char((n % 10) as int)]
    }
}

fn digit_str(d: u64) -> (r: &'static str)
    requires
        d < 10,
    ensures
        r@ == seq![digit_char(d as int)],
{
    proof {
        reveal_strlit("0");
        reveal_strlit("1");
        reveal_strlit("2");
        reveal_strlit("3");
        reveal_strlit("4");
        reveal_strlit("5");
        reveal_strlit("6");
        reveal_strlit("7");
        reveal_strlit("8");
        reveal_strlit("9");
    }
    if d == 0 {
        "0"
    } else if d == 1 {
        "1"
    } else if d == 2 {
        "2"
    } else if d == 3 {
        "3"
    } else if d == 4 {
        "4"
    } else if d == 5 {
        "5"
    } else if d == 6 {
        "6"
    } else if d == 7 {
        "7"
    } else if d == 8 {
        "8"
    } else {
        "9"
    }
}

/// Render a natural number in decimal.
pub fn fmt_u64(n: u64) -> (r: String)
    ensures
        r@ == spec_dec(n as nat),
    decreases n,
{
    if n < 10 {
        String::from_str(digit_str(n))
    } else {
        let high = fmt_u64(n / 10);
        high.concat(digit_str(n % 10))
    }
}

/// The text of a fixed-point value held in hundredths: a minus sign when
/// negative, the whole part, a point, then exactly two fraction digits.
pub open spec fn spec_fixed2(v: int) -> Seq<char> {
    let a = if v < 0 {
        -v
    } else {
        v
    };
    let sign: Seq<char> = if v < 0 {
        seq!['-']
    } else {
        Seq::empty()
    };
    sign + spec_dec((a / 100) as nat) + seq!['.'] + seq![
        digit_char((a % 100) / 10),
        digit_char(a % 10),
    ]
}

/// Render a value held in hundredths with two decimal places, as the
/// dashboard shows every numeric telemetry field.
pub fn fmt_fixed2(v: i64) -> (r: String)
    ensures
        r@ == spec_fixed2(v as int),
{
    let a: u64 = if v >= 0 {
        v as u64
    } else {
        ((-(v + 1)) as u64) + 1
    };
    proof {
        assert(a as int == if (v as int) < 0 {
            -(v as int)
        } else {
            v as int
        });
    }
    let whole = fmt_u64(a / 100);
    let frac = a % 100;
    let mut r = if v < 0 {
        String::from_str("-")
    } else {
        String::new()
    };
    r.append(whole.as_str());
    r.append(".");
    r.append(digit_str(frac / 10));
    r.append(digit_str(frac % 10));
    proof {
        reveal_strlit("-");
        reveal_strlit(".");
        assert(r@ =~= spec_fixed2(v as int));
    }
    r
}

/// The clock text for an in-game universal time in seconds, on the game's
/// calendar of 6-hour days and 426-day years: `Y<year> D<day> <h>:<m>:<s>`.
pub open spec fn spec_fmt_ut(ut: int) -> Seq<char> {
    seq!['Y'] + spec_dec((ut / 9201600) as nat) + seq![' ', 'D'] + spec_dec(
        (((ut % 9201600) / 21600)) as nat,
    ) + seq![' '] + spec_dec(((ut % 21600) / 3600) as nat) + seq![':'] + spec_dec(
        ((ut % 3600) / 60) as nat,
    ) + seq![':'] + spec_dec((ut % 60) as nat)
}

/// Render an in-game universal time in seconds as `Y<year> D<day> <h>:<m>:<s>`
/// (6-hour days, 426-day years, so 21600-second days and 9201600-second years).
pub fn fmt_ut(ut: u64) -> (r: String)
    ensures
        r@ == spec_fmt_ut(ut as int),
{
    let y = ut / 9201600;
    let d = (ut % 9201600) / 21600;
    let h = (ut % 21600) / 3600;
    let m = (ut % 3600) / 60;
    let s = ut % 60;
    let mut r = String::from_str("Y");
    r.append(fmt_u64(y).as_str());
    r.append(" D");
    r.append(fmt_u64(d).as_str());
    r.append(" ");
    r.append(fmt_u64(h).as_str());
    r.append(":");
    r.append(fmt_u64(m).as_str());
    r.append(":");
    r.append(fmt_u64(s).as_str());
    proof {
        reveal_strlit("Y");
        reveal_strlit(" D");
        reveal_strlit(" ");
        reveal_strlit(":");
        assert(r@ =~= spec_fmt_ut(ut as int));
    }
    r
}

} // verus!
