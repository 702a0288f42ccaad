//! Time spent on play, in words.
use vstd::prelude::*;
use vstd::string::StringExecFns;

verus! {

/// The seconds of a day.
pub const DAY_SEC: u64 = 86400;

/// The seconds of an hour.
pub const HOUR_SEC: u64 = 3600;

/// The seconds of a minute.
pub const MIN_SEC: u64 = 60;

/// The character of a decimal digit.
pub open spec fn digit_char(d: nat) -> char {
    if d == 0 {
        '0'
    } else if d == 1 {
        '1'
    } else if d == 2 {
        '2'
    } else if d == 3 {
        '3'
    } else if d == 4 {
        '4'
    } else if d == 5 {
        '5'
    } else if d == 6 {
        '6'
    } else if d == 7 {
        '7'
    } else if d == 8 {
        '8'
    } else {
        '9'
    }
}

/// A number in decimal digits, without leading zeros.
pub open spec fn decimal(n: nat) -> Seq<char>
    decreases n,
{
    if n < 10 {
        seq![digit_char(n)]
    } else {
        decimal(n / 10).push(digit_char(n % 10))
    }
}

/// A number of seconds in its two largest units, the smaller one rounded: days
/// alone from 98 days on, then days and hours, hours and minutes, or minutes
/// and seconds. No time at all is the empty text.
pub open spec fn human_time(d: nat) -> Seq<char> {
    if d == 0 {
        Seq::empty()
    } else if d >= 98 * 86400 {
        decimal(((d - 1 + 43200) / 86400) as nat) + seq!['d']
    } else if d >= 86400 {
        decimal(d / 86400) + seq!['d'] + decimal(((d % 86400 + 1799) / 3600) as nat) + seq!['h']
    } else if d >= 3600 {
        decimal(d / 3600) + seq!['h'] + decimal(((d % 3600 + 29) / 60) as nat) + seq!['m']
    } else {
        decimal(d / 60) + seq!['m'] + decimal(d % 60) + seq!['s']
    }
}

/// The text of a decimal digit.
fn digit_str(d: u64) -> (r: &'static str)
    requires
        d < 10,
    ensures
        r@ == seq![digit_char(d as nat)],
{
    proof {
        reveal_strlit("0");
        reveal_strlit("1");
        reveal_strlit("2");
        reveal_strlit("3");
        reveal_strlit("4");
        reveal_strlit("5");
        reveal_strlit("6");
        reveal_strlit("7");
        reveal_strlit("8");
        reveal_strlit("9");
    }
    let r = if d == 0 {
        "0"
    } else if d == 1 {
        "1"
    } else if d == 2 {
        "2"
    } else if d == 3 {
        "3"
    } else if d == 4 {
        "4"
    } else if d == 5 {
        "5"
    } else if d == 6 {
        "6"
    } else if d == 7 {
        "7"
    } else if d == 8 {
        "8"
    } else {
        "9"
    };
    assert(r@ =~= seq![digit_char(d as nat)]);
    r
}

/// Writes a number in decimal digits at the end of a text.
fn push_decimal(s: &mut String, n: u64)
    ensures
        final(s)@ == old(s)@ + decimal(n as nat),
    decreases n,
{
    if n >= 10 {
        push_decimal(s, n / 10);
    }
    s.append(digit_str(n % 10));
    assert(s@ =~= old(s)@ + decimal(n as nat));
}

/// Writes a number and the letter of its unit at the end of a text.
fn push_amount(s: &mut String, n: u64, unit: &str)
    ensures
        final(s)@ == old(s)@ + decimal(n as nat) + unit@,
{
    push_decimal(s, n);
    s.append(unit);
}

/// A time in seconds as a short text in its two largest units, such as `2h3m`.
/// No time, or none at all, gives the empty text.
pub fn duration_to_human(dur: Option<u64>) -> (r: String)
    ensures
        r@ == human_time(
            match dur {
                Some(secs) => secs as nat,
                None => 0,
            },
        ),
{
    let d: u64 = match dur {
        None => 0,
        Some(secs) => secs,
    };
    let mut out = String::new();
    if d == 0 {
        return out;
    }
    proof {
        reveal_strlit("d");
        reveal_strlit("h");
        reveal_strlit("m");
        reveal_strlit("s");
        assert("d"@ =~= seq!['d']);
        assert("h"@ =~= seq!['h']);
        assert("m"@ =~= seq!['m']);
        assert("s"@ =~= seq!['s']);
    }
    if d >= 98 * DAY_SEC {
        let days = (d - 1) / DAY_SEC + (if (d - 1) % DAY_SEC >= DAY_SEC / 2 {
            1
        } else {
            0
        });
        assert(days == (d - 1 + 43200) / 86400);
        push_amount(&mut out, days, "d");
    } else if d >= DAY_SEC {
        let days = d / DAY_SEC;
        let hours = (d - days * DAY_SEC + HOUR_SEC / 2 - 1) / HOUR_SEC;
        push_amount(&mut out, days, "d");
        push_amount(&mut out, hours, "h");
    } else if d >= HOUR_SEC {
        let hours = d / HOUR_SEC;
        let mins = (d - hours * HOUR_SEC + MIN_SEC / 2 - 1) / MIN_SEC;
        push_amount(&mut out, hours, "h");
        push_amount(&mut out, mins, "m");
    } else {
        let mins = d / MIN_SEC;
        let secs = d - mins * MIN_SEC;
        push_amount(&mut out, mins, "m");
        push_amount(&mut out, secs, "s");
    }
    assert(out@ =~= human_time(d as nat));
    out
}

} // verus!
