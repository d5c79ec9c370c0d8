//! Rendering of durations, decimal numbers and the reading of a yes/no answer.

use crate::text::{chars_of, trim, trim_range};
use vstd::prelude::*;
use vstd::string::*;

verus! {

/// The character of the decimal digit `d`.
pub open spec fn digit_char(d: nat) -> char {
    if d == 0 {
        '0'
    } else if d == 1 {
        '1'
    } else if d == 2 {
        '2'
    } else if d == 3 {
        '3'
    } else if d == 4 {
        '4'
    } else if d == 5 {
        '5'
    } else if d == 6 {
        '6'
    } else if d == 7 {
        '7'
    } else if d == 8 {
        '8'
    } else {
        '9'
    }
}

/// The decimal numeral of `n`, without leading zeros.
pub open spec fn decimal(n: nat) -> Seq<char>
    decreases n,
{
    if n < 10 {
        seq![digit_char(n)]
    } else {
        decimal(n / 10).push(digit_char(n % 10))
    }
}

/// A duration of `seconds` in days, hours, minutes and seconds, leaving out
/// the leading units that are zero.
pub open spec fn uptime_text(seconds: nat) -> Seq<char> {
    let days = seconds / 86400;
    let hours = (seconds % 86400) / 3600;
    let minutes = (seconds % 3600) / 60;
    let secs = seconds % 60;
    let tail = decimal(secs) + seq!['s'];
    let from_minutes = decimal(minutes) + seq!['m', ' '] + tail;
    let from_hours = decimal(hours) + seq!['h', ' '] + from_minutes;
    if days > 0 {
        decimal(days) + seq!['d', ' '] + from_hours
    } else if hours > 0 {
        from_hours
    } else if minutes > 0 {
        from_minutes
    } else {
        tail
    }
}

/// Whether an answer, once trimmed, is `y` or `yes` in any mix of cases.
pub open spec fn affirmative(answer: Seq<char>) -> bool {
    let t = trim(answer);
    ||| t.len() == 1 && (t[0] == 'y' || t[0] == 'Y')
    ||| t.len() == 3 && (t[0] == 'y' || t[0] == 'Y') && (t[1] == 'e' || t[1] == 'E') && (t[2]
        == 's' || t[2] == 'S')
}

fn digit_str(d: u64) -> (r: &'static str)
    requires
        d < 10,
    ensures
        r@ == seq![digit_char(d as nat)],
{
    proof {
        reveal_strlit("0");
        reveal_strlit("1");
        reveal_strlit("2");
        reveal_strlit("3");
        reveal_strlit("4");
        reveal_strlit("5");
        reveal_strlit("6");
        reveal_strlit("7");
        reveal_strlit("8");
        reveal_strlit("9");
    }
    let r = if d == 0 {
        "0"
    } else if d == 1 {
        "1"
    } else if d == 2 {
        "2"
    } else if d == 3 {
        "3"
    } else if d == 4 {
        "4"
    } else if d == 5 {
        "5"
    } else if d == 6 {
        "6"
    } else if d == 7 {
        "7"
    } else if d == 8 {
        "8"
    } else {
        "9"
    };
    r
}

/// The decimal numeral of `n`.
pub fn decimal_string(n: u64) -> (r: String)
    ensures
        r@ == decimal(n as nat),
    decreases n,
{
    if n < 10 {
        String::from_str(digit_str(n))
    } else {
        let mut s = decimal_string(n / 10);
        s.append(digit_str(n % 10));
        s
    }
}

/// Renders a duration given in seconds, such as `1h 1m 1s`.
pub fn format_uptime(seconds: u64) -> (r: String)
    ensures
        r@ == uptime_text(seconds as nat),
{
    let days = seconds / 86400;
    let hours = (seconds % 86400) / 3600;
    let minutes = (seconds % 3600) / 60;
    let secs = seconds % 60;
    proof {
        reveal_strlit("d ");
        reveal_strlit("h ");
        reveal_strlit("m ");
        reveal_strlit("s");
        assert("d "@ =~= seq!['d', ' ']);
    }
    let mut out = String::new();
    if days > 0 {
        out.append(decimal_string(days).as_str());
        out.append("d ");
    }
    if days > 0 || hours > 0 {
        out.append(decimal_string(hours).as_str());
        out.append("h ");
    }
    if days > 0 || hours > 0 || minutes > 0 {
        out.append(decimal_string(minutes).as_str());
        out.append("m ");
    }
    out.append(decimal_string(secs).as_str());
    out.append("s");
    out
}

/// Whether the user's answer to a yes/no question is a yes. Anything but
/// `y` or `yes`, in any mix of cases and with whitespace around it, is a no.
pub fn is_affirmative(answer: &str) -> (r: bool)
    ensures
        r == affirmative(answer@),
{
    let chars = chars_of(answer);
    let (lo, hi) = trim_range(&chars, 0, chars.len());
    proof {
        assert(chars@.subrange(0, chars.len() as int) =~= answer@);
    }
    if hi - lo == 1 {
        let a = chars[lo];
        a == 'y' || a == 'Y'
    } else if hi - lo == 3 {
        let a = chars[lo];
        let b = chars[lo + 1];
        let c = chars[lo + 2];
        (a == 'y' || a == 'Y') && (b == 'e' || b == 'E') && (c == 's' || c == 'S')
    } else {
        false
    }
}

} // verus!
