//! The text that the block shows for one monitor.

use crate::monitor::{Monitor, MonitorModel};
use vstd::prelude::*;

verus! {

/// The character of one decimal digit.
pub open spec fn digit(d: nat) -> char {
    if d == 0 {
        '0'
    } else if d == 1 {
        '1'
    } else if d == 2 {
        '2'
    } else if d == 3 {
        '3'
    } else if d == 4 {
        '4'
    } else if d == 5 {
        '5'
    } else if d == 6 {
        '6'
    } else if d == 7 {
        '7'
    } else if d == 8 {
        '8'
    } else {
        '9'
    }
}

/// `n` in decimal digits, without leading zeros.
pub open spec fn decimal(n: nat) -> Seq<char>
    decreases n,
{
    if n < 10 {
        seq![digit(n)]
    } else {
        decimal(n / 10).push(digit(n % 10))
    }
}

/// The text shown for a monitor. Two switches pick one of four forms: with or
/// without the resolution, with icons or with plain punctuation.
pub open spec fn rendered(
    m: MonitorModel,
    icons: bool,
    resolution: bool,
    brightness_icon: Seq<char>,
    res_icon: Seq<char>,
) -> Seq<char> {
    let level = decimal(m.brightness as nat);
    if resolution {
        if icons {
            m.name + " "@ + brightness_icon + " "@ + level + " "@ + res_icon + " "@ + m.resolution
        } else {
            m.name + ": "@ + level + " ["@ + m.resolution + "]"@
        }
    } else if icons {
        m.name + " "@ + brightness_icon + " "@ + level
    } else {
        m.name + ": "@ + level
    }
}

fn digit_text(d: u32) -> (r: &'static str)
    requires
        d < 10,
    ensures
        r@ == seq![digit(d as nat)],
{
    proof {
        reveal_strlit("0");
        reveal_strlit("1");
        reveal_strlit("2");
        reveal_strlit("3");
        reveal_strlit("4");
        reveal_strlit("5");
        reveal_strlit("6");
        reveal_strlit("7");
        reveal_strlit("8");
        reveal_strlit("9");
    }
    let r = if d == 0 {
        "0"
    } else if d == 1 {
        "1"
    } else if d == 2 {
        "2"
    } else if d == 3 {
        "3"
    } else if d == 4 {
        "4"
    } else if d == 5 {
        "5"
    } else if d == 6 {
        "6"
    } else if d == 7 {
        "7"
    } else if d == 8 {
        "8"
    } else {
        "9"
    };
    assert(r@ =~= seq![digit(d as nat)]);
    r
}

/// `n` in decimal digits.
pub fn decimal_text(n: u32) -> (s: String)
    ensures
        s@ == decimal(n as nat),
    decreases n,
{
    if n < 10 {
        String::from_str(digit_text(n))
    } else {
        let mut s = decimal_text(n / 10);
        s.append(digit_text(n % 10));
        assert(s@ =~= decimal((n / 10) as nat).push(digit((n % 10) as nat)));
        s
    }
}

/// Renders one monitor in the form that the two switches pick.
pub fn render(m: &Monitor, icons: bool, resolution: bool, brightness_icon: &str, res_icon: &str) -> (s:
    String)
    ensures
        s@ == rendered(m@, icons, resolution, brightness_icon@, res_icon@),
{
    let level = decimal_text(m.brightness);
    let mut s = m.name.clone();
    if resolution {
        if icons {
            s.append(" ");
            s.append(brightness_icon);
            s.append(" ");
            s.append(level.as_str());
            s.append(" ");
            s.append(res_icon);
            s.append(" ");
            s.append(m.resolution.as_str());
        } else {
            s.append(": ");
            s.append(level.as_str());
            s.append(" [");
            s.append(m.resolution.as_str());
            s.append("]");
        }
    } else if icons {
        s.append(" ");
        s.append(brightness_icon);
        s.append(" ");
        s.append(level.as_str());
    } else {
        s.append(": ");
        s.append(level.as_str());
    }
    s
}

} // verus!
