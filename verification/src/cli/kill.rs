use vstd::prelude::*;
use crate::text::{
    dec, dec_string, left_aligned, push_left, push_right, right_aligned, signed_dec, signed_string,
    string_of, chars_eq_str, chars_of, lowercase, parse_uint, parse_unsigned, str_eq, to_lowercase,
    trim, trim_chars,
};

verus! {

/// What a choice typed in the kill panel asks for.
#[derive(Debug, Clone, Copy, PartialEq, Eq, Structural)]
pub enum KillChoice {
    /// `s`: `systemctl stop` of the process's unit.
    StopUnit,
    /// `R`: `systemctl restart` of the unit.
    RestartUnit,
    /// `s` or `R` without a systemd unit.
    NoUnit,
    /// `q`, `Q` or nothing: leave.
    Quit,
    /// A menu number: send that signal, asking first when it is SIGKILL.
    Send { signal: i32, confirm: bool },
    /// Anything else: ask again.
    Unknown,
}

/// The choice that the trimmed input `c` makes, for a menu listing the
/// signal numbers `menu` as entries 1, 2, ... and with or without a unit.
pub open spec fn kill_choice_of(c: Seq<char>, menu: Seq<i32>, has_unit: bool) -> KillChoice {
    if c == "s"@ {
        if has_unit {
            KillChoice::StopUnit
        } else {
            KillChoice::NoUnit
        }
    } else if c == "R"@ {
        if has_unit {
            KillChoice::RestartUnit
        } else {
            KillChoice::NoUnit
        }
    } else if c == "q"@ || c == "Q"@ || c.len() == 0 {
        KillChoice::Quit
    } else {
        match parse_uint(c, 10, usize::MAX as nat) {
            Some(idx) => if 1 <= idx <= menu.len() {
                let sig = menu[idx - 1];
                KillChoice::Send { signal: sig, confirm: sig == 9 }
            } else {
                KillChoice::Unknown
            },
            None => KillChoice::Unknown,
        }
    }
}

/// Decides a kill-panel choice from the line typed (trimmed here).
pub fn kill_choice(input: &str, menu: &Vec<i32>, has_unit: bool) -> (r: KillChoice)
    ensures
        r == kill_choice_of(trim(input@), menu@, has_unit),
{
    let iv = chars_of(input);
    let c = trim_chars(&iv);
    if chars_eq_str(&c, "s") {
        if has_unit {
            KillChoice::StopUnit
        } else {
            KillChoice::NoUnit
        }
    } else if chars_eq_str(&c, "R") {
        if has_unit {
            KillChoice::RestartUnit
        } else {
            KillChoice::NoUnit
        }
    } else if chars_eq_str(&c, "q") || chars_eq_str(&c, "Q") || c.len() == 0 {
        KillChoice::Quit
    } else {
        match parse_unsigned(&c, 10, usize::MAX as u64) {
            Some(idx) => {
                if 1 <= idx && idx <= menu.len() as u64 {
                    let sig = menu[(idx - 1) as usize];
                    KillChoice::Send { signal: sig, confirm: sig == 9 }
                } else {
                    KillChoice::Unknown
                }
            },
            None => KillChoice::Unknown,
        }
    }
}

/// Whether the answer to "are you sure" is yes: `y` in any case, around white space.
pub fn confirmed(answer: &str) -> (r: bool)
    ensures
        r == (lowercase(trim(answer@)) == "y"@),
{
    let av = chars_of(answer);
    let t = trim_chars(&av);
    let ts = crate::text::string_of(&t);
    let lower = to_lowercase(ts.as_str());
    str_eq(lower.as_str(), "y")
}

/// A line of the kill panel's signal menu: `  [{idx}] {name:<8} ({num:>2})  {desc}`.
pub open spec fn menu_line_text(idx: nat, name: Seq<char>, num: i32, desc: Seq<char>) -> Seq<char> {
    "  ["@ + dec(idx) + "] "@ + left_aligned(name, 8) + " ("@ + right_aligned(signed_dec(num as int), 2)
        + ")  "@ + desc
}

pub fn menu_line(idx: usize, name: &str, num: i32, desc: &str) -> (r: String)
    ensures
        r@ == menu_line_text(idx as nat, name@, num, desc@),
{
    let mut v: Vec<char> = Vec::new();
    v.push(' ');
    v.push(' ');
    v.push('[');
    let d = dec_string(idx as u64);
    let dv = crate::text::chars_of(d.as_str());
    crate::text::push_vec(&mut v, &dv);
    v.push(']');
    v.push(' ');
    push_left(&mut v, name, 8);
    v.push(' ');
    v.push('(');
    let n = signed_string(num as i64);
    push_right(&mut v, n.as_str(), 2);
    v.push(')');
    v.push(' ');
    v.push(' ');
    let dc = crate::text::chars_of(desc);
    crate::text::push_vec(&mut v, &dc);
    proof {
        reveal_strlit("  [");
        reveal_strlit("] ");
        reveal_strlit(" (");
        reveal_strlit(")  ");
    }
    assert(v@ =~= menu_line_text(idx as nat, name@, num, desc@));
    string_of(&v)
}

} // verus!
