use vstd::prelude::*;
use crate::text::{
    join, joined, chars_of, lemma_char_vec_dv, lines, lines_of, parse_uint, parse_unsigned,
    push_str, signed_dec, signed_string, string_from, string_of, trim, trim_chars, dec, dec_string,
};

verus! {

/// Where history files live: `$XDG_STATE_HOME/peekd`, else
/// `$HOME/.local/state/peekd`, else `/var/lib/peekd`.
pub open spec fn history_root_of(xdg: Option<Seq<char>>, home: Option<Seq<char>>) -> Seq<char> {
    match xdg {
        Some(x) => joined(x, "peekd"@),
        None => match home {
            Some(h) => joined(joined(joined(h, ".local"@), "state"@), "peekd"@),
            None => "/var/lib/peekd"@,
        },
    }
}

pub open spec fn opt_str(o: Option<&str>) -> Option<Seq<char>> {
    match o {
        Some(s) => Some(s@),
        None => None,
    }
}

/// The history directory, given the values of `XDG_STATE_HOME` and `HOME`.
pub fn history_root(xdg: Option<&str>, home: Option<&str>) -> (r: String)
    ensures
        r@ == history_root_of(opt_str(xdg), opt_str(home)),
{
    match xdg {
        Some(x) => join(x, "peekd"),
        None => match home {
            Some(h) => {
                let a = join(h, ".local");
                let b = join(a.as_str(), "state");
                join(b.as_str(), "peekd")
            },
            None => string_from("/var/lib/peekd"),
        },
    }
}

/// The history file of `pid` under `root`: `<root>/<pid>.jsonl`.
pub open spec fn history_path_of(root: Seq<char>, pid: i32) -> Seq<char> {
    joined(root, signed_dec(pid as int) + ".jsonl"@)
}

pub fn history_path(root: &str, pid: i32) -> (r: String)
    ensures
        r@ == history_path_of(root@, pid),
{
    let mut name = signed_string(pid as i64);
    push_str(&mut name, ".jsonl");
    join(root, name.as_str())
}

/// The lines of a history file that hold something besides white space.
pub open spec fn filled_lines(ls: Seq<Seq<char>>) -> Seq<Seq<char>>
    decreases ls.len(),
{
    if ls.len() == 0 {
        ls
    } else if trim(ls.last()).len() == 0 {
        filled_lines(ls.drop_last())
    } else {
        filled_lines(ls.drop_last()).push(ls.last())
    }
}

/// The non-blank lines of a history file, each to be parsed as one sample.
pub fn history_lines(raw: &str) -> (r: Vec<String>)
    ensures
        r@.map_values(|s: String| s@) == filled_lines(lines(raw@)),
{
    let cs = chars_of(raw);
    let ls = lines_of(&cs);
    let ghost all = ls.deep_view();
    let mut out: Vec<String> = Vec::new();
    let mut i: usize = 0;
    while i < ls.len()
        invariant
            all == ls.deep_view(),
            all == lines(raw@),
            i <= ls.len(),
            out@.map_values(|s: String| s@) == filled_lines(all.take(i as int)),
        decreases ls.len() - i,
    {
        proof {
            lemma_char_vec_dv(ls@[i as int]);
        }
        assert(all.take(i as int + 1).drop_last() =~= all.take(i as int));
        let t = trim_chars(&ls[i]);
        if t.len() > 0 {
            let s = string_of(&ls[i]);
            let ghost before = out@.map_values(|s: String| s@);
            out.push(s);
            assert(out@.map_values(|s: String| s@) =~= before.push(all[i as int]));
        }
        i = i + 1;
    }
    assert(all.take(all.len() as int) =~= all);
    out
}

/// The PID recorded in an existing PID file: its trimmed text read as a
/// `u32`.
pub fn recorded_pid(contents: &str) -> (r: Option<u32>)
    ensures
        match r {
            Some(p) => parse_uint(trim(contents@), 10, u32::MAX as nat) == Some(p as nat),
            None => parse_uint(trim(contents@), 10, u32::MAX as nat).is_none(),
        },
{
    let cs = chars_of(contents);
    let t = trim_chars(&cs);
    match parse_unsigned(&t, 10, u32::MAX as u64) {
        Some(v) => Some(v as u32),
        None => None,
    }
}

pub open spec fn already_running_text(pid: u32) -> Seq<char> {
    "peekd already running with pid "@ + dec(pid as nat)
}

/// The refusal to start when the PID file names a live process.
pub fn already_running_message(pid: u32) -> (s: String)
    ensures
        s@ == already_running_text(pid),
{
    let mut s = string_from("peekd already running with pid ");
    let n = dec_string(pid as u64);
    push_str(&mut s, n.as_str());
    s
}

} // verus!
