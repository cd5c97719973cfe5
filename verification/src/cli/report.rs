use vstd::prelude::*;
use crate::colors::{colored, green, red_bold, yellow};
use crate::peek_core::{peek_error_text, PeekError};
use crate::proc_reader::error::IoErrorKind;
use crate::text::{
    find_with_prefix, first_with_prefix, lemma_char_vec_dv, lines, lines_of, parse_uint,
    parse_unsigned, split_ws, ws_fields, byte_len, chars_of, has_prefix_str, push_str, signed_dec,
    signed_string, starts_with, string_from, string_of,
};

verus! {

/// A state label colored by severity: running green, zombie or dead red and
/// bold, uninterruptible sleep yellow, others plain.
pub open spec fn state_color_text(s: Seq<char>, disabled: bool) -> Seq<char> {
    if starts_with(s, "Running"@) {
        colored(s, "\x1b[32m"@, "\x1b[39m"@, disabled)
    } else if starts_with(s, "Zombie"@) || starts_with(s, "Dead"@) {
        colored(s, "\x1b[1m"@ + "\x1b[31m"@, "\x1b[39m"@ + "\x1b[0m"@, disabled)
    } else if starts_with(s, "Uninterruptible"@) {
        colored(s, "\x1b[33m"@, "\x1b[39m"@, disabled)
    } else {
        s
    }
}

pub fn colorize_state(s: &str, disabled: bool) -> (r: String)
    ensures
        r@ == state_color_text(s@, disabled),
{
    let sv = chars_of(s);
    if has_prefix_str(&sv, "Running") {
        green(s, disabled)
    } else if has_prefix_str(&sv, "Zombie") || has_prefix_str(&sv, "Dead") {
        red_bold(s, disabled)
    } else if has_prefix_str(&sv, "Uninterruptible") {
        yellow(s, disabled)
    } else {
        string_from(s)
    }
}

/// An OOM score colored by band: above 700 red and bold, above 400 yellow, else green.
pub open spec fn oom_color_text(score: int, disabled: bool) -> Seq<char> {
    let s = signed_dec(score);
    if score > 700 {
        colored(s, "\x1b[1m"@ + "\x1b[31m"@, "\x1b[39m"@ + "\x1b[0m"@, disabled)
    } else if score > 400 {
        colored(s, "\x1b[33m"@, "\x1b[39m"@, disabled)
    } else {
        colored(s, "\x1b[32m"@, "\x1b[39m"@, disabled)
    }
}

pub fn oom_colored(score: i32, disabled: bool) -> (r: String)
    ensures
        r@ == oom_color_text(score as int, disabled),
{
    let s = signed_string(score as i64);
    if score > 700 {
        red_bold(s.as_str(), disabled)
    } else if score > 400 {
        yellow(s.as_str(), disabled)
    } else {
        green(s.as_str(), disabled)
    }
}

pub open spec fn seccomp_text(v: u32) -> Seq<char> {
    if v == 0 {
        "disabled"@
    } else if v == 1 {
        "strict"@
    } else if v == 2 {
        "filter active"@
    } else {
        "unknown"@
    }
}

/// Seccomp mode of `/proc/<pid>/status` in words.
pub fn seccomp_label(v: u32) -> (r: &'static str)
    ensures
        r@ == seccomp_text(v),
{
    match v {
        0 => "disabled",
        1 => "strict",
        2 => "filter active",
        _ => "unknown",
    }
}

/// The unit in which a byte rate is shown.
#[derive(Debug, Clone, Copy, PartialEq, Eq, Structural)]
pub enum RateUnit {
    /// MB/s, from 1 000 000 bytes per second.
    MegaBytes,
    /// KB/s, from 1 000 bytes per second.
    KiloBytes,
    /// B/s below that.
    Bytes,
}

pub fn rate_unit(b: u64) -> (r: RateUnit)
    ensures
        r == (if b >= 1_000_000 {
            RateUnit::MegaBytes
        } else if b >= 1000 {
            RateUnit::KiloBytes
        } else {
            RateUnit::Bytes
        }),
{
    if b >= 1_000_000 {
        RateUnit::MegaBytes
    } else if b >= 1000 {
        RateUnit::KiloBytes
    } else {
        RateUnit::Bytes
    }
}

/// `s` cut to fit `max` bytes: unchanged when it fits, else its first
/// `max - 1` characters (none when `max` is 0) and `…`.
pub open spec fn truncated(s: Seq<char>, max: usize) -> Seq<char> {
    if byte_len(s) <= max {
        s
    } else {
        let k = if max == 0 {
            0
        } else if s.len() < max - 1 {
            s.len() as int
        } else {
            max - 1
        };
        s.take(k) + seq!['…']
    }
}

pub fn truncate(s: &str, max: usize) -> (r: String)
    ensures
        r@ == truncated(s@, max),
{
    if s.len() <= max {
        return string_from(s);
    }
    let sv = chars_of(s);
    let mut out: Vec<char> = Vec::new();
    let mut i: usize = 0;
    while i < sv.len()
        invariant
            i <= sv.len(),
            out@ == sv@.take(i as int),
            max == 0 ==> i == 0,
            max > 0 ==> i <= max - 1,
        ensures
            i <= sv.len(),
            out@ == sv@.take(i as int),
            max == 0 ==> i == 0,
            max > 0 ==> i <= max - 1,
            i == sv.len() || i + 1 >= max,
        decreases sv.len() - i,
    {
        if i + 1 >= max {
            break;
        }
        out.push(sv[i]);
        i = i + 1;
        assert(out@ =~= sv@.take(i as int));
    }
    proof {
        let k = if max == 0 {
            0
        } else if sv@.len() < max - 1 {
            sv@.len() as int
        } else {
            max - 1
        };
        assert(i == k);
    }
    out.push('…');
    string_of(&out)
}

/// How long ago a process started, from the seconds since.
pub open spec fn age_text(s: int) -> Seq<char> {
    if s < 60 {
        signed_dec(s) + "s ago"@
    } else if s < 3600 {
        signed_dec(s / 60) + "m ago"@
    } else if s < 86400 {
        signed_dec(s / 3600) + "h ago"@
    } else {
        signed_dec(s / 86400) + "d ago"@
    }
}

pub fn age_string(secs: i64) -> (r: String)
    ensures
        r@ == age_text(secs as int),
{
    let (n, unit) = if secs < 60 {
        (secs, "s ago")
    } else if secs < 3600 {
        (secs / 60, "m ago")
    } else if secs < 86400 {
        (secs / 3600, "h ago")
    } else {
        (secs / 86400, "d ago")
    };
    let mut s = signed_string(n);
    push_str(&mut s, unit);
    s
}

/// The RSS difference of a comparison (second minus first), signed `+` when
/// not negative, with its color: growth yellow, shrinkage green.
pub open spec fn rss_delta_text(rss1: u64, rss2: u64, disabled: bool) -> Seq<char> {
    let d = rss2 - rss1;
    if d >= 0 {
        colored("+"@ + signed_dec(d) + " KB"@, "\x1b[33m"@, "\x1b[39m"@, disabled)
    } else {
        colored(signed_dec(d) + " KB"@, "\x1b[32m"@, "\x1b[39m"@, disabled)
    }
}

pub fn rss_delta(rss1: u64, rss2: u64, disabled: bool) -> (r: String)
    requires
        rss1 <= i64::MAX,
        rss2 <= i64::MAX,
    ensures
        r@ == rss_delta_text(rss1, rss2, disabled),
{
    let d: i64 = rss2 as i64 - rss1 as i64;
    if d >= 0 {
        let mut s = string_from("+");
        let ds = signed_string(d);
        push_str(&mut s, ds.as_str());
        push_str(&mut s, " KB");
        yellow(s.as_str(), disabled)
    } else {
        let mut s = signed_string(d);
        push_str(&mut s, " KB");
        green(s.as_str(), disabled)
    }
}

/// An error as the exit code sees it.
#[derive(Debug, Clone)]
pub enum CliError {
    /// An error of process collection.
    Peek(PeekError),
    /// An I/O error of the command line itself, by kind.
    Io(IoErrorKind),
    /// Any other error.
    Other,
}

/// Exit code for scripting: 3 process not found, 4 permission denied, 1 otherwise.
pub open spec fn exit_code_of(e: CliError) -> i32 {
    match e {
        CliError::Peek(PeekError::NotFound(_)) => 3,
        CliError::Peek(PeekError::ProcIo { source, .. }) => if source.kind
            == IoErrorKind::PermissionDenied {
            4
        } else {
            1
        },
        CliError::Peek(_) => 1,
        CliError::Io(k) => if k == IoErrorKind::PermissionDenied {
            4
        } else {
            1
        },
        CliError::Other => 1,
    }
}

pub fn exit_code_for_error(err: &CliError) -> (r: i32)
    ensures
        r == exit_code_of(*err),
{
    match err {
        CliError::Peek(PeekError::NotFound(_)) => 3,
        CliError::Peek(PeekError::ProcIo { source, .. }) => if source.kind
            == IoErrorKind::PermissionDenied {
            4
        } else {
            1
        },
        CliError::Peek(_) => 1,
        CliError::Io(k) => if *k == IoErrorKind::PermissionDenied {
            4
        } else {
            1
        },
        CliError::Other => 1,
    }
}

/// The message shown for a collection error: a permission problem suggests `--sudo`.
pub open spec fn core_error_text(e: PeekError) -> Seq<char> {
    match e {
        PeekError::NotFound(p) => "process "@ + signed_dec(p as int) + " not found"@,
        PeekError::ProcIo { pid, source } => if source.kind == IoErrorKind::PermissionDenied {
            "permission denied reading /proc/"@ + signed_dec(pid as int)
                + " (try --sudo or run as root): "@ + source.message@
        } else {
            peek_error_text(e)
        },
        _ => peek_error_text(e),
    }
}

pub fn map_core_error(err: &PeekError) -> (r: String)
    ensures
        r@ == core_error_text(*err),
{
    match err {
        PeekError::ProcIo { pid, source } => {
            if source.kind == IoErrorKind::PermissionDenied {
                let mut s = string_from("permission denied reading /proc/");
                let ps = signed_string(*pid as i64);
                push_str(&mut s, ps.as_str());
                push_str(&mut s, " (try --sudo or run as root): ");
                push_str(&mut s, source.message.as_str());
                s
            } else {
                err.message()
            }
        },
        _ => err.message(),
    }
}

/// Total RAM in KiB from `/proc/meminfo`: the second field of the first
/// `MemTotal:` line, as a number.
pub open spec fn mem_total_of(meminfo: Seq<char>) -> Option<nat> {
    let ls = lines(meminfo);
    let k = first_with_prefix(ls, "MemTotal:"@);
    if k < 0 {
        None
    } else {
        let f = ws_fields(ls[k]);
        if f.len() < 2 {
            None
        } else {
            parse_uint(f[1], 10, u64::MAX as nat)
        }
    }
}

pub fn mem_total_kb(meminfo: &str) -> (r: Option<u64>)
    ensures
        match r {
            Some(v) => mem_total_of(meminfo@) == Some(v as nat),
            None => mem_total_of(meminfo@).is_none(),
        },
{
    let cs = chars_of(meminfo);
    let ls = lines_of(&cs);
    let p = chars_of("MemTotal:");
    match find_with_prefix(&ls, &p) {
        Some(k) => {
            proof {
                lemma_char_vec_dv(ls@[k as int]);
            }
            let f = split_ws(&ls[k]);
            if f.len() < 2 {
                None
            } else {
                proof {
                    lemma_char_vec_dv(f@[1]);
                }
                parse_unsigned(&f[1], 10, u64::MAX)
            }
        },
        None => None,
    }
}

} // verus!
