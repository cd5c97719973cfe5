use vstd::prelude::*;
use crate::peek_core::config::PeekConfig;
use crate::text::{
    chars_of, has_prefix_str, lowercase, skip_chars, starts_with, str_eq, string_from, string_of,
    to_lowercase,
};

verus! {

/// Default Unix socket of peekd.
pub const SOCKET_PATH: &'static str = "/run/peekd/peekd.sock";

/// Effective peekd socket path: `PEEK_PEEKD_SOCKET`, else the config file's, else the default.
pub fn effective_socket_path(env: Option<String>, config: Option<PeekConfig>) -> (r: String)
    ensures
        match env {
            Some(e) => r@ == e@,
            None => match config {
                Some(c) => match c.peekd.socket_path {
                    Some(p) => r@ == p@,
                    None => r@ == "/run/peekd/peekd.sock"@,
                },
                None => r@ == "/run/peekd/peekd.sock"@,
            },
        },
{
    match env {
        Some(e) => e,
        None => match config {
            Some(c) => match c.peekd.socket_path {
                Some(p) => p,
                None => string_from(SOCKET_PATH),
            },
            None => string_from(SOCKET_PATH),
        },
    }
}

/// Whether peekd answered a ping (`None` when the request failed).
pub fn ping(reply_ok: Option<bool>) -> (r: bool)
    ensures
        r == (reply_ok == Some(true)),
{
    match reply_ok {
        Some(ok) => ok,
        None => false,
    }
}

/// The outcome of a peekd reply: success, or its message (`fallback` when it gave none).
pub fn reply_outcome(ok: bool, message: Option<String>, fallback: &str) -> (r: Result<(), String>)
    ensures
        ok ==> r is Ok,
        !ok ==> (r matches Err(m) && m@ == match message {
            Some(x) => x@,
            None => fallback@,
        }),
{
    if ok {
        Ok(())
    } else {
        match message {
            Some(m) => Err(m),
            None => Err(string_from(fallback)),
        }
    }
}

/// Registering a PID for sampling succeeded when peekd said ok; else its message (empty without one).
pub fn register_watch(ok: bool, message: Option<String>) -> (r: Result<(), String>)
    ensures
        ok ==> r is Ok,
        !ok ==> (r matches Err(m) && m@ == match message {
            Some(x) => x@,
            None => Seq::<char>::empty(),
        }),
{
    proof {
        reveal_strlit("");
    }
    reply_outcome(ok, message, "")
}

/// The comparison of an alert rule: `gt`, `greater_than` or `>` mean
/// `greater_than`; `lt`, `less_than` or `<` mean `less_than`; another word
/// (in lower case) stands as it is.
pub open spec fn comparison_of(lower: Seq<char>) -> Seq<char> {
    if lower == "gt"@ || lower == "greater_than"@ || lower == ">"@ {
        "greater_than"@
    } else if lower == "lt"@ || lower == "less_than"@ || lower == "<"@ {
        "less_than"@
    } else {
        lower
    }
}

/// An alert comparison, taken in lower case, means `less_than` when it is
/// `lt`, `less_than` or `<`, and `greater_than` when it is `gt`,
/// `greater_than` or `>`; any other word stands as it is.
pub proof fn lemma_comparison_words(lower: Seq<char>)
    ensures
        lower == "lt"@ ==> comparison_of(lower) == "less_than"@,
        lower == "less_than"@ ==> comparison_of(lower) == "less_than"@,
        lower == "<"@ ==> comparison_of(lower) == "less_than"@,
        lower == "gt"@ ==> comparison_of(lower) == "greater_than"@,
        lower == "greater_than"@ ==> comparison_of(lower) == "greater_than"@,
        lower == ">"@ ==> comparison_of(lower) == "greater_than"@,
        (lower != "lt"@ && lower != "less_than"@ && lower != "<"@ && lower != "gt"@ && lower
            != "greater_than"@ && lower != ">"@) ==> comparison_of(lower) == lower,
{
    reveal_strlit("lt");
    assert("lt"@.len() == 2 && "lt"@[0] == 'l');
    reveal_strlit("less_than");
    assert("less_than"@.len() == 9 && "less_than"@[0] == 'l');
    reveal_strlit("<");
    assert("<"@.len() == 1 && "<"@[0] == '<');
    reveal_strlit("gt");
    assert("gt"@.len() == 2 && "gt"@[0] == 'g');
    reveal_strlit("greater_than");
    assert("greater_than"@.len() == 12 && "greater_than"@[0] == 'g');
    reveal_strlit(">");
    assert(">"@.len() == 1 && ">"@[0] == '>');
}

pub fn normalize_comparison(comparison: &str) -> (r: String)
    ensures
        r@ == comparison_of(lowercase(comparison@)),
{
    let lower = to_lowercase(comparison);
    let l = lower.as_str();
    if str_eq(l, "gt") || str_eq(l, "greater_than") || str_eq(l, ">") {
        string_from("greater_than")
    } else if str_eq(l, "lt") || str_eq(l, "less_than") || str_eq(l, "<") {
        string_from("less_than")
    } else {
        string_from(l)
    }
}

/// Where an alert is reported.
#[derive(Debug, Clone)]
pub enum Notify {
    /// `script:<command>`: run the command.
    Script(String),
    /// `stderr`.
    Stderr,
    /// Anything else: the daemon's log.
    Log,
}

pub fn notify_kind(notify: &str) -> (r: Notify)
    ensures
        if starts_with(notify@, "script:"@) {
            r matches Notify::Script(c) && c@ == notify@.skip(7)
        } else if notify@ == "stderr"@ {
            r matches Notify::Stderr
        } else {
            r matches Notify::Log
        },
{
    let nv = chars_of(notify);
    proof {
        reveal_strlit("script:");
    }
    if has_prefix_str(&nv, "script:") {
        let rest = skip_chars(&nv, 7);
        Notify::Script(string_of(&rest))
    } else if str_eq(notify, "stderr") {
        Notify::Stderr
    } else {
        Notify::Log
    }
}

/// Metrics that alert rules can watch.
pub open spec fn is_metric(m: Seq<char>) -> bool {
    m == "cpu_percent"@ || m == "memory_mb"@ || m == "fd_count"@ || m == "thread_count"@
}

pub fn is_valid_metric(metric: &str) -> (r: bool)
    ensures
        r == is_metric(metric@),
{
    str_eq(metric, "cpu_percent") || str_eq(metric, "memory_mb") || str_eq(metric, "fd_count")
        || str_eq(metric, "thread_count")
}

} // verus!
