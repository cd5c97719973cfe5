use vstd::prelude::*;
use crate::text::{
    chars_of, chars_eq_str, find_with_prefix, first_with_prefix, lemma_char_vec_dv, lines,
    lines_of, parse_uint, parse_unsigned, split_ws, ws_fields,
};
use crate::proc_reader::error::{
    io_to_error, proc_file, proc_file_path, IoErrorKind, IoFailure, ProcReaderError,
};

verus! {

/// Subset of `/proc/<pid>/limits`: the "Max open files" limits.
#[derive(Debug, Clone, Copy, PartialEq, Eq, Structural)]
pub struct Limits {
    /// Soft limit for "Max open files", if set and not "unlimited".
    pub max_open_files_soft: Option<u64>,
    /// Hard limit for "Max open files", if set and not "unlimited".
    pub max_open_files_hard: Option<u64>,
}

impl Default for Limits {
    fn default() -> (r: Self)
        ensures
            r.max_open_files_soft.is_none() && r.max_open_files_hard.is_none(),
    {
        Limits { max_open_files_soft: None, max_open_files_hard: None }
    }
}

/// A limit column: `unlimited` is no limit, a decimal number is the limit,
/// anything else is unknown.
pub open spec fn limit_value(v: Seq<char>) -> Option<nat> {
    if v == "unlimited"@ {
        None
    } else {
        parse_uint(v, 10, u64::MAX as nat)
    }
}

pub open spec fn field_limit(f: Seq<Seq<char>>, k: int) -> Option<nat> {
    if 0 <= k < f.len() {
        limit_value(f[k])
    } else {
        None
    }
}

/// The soft and hard "Max open files" limits of the limits file `text`:
/// columns four and five of the first line that starts with "Max open files".
pub open spec fn open_files_limits(text: Seq<char>) -> (Option<nat>, Option<nat>) {
    let ls = lines(text);
    let j = first_with_prefix(ls, "Max open files"@);
    if j < 0 {
        (None, None)
    } else {
        let f = ws_fields(ls[j]);
        (field_limit(f, 3), field_limit(f, 4))
    }
}

pub open spec fn opt_u64(o: Option<u64>) -> Option<nat> {
    match o {
        Some(v) => Some(v as nat),
        None => None,
    }
}

fn limit_from_chars(v: &Vec<char>) -> (r: Option<u64>)
    ensures
        opt_u64(r) == limit_value(v@),
{
    if chars_eq_str(v, "unlimited") {
        None
    } else {
        parse_unsigned(v, 10, u64::MAX)
    }
}

/// Parses one limit column; `None` for a missing column, `unlimited`, or a non-number.
pub fn parse_limit_field(field: Option<&str>) -> (r: Option<u64>)
    ensures
        match field {
            Some(v) => opt_u64(r) == limit_value(v@),
            None => r.is_none(),
        },
{
    match field {
        Some(v) => {
            let cv = chars_of(v);
            limit_from_chars(&cv)
        },
        None => None,
    }
}

fn field_limit_of(f: &Vec<Vec<char>>, k: usize) -> (r: Option<u64>)
    ensures
        opt_u64(r) == field_limit(f.deep_view(), k as int),
{
    if k < f.len() {
        proof {
            lemma_char_vec_dv(f@[k as int]);
        }
        limit_from_chars(&f[k])
    } else {
        None
    }
}

/// The "Max open files" limits of the contents of a limits file.
pub fn parse_limits(text: &str) -> (r: Limits)
    ensures
        (opt_u64(r.max_open_files_soft), opt_u64(r.max_open_files_hard)) == open_files_limits(
            text@,
        ),
{
    let tv = chars_of(text);
    let ls = lines_of(&tv);
    let prefix = chars_of("Max open files");
    match find_with_prefix(&ls, &prefix) {
        None => Limits::default(),
        Some(j) => {
            proof {
                lemma_char_vec_dv(ls@[j as int]);
            }
            let f = split_ws(&ls[j]);
            Limits {
                max_open_files_soft: field_limit_of(&f, 3),
                max_open_files_hard: field_limit_of(&f, 4),
            }
        },
    }
}

/// `/proc/<pid>/limits` from what reading it produced.
pub fn read_limits(pid: i32, raw: Result<String, IoFailure>) -> (r: Result<Limits, ProcReaderError>)
    ensures
        match raw {
            Ok(text) => r matches Ok(l) && (opt_u64(l.max_open_files_soft), opt_u64(
                l.max_open_files_hard,
            )) == open_files_limits(text@),
            Err(e) => r matches Err(err) && (if e.kind == IoErrorKind::NotFound {
                err == ProcReaderError::NotFound(pid)
            } else {
                err matches ProcReaderError::Io { path, source } && path@ == proc_file(
                    pid as int,
                    "limits"@,
                ) && source == e
            }),
        },
{
    match raw {
        Ok(text) => Ok(parse_limits(text.as_str())),
        Err(e) => {
            let path = proc_file_path(pid, "limits");
            Err(io_to_error(path, e, pid))
        },
    }
}

} // verus!
