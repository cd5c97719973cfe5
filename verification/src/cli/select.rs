use vstd::prelude::*;
use crate::text::{
    chars_contains, chars_of, contains_seq, parse_i32, parse_i32_spec, push_chars, push_signed,
    push_str, signed_dec, string_from,
};

verus! {

/// A target given as a number is a PID when it is positive.
pub open spec fn target_pid_of(t: Seq<char>) -> Option<int> {
    match parse_i32_spec(t) {
        Some(p) => if p > 0 {
            Some(p)
        } else {
            None
        },
        None => None,
    }
}

/// The PID a target names directly, `None` when it is to be looked up by name.
pub fn target_pid(target: &str) -> (r: Option<i32>)
    ensures
        match r {
            Some(p) => target_pid_of(target@) == Some(p as int),
            None => target_pid_of(target@).is_none(),
        },
{
    let tv = chars_of(target);
    match parse_i32(&tv) {
        Some(p) => if p > 0 {
            Some(p)
        } else {
            None
        },
        None => None,
    }
}

/// One process as the name lookup sees it: its command name and its command
/// line (`None` where they could not be read).
#[derive(Debug, Clone)]
pub struct ProcRow {
    pub pid: i32,
    pub comm: Option<String>,
    pub cmdline: Option<Vec<String>>,
}

/// The words joined with single spaces (`[String]::join(" ")`).
pub open spec fn join_space(ws: Seq<Seq<char>>) -> Seq<char>
    decreases ws.len(),
{
    if ws.len() == 0 {
        seq![]
    } else if ws.len() == 1 {
        ws[0]
    } else {
        join_space(ws.drop_last()) + seq![' '] + ws.last()
    }
}

pub open spec fn strings_view(v: Seq<String>) -> Seq<Seq<char>> {
    v.map_values(|s: String| s@)
}

/// A process matches a name when its command name is the name, or its
/// command line (words joined by spaces) contains it.
pub open spec fn row_matches(row: ProcRow, name: Seq<char>) -> bool {
    ||| (row.comm matches Some(c) && c@ == name)
    ||| (row.cmdline matches Some(args) && contains_seq(join_space(strings_view(args@)), name))
}

/// PIDs of the matching processes other than the caller (`self_pid`), in
/// order: the caller's own command line always holds the name it looks for.
pub open spec fn matching_pids(rows: Seq<ProcRow>, name: Seq<char>, self_pid: i32) -> Seq<i32>
    decreases rows.len(),
{
    if rows.len() == 0 {
        seq![]
    } else {
        let prev = matching_pids(rows.drop_last(), name, self_pid);
        if rows.last().pid != self_pid && row_matches(rows.last(), name) {
            prev.push(rows.last().pid)
        } else {
            prev
        }
    }
}

/// Why a name did not select one process.
#[derive(Debug, Clone)]
pub enum NameMatchError {
    NoMatch,
    /// Several processes match; the first five of their PIDs.
    Multiple(Vec<i32>),
}

pub(crate) fn join_args(args: &Vec<String>) -> (r: Vec<char>)
    ensures
        r@ == join_space(strings_view(args@)),
{
    let mut out: Vec<char> = Vec::new();
    let mut i: usize = 0;
    let ghost w = strings_view(args@);
    assert(w.take(0) =~= Seq::<Seq<char>>::empty());
    while i < args.len()
        invariant
            i <= args.len(),
            w == strings_view(args@),
            out@ == join_space(w.take(i as int)),
        decreases args.len() - i,
    {
        let a = chars_of(args[i].as_str());
        assert(w.take(i + 1).drop_last() =~= w.take(i as int));
        if i > 0 {
            out.push(' ');
        }
        let ghost before = out@;
        let mut j: usize = 0;
        while j < a.len()
            invariant
                j <= a.len(),
                out@ == before + a@.take(j as int),
            decreases a.len() - j,
        {
            out.push(a[j]);
            j = j + 1;
            assert(out@ =~= before + a@.take(j as int));
        }
        assert(a@.take(a.len() as int) =~= a@);
        proof {
            if i == 0 {
                assert(w.take(1) =~= seq![w[0]]);
                assert(out@ =~= join_space(w.take(1)));
            } else {
                assert(w.take(i + 1).last() == a@);
                assert(out@ =~= join_space(w.take(i + 1)));
            }
        }
        i = i + 1;
    }
    assert(w.take(args.len() as int) =~= w);
    out
}

fn row_matches_exec(row: &ProcRow, name: &Vec<char>) -> (r: bool)
    ensures
        r == row_matches(*row, name@),
{
    match &row.comm {
        Some(c) => {
            let cv = chars_of(c.as_str());
            if crate::text::chars_eq(&cv, name) {
                return true;
            }
        },
        None => {},
    }
    match &row.cmdline {
        Some(args) => {
            let joined = join_args(args);
            chars_contains(&joined, name)
        },
        None => false,
    }
}

/// The one process, other than the caller `self_pid`, whose command name is
/// `name` or whose command line contains it.
pub fn select_by_name(name: &str, rows: &Vec<ProcRow>, self_pid: i32) -> (r: Result<i32, NameMatchError>)
    ensures
        ({
            let m = matching_pids(rows@, name@, self_pid);
            &&& m.len() == 0 ==> (r matches Err(NameMatchError::NoMatch))
            &&& m.len() == 1 ==> r == Ok::<i32, NameMatchError>(m[0])
            &&& m.len() > 1 ==> (r matches Err(NameMatchError::Multiple(first)) && first@ == m.take(
                if m.len() < 5 {
                    m.len() as int
                } else {
                    5
                },
            ))
        }),
{
    let nv = chars_of(name);
    let mut found: Vec<i32> = Vec::new();
    let mut i: usize = 0;
    assert(rows@.take(0) =~= Seq::<ProcRow>::empty());
    while i < rows.len()
        invariant
            i <= rows.len(),
            nv@ == name@,
            found@ == matching_pids(rows@.take(i as int), name@, self_pid),
        decreases rows.len() - i,
    {
        assert(rows@.take(i + 1).drop_last() =~= rows@.take(i as int));
        if rows[i].pid != self_pid && row_matches_exec(&rows[i], &nv) {
            found.push(rows[i].pid);
        }
        i = i + 1;
    }
    assert(rows@.take(rows.len() as int) =~= rows@);
    if found.len() == 0 {
        Err(NameMatchError::NoMatch)
    } else if found.len() == 1 {
        Ok(found[0])
    } else {
        let n = if found.len() < 5 {
            found.len()
        } else {
            5
        };
        let mut first: Vec<i32> = Vec::new();
        let mut k: usize = 0;
        while k < n
            invariant
                k <= n <= found.len(),
                first@ == found@.take(k as int),
            decreases n - k,
        {
            first.push(found[k]);
            k = k + 1;
            assert(first@ =~= found@.take(k as int));
        }
        Err(NameMatchError::Multiple(first))
    }
}

/// `{:?}` of a list of PIDs: `[1, 2, 3]`.
pub open spec fn pid_list_text(p: Seq<i32>) -> Seq<char>
    decreases p.len(),
{
    if p.len() == 0 {
        "[]"@
    } else {
        pid_list_body(p) + seq![']']
    }
}

pub open spec fn pid_list_body(p: Seq<i32>) -> Seq<char>
    decreases p.len(),
{
    if p.len() == 0 {
        seq!['[']
    } else if p.len() == 1 {
        seq!['['] + signed_dec(p[0] as int)
    } else {
        pid_list_body(p.drop_last()) + seq![',', ' '] + signed_dec(p.last() as int)
    }
}

/// The message of a failed name lookup.
pub open spec fn name_error_text(e: NameMatchError, name: Seq<char>) -> Seq<char> {
    match e {
        NameMatchError::NoMatch => "no process matching '"@ + name + "'"@,
        NameMatchError::Multiple(p) => "multiple matches for '"@ + name + "': "@ + pid_list_text(p@)
            + "\nSpecify a PID."@,
    }
}

pub fn name_error_message(e: &NameMatchError, name: &str) -> (s: String)
    ensures
        s@ == name_error_text(*e, name@),
{
    match e {
        NameMatchError::NoMatch => {
            let mut s = string_from("no process matching '");
            push_str(&mut s, name);
            push_str(&mut s, "'");
            s
        },
        NameMatchError::Multiple(p) => {
            let mut s = string_from("multiple matches for '");
            push_str(&mut s, name);
            push_str(&mut s, "': ");
            let mut v: Vec<char> = Vec::new();
            v.push('[');
            let mut i: usize = 0;
            assert(p@.take(0) =~= Seq::<i32>::empty());
            assert(v@ =~= pid_list_body(p@.take(0)));
            while i < p.len()
                invariant
                    i <= p.len(),
                    v@ == pid_list_body(p@.take(i as int)),
                decreases p.len() - i,
            {
                assert(p@.take(i + 1).drop_last() =~= p@.take(i as int));
                if i > 0 {
                    v.push(',');
                    v.push(' ');
                }
                push_signed(&mut v, p[i] as i64);
                proof {
                    if i == 0 {
                        assert(p@.take(1) =~= seq![p@[0]]);
                    }
                    assert(v@ =~= pid_list_body(p@.take(i + 1)));
                }
                i = i + 1;
            }
            assert(p@.take(p.len() as int) =~= p@);
            if p.len() == 0 {
                v.push(']');
                proof {
                    reveal_strlit("[]");
                }
                assert(v@ =~= pid_list_text(p@));
            } else {
                v.push(']');
                assert(v@ =~= pid_list_text(p@));
            }
            push_chars(&mut s, &v);
            push_str(&mut s, "\nSpecify a PID.");
            s
        },
    }
}

} // verus!
