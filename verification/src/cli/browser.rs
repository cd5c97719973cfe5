use vstd::prelude::*;
use crate::cli::select::{join_args, join_space, strings_view, ProcRow};
use crate::sort::{stable_sort, stable_sorted, views, SortKey};
use crate::text::{
    chars_contains, chars_of, contains_seq, lowercase, parse_i32, parse_i32_spec, parse_uint,
    parse_unsigned, skip_chars, string_from, string_of, to_lowercase, trim, trim_chars, utf8_len,
    char_len_utf8, lemma_utf8_len_take, lemma_utf8_len_prefix_grows, left_aligned, right_aligned,
    push_left, push_right, push_vec, dec, signed_dec, dec_string, signed_string,
};

verus! {

/// One line of the process browser: PID, command name and command line.
#[derive(Debug, Clone)]
pub struct BrowseRow {
    pub pid: i32,
    pub name: String,
    pub cmd: String,
}

impl View for BrowseRow {
    type V = (i32, Seq<char>, Seq<char>);

    open spec fn view(&self) -> (i32, Seq<char>, Seq<char>) {
        (self.pid, self.name@, self.cmd@)
    }
}

impl SortKey for BrowseRow {
    open spec fn key_le(a: (i32, Seq<char>, Seq<char>), b: (i32, Seq<char>, Seq<char>)) -> bool {
        a.0 <= b.0
    }

    fn key_le_exec(&self, other: &Self) -> (r: bool) {
        self.pid <= other.pid
    }
}

/// The browser line of a process: its command name (`?` when unreadable)
/// and its command line joined by spaces, or the name when the command line
/// is unreadable or empty.
pub open spec fn browse_row_of(row: ProcRow) -> (i32, Seq<char>, Seq<char>) {
    let name = match row.comm {
        Some(c) => c@,
        None => "?"@,
    };
    let cmd = match row.cmdline {
        Some(args) => if args.len() > 0 {
            join_space(strings_view(args@))
        } else {
            name
        },
        None => name,
    };
    (row.pid, name, cmd)
}

pub fn browse_row(row: &ProcRow) -> (r: BrowseRow)
    ensures
        r@ == browse_row_of(*row),
{
    let name = match &row.comm {
        Some(c) => c.clone(),
        None => string_from("?"),
    };
    let cmd = match &row.cmdline {
        Some(args) => if args.len() > 0 {
            let j = join_args(args);
            string_of(&j)
        } else {
            name.clone()
        },
        None => name.clone(),
    };
    BrowseRow { pid: row.pid, name, cmd }
}

/// The browser's rows: one per process, ordered by PID (stably).
pub fn browse_rows(procs: &Vec<ProcRow>) -> (r: Vec<BrowseRow>)
    ensures
        views(r@) == stable_sorted::<BrowseRow>(procs@.map_values(|p: ProcRow| browse_row_of(p))),
{
    let mut rows: Vec<BrowseRow> = Vec::new();
    let mut i: usize = 0;
    while i < procs.len()
        invariant
            i <= procs.len(),
            views(rows@) == procs@.take(i as int).map_values(|p: ProcRow| browse_row_of(p)),
        decreases procs.len() - i,
    {
        let b = browse_row(&procs[i]);
        let ghost bv = b@;
        let ghost before = views(rows@);
        rows.push(b);
        assert(views(rows@) =~= before.push(bv));
        assert(procs@.take(i + 1).map_values(|p: ProcRow| browse_row_of(p)) =~= procs@.take(
            i as int,
        ).map_values(|p: ProcRow| browse_row_of(p)).push(browse_row_of(procs@[i as int])));
        i = i + 1;
    }
    assert(procs@.take(procs.len() as int) =~= procs@);
    stable_sort(rows)
}

/// Whether a row matches an already lower-cased query: its lower-cased name
/// or command line contains it.
pub open spec fn row_hit(row: (i32, Seq<char>, Seq<char>), q: Seq<char>) -> bool {
    contains_seq(lowercase(row.1), q) || contains_seq(lowercase(row.2), q)
}

/// Whether a row is shown under `filter`.
pub open spec fn row_shown(row: (i32, Seq<char>, Seq<char>), filter: Option<Seq<char>>) -> bool {
    match filter {
        Some(f) => row_hit(row, lowercase(f)),
        None => true,
    }
}

/// Positions of the rows shown under `filter`, in order.
pub open spec fn shown_positions(rows: Seq<(i32, Seq<char>, Seq<char>)>, filter: Option<Seq<char>>) -> Seq<int>
    decreases rows.len(),
{
    if rows.len() == 0 {
        seq![]
    } else {
        let prev = shown_positions(rows.drop_last(), filter);
        if row_shown(rows.last(), filter) {
            prev.push(rows.len() - 1)
        } else {
            prev
        }
    }
}

/// The rows listed on one screen: the first 30 shown under `filter`.
pub open spec fn listed(rows: Seq<(i32, Seq<char>, Seq<char>)>, filter: Option<Seq<char>>) -> Seq<int> {
    let p = shown_positions(rows, filter);
    if p.len() > 30 {
        p.take(30)
    } else {
        p
    }
}

pub open spec fn opt_string(o: Option<String>) -> Option<Seq<char>> {
    match o {
        Some(s) => Some(s@),
        None => None,
    }
}

fn row_hit_exec(row: &BrowseRow, q: &Vec<char>) -> (r: bool)
    ensures
        r == row_hit(row@, q@),
{
    let n = to_lowercase(row.name.as_str());
    let nv = chars_of(n.as_str());
    if chars_contains(&nv, q) {
        return true;
    }
    let c = to_lowercase(row.cmd.as_str());
    let cv = chars_of(c.as_str());
    chars_contains(&cv, q)
}

/// Positions, in `rows`, of the rows listed under `filter`.
pub fn listed_rows(rows: &Vec<BrowseRow>, filter: &Option<String>) -> (r: Vec<usize>)
    ensures
        r@.map_values(|i: usize| i as int) == listed(views(rows@), opt_string(*filter)),
{
    let ghost all = views(rows@);
    let ghost f = opt_string(*filter);
    let q: Vec<char> = match filter {
        Some(s) => {
            let l = to_lowercase(s.as_str());
            chars_of(l.as_str())
        },
        None => Vec::new(),
    };
    let mut out: Vec<usize> = Vec::new();
    let mut i: usize = 0;
    while i < rows.len()
        invariant
            i <= rows.len(),
            all == views(rows@),
            f == opt_string(*filter),
            filter.is_some() ==> q@ == lowercase(f.unwrap()),
            out@.map_values(|k: usize| k as int) == shown_positions(all.take(i as int), f),
            forall|k: int| 0 <= k < out.len() ==> out@[k] < i,
        decreases rows.len() - i,
    {
        assert(all.take(i + 1).drop_last() =~= all.take(i as int));
        assert(all.take(i + 1).last() == rows@[i as int]@);
        let shown = match filter {
            Some(_) => row_hit_exec(&rows[i], &q),
            None => true,
        };
        if shown {
            let ghost before = out@.map_values(|k: usize| k as int);
            out.push(i);
            assert(out@.map_values(|k: usize| k as int) =~= before.push(i as int));
        }
        i = i + 1;
    }
    assert(all.take(rows.len() as int) =~= all);
    if out.len() > 30 {
        let ghost whole = out@.map_values(|k: usize| k as int);
        out.truncate(30);
        assert(out@.map_values(|k: usize| k as int) =~= whole.take(30));
    }
    out
}

/// What one line of input makes the browser do.
#[derive(Debug)]
pub enum BrowseStep {
    /// Empty input or `q`: leave without a target.
    Cancel,
    /// `/text`: list only rows matching `text` (`/` alone: list all).
    SetFilter(Option<String>),
    /// A PID or a listed row was chosen.
    Select(i32),
    /// A search that matches nothing.
    NoMatch,
    /// A search with several matches: list them (the lower-cased query).
    Refine(String),
}

/// PIDs of the rows matching a lower-cased query, in order.
pub open spec fn hit_pids(rows: Seq<(i32, Seq<char>, Seq<char>)>, q: Seq<char>) -> Seq<i32>
    decreases rows.len(),
{
    if rows.len() == 0 {
        seq![]
    } else {
        let prev = hit_pids(rows.drop_last(), q);
        if row_hit(rows.last(), q) {
            prev.push(rows.last().0)
        } else {
            prev
        }
    }
}

pub open spec fn has_pid(rows: Seq<(i32, Seq<char>, Seq<char>)>, pid: int) -> bool {
    exists|k: int| 0 <= k < rows.len() && rows[k].0 == pid
}

/// The step for a line of input `raw`, given the rows and the positions of
/// the listed ones (numbered from 1 on screen).
pub open spec fn step_of(
    rows: Seq<(i32, Seq<char>, Seq<char>)>,
    shown: Seq<int>,
    raw: Seq<char>,
    r: BrowseStep,
) -> bool {
    let t = trim(raw);
    let idx = parse_uint(t, 10, usize::MAX as nat);
    if t.len() == 0 || t == "q"@ || t == "Q"@ {
        r is Cancel
    } else if t[0] == '/' {
        let rest = t.drop_first();
        if rest.len() == 0 {
            r matches BrowseStep::SetFilter(None)
        } else {
            r matches BrowseStep::SetFilter(Some(f)) && f@ == rest
        }
    } else if parse_i32_spec(t) is Some && has_pid(rows, parse_i32_spec(t).unwrap()) {
        r == BrowseStep::Select(parse_i32_spec(t).unwrap() as i32)
    } else if idx is Some && 0 < idx.unwrap() <= shown.len() {
        r == BrowseStep::Select(rows[shown[idx.unwrap() - 1]].0)
    } else {
        let q = lowercase(t);
        let hits = hit_pids(rows, q);
        if hits.len() == 0 {
            r is NoMatch
        } else if hits.len() == 1 {
            r == BrowseStep::Select(hits[0])
        } else {
            r matches BrowseStep::Refine(s) && s@ == q
        }
    }
}

/// Decides what a line of input does in the browser. `shown` holds the
/// positions of the listed rows, as [`listed_rows`] gives them.
pub fn browse_step(rows: &Vec<BrowseRow>, shown: &Vec<usize>, raw: &str) -> (r: BrowseStep)
    requires
        forall|k: int| 0 <= k < shown.len() ==> shown@[k] < rows.len(),
    ensures
        step_of(views(rows@), shown@.map_values(|i: usize| i as int), raw@, r),
{
    let ghost all = views(rows@);
    let cs = chars_of(raw);
    let t = trim_chars(&cs);
    proof {
        reveal_strlit("q");
        reveal_strlit("Q");
    }
    if t.len() == 0 {
        return BrowseStep::Cancel;
    }
    if t.len() == 1 && (t[0] == 'q' || t[0] == 'Q') {
        proof {
            if t[0] == 'q' {
                assert(t@ =~= "q"@);
            } else {
                assert(t@ =~= "Q"@);
            }
        }
        return BrowseStep::Cancel;
    }
    assert(t@ != "q"@ && t@ != "Q"@ ==> !(t.len() == 1 && (t[0] == 'q' || t[0] == 'Q')));
    if t[0] == '/' {
        let rest = skip_chars(&t, 1);
        assert(rest@ =~= t@.drop_first());
        if rest.len() == 0 {
            return BrowseStep::SetFilter(None);
        }
        return BrowseStep::SetFilter(Some(string_of(&rest)));
    }
    match parse_i32(&t) {
        Some(pid) => {
            let mut k: usize = 0;
            while k < rows.len()
                invariant
                    k <= rows.len(),
                    all == views(rows@),
                    forall|j: int| 0 <= j < k ==> all[j].0 != pid,
                    t@ == trim(raw@),
                    !(t@.len() == 0 || t@ == "q"@ || t@ == "Q"@),
                    t@[0] != '/',
                    parse_i32_spec(t@) == Some(pid as int),
                decreases rows.len() - k,
            {
                if rows[k].pid == pid {
                    assert(all[k as int].0 == pid);
                    assert(has_pid(all, pid as int));
                    return BrowseStep::Select(pid);
                }
                k = k + 1;
            }
        },
        None => {},
    }
    match parse_unsigned(&t, 10, usize::MAX as u64) {
        Some(idx) => {
            if idx > 0 && idx <= shown.len() as u64 {
                let at = shown[(idx - 1) as usize];
                return BrowseStep::Select(rows[at].pid);
            }
        },
        None => {},
    }
    let ts = string_of(&t);
    let ql = to_lowercase(ts.as_str());
    let q = chars_of(ql.as_str());
    let mut hits: Vec<i32> = Vec::new();
    let mut i: usize = 0;
    while i < rows.len()
        invariant
            i <= rows.len(),
            all == views(rows@),
            q@ == lowercase(t@),
            hits@ == hit_pids(all.take(i as int), q@),
        decreases rows.len() - i,
    {
        assert(all.take(i + 1).drop_last() =~= all.take(i as int));
        assert(all.take(i + 1).last() == rows@[i as int]@);
        if row_hit_exec(&rows[i], &q) {
            hits.push(rows[i].pid);
        }
        i = i + 1;
    }
    assert(all.take(rows.len() as int) =~= all);
    if hits.len() == 0 {
        BrowseStep::NoMatch
    } else if hits.len() == 1 {
        BrowseStep::Select(hits[0])
    } else {
        BrowseStep::Refine(ql)
    }
}

/// Whether the first `n` bytes of `s` end on a character boundary.
pub open spec fn cuttable(s: Seq<char>, n: nat) -> bool {
    exists|k: int| 0 <= k <= s.len() && utf8_len(s.take(k)) == n
}

/// The number of characters in the first `n` bytes of `s`, when they end on
/// a character boundary.
pub open spec fn cut_index(s: Seq<char>, n: nat) -> int {
    choose|k: int| 0 <= k <= s.len() && utf8_len(s.take(k)) == n
}

/// A command line as the browser lists it: past 40 bytes, its first 40
/// bytes and an ellipsis.
pub open spec fn cmd_preview_of(s: Seq<char>) -> Seq<char> {
    if utf8_len(s) > 40 {
        s.take(cut_index(s, 40)) + "…"@
    } else {
        s
    }
}

/// Shortens a command line for the listing. Cutting inside a character is
/// outside the contract (`str` slicing would panic there).
pub fn cmd_preview(cmd: &str) -> (r: String)
    requires
        utf8_len(cmd@) > 40 ==> cuttable(cmd@, 40),
    ensures
        r@ == cmd_preview_of(cmd@),
{
    let cs = chars_of(cmd);
    let ghost s = cs@;
    let mut i: usize = 0;
    let mut acc: usize = 0;
    assert(s.take(0) =~= Seq::<char>::empty());
    while i < cs.len() && acc < 40
        invariant
            s == cs@,
            i <= cs.len(),
            acc == utf8_len(s.take(i as int)),
            acc < 44,
            i > 0 ==> utf8_len(s.take(i - 1)) < 40,
        decreases cs.len() - i,
    {
        proof {
            lemma_utf8_len_take(s, i as int);
        }
        acc = acc + char_len_utf8(cs[i]);
        i = i + 1;
    }
    assert(s.take(s.len() as int) =~= s);
    if i == cs.len() || acc < 40 {
        proof {
            if acc > 40 {
                assert(cuttable(s, 40));
                let k = cut_index(s, 40);
                if k < i - 1 {
                    lemma_utf8_len_prefix_grows(s, k, i - 1);
                }
                assert(false);
            }
        }
        return string_from(cmd);
    }
    proof {
        lemma_utf8_len_prefix_grows(s, i as int, s.len() as int);
        let k = cut_index(s, 40);
        assert(cuttable(s, 40));
        if k < i {
            lemma_utf8_len_prefix_grows(s, k, i as int);
            if k < i - 1 {
                lemma_utf8_len_prefix_grows(s, k, i - 1);
            }
        } else if k > i {
            lemma_utf8_len_prefix_grows(s, i as int, k);
        }
        assert(k == i);
    }
    let mut out: Vec<char> = Vec::new();
    let mut j: usize = 0;
    while j < i
        invariant
            j <= i <= cs.len(),
            out@ == cs@.take(j as int),
        decreases i - j,
    {
        out.push(cs[j]);
        j = j + 1;
        assert(out@ =~= cs@.take(j as int));
    }
    out.push('…');
    proof {
        reveal_strlit("…");
    }
    assert(out@ =~= s.take(i as int) + "…"@);
    string_of(&out)
}

/// One listed row: its number on screen, PID, name and command line, in
/// columns (`{:<4} {:>6}  {:<20}  {}`).
pub open spec fn browse_line_of(number: nat, row: (i32, Seq<char>, Seq<char>)) -> Seq<char> {
    left_aligned(dec(number), 4) + " "@ + right_aligned(signed_dec(row.0 as int), 6) + "  "@
        + left_aligned(row.1, 20) + "  "@ + cmd_preview_of(row.2)
}

pub fn browse_line(number: usize, row: &BrowseRow) -> (r: String)
    requires
        utf8_len(row.cmd@) > 40 ==> cuttable(row.cmd@, 40),
    ensures
        r@ == browse_line_of(number as nat, row@),
{
    let mut out: Vec<char> = Vec::new();
    let n = dec_string(number as u64);
    push_left(&mut out, n.as_str(), 4);
    out.push(' ');
    let p = signed_string(row.pid as i64);
    push_right(&mut out, p.as_str(), 6);
    out.push(' ');
    out.push(' ');
    push_left(&mut out, row.name.as_str(), 20);
    out.push(' ');
    out.push(' ');
    let c = cmd_preview(row.cmd.as_str());
    let cv = chars_of(c.as_str());
    push_vec(&mut out, &cv);
    proof {
        reveal_strlit(" ");
        reveal_strlit("  ");
    }
    assert(out@ =~= browse_line_of(number as nat, row@));
    string_of(&out)
}

} // verus!
