use vstd::prelude::*;
use crate::colors::{colored, cyan_bold};
use crate::peek_core::ProcessNode;
use crate::text::{
    chars_of, dec, dec_string, push_str, push_vec, signed_dec, signed_string, string_of,
};

verus! {

/// One line of a process tree before it is styled: the indentation and
/// connector that lead it, and the process's name, PID and RSS in KiB.
pub type TreeRowV = (Seq<char>, Seq<char>, i32, u64);

/// The connector drawn before a node.
pub open spec fn connector(is_last: bool) -> Seq<char> {
    if is_last {
        "└── "@
    } else {
        "├── "@
    }
}

/// The indentation of a node's children.
pub open spec fn child_prefix(prefix: Seq<char>, is_last: bool) -> Seq<char> {
    prefix + if is_last {
        "    "@
    } else {
        "│   "@
    }
}

/// The lines of `node`'s subtree, the node first and then each child's
/// subtree in order, the last child drawn with the closing connector.
pub open spec fn node_rows(node: ProcessNode, prefix: Seq<char>, is_last: bool) -> Seq<TreeRowV>
    decreases node, 0int,
{
    seq![(prefix + connector(is_last), node.name@, node.pid, node.rss_kb)] + children_rows(
        node.children@,
        child_prefix(prefix, is_last),
        node.children@.len(),
    )
}

/// The subtrees of the first `cs.len()` of `n` siblings.
pub open spec fn children_rows(cs: Seq<ProcessNode>, prefix: Seq<char>, n: nat) -> Seq<TreeRowV>
    decreases cs, 1int,
{
    if cs.len() == 0 {
        seq![]
    } else {
        children_rows(cs.drop_last(), prefix, n) + node_rows(cs.last(), prefix, cs.len() == n)
    }
}

/// A tree line, unstyled.
pub struct TreeRow {
    pub lead: String,
    pub name: String,
    pub pid: i32,
    pub rss_kb: u64,
}

impl View for TreeRow {
    type V = TreeRowV;

    open spec fn view(&self) -> TreeRowV {
        (self.lead@, self.name@, self.pid, self.rss_kb)
    }
}

pub open spec fn row_views(v: Seq<TreeRow>) -> Seq<TreeRowV> {
    v.map_values(|r: TreeRow| r@)
}

fn push_rows(node: &ProcessNode, prefix: &Vec<char>, is_last: bool, out: &mut Vec<TreeRow>)
    ensures
        row_views(final(out)@) == row_views(old(out)@) + node_rows(*node, prefix@, is_last),
    decreases node, 0int,
{
    let mut lead = prefix.clone();
    proof {
        reveal_strlit("└── ");
        reveal_strlit("├── ");
        reveal_strlit("    ");
        reveal_strlit("│   ");
    }
    let c = if is_last {
        chars_of("└── ")
    } else {
        chars_of("├── ")
    };
    push_vec(&mut lead, &c);
    let ghost before = row_views(out@);
    let row = TreeRow { lead: string_of(&lead), name: node.name.clone(), pid: node.pid, rss_kb: node.rss_kb };
    let ghost rv = row@;
    out.push(row);
    assert(row_views(out@) =~= before.push(rv));
    let mut cp = prefix.clone();
    let pad = if is_last {
        chars_of("    ")
    } else {
        chars_of("│   ")
    };
    push_vec(&mut cp, &pad);
    let n = node.children.len();
    let ghost cs = node.children@;
    let ghost start = row_views(out@);
    let mut i: usize = 0;
    assert(cs.take(0) =~= Seq::<ProcessNode>::empty());
    while i < n
        invariant
            n == cs.len(),
            cs == node.children@,
            i <= n,
            cp@ == child_prefix(prefix@, is_last),
            row_views(out@) == start + children_rows(cs.take(i as int), cp@, n as nat),
        decreases n - i,
    {
        assert(cs.take(i + 1).drop_last() =~= cs.take(i as int));
        assert(cs.take(i + 1).last() == cs[i as int]);
        proof {
            assert(decreases_to!(*node => node.children));
            assert(decreases_to!(node.children => node.children@));
            assert(decreases_to!(node.children@ => node.children@[i as int]));
        }
        push_rows(&node.children[i], &cp, i + 1 == n, out);
        i = i + 1;
        assert(row_views(out@) =~= start + children_rows(cs.take(i as int), cp@, n as nat));
    }
    assert(cs.take(n as int) =~= cs);
    assert(row_views(out@) =~= before + node_rows(*node, prefix@, is_last));
}

/// The rows of the whole tree under `root`, which is drawn as a last child.
pub fn tree_rows(root: &ProcessNode) -> (r: Vec<TreeRow>)
    ensures
        row_views(r@) == node_rows(*root, seq![], true),
{
    let mut out: Vec<TreeRow> = Vec::new();
    let empty: Vec<char> = Vec::new();
    push_rows(root, &empty, true, &mut out);
    assert(row_views(out@) =~= node_rows(*root, seq![], true));
    out
}

/// A line of `peek`'s tree report: two spaces, the lead, the name (cyan and
/// bold for the target), ` (PID) [N MB]`.
pub open spec fn report_line(r: TreeRowV, target: i32, disabled: bool) -> Seq<char> {
    let name = if r.2 == target {
        colored(r.1, "\x1b[1m"@ + "\x1b[36m"@, "\x1b[39m"@ + "\x1b[0m"@, disabled)
    } else {
        r.1
    };
    "  "@ + r.0 + name + " ("@ + signed_dec(r.2 as int) + ") ["@ + dec((r.3 / 1024) as nat) + " MB]"@
}

/// A line of the tree tab: the lead, the name, ` (PID)  [N MB]`.
pub open spec fn tab_line(r: TreeRowV) -> Seq<char> {
    r.0 + r.1 + " ("@ + signed_dec(r.2 as int) + ")  ["@ + dec((r.3 / 1024) as nat) + " MB]"@
}

fn pid_and_size(out: &mut String, pid: i32, rss_kb: u64, mid: &str)
    ensures
        final(out)@ == old(out)@ + " ("@ + signed_dec(pid as int) + mid@ + dec((rss_kb / 1024) as nat)
            + " MB]"@,
{
    let ghost start = out@;
    push_str(out, " (");
    let p = signed_string(pid as i64);
    push_str(out, p.as_str());
    push_str(out, mid);
    let m = dec_string(rss_kb / 1024);
    push_str(out, m.as_str());
    push_str(out, " MB]");
    assert(out@ =~= start + " ("@ + signed_dec(pid as int) + mid@ + dec((rss_kb / 1024) as nat)
        + " MB]"@);
}

/// The lines of `peek`'s process tree report.
pub fn report_tree_lines(root: &ProcessNode, target: i32, disabled: bool) -> (r: Vec<String>)
    ensures
        r@.len() == node_rows(*root, seq![], true).len(),
        forall|i: int| 0 <= i < r@.len() ==> #[trigger] r@[i]@ == report_line(
            node_rows(*root, seq![], true)[i],
            target,
            disabled,
        ),
{
    let rows = tree_rows(root);
    let ghost rv = row_views(rows@);
    let mut out: Vec<String> = Vec::new();
    let mut i: usize = 0;
    while i < rows.len()
        invariant
            i <= rows.len(),
            rv == row_views(rows@),
            out@.len() == i,
            forall|k: int| 0 <= k < i ==> #[trigger] out@[k]@ == report_line(rv[k], target, disabled),
        decreases rows.len() - i,
    {
        let row = &rows[i];
        let mut line = String::new();
        push_str(&mut line, "  ");
        push_str(&mut line, row.lead.as_str());
        if row.pid == target {
            let n = cyan_bold(row.name.as_str(), disabled);
            push_str(&mut line, n.as_str());
        } else {
            push_str(&mut line, row.name.as_str());
        }
        pid_and_size(&mut line, row.pid, row.rss_kb, ") [");
        proof {
            reveal_strlit("  ");
        }
        assert(line@ =~= report_line(rv[i as int], target, disabled));
        out.push(line);
        i = i + 1;
    }
    out
}

pub open spec fn tab_entry(e: (String, bool), row: TreeRowV, target: i32) -> bool {
    e.0@ == tab_line(row) && e.1 == (row.2 == target)
}

/// The lines of the tree tab, each with whether it is the target (drawn
/// cyan and bold, the others white).
pub fn render_tree_lines(root: &ProcessNode, target: i32) -> (r: Vec<(String, bool)>)
    ensures
        r@.len() == node_rows(*root, seq![], true).len(),
        forall|i: int| 0 <= i < r@.len() ==> tab_entry(
            #[trigger] r@[i],
            node_rows(*root, seq![], true)[i],
            target,
        ),
{
    let rows = tree_rows(root);
    let ghost rv = row_views(rows@);
    let mut out: Vec<(String, bool)> = Vec::new();
    let mut i: usize = 0;
    while i < rows.len()
        invariant
            i <= rows.len(),
            rv == row_views(rows@),
            out@.len() == i,
            forall|k: int| 0 <= k < i ==> tab_entry(#[trigger] out@[k], rv[k], target),
        decreases rows.len() - i,
    {
        let row = &rows[i];
        let mut line = String::new();
        push_str(&mut line, row.lead.as_str());
        push_str(&mut line, row.name.as_str());
        pid_and_size(&mut line, row.pid, row.rss_kb, ")  [");
        assert(line@ =~= tab_line(rv[i as int]));
        assert(rv[i as int].2 == row.pid);
        let hl = row.pid == target;
        out.push((line, hl));
        assert(tab_entry(out@[i as int], rv[i as int], target));
        i = i + 1;
    }
    out
}

} // verus!
