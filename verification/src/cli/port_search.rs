use vstd::prelude::*;
use std::collections::HashMap;
use crate::cli::report::{truncate, truncated};
use crate::network::tcp::{port_map_view, PortUseV};
use crate::text::{
    chars_of, left_aligned, parse_i32, parse_i32_spec, push_left, push_str, signed_dec,
    signed_string, string_from, string_of, trim, trim_chars,
};

verus! {

broadcast use vstd::std_specs::hash::group_hash_axioms;

/// One process for the port search: its PID, its command name (`None` when
/// unreadable) and the inodes of its sockets.
pub struct ProcSockets {
    pub pid: i32,
    pub comm: Option<String>,
    pub inodes: Vec<u64>,
}

/// One socket of a process on the searched port.
#[derive(Debug, Clone)]
pub struct PortHit {
    pub pid: i32,
    pub name: String,
    pub kind: String,
    pub local: String,
    pub remote: String,
}

impl View for PortHit {
    type V = (i32, Seq<char>, Seq<char>, Seq<char>, Seq<char>);

    open spec fn view(&self) -> Self::V {
        (self.pid, self.name@, self.kind@, self.local@, self.remote@)
    }
}

/// The name shown for a process: its command name, else its PID.
pub open spec fn shown_name(p: ProcSockets) -> Seq<char> {
    match p.comm {
        Some(c) => c@,
        None => signed_dec(p.pid as int),
    }
}

/// The hits of one process: each of its socket inodes, in order, that the
/// port map holds.
pub open spec fn proc_hits(
    pid: i32,
    name: Seq<char>,
    inodes: Seq<u64>,
    m: Map<u64, PortUseV>,
) -> Seq<(i32, Seq<char>, Seq<char>, Seq<char>, Seq<char>)>
    decreases inodes.len(),
{
    if inodes.len() == 0 {
        seq![]
    } else {
        let prev = proc_hits(pid, name, inodes.drop_last(), m);
        let i = inodes.last();
        if m.contains_key(i) {
            prev.push((pid, name, m[i].0, m[i].1, m[i].2))
        } else {
            prev
        }
    }
}

/// The hits of all processes, process by process.
pub open spec fn all_hits(procs: Seq<ProcSockets>, m: Map<u64, PortUseV>) -> Seq<
    (i32, Seq<char>, Seq<char>, Seq<char>, Seq<char>),
>
    decreases procs.len(),
{
    if procs.len() == 0 {
        seq![]
    } else {
        let p = procs.last();
        all_hits(procs.drop_last(), m) + proc_hits(p.pid, shown_name(p), p.inodes@, m)
    }
}

pub open spec fn hit_views(h: Seq<PortHit>) -> Seq<(i32, Seq<char>, Seq<char>, Seq<char>, Seq<char>)> {
    h.map_values(|x: PortHit| x@)
}

/// Joins each process's sockets with the sockets on the port (from
/// `inodes_using_port`).
pub fn port_hits(procs: &Vec<ProcSockets>, map: &HashMap<u64, (String, String, String)>) -> (r: Vec<PortHit>)
    ensures
        hit_views(r@) == all_hits(procs@, port_map_view(map@)),
{
    let ghost m = port_map_view(map@);
    let mut out: Vec<PortHit> = Vec::new();
    let mut i: usize = 0;
    while i < procs.len()
        invariant
            i <= procs.len(),
            m == port_map_view(map@),
            hit_views(out@) == all_hits(procs@.take(i as int), m),
        decreases procs.len() - i,
    {
        assert(procs@.take(i + 1).drop_last() =~= procs@.take(i as int));
        let p = &procs[i];
        let name = match &p.comm {
            Some(c) => c.clone(),
            None => signed_string(p.pid as i64),
        };
        let ghost base = hit_views(out@);
        let mut j: usize = 0;
        while j < p.inodes.len()
            invariant
                j <= p.inodes.len(),
                m == port_map_view(map@),
                name@ == shown_name(*p),
                hit_views(out@) == base + proc_hits(p.pid, name@, p.inodes@.take(j as int), m),
            decreases p.inodes.len() - j,
        {
            let inode = p.inodes[j];
            assert(p.inodes@.take(j + 1).drop_last() =~= p.inodes@.take(j as int));
            match map.get(&inode) {
                Some(v) => {
                    let h = PortHit {
                        pid: p.pid,
                        name: name.clone(),
                        kind: v.0.clone(),
                        local: v.1.clone(),
                        remote: v.2.clone(),
                    };
                    let ghost hv = h@;
                    let ghost before = hit_views(out@);
                    out.push(h);
                    assert(hit_views(out@) =~= before.push(hv));
                },
                None => {},
            }
            j = j + 1;
        }
        assert(p.inodes@.take(p.inodes.len() as int) =~= p.inodes@);
        i = i + 1;
    }
    assert(procs@.take(procs.len() as int) =~= procs@);
    out
}

/// A row of the hit table: `{:<6} {:<20} {:<14} {:<22} {:<22}` with the
/// name cut to 20 bytes.
pub open spec fn hit_line_of(h: (i32, Seq<char>, Seq<char>, Seq<char>, Seq<char>)) -> Seq<char> {
    left_aligned(signed_dec(h.0 as int), 6) + " "@ + left_aligned(truncated(h.1, 20), 20) + " "@
        + left_aligned(h.2, 14) + " "@ + left_aligned(h.3, 22) + " "@ + left_aligned(h.4, 22)
}

pub fn hit_line(h: &PortHit) -> (r: String)
    ensures
        r@ == hit_line_of(h@),
{
    let mut out: Vec<char> = Vec::new();
    let p = signed_string(h.pid as i64);
    push_left(&mut out, p.as_str(), 6);
    out.push(' ');
    let n = truncate(h.name.as_str(), 20);
    push_left(&mut out, n.as_str(), 20);
    out.push(' ');
    push_left(&mut out, h.kind.as_str(), 14);
    out.push(' ');
    push_left(&mut out, h.local.as_str(), 22);
    out.push(' ');
    push_left(&mut out, h.remote.as_str(), 22);
    proof {
        reveal_strlit(" ");
    }
    assert(out@ =~= hit_line_of(h@));
    string_of(&out)
}

/// What the answer to "PID to control:" asks for.
#[derive(Debug)]
pub enum PidEntry {
    /// An empty answer: leave.
    Leave,
    Pid(i32),
    /// Not a PID: the error message.
    Invalid(String),
}

/// Reads the answer to "PID to control:".
pub fn pid_entry(line: &str) -> (r: PidEntry)
    ensures
        ({
            let t = trim(line@);
            if t.len() == 0 {
                r is Leave
            } else {
                match parse_i32_spec(t) {
                    Some(p) => r == PidEntry::Pid(p as i32),
                    None => r matches PidEntry::Invalid(m) && m@ == "invalid PID '"@ + t + "'"@,
                }
            }
        }),
{
    let cs = chars_of(line);
    let t = trim_chars(&cs);
    if t.len() == 0 {
        return PidEntry::Leave;
    }
    match parse_i32(&t) {
        Some(p) => PidEntry::Pid(p),
        None => {
            let mut m = string_from("invalid PID '");
            let ts = string_of(&t);
            push_str(&mut m, ts.as_str());
            push_str(&mut m, "'");
            PidEntry::Invalid(m)
        },
    }
}

} // verus!
