use vstd::prelude::*;
use crate::cli::sections::{first_n, join_comma, ns_types, secret_count, strs};
use crate::tui::FdLeakStatus;
use crate::peek_core::{ConnectionEntry, EnvVar, KernelInfo, NetworkInfo, OpenFile, SocketEntry};
use crate::text::{
    dec, dec_string, push_str, signed_dec, signed_string, starts_with, has_prefix_str, chars_of,
    str_eq, string_from,
};

verus! {

/// The colours the full-screen view draws text in.
#[derive(Debug, Clone, Copy, PartialEq, Eq, Structural)]
pub enum Tone {
    Plain,
    Green,
    Red,
    Yellow,
    Cyan,
    Magenta,
    Gray,
    DarkGray,
}

// ─── Header and footer ───────────────────────────────────────────────────────

/// The colour of a process state: running green, zombie or dead red,
/// uninterruptible sleep yellow, others plain.
pub open spec fn state_tone_of(s: Seq<char>) -> Tone {
    if starts_with(s, "Running"@) {
        Tone::Green
    } else if starts_with(s, "Zombie"@) || starts_with(s, "Dead"@) {
        Tone::Red
    } else if starts_with(s, "Uninterruptible"@) {
        Tone::Yellow
    } else {
        Tone::Plain
    }
}

pub fn state_tone(state: &str) -> (r: Tone)
    ensures
        r == state_tone_of(state@),
{
    let sv = chars_of(state);
    if has_prefix_str(&sv, "Running") {
        Tone::Green
    } else if has_prefix_str(&sv, "Zombie") || has_prefix_str(&sv, "Dead") {
        Tone::Red
    } else if has_prefix_str(&sv, "Uninterruptible") {
        Tone::Yellow
    } else {
        Tone::Plain
    }
}

/// Integer division rounding toward zero, as Rust's `/` does.
pub open spec fn div_trunc(a: int, b: int) -> int {
    if a >= 0 {
        a / b
    } else {
        -((-a) / b)
    }
}

/// The uptime in the header, from the seconds since start: minutes below an
/// hour, hours below a day, else days.
pub open spec fn uptime_of(secs: int) -> Seq<char> {
    if secs < 3600 {
        signed_dec(div_trunc(secs, 60)) + "m"@
    } else if secs < 86400 {
        signed_dec(secs / 3600) + "h"@
    } else {
        signed_dec(secs / 86400) + "d"@
    }
}

pub fn uptime_text(secs: i64) -> (r: String)
    ensures
        r@ == uptime_of(secs as int),
{
    let (n, unit): (i64, &str) = if secs < 3600 {
        let q: i64 = if secs >= 0 {
            secs / 60
        } else {
            let m: i128 = -(secs as i128);
            let d: i128 = m / 60;
            -(d as i64)
        };
        (q, "m")
    } else if secs < 86400 {
        (secs / 3600, "h")
    } else {
        (secs / 86400, "d")
    };
    let mut s = signed_string(n);
    push_str(&mut s, unit);
    s
}

/// The tick counter in the footer.
pub open spec fn footer_tick_of(paused: bool, tick: u64) -> Seq<char> {
    if paused {
        " ⏸ PAUSED "@
    } else {
        " tick #"@ + dec(tick as nat) + " "@
    }
}

pub fn footer_tick(paused: bool, tick: u64) -> (r: String)
    ensures
        r@ == footer_tick_of(paused, tick),
{
    if paused {
        string_from(" ⏸ PAUSED ")
    } else {
        let mut s = string_from(" tick #");
        push_str(&mut s, dec_string(tick).as_str());
        push_str(&mut s, " ");
        s
    }
}

// ─── Kernel tab ──────────────────────────────────────────────────────────────

/// The colour of an OOM score: above 700 red, above 400 yellow, else green.
pub open spec fn oom_tone_of(score: int) -> Tone {
    if score > 700 {
        Tone::Red
    } else if score > 400 {
        Tone::Yellow
    } else {
        Tone::Green
    }
}

pub fn oom_tone(score: i32) -> (r: Tone)
    ensures
        r == oom_tone_of(score as int),
{
    if score > 700 {
        Tone::Red
    } else if score > 400 {
        Tone::Yellow
    } else {
        Tone::Green
    }
}

pub open spec fn opt_count(v: Option<u64>) -> nat {
    match v {
        Some(n) => n as nat,
        None => 0,
    }
}

/// The rows of the kernel table, field and value.
pub open spec fn kernel_rows_of(k: KernelInfo) -> Seq<(Seq<char>, Seq<char>)> {
    seq![
        ("Scheduler"@, k.sched_policy@),
        ("Nice / Priority"@, signed_dec(k.nice as int) + " / "@ + signed_dec(k.priority as int)),
        ("OOM Score"@, signed_dec(k.oom_score as int) + " / 1000"@),
        ("OOM Score Adj"@, signed_dec(k.oom_score_adj as int)),
        ("Cgroup"@, k.cgroup@),
        ("Seccomp"@, crate::cli::report::seccomp_text(k.seccomp)),
        ("Namespaces"@, join_comma(ns_types(k.namespaces@))),
        ("Cap Permitted"@, k.cap_permitted@),
        ("Cap Effective"@, k.cap_effective@),
        ("Ctx Switches"@, dec(opt_count(k.voluntary_ctxt_switches)) + " voluntary / "@ + dec(
            opt_count(k.nonvoluntary_ctxt_switches),
        ) + " involuntary"@),
    ]
}

pub open spec fn pair_views(v: Seq<(String, String)>) -> Seq<(Seq<char>, Seq<char>)> {
    v.map_values(|p: (String, String)| (p.0@, p.1@))
}

fn push_pair(out: &mut Vec<(String, String)>, a: &str, b: String)
    ensures
        pair_views(final(out)@) == pair_views(old(out)@).push((a@, b@)),
{
    let ghost before = pair_views(out@);
    let ghost bv = b@;
    out.push((string_from(a), b));
    assert(pair_views(out@) =~= before.push((a@, bv)));
}

fn join_namespaces(k: &KernelInfo) -> (r: String)
    ensures
        r@ == join_comma(ns_types(k.namespaces@)),
{
    let mut s = String::new();
    let ghost ws = ns_types(k.namespaces@);
    let mut i: usize = 0;
    assert(ws.take(0) =~= Seq::<Seq<char>>::empty());
    proof {
        reveal_strlit("");
    }
    while i < k.namespaces.len()
        invariant
            i <= k.namespaces.len(),
            ws == ns_types(k.namespaces@),
            s@ == join_comma(ws.take(i as int)),
        decreases k.namespaces.len() - i,
    {
        if i > 0 {
            push_str(&mut s, ", ");
        }
        push_str(&mut s, k.namespaces[i].ns_type.as_str());
        proof {
            assert(ws.take(i + 1).drop_last() =~= ws.take(i as int));
            if i == 0 {
                assert(ws.take(1) =~= seq![ws[0]]);
            }
        }
        i = i + 1;
        assert(s@ =~= join_comma(ws.take(i as int)));
    }
    assert(ws.take(k.namespaces.len() as int) =~= ws);
    s
}

pub fn kernel_rows(k: &KernelInfo) -> (r: Vec<(String, String)>)
    ensures
        pair_views(r@) == kernel_rows_of(*k),
{
    let mut out: Vec<(String, String)> = Vec::new();
    push_pair(&mut out, "Scheduler", string_from(k.sched_policy.as_str()));
    let mut np = signed_string(k.nice as i64);
    push_str(&mut np, " / ");
    push_str(&mut np, signed_string(k.priority as i64).as_str());
    push_pair(&mut out, "Nice / Priority", np);
    let mut oom = signed_string(k.oom_score as i64);
    push_str(&mut oom, " / 1000");
    push_pair(&mut out, "OOM Score", oom);
    push_pair(&mut out, "OOM Score Adj", signed_string(k.oom_score_adj as i64));
    push_pair(&mut out, "Cgroup", string_from(k.cgroup.as_str()));
    push_pair(&mut out, "Seccomp", string_from(crate::cli::report::seccomp_label(k.seccomp)));
    push_pair(&mut out, "Namespaces", join_namespaces(k));
    push_pair(&mut out, "Cap Permitted", string_from(k.cap_permitted.as_str()));
    push_pair(&mut out, "Cap Effective", string_from(k.cap_effective.as_str()));
    let v = match k.voluntary_ctxt_switches {
        Some(n) => n,
        None => 0,
    };
    let nv = match k.nonvoluntary_ctxt_switches {
        Some(n) => n,
        None => 0,
    };
    let mut cs = dec_string(v);
    push_str(&mut cs, " voluntary / ");
    push_str(&mut cs, dec_string(nv).as_str());
    push_str(&mut cs, " involuntary");
    push_pair(&mut out, "Ctx Switches", cs);
    assert(pair_views(out@) =~= kernel_rows_of(*k));
    out
}

// ─── Files tab ───────────────────────────────────────────────────────────────

/// The colour of a descriptor type.
pub open spec fn fd_type_tone_of(t: Seq<char>) -> Tone {
    if t == "socket"@ {
        Tone::Cyan
    } else if t == "pipe"@ {
        Tone::Yellow
    } else if t == "anon_inode"@ {
        Tone::Magenta
    } else if t == "device"@ {
        Tone::Red
    } else {
        Tone::Plain
    }
}

pub fn fd_type_tone(t: &str) -> (r: Tone)
    ensures
        r == fd_type_tone_of(t@),
{
    if str_eq(t, "socket") {
        Tone::Cyan
    } else if str_eq(t, "pipe") {
        Tone::Yellow
    } else if str_eq(t, "anon_inode") {
        Tone::Magenta
    } else if str_eq(t, "device") {
        Tone::Red
    } else {
        Tone::Plain
    }
}

/// One row of the file table: descriptor, type and its colour, description.
pub open spec fn file_row_of(f: OpenFile) -> (Seq<char>, Seq<char>, Tone, Seq<char>) {
    (dec(f.fd as nat), f.fd_type@, fd_type_tone_of(f.fd_type@), f.description@)
}

pub open spec fn file_row_views(v: Seq<(String, String, Tone, String)>) -> Seq<(Seq<char>, Seq<char>, Tone, Seq<char>)> {
    v.map_values(|r: (String, String, Tone, String)| (r.0@, r.1@, r.2, r.3@))
}

/// The rows of the file table: the first `max` files.
pub fn file_rows(files: &Vec<OpenFile>, max: usize) -> (r: Vec<(String, String, Tone, String)>)
    ensures
        file_row_views(r@) == first_n(files@, max as nat).map_values(|f: OpenFile| file_row_of(f)),
{
    let n = if files.len() > max {
        max
    } else {
        files.len()
    };
    let ghost shown = first_n(files@, max as nat);
    assert(shown =~= files@.take(n as int));
    let mut out: Vec<(String, String, Tone, String)> = Vec::new();
    let mut i: usize = 0;
    while i < n
        invariant
            i <= n <= files.len(),
            shown == files@.take(n as int),
            file_row_views(out@) == shown.take(i as int).map_values(|f: OpenFile| file_row_of(f)),
        decreases n - i,
    {
        let f = &files[i];
        let row = (dec_string(f.fd as u64), string_from(f.fd_type.as_str()), fd_type_tone(f.fd_type.as_str()), string_from(f.description.as_str()));
        let ghost rv = (row.0@, row.1@, row.2, row.3@);
        let ghost before = file_row_views(out@);
        out.push(row);
        assert(file_row_views(out@) =~= before.push(rv));
        assert(shown.take(i + 1).map_values(|f: OpenFile| file_row_of(f)) =~= shown.take(i as int).map_values(
            |f: OpenFile| file_row_of(f),
        ).push(file_row_of(files@[i as int])));
        i = i + 1;
    }
    assert(shown.take(n as int) =~= shown);
    out
}

/// The file table's title.
pub open spec fn files_title_of(n: nat) -> Seq<char> {
    " Open Files ("@ + dec(n) + ") "@
}

pub fn files_title(files: &Vec<OpenFile>) -> (r: String)
    ensures
        r@ == files_title_of(files@.len()),
{
    let mut s = string_from(" Open Files (");
    push_str(&mut s, dec_string(files.len() as u64).as_str());
    push_str(&mut s, ") ");
    s
}

// ─── Environment tab ─────────────────────────────────────────────────────────

/// The environment table's title: how many variables, how many redacted.
pub open spec fn env_title_of(vars: Seq<EnvVar>) -> Seq<char> {
    " Environment ("@ + dec(vars.len()) + " vars, "@ + dec(secret_count(vars)) + " redacted) "@
}

pub fn env_title(vars: &Vec<EnvVar>) -> (r: String)
    ensures
        r@ == env_title_of(vars@),
{
    let mut secrets: usize = 0;
    let mut i: usize = 0;
    while i < vars.len()
        invariant
            i <= vars.len(),
            secrets == secret_count(vars@.take(i as int)),
            secrets <= i,
        decreases vars.len() - i,
    {
        assert(vars@.take(i + 1).drop_last() =~= vars@.take(i as int));
        if vars[i].redacted {
            secrets = secrets + 1;
        }
        i = i + 1;
    }
    assert(vars@.take(vars.len() as int) =~= vars@);
    let mut s = string_from(" Environment (");
    push_str(&mut s, dec_string(vars.len() as u64).as_str());
    push_str(&mut s, " vars, ");
    push_str(&mut s, dec_string(secrets as u64).as_str());
    push_str(&mut s, " redacted) ");
    s
}

/// The colours of a variable's key and value: redacted yellow and red,
/// else cyan and plain.
pub fn env_tones(v: &EnvVar) -> (r: (Tone, Tone))
    ensures
        r == (if v.redacted {
            (Tone::Yellow, Tone::Red)
        } else {
            (Tone::Cyan, Tone::Plain)
        }),
{
    if v.redacted {
        (Tone::Yellow, Tone::Red)
    } else {
        (Tone::Cyan, Tone::Plain)
    }
}

// ─── Network tab ─────────────────────────────────────────────────────────────

/// The colour of a connection state.
pub open spec fn conn_tone_of(s: Seq<char>) -> Tone {
    if s == "ESTABLISHED"@ {
        Tone::Green
    } else if s == "CLOSE_WAIT"@ || s == "FIN_WAIT1"@ || s == "FIN_WAIT2"@ {
        Tone::Yellow
    } else if s == "TIME_WAIT"@ {
        Tone::DarkGray
    } else {
        Tone::Plain
    }
}

pub fn conn_tone(s: &str) -> (r: Tone)
    ensures
        r == conn_tone_of(s@),
{
    if str_eq(s, "ESTABLISHED") {
        Tone::Green
    } else if str_eq(s, "CLOSE_WAIT") || str_eq(s, "FIN_WAIT1") || str_eq(s, "FIN_WAIT2") {
        Tone::Yellow
    } else if str_eq(s, "TIME_WAIT") {
        Tone::DarkGray
    } else {
        Tone::Plain
    }
}

/// A listening socket in the list: `  TCP  ADDR:PORT` (or `UDP`).
pub open spec fn listen_item_of(s: SocketEntry, kind: Seq<char>) -> Seq<char> {
    "  "@ + kind + "  "@ + s.local_addr@ + ":"@ + dec(s.local_port as nat)
}

/// The listening list: TCP sockets, then UDP sockets.
pub open spec fn listen_items_of(net: NetworkInfo) -> Seq<Seq<char>> {
    net.listening_tcp@.map_values(|s: SocketEntry| listen_item_of(s, "TCP"@)) + net.listening_udp@.map_values(
        |s: SocketEntry| listen_item_of(s, "UDP"@),
    )
}

fn push_items(out: &mut Vec<String>, v: &Vec<SocketEntry>, kind: &str)
    ensures
        strs(final(out)@) == strs(old(out)@) + v@.map_values(|s: SocketEntry| listen_item_of(s, kind@)),
{
    let ghost start = strs(out@);
    let mut i: usize = 0;
    while i < v.len()
        invariant
            i <= v.len(),
            strs(out@) == start + v@.take(i as int).map_values(|s: SocketEntry| listen_item_of(s, kind@)),
        decreases v.len() - i,
    {
        let mut t = string_from("  ");
        push_str(&mut t, kind);
        push_str(&mut t, "  ");
        push_str(&mut t, v[i].local_addr.as_str());
        push_str(&mut t, ":");
        push_str(&mut t, dec_string(v[i].local_port as u64).as_str());
        assert(t@ =~= listen_item_of(v@[i as int], kind@));
        let ghost tv = t@;
        let ghost before = strs(out@);
        out.push(t);
        assert(strs(out@) =~= before.push(tv));
        assert(v@.take(i + 1).map_values(|s: SocketEntry| listen_item_of(s, kind@)) =~= v@.take(
            i as int,
        ).map_values(|s: SocketEntry| listen_item_of(s, kind@)).push(listen_item_of(v@[i as int], kind@)));
        i = i + 1;
    }
    assert(v@.take(v.len() as int) =~= v@);
}

pub fn listen_items(net: &NetworkInfo) -> (r: Vec<String>)
    ensures
        strs(r@) == listen_items_of(*net),
{
    let mut out: Vec<String> = Vec::new();
    assert(strs(out@) =~= Seq::<Seq<char>>::empty());
    push_items(&mut out, &net.listening_tcp, "TCP");
    push_items(&mut out, &net.listening_udp, "UDP");
    assert(strs(out@) =~= listen_items_of(*net));
    out
}

/// A connection row: protocol, local end, remote end, state and its colour.
pub open spec fn conn_row_of(c: ConnectionEntry) -> (Seq<char>, Seq<char>, Seq<char>, Seq<char>, Tone) {
    (
        c.protocol@,
        c.local_addr@ + ":"@ + dec(c.local_port as nat),
        c.remote_addr@ + ":"@ + dec(c.remote_port as nat),
        c.state@,
        conn_tone_of(c.state@),
    )
}

pub open spec fn conn_row_views(v: Seq<(String, String, String, String, Tone)>) -> Seq<
    (Seq<char>, Seq<char>, Seq<char>, Seq<char>, Tone),
> {
    v.map_values(|r: (String, String, String, String, Tone)| (r.0@, r.1@, r.2@, r.3@, r.4))
}

/// The connection table's rows: the first `max` connections.
pub fn conn_rows(net: &NetworkInfo, max: usize) -> (r: Vec<(String, String, String, String, Tone)>)
    ensures
        conn_row_views(r@) == first_n(net.connections@, max as nat).map_values(
            |c: ConnectionEntry| conn_row_of(c),
        ),
{
    let v = &net.connections;
    let n = if v.len() > max {
        max
    } else {
        v.len()
    };
    let ghost shown = first_n(v@, max as nat);
    assert(shown =~= v@.take(n as int));
    let mut out: Vec<(String, String, String, String, Tone)> = Vec::new();
    let mut i: usize = 0;
    while i < n
        invariant
            i <= n <= v.len(),
            shown == v@.take(n as int),
            conn_row_views(out@) == shown.take(i as int).map_values(|c: ConnectionEntry| conn_row_of(c)),
        decreases n - i,
    {
        let c = &v[i];
        let mut local = string_from(c.local_addr.as_str());
        push_str(&mut local, ":");
        push_str(&mut local, dec_string(c.local_port as u64).as_str());
        let mut remote = string_from(c.remote_addr.as_str());
        push_str(&mut remote, ":");
        push_str(&mut remote, dec_string(c.remote_port as u64).as_str());
        let row = (string_from(c.protocol.as_str()), local, remote, string_from(c.state.as_str()), conn_tone(c.state.as_str()));
        let ghost rv = (row.0@, row.1@, row.2@, row.3@, row.4);
        assert(rv == conn_row_of(v@[i as int]));
        let ghost before = conn_row_views(out@);
        out.push(row);
        assert(conn_row_views(out@) =~= before.push(rv));
        assert(shown.take(i + 1).map_values(|c: ConnectionEntry| conn_row_of(c)) =~= shown.take(i as int).map_values(
            |c: ConnectionEntry| conn_row_of(c),
        ).push(conn_row_of(v@[i as int])));
        i = i + 1;
    }
    assert(shown.take(n as int) =~= shown);
    out
}

/// The titles of the listening list and the connection table.
pub open spec fn network_titles_of(net: NetworkInfo) -> (Seq<char>, Seq<char>) {
    (
        " Listening ("@ + dec((net.listening_tcp.len() + net.listening_udp.len()) as nat) + ") "@,
        " Connections ("@ + dec(net.connections.len() as nat) + ") "@,
    )
}

pub fn network_titles(net: &NetworkInfo) -> (r: (String, String))
    requires
        net.listening_tcp.len() + net.listening_udp.len() <= u64::MAX,
    ensures
        (r.0@, r.1@) == network_titles_of(*net),
{
    let count: u64 = net.listening_tcp.len() as u64 + net.listening_udp.len() as u64;
    let mut a = string_from(" Listening (");
    push_str(&mut a, dec_string(count).as_str());
    push_str(&mut a, ") ");
    let mut b = string_from(" Connections (");
    push_str(&mut b, dec_string(net.connections.len() as u64).as_str());
    push_str(&mut b, ") ");
    (a, b)
}

// ─── Overview tab ────────────────────────────────────────────────────────────

/// The memory sparkline's title: RSS and VSZ in MiB, with PSS and swap in
/// KiB where known (swap only when non-zero).
pub open spec fn memory_title_of(rss_kb: u64, vm_kb: u64, pss: Option<u64>, swap: Option<u64>) -> Seq<char> {
    let head = " Memory  "@ + dec((rss_kb / 1024) as nat) + " MB RSS  /  "@ + dec((vm_kb / 1024) as nat)
        + " MB VSZ"@;
    match (pss, swap) {
        (Some(p), Some(s)) if s > 0 => head + "  |  PSS "@ + dec(p as nat) + " KB  swap "@ + dec(s as nat)
            + " KB"@,
        (Some(p), _) => head + "  |  PSS "@ + dec(p as nat) + " KB"@,
        (_, Some(s)) if s > 0 => head + "  |  swap "@ + dec(s as nat) + " KB"@,
        _ => head,
    }
}

pub fn memory_title(rss_kb: u64, vm_kb: u64, pss: Option<u64>, swap: Option<u64>) -> (r: String)
    ensures
        r@ == memory_title_of(rss_kb, vm_kb, pss, swap),
{
    let mut t = string_from(" Memory  ");
    push_str(&mut t, dec_string(rss_kb / 1024).as_str());
    push_str(&mut t, " MB RSS  /  ");
    push_str(&mut t, dec_string(vm_kb / 1024).as_str());
    push_str(&mut t, " MB VSZ");
    match (pss, swap) {
        (Some(p), Some(s)) if s > 0 => {
            push_str(&mut t, "  |  PSS ");
            push_str(&mut t, dec_string(p).as_str());
            push_str(&mut t, " KB  swap ");
            push_str(&mut t, dec_string(s).as_str());
            push_str(&mut t, " KB");
        },
        (Some(p), _) => {
            push_str(&mut t, "  |  PSS ");
            push_str(&mut t, dec_string(p).as_str());
            push_str(&mut t, " KB");
        },
        (_, Some(s)) if s > 0 => {
            push_str(&mut t, "  |  swap ");
            push_str(&mut t, dec_string(s).as_str());
            push_str(&mut t, " KB");
        },
        _ => {},
    }
    assert(t@ =~= memory_title_of(rss_kb, vm_kb, pss, swap));
    t
}

/// The FD sparkline's title and colour: the open count, and with a leak the
/// rise and the length of the rising window, in red.
pub open spec fn fds_title_of(fd_cur: usize, leak: FdLeakStatus) -> Seq<char> {
    match leak {
        FdLeakStatus::Warning { start, end, n } => " FDs  "@ + dec(fd_cur as nat) + " open  ⚠ LEAK DETECTED (+"@
            + dec((end - start) as nat) + " over "@ + dec(n as nat) + " samples)"@,
        FdLeakStatus::NoLeak => " FDs  "@ + dec(fd_cur as nat) + " open"@,
    }
}

pub fn fds_title(fd_cur: usize, leak: FdLeakStatus) -> (r: (String, Tone))
    requires
        leak matches FdLeakStatus::Warning { start, end, .. } ==> start <= end,
    ensures
        r.0@ == fds_title_of(fd_cur, leak),
        r.1 == (if leak is Warning {
            Tone::Red
        } else {
            Tone::Gray
        }),
{
    let mut t = string_from(" FDs  ");
    push_str(&mut t, dec_string(fd_cur as u64).as_str());
    match leak {
        FdLeakStatus::Warning { start, end, n } => {
            push_str(&mut t, " open  ⚠ LEAK DETECTED (+");
            push_str(&mut t, dec_string((end - start) as u64).as_str());
            push_str(&mut t, " over ");
            push_str(&mut t, dec_string(n as u64).as_str());
            push_str(&mut t, " samples)");
            (t, Tone::Red)
        },
        FdLeakStatus::NoLeak => {
            push_str(&mut t, " open");
            (t, Tone::Gray)
        },
    }
}

/// The top of a sparkline's scale: its largest value, at least 1.
pub open spec fn spark_max_of(data: Seq<u64>) -> nat
    decreases data.len(),
{
    if data.len() == 0 {
        1
    } else {
        let prev = spark_max_of(data.drop_last());
        if data.last() > prev {
            data.last() as nat
        } else {
            prev
        }
    }
}

pub fn spark_max(data: &Vec<u64>) -> (r: u64)
    ensures
        r == spark_max_of(data@),
{
    let mut m: u64 = 1;
    let mut i: usize = 0;
    while i < data.len()
        invariant
            i <= data.len(),
            m == spark_max_of(data@.take(i as int)),
        decreases data.len() - i,
    {
        assert(data@.take(i + 1).drop_last() =~= data@.take(i as int));
        if data[i] > m {
            m = data[i];
        }
        i = i + 1;
    }
    assert(data@.take(data.len() as int) =~= data@);
    m
}

/// The disk line of the details box, when reads were counted.
pub fn disk_io_line(read: Option<u64>, write: Option<u64>) -> (r: Option<String>)
    ensures
        match read {
            Some(rd) => r matches Some(l) && l@ == "  disk I/O: read "@ + dec(rd as nat) + " bytes / write "@
                + dec(opt_count(write)) + " bytes"@,
            None => r is None,
        },
{
    match read {
        Some(rd) => {
            let w = match write {
                Some(x) => x,
                None => 0,
            };
            let mut l = string_from("  disk I/O: read ");
            push_str(&mut l, dec_string(rd).as_str());
            push_str(&mut l, " bytes / write ");
            push_str(&mut l, dec_string(w).as_str());
            push_str(&mut l, " bytes");
            Some(l)
        },
        None => None,
    }
}

} // verus!
