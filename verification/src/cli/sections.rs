use vstd::prelude::*;
use crate::colors::{colored, cyan, dimmed, green, red, yellow};
use crate::peek_core::{
    ConnectionEntry, EnvVar, KernelInfo, NamespaceEntry, NetworkInfo, OpenFile, SocketEntry,
    UnixSocketEntry,
};
use crate::cli::report::{oom_color_text, oom_colored, seccomp_label, seccomp_text};
use crate::text::{
    byte_len, chars_of, dec, dec_string, left_aligned, push_left, push_right, push_str, push_vec,
    right_aligned, signed_dec, signed_string, string_from, string_of,
};

verus! {

pub open spec fn strs(v: Seq<String>) -> Seq<Seq<char>> {
    v.map_values(|s: String| s@)
}

pub open spec fn dim(s: Seq<char>, disabled: bool) -> Seq<char> {
    colored(s, "\x1b[2m"@, "\x1b[0m"@, disabled)
}

pub open spec fn yel(s: Seq<char>, disabled: bool) -> Seq<char> {
    colored(s, "\x1b[33m"@, "\x1b[39m"@, disabled)
}

pub open spec fn cya(s: Seq<char>, disabled: bool) -> Seq<char> {
    colored(s, "\x1b[36m"@, "\x1b[39m"@, disabled)
}

pub open spec fn grn(s: Seq<char>, disabled: bool) -> Seq<char> {
    colored(s, "\x1b[32m"@, "\x1b[39m"@, disabled)
}

pub open spec fn rd(s: Seq<char>, disabled: bool) -> Seq<char> {
    colored(s, "\x1b[31m"@, "\x1b[39m"@, disabled)
}

pub open spec fn first_n<T>(s: Seq<T>, n: nat) -> Seq<T> {
    if s.len() > n {
        s.take(n as int)
    } else {
        s
    }
}

// ─── Memory line ─────────────────────────────────────────────────────────────

/// What follows the RSS and VSZ on the identity block's memory line.
pub open spec fn memory_extra_text(pss: Option<u64>, swap: Option<u64>) -> Seq<char> {
    match (pss, swap) {
        (Some(p), Some(s)) if s > 0 => "  |  "@ + dec(p as nat) + " KB PSS  |  "@ + dec(s as nat)
            + " KB swap"@,
        (Some(p), _) => "  |  "@ + dec(p as nat) + " KB PSS"@,
        (_, Some(s)) if s > 0 => "  |  "@ + dec(s as nat) + " KB swap"@,
        _ => seq![],
    }
}

pub fn memory_extra(pss: Option<u64>, swap: Option<u64>) -> (r: String)
    ensures
        r@ == memory_extra_text(pss, swap),
{
    let mut r = String::new();
    match (pss, swap) {
        (Some(p), Some(s)) if s > 0 => {
            push_str(&mut r, "  |  ");
            push_str(&mut r, dec_string(p).as_str());
            push_str(&mut r, " KB PSS  |  ");
            push_str(&mut r, dec_string(s).as_str());
            push_str(&mut r, " KB swap");
        },
        (Some(p), _) => {
            push_str(&mut r, "  |  ");
            push_str(&mut r, dec_string(p).as_str());
            push_str(&mut r, " KB PSS");
        },
        (_, Some(s)) if s > 0 => {
            push_str(&mut r, "  |  ");
            push_str(&mut r, dec_string(s).as_str());
            push_str(&mut r, " KB swap");
        },
        _ => {},
    }
    proof {
        reveal_strlit("");
    }
    assert(r@ =~= memory_extra_text(pss, swap));
    r
}

/// What follows the RSS on the resources block's memory line.
pub open spec fn resource_memory_extra_text(pss: Option<u64>, swap: Option<u64>) -> Seq<char> {
    match (pss, swap) {
        (Some(p), Some(s)) if s > 0 => "  |  PSS "@ + dec(p as nat) + " KB  |  swap "@ + dec(s as nat)
            + " KB"@,
        (Some(p), _) => "  |  PSS "@ + dec(p as nat) + " KB"@,
        (_, Some(s)) if s > 0 => "  |  swap "@ + dec(s as nat) + " KB"@,
        _ => seq![],
    }
}

pub fn resource_memory_extra(pss: Option<u64>, swap: Option<u64>) -> (r: String)
    ensures
        r@ == resource_memory_extra_text(pss, swap),
{
    let mut r = String::new();
    match (pss, swap) {
        (Some(p), Some(s)) if s > 0 => {
            push_str(&mut r, "  |  PSS ");
            push_str(&mut r, dec_string(p).as_str());
            push_str(&mut r, " KB  |  swap ");
            push_str(&mut r, dec_string(s).as_str());
            push_str(&mut r, " KB");
        },
        (Some(p), _) => {
            push_str(&mut r, "  |  PSS ");
            push_str(&mut r, dec_string(p).as_str());
            push_str(&mut r, " KB");
        },
        (_, Some(s)) if s > 0 => {
            push_str(&mut r, "  |  swap ");
            push_str(&mut r, dec_string(s).as_str());
            push_str(&mut r, " KB");
        },
        _ => {},
    }
    assert(r@ =~= resource_memory_extra_text(pss, swap));
    r
}

// ─── Open files ──────────────────────────────────────────────────────────────

pub open spec fn repeated(c: char, n: nat) -> Seq<char> {
    Seq::new(n, |i: int| c)
}

fn push_repeated(out: &mut Vec<char>, c: char, n: usize)
    ensures
        final(out)@ == old(out)@ + repeated(c, n as nat),
{
    let ghost start = out@;
    let mut i: usize = 0;
    while i < n
        invariant
            i <= n,
            out@ == start + repeated(c, i as nat),
        decreases n - i,
    {
        out.push(c);
        i = i + 1;
        assert(out@ =~= start + repeated(c, i as nat));
    }
}

/// One row of the open-file table: `  {:>4}  {:>10}  {}` with the type
/// dimmed (the padding counts the colour codes too).
pub open spec fn file_line(f: OpenFile, disabled: bool) -> Seq<char> {
    "  "@ + right_aligned(dec(f.fd as nat), 4) + "  "@ + right_aligned(dim(f.fd_type@, disabled), 10)
        + "  "@ + f.description@
}

/// The open-file block below its title: column heads, the first 50 files,
/// how many more there are, and the total.
pub open spec fn files_lines(files: Seq<OpenFile>, disabled: bool) -> Seq<Seq<char>> {
    let head = seq!["    FD        Type  Path"@, "  "@ + repeated('─', 58)];
    let rows = first_n(files, 50).map_values(|f: OpenFile| file_line(f, disabled));
    let more = if files.len() > 50 {
        seq!["  … "@ + dec((files.len() - 50) as nat) + " more"@]
    } else {
        seq![]
    };
    head + rows + more + seq!["  Total: "@ + dec(files.len())]
}

fn file_row(f: &OpenFile, disabled: bool) -> (r: String)
    ensures
        r@ == file_line(*f, disabled),
{
    let mut v: Vec<char> = Vec::new();
    v.push(' ');
    v.push(' ');
    push_right(&mut v, dec_string(f.fd as u64).as_str(), 4);
    v.push(' ');
    v.push(' ');
    let t = dimmed(f.fd_type.as_str(), disabled);
    push_right(&mut v, t.as_str(), 10);
    v.push(' ');
    v.push(' ');
    let d = chars_of(f.description.as_str());
    push_vec(&mut v, &d);
    proof {
        reveal_strlit("  ");
    }
    assert(v@ =~= file_line(*f, disabled));
    string_of(&v)
}

pub fn files_section(files: &Vec<OpenFile>, disabled: bool) -> (r: Vec<String>)
    ensures
        strs(r@) == files_lines(files@, disabled),
{
    let mut out: Vec<String> = Vec::new();
    out.push(string_from("    FD        Type  Path"));
    let mut rule: Vec<char> = Vec::new();
    rule.push(' ');
    rule.push(' ');
    push_repeated(&mut rule, '─', 58);
    proof {
        reveal_strlit("  ");
    }
    assert(rule@ =~= "  "@ + repeated('─', 58));
    let rs = string_of(&rule);
    out.push(rs);
    let ghost head = seq!["    FD        Type  Path"@, "  "@ + repeated('─', 58)];
    assert(strs(out@) =~= head);
    let n = if files.len() > 50 {
        50
    } else {
        files.len()
    };
    let ghost shown = first_n(files@, 50);
    assert(shown =~= files@.take(n as int));
    let mut i: usize = 0;
    while i < n
        invariant
            i <= n <= files.len(),
            shown == files@.take(n as int),
            strs(out@) == head + shown.take(i as int).map_values(|f: OpenFile| file_line(f, disabled)),
        decreases n - i,
    {
        let line = file_row(&files[i], disabled);
        let ghost before = strs(out@);
        out.push(line);
        i = i + 1;
        assert(shown.take(i as int).map_values(|f: OpenFile| file_line(f, disabled)) =~= shown.take(
            i - 1,
        ).map_values(|f: OpenFile| file_line(f, disabled)).push(file_line(files@[i - 1], disabled)));
        assert(strs(out@) =~= before.push(file_line(files@[i - 1], disabled)));
    }
    assert(shown.take(n as int) =~= shown);
    if files.len() > 50 {
        let mut m = string_from("  … ");
        push_str(&mut m, dec_string((files.len() - 50) as u64).as_str());
        push_str(&mut m, " more");
        out.push(m);
    }
    let mut t = string_from("  Total: ");
    push_str(&mut t, dec_string(files.len() as u64).as_str());
    out.push(t);
    assert(strs(out@) =~= files_lines(files@, disabled));
    out
}

// ─── Environment ─────────────────────────────────────────────────────────────

/// How many variables were redacted.
pub open spec fn secret_count(vars: Seq<EnvVar>) -> nat
    decreases vars.len(),
{
    if vars.len() == 0 {
        0
    } else {
        secret_count(vars.drop_last()) + if vars.last().redacted {
            1nat
        } else {
            0nat
        }
    }
}

/// The longest key in bytes (0 for none).
pub open spec fn longest_key(vars: Seq<EnvVar>) -> nat
    decreases vars.len(),
{
    if vars.len() == 0 {
        0
    } else {
        let prev = longest_key(vars.drop_last());
        let l = byte_len(vars.last().key@) as nat;
        if l > prev {
            l
        } else {
            prev
        }
    }
}

/// The key column's width: the longest key, 10 when there are no
/// variables, never over 40.
pub open spec fn key_width(vars: Seq<EnvVar>) -> nat {
    let m = if vars.len() == 0 {
        10
    } else {
        longest_key(vars)
    };
    if m < 40 {
        m
    } else {
        40
    }
}

/// One variable: `  {:<w} = {}` with the key yellow when redacted, else
/// cyan (the padding counts the colour codes too), and the value marked
/// `[REDACTED]` or cut to 80 characters.
pub open spec fn env_line(v: EnvVar, width: nat, disabled: bool) -> Seq<char> {
    let ks = if v.redacted {
        yel(v.key@, disabled)
    } else {
        cya(v.key@, disabled)
    };
    let vs = if v.redacted {
        v.value@ + " "@ + rd("[REDACTED]"@, disabled)
    } else {
        first_n(v.value@, 80)
    };
    "  "@ + left_aligned(ks, width + 2) + " = "@ + vs
}

/// The environment block below its title.
pub open spec fn env_lines(vars: Seq<EnvVar>, disabled: bool) -> Seq<Seq<char>> {
    let n = secret_count(vars);
    let warn = if n > 0 {
        seq!["  "@ + yel("⚠️"@, disabled) + " "@ + dec(n) + " secret(s) detected and redacted."@]
    } else {
        seq![]
    };
    warn + vars.map_values(|v: EnvVar| env_line(v, key_width(vars), disabled))
}

fn env_row(v: &EnvVar, width: usize, disabled: bool) -> (r: String)
    requires
        width + 2 <= usize::MAX,
    ensures
        r@ == env_line(*v, width as nat, disabled),
{
    let ks = if v.redacted {
        yellow(v.key.as_str(), disabled)
    } else {
        cyan(v.key.as_str(), disabled)
    };
    let mut out: Vec<char> = Vec::new();
    out.push(' ');
    out.push(' ');
    push_left(&mut out, ks.as_str(), width + 2);
    out.push(' ');
    out.push('=');
    out.push(' ');
    let vc = chars_of(v.value.as_str());
    if v.redacted {
        push_vec(&mut out, &vc);
        out.push(' ');
        let tag = red("[REDACTED]", disabled);
        let tc = chars_of(tag.as_str());
        push_vec(&mut out, &tc);
    } else {
        let k = if vc.len() > 80 {
            80
        } else {
            vc.len()
        };
        let mut j: usize = 0;
        let ghost start = out@;
        while j < k
            invariant
                j <= k <= vc.len(),
                out@ == start + vc@.take(j as int),
            decreases k - j,
        {
            out.push(vc[j]);
            j = j + 1;
            assert(out@ =~= start + vc@.take(j as int));
        }
        assert(vc@.take(k as int) =~= first_n(v.value@, 80));
    }
    proof {
        reveal_strlit("  ");
        reveal_strlit(" = ");
        reveal_strlit(" ");
    }
    assert(out@ =~= env_line(*v, width as nat, disabled));
    string_of(&out)
}

pub fn env_section(vars: &Vec<EnvVar>, disabled: bool) -> (r: Vec<String>)
    ensures
        strs(r@) == env_lines(vars@, disabled),
{
    let mut secrets: usize = 0;
    let mut longest: usize = 0;
    let mut i: usize = 0;
    while i < vars.len()
        invariant
            i <= vars.len(),
            secrets == secret_count(vars@.take(i as int)),
            secrets <= i,
            longest == longest_key(vars@.take(i as int)),
        decreases vars.len() - i,
    {
        assert(vars@.take(i + 1).drop_last() =~= vars@.take(i as int));
        if vars[i].redacted {
            secrets = secrets + 1;
        }
        let l = vars[i].key.as_str().len();
        if l > longest {
            longest = l;
        }
        i = i + 1;
    }
    assert(vars@.take(vars.len() as int) =~= vars@);
    let m = if vars.len() == 0 {
        10
    } else {
        longest
    };
    let width = if m < 40 {
        m
    } else {
        40
    };
    let mut out: Vec<String> = Vec::new();
    if secrets > 0 {
        let mut w = string_from("  ");
        let sign = yellow("⚠️", disabled);
        push_str(&mut w, sign.as_str());
        push_str(&mut w, " ");
        push_str(&mut w, dec_string(secrets as u64).as_str());
        push_str(&mut w, " secret(s) detected and redacted.");
        out.push(w);
    }
    let ghost warn = strs(out@);
    let mut k: usize = 0;
    while k < vars.len()
        invariant
            k <= vars.len(),
            width == key_width(vars@),
            width <= 40,
            strs(out@) == warn + vars@.take(k as int).map_values(
                |v: EnvVar| env_line(v, key_width(vars@), disabled),
            ),
        decreases vars.len() - k,
    {
        let line = env_row(&vars[k], width, disabled);
        let ghost before = strs(out@);
        out.push(line);
        k = k + 1;
        assert(vars@.take(k as int).map_values(|v: EnvVar| env_line(v, key_width(vars@), disabled))
            =~= vars@.take(k - 1).map_values(|v: EnvVar| env_line(v, key_width(vars@), disabled)).push(
            env_line(vars@[k - 1], key_width(vars@), disabled),
        ));
        assert(strs(out@) =~= before.push(env_line(vars@[k - 1], key_width(vars@), disabled)));
    }
    assert(vars@.take(vars.len() as int) =~= vars@);
    assert(strs(out@) =~= env_lines(vars@, disabled));
    out
}

// ─── Network ─────────────────────────────────────────────────────────────────

pub open spec fn listen_line(s: SocketEntry, kind: Seq<char>, disabled: bool) -> Seq<char> {
    "  "@ + grn("▶"@, disabled) + " Listening ("@ + kind + "): "@ + s.protocol@ + " "@ + s.local_addr@
        + ":"@ + dec(s.local_port as nat)
}

pub open spec fn listen_lines(v: Seq<SocketEntry>, kind: Seq<char>, disabled: bool) -> Seq<Seq<char>> {
    v.map_values(|s: SocketEntry| listen_line(s, kind, disabled))
}

pub open spec fn unix_shown(u: UnixSocketEntry) -> Seq<char> {
    if u.path@.len() == 0 {
        "<anonymous>"@
    } else {
        u.path@
    }
}

/// The Unix socket list: a count, the first 15 paths, how many more.
pub open spec fn unix_lines(u: Option<Vec<UnixSocketEntry>>, disabled: bool) -> Seq<Seq<char>> {
    match u {
        Some(v) => if v.len() > 0 {
            seq!["  "@ + cya("▶"@, disabled) + " Unix sockets ("@ + dec(v.len() as nat) + "):"@]
                + first_n(v@, 15).map_values(|e: UnixSocketEntry| "    "@ + unix_shown(e)) + if v.len()
                > 15 {
                seq!["    … and "@ + dec((v.len() - 15) as nat) + " more"@]
            } else {
                seq![]
            }
        } else {
            seq![]
        },
        None => seq![],
    }
}

/// A connection's remote end, with the host name in front when it resolved.
pub open spec fn remote_shown(c: ConnectionEntry, host: Option<String>) -> Seq<char> {
    let remote = c.remote_addr@ + ":"@ + dec(c.remote_port as nat);
    match host {
        Some(h) => h@ + " ("@ + remote + ")"@,
        None => remote,
    }
}

pub open spec fn conn_line(c: ConnectionEntry, host: Option<String>, disabled: bool) -> Seq<char> {
    "    "@ + c.protocol@ + " "@ + c.local_addr@ + ":"@ + dec(c.local_port as nat) + " → "@
        + remote_shown(c, host) + " ["@ + dim(c.state@, disabled) + "]"@
}

/// The connection list: a count, the first 20 (with `hosts[i]` the
/// resolved name of the i-th), how many more.
pub open spec fn conn_lines(v: Seq<ConnectionEntry>, hosts: Seq<Option<String>>, disabled: bool) -> Seq<Seq<char>> {
    if v.len() > 0 {
        let n = first_n(v, 20).len();
        seq!["  "@ + yel("▶"@, disabled) + " Connections ("@ + dec(v.len()) + "):"@] + Seq::new(
            n,
            |i: int| conn_line(v[i], hosts[i], disabled),
        ) + if v.len() > 20 {
            seq!["    … and "@ + dec((v.len() - 20) as nat) + " more"@]
        } else {
            seq![]
        }
    } else {
        seq![]
    }
}

/// The network block below its title and traffic line.
pub open spec fn network_lines(net: NetworkInfo, hosts: Seq<Option<String>>, disabled: bool) -> Seq<Seq<char>> {
    let has_listen = net.listening_tcp.len() > 0 || net.listening_udp.len() > 0;
    let has_unix = net.unix_sockets matches Some(u) && u.len() > 0;
    if !has_listen && net.connections.len() == 0 && !has_unix && net.traffic_rx_bytes_per_sec.is_none() {
        seq!["  No sockets."@]
    } else {
        listen_lines(net.listening_tcp@, "TCP"@, disabled) + listen_lines(net.listening_udp@, "UDP"@, disabled)
            + unix_lines(net.unix_sockets, disabled) + conn_lines(net.connections@, hosts, disabled)
    }
}

fn listen_row(s: &SocketEntry, kind: &str, disabled: bool) -> (r: String)
    ensures
        r@ == listen_line(*s, kind@, disabled),
{
    let mut r = string_from("  ");
    push_str(&mut r, green("▶", disabled).as_str());
    push_str(&mut r, " Listening (");
    push_str(&mut r, kind);
    push_str(&mut r, "): ");
    push_str(&mut r, s.protocol.as_str());
    push_str(&mut r, " ");
    push_str(&mut r, s.local_addr.as_str());
    push_str(&mut r, ":");
    push_str(&mut r, dec_string(s.local_port as u64).as_str());
    assert(r@ =~= listen_line(*s, kind@, disabled));
    r
}

fn push_listen(out: &mut Vec<String>, v: &Vec<SocketEntry>, kind: &str, disabled: bool)
    ensures
        strs(final(out)@) == strs(old(out)@) + listen_lines(v@, kind@, disabled),
{
    let ghost start = strs(out@);
    let mut i: usize = 0;
    while i < v.len()
        invariant
            i <= v.len(),
            strs(out@) == start + listen_lines(v@.take(i as int), kind@, disabled),
        decreases v.len() - i,
    {
        let line = listen_row(&v[i], kind, disabled);
        let ghost before = strs(out@);
        out.push(line);
        i = i + 1;
        assert(listen_lines(v@.take(i as int), kind@, disabled) =~= listen_lines(v@.take(i - 1), kind@, disabled).push(
            listen_line(v@[i - 1], kind@, disabled),
        ));
        assert(strs(out@) =~= before.push(listen_line(v@[i - 1], kind@, disabled)));
    }
    assert(v@.take(v.len() as int) =~= v@);
}

fn push_unix(out: &mut Vec<String>, u: &Option<Vec<UnixSocketEntry>>, disabled: bool)
    ensures
        strs(final(out)@) == strs(old(out)@) + unix_lines(*u, disabled),
{
    let ghost start = strs(out@);
    match u {
        Some(v) => {
            if v.len() > 0 {
                let mut h = string_from("  ");
                push_str(&mut h, cyan("▶", disabled).as_str());
                push_str(&mut h, " Unix sockets (");
                push_str(&mut h, dec_string(v.len() as u64).as_str());
                push_str(&mut h, "):");
                assert(h@ =~= "  "@ + cya("▶"@, disabled) + " Unix sockets ("@ + dec(v.len() as nat) + "):"@);
                let ghost hl = h@;
                out.push(h);
                let ghost head = strs(out@);
                assert(head =~= start.push(hl));
                let n = if v.len() > 15 {
                    15
                } else {
                    v.len()
                };
                let ghost shown = first_n(v@, 15);
                assert(shown =~= v@.take(n as int));
                let mut i: usize = 0;
                while i < n
                    invariant
                        i <= n <= v.len(),
                        shown == v@.take(n as int),
                        strs(out@) == head + shown.take(i as int).map_values(
                            |e: UnixSocketEntry| "    "@ + unix_shown(e),
                        ),
                    decreases n - i,
                {
                    let mut line = string_from("    ");
                    let pc = chars_of(v[i].path.as_str());
                    if pc.len() == 0 {
                        push_str(&mut line, "<anonymous>");
                    } else {
                        push_str(&mut line, v[i].path.as_str());
                    }
                    assert(line@ =~= "    "@ + unix_shown(v@[i as int]));
                    let ghost before = strs(out@);
                    out.push(line);
                    i = i + 1;
                    assert(shown.take(i as int).map_values(|e: UnixSocketEntry| "    "@ + unix_shown(e))
                        =~= shown.take(i - 1).map_values(|e: UnixSocketEntry| "    "@ + unix_shown(e)).push(
                        "    "@ + unix_shown(v@[i - 1]),
                    ));
                    assert(strs(out@) =~= before.push("    "@ + unix_shown(v@[i - 1])));
                }
                assert(shown.take(n as int) =~= shown);
                let ghost body = strs(out@);
                if v.len() > 15 {
                    let mut m = string_from("    … and ");
                    push_str(&mut m, dec_string((v.len() - 15) as u64).as_str());
                    push_str(&mut m, " more");
                    assert(m@ =~= "    … and "@ + dec((v.len() - 15) as nat) + " more"@);
                    let ghost ml = m@;
                    out.push(m);
                    assert(strs(out@) =~= body.push(ml));
                }
                assert(strs(out@) =~= start + unix_lines(*u, disabled));
            } else {
                assert(strs(out@) =~= start + unix_lines(*u, disabled));
            }
        },
        None => {
            assert(strs(out@) =~= start + unix_lines(*u, disabled));
        },
    }
}

fn conn_row(c: &ConnectionEntry, host: &Option<String>, disabled: bool) -> (r: String)
    ensures
        r@ == conn_line(*c, *host, disabled),
{
    let mut remote = string_from(c.remote_addr.as_str());
    push_str(&mut remote, ":");
    push_str(&mut remote, dec_string(c.remote_port as u64).as_str());
    let shown = match host {
        Some(h) => {
            let mut s = string_from(h.as_str());
            push_str(&mut s, " (");
            push_str(&mut s, remote.as_str());
            push_str(&mut s, ")");
            s
        },
        None => remote,
    };
    assert(shown@ =~= remote_shown(*c, *host));
    let mut r = string_from("    ");
    push_str(&mut r, c.protocol.as_str());
    push_str(&mut r, " ");
    push_str(&mut r, c.local_addr.as_str());
    push_str(&mut r, ":");
    push_str(&mut r, dec_string(c.local_port as u64).as_str());
    push_str(&mut r, " → ");
    push_str(&mut r, shown.as_str());
    push_str(&mut r, " [");
    push_str(&mut r, dimmed(c.state.as_str(), disabled).as_str());
    push_str(&mut r, "]");
    assert(r@ =~= conn_line(*c, *host, disabled));
    r
}

fn push_conns(out: &mut Vec<String>, v: &Vec<ConnectionEntry>, hosts: &Vec<Option<String>>, disabled: bool)
    requires
        hosts.len() >= first_n(v@, 20).len(),
    ensures
        strs(final(out)@) == strs(old(out)@) + conn_lines(v@, hosts@, disabled),
{
    let ghost start = strs(out@);
    if v.len() == 0 {
        assert(strs(out@) =~= start + conn_lines(v@, hosts@, disabled));
        return;
    }
    let mut h = string_from("  ");
    push_str(&mut h, yellow("▶", disabled).as_str());
    push_str(&mut h, " Connections (");
    push_str(&mut h, dec_string(v.len() as u64).as_str());
    push_str(&mut h, "):");
    assert(h@ =~= "  "@ + yel("▶"@, disabled) + " Connections ("@ + dec(v.len() as nat) + "):"@);
    let ghost hl = h@;
    out.push(h);
    let ghost head = strs(out@);
    assert(head =~= start.push(hl));
    let n = if v.len() > 20 {
        20
    } else {
        v.len()
    };
    let mut i: usize = 0;
    while i < n
        invariant
            i <= n <= v.len(),
            n == first_n(v@, 20).len(),
            hosts.len() >= n,
            strs(out@) == head + Seq::new(i as nat, |k: int| conn_line(v@[k], hosts@[k], disabled)),
        decreases n - i,
    {
        let line = conn_row(&v[i], &hosts[i], disabled);
        let ghost lv = line@;
        let ghost before = strs(out@);
        out.push(line);
        assert(strs(out@) =~= before.push(lv));
        assert(Seq::new((i + 1) as nat, |k: int| conn_line(v@[k], hosts@[k], disabled)) =~= Seq::new(
            i as nat,
            |k: int| conn_line(v@[k], hosts@[k], disabled),
        ).push(conn_line(v@[i as int], hosts@[i as int], disabled)));
        i = i + 1;
    }
    let ghost body = strs(out@);
    if v.len() > 20 {
        let mut m = string_from("    … and ");
        push_str(&mut m, dec_string((v.len() - 20) as u64).as_str());
        push_str(&mut m, " more");
        assert(m@ =~= "    … and "@ + dec((v.len() - 20) as nat) + " more"@);
        let ghost ml = m@;
        out.push(m);
        assert(strs(out@) =~= body.push(ml));
    }
    assert(strs(out@) =~= start + conn_lines(v@, hosts@, disabled));
}

/// The network block; `hosts[i]` is the resolved name of the i-th
/// connection (all `None` when names are not looked up).
pub fn network_section(net: &NetworkInfo, hosts: &Vec<Option<String>>, disabled: bool) -> (r: Vec<String>)
    requires
        hosts.len() >= first_n(net.connections@, 20).len(),
    ensures
        strs(r@) == network_lines(*net, hosts@, disabled),
{
    let mut out: Vec<String> = Vec::new();
    let has_listen = net.listening_tcp.len() > 0 || net.listening_udp.len() > 0;
    let has_unix = match &net.unix_sockets {
        Some(u) => u.len() > 0,
        None => false,
    };
    if !has_listen && net.connections.len() == 0 && !has_unix && net.traffic_rx_bytes_per_sec.is_none() {
        out.push(string_from("  No sockets."));
        assert(strs(out@) =~= network_lines(*net, hosts@, disabled));
        return out;
    }
    assert(strs(out@) =~= Seq::<Seq<char>>::empty());
    push_listen(&mut out, &net.listening_tcp, "TCP", disabled);
    push_listen(&mut out, &net.listening_udp, "UDP", disabled);
    push_unix(&mut out, &net.unix_sockets, disabled);
    push_conns(&mut out, &net.connections, hosts, disabled);
    assert(strs(out@) =~= network_lines(*net, hosts@, disabled));
    out
}

// ─── Kernel context ──────────────────────────────────────────────────────────

/// The texts joined with `", "`.
pub open spec fn join_comma(ws: Seq<Seq<char>>) -> Seq<char>
    decreases ws.len(),
{
    if ws.len() == 0 {
        seq![]
    } else if ws.len() == 1 {
        ws[0]
    } else {
        join_comma(ws.drop_last()) + ", "@ + ws.last()
    }
}

pub open spec fn ns_types(ns: Seq<NamespaceEntry>) -> Seq<Seq<char>> {
    ns.map_values(|n: NamespaceEntry| n.ns_type@)
}

/// The kernel block below its title; `oom_desc` is the OOM band's
/// description and `syscall` the current system call's name and
/// description, when known.
pub open spec fn kernel_lines(k: KernelInfo, oom_desc: Seq<char>, syscall: Option<(String, String)>, disabled: bool) -> Seq<Seq<char>> {
    seq![
        "  Scheduler  : "@ + k.sched_policy@ + " | Nice: "@ + signed_dec(k.nice as int) + " | Priority: "@
            + signed_dec(k.priority as int),
        "  OOM Score  : "@ + oom_color_text(k.oom_score as int, disabled) + " / 1000  (adj: "@
            + signed_dec(k.oom_score_adj as int) + ") — "@ + oom_desc,
    ] + (match k.security_label {
        Some(l) => seq!["  Security   : "@ + l@],
        None => seq![],
    }) + (match syscall {
        Some((n, d)) => seq!["  Syscall    : "@ + n@ + " — "@ + d@],
        None => seq![],
    }) + seq![
        "  Cgroup     : "@ + k.cgroup@,
        "  Seccomp    : "@ + seccomp_text(k.seccomp),
        "  Cap Prm    : "@ + k.cap_permitted@,
        "  Cap Eff    : "@ + k.cap_effective@,
    ] + (if k.namespaces.len() > 0 {
        seq!["  Namespaces : "@ + join_comma(ns_types(k.namespaces@))]
    } else {
        seq![]
    }) + (match (k.voluntary_ctxt_switches, k.nonvoluntary_ctxt_switches) {
        (Some(v), Some(nv)) => seq!["  Ctx Sw     : "@ + dec(v as nat) + " voluntary, "@ + dec(nv as nat)
            + " involuntary"@],
        _ => seq![],
    })
}

fn labelled(label: &str, value: &str) -> (r: String)
    ensures
        r@ == label@ + value@,
{
    let mut r = string_from(label);
    push_str(&mut r, value);
    r
}

fn push_line(out: &mut Vec<String>, line: String)
    ensures
        strs(final(out)@) == strs(old(out)@).push(line@),
{
    let ghost before = strs(out@);
    let ghost lv = line@;
    out.push(line);
    assert(strs(out@) =~= before.push(lv));
}

pub fn kernel_section(
    k: &KernelInfo,
    oom_desc: &str,
    syscall: &Option<(String, String)>,
    disabled: bool,
) -> (r: Vec<String>)
    ensures
        strs(r@) == kernel_lines(*k, oom_desc@, *syscall, disabled),
{
    let mut out: Vec<String> = Vec::new();
    let mut l1 = labelled("  Scheduler  : ", k.sched_policy.as_str());
    push_str(&mut l1, " | Nice: ");
    push_str(&mut l1, signed_string(k.nice as i64).as_str());
    push_str(&mut l1, " | Priority: ");
    push_str(&mut l1, signed_string(k.priority as i64).as_str());
    push_line(&mut out, l1);
    let mut l2 = labelled("  OOM Score  : ", oom_colored(k.oom_score, disabled).as_str());
    push_str(&mut l2, " / 1000  (adj: ");
    push_str(&mut l2, signed_string(k.oom_score_adj as i64).as_str());
    push_str(&mut l2, ") — ");
    push_str(&mut l2, oom_desc);
    push_line(&mut out, l2);
    match &k.security_label {
        Some(l) => push_line(&mut out, labelled("  Security   : ", l.as_str())),
        None => {},
    }
    match syscall {
        Some((n, d)) => {
            let mut s = labelled("  Syscall    : ", n.as_str());
            push_str(&mut s, " — ");
            push_str(&mut s, d.as_str());
            push_line(&mut out, s);
        },
        None => {},
    }
    push_line(&mut out, labelled("  Cgroup     : ", k.cgroup.as_str()));
    push_line(&mut out, labelled("  Seccomp    : ", seccomp_label(k.seccomp)));
    push_line(&mut out, labelled("  Cap Prm    : ", k.cap_permitted.as_str()));
    push_line(&mut out, labelled("  Cap Eff    : ", k.cap_effective.as_str()));
    if k.namespaces.len() > 0 {
        let mut s = string_from("  Namespaces : ");
        let ghost ws = ns_types(k.namespaces@);
        let mut i: usize = 0;
        let ghost start = s@;
        assert(ws.take(0) =~= Seq::<Seq<char>>::empty());
        while i < k.namespaces.len()
            invariant
                i <= k.namespaces.len(),
                ws == ns_types(k.namespaces@),
                s@ == start + join_comma(ws.take(i as int)),
            decreases k.namespaces.len() - i,
        {
            if i > 0 {
                push_str(&mut s, ", ");
            }
            push_str(&mut s, k.namespaces[i].ns_type.as_str());
            proof {
                assert(ws.take(i + 1).drop_last() =~= ws.take(i as int));
                if i == 0 {
                    assert(ws.take(1) =~= seq![ws[0]]);
                }
            }
            i = i + 1;
            assert(s@ =~= start + join_comma(ws.take(i as int)));
        }
        assert(ws.take(k.namespaces.len() as int) =~= ws);
        push_line(&mut out, s);
    }
    match (k.voluntary_ctxt_switches, k.nonvoluntary_ctxt_switches) {
        (Some(v), Some(nv)) => {
            let mut s = string_from("  Ctx Sw     : ");
            push_str(&mut s, dec_string(v).as_str());
            push_str(&mut s, " voluntary, ");
            push_str(&mut s, dec_string(nv).as_str());
            push_str(&mut s, " involuntary");
            push_line(&mut out, s);
        },
        _ => {},
    }
    assert(strs(out@) =~= kernel_lines(*k, oom_desc@, *syscall, disabled));
    out
}

// ─── Comparison table ────────────────────────────────────────────────────────

/// A row of the two-process comparison: `{:<28} {:>22} {:>22}`.
pub open spec fn diff_row_text(label: Seq<char>, a: Seq<char>, b: Seq<char>) -> Seq<char> {
    left_aligned(label, 28) + " "@ + right_aligned(a, 22) + " "@ + right_aligned(b, 22)
}

pub fn diff_row(label: &str, a: &str, b: &str) -> (r: String)
    ensures
        r@ == diff_row_text(label@, a@, b@),
{
    let mut v: Vec<char> = Vec::new();
    push_left(&mut v, label, 28);
    v.push(' ');
    push_right(&mut v, a, 22);
    v.push(' ');
    push_right(&mut v, b, 22);
    proof {
        reveal_strlit(" ");
    }
    assert(v@ =~= diff_row_text(label@, a@, b@));
    string_of(&v)
}

/// The closing row of the comparison: `{:<28} {:>44}` with the RSS change.
pub open spec fn diff_delta_text(delta: Seq<char>) -> Seq<char> {
    left_aligned("RSS delta (pid2 - pid1)"@, 28) + " "@ + right_aligned(delta, 44)
}

pub fn diff_delta_row(delta: &str) -> (r: String)
    ensures
        r@ == diff_delta_text(delta@),
{
    let mut v: Vec<char> = Vec::new();
    push_left(&mut v, "RSS delta (pid2 - pid1)", 28);
    v.push(' ');
    push_right(&mut v, delta, 44);
    proof {
        reveal_strlit(" ");
    }
    assert(v@ =~= diff_delta_text(delta@));
    string_of(&v)
}

} // verus!
