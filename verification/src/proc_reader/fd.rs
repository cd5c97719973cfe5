use vstd::prelude::*;
use crate::text::{
    chars_eq_str, chars_of, find_with_prefix, first_with_prefix, has_prefix_str, lemma_char_vec_dv,
    lines, lines_of, parse_uint, parse_unsigned, push_chars, push_str, skip_chars, starts_with,
    string_from, strip_brackets, bracketed, sub_chars, trim, trim_chars,
};
use crate::sort::{
    key_order_total, lemma_stable_sorted, sorted_by_key, stable_sort, stable_sorted, views, SortKey,
};
use crate::proc_reader::error::{
    io_to_error, proc_file, proc_file_path, IoErrorKind, IoFailure, ProcReaderError,
};

verus! {

/// One entry from `/proc/<pid>/fd`.
#[derive(Debug, Clone)]
pub struct FdEntry {
    pub fd: u32,
    pub fd_type: String,
    pub description: String,
}

impl View for FdEntry {
    type V = (u32, Seq<char>, Seq<char>);

    open spec fn view(&self) -> (u32, Seq<char>, Seq<char>) {
        (self.fd, self.fd_type@, self.description@)
    }
}

impl SortKey for FdEntry {
    open spec fn key_le(a: (u32, Seq<char>, Seq<char>), b: (u32, Seq<char>, Seq<char>)) -> bool {
        a.0 <= b.0
    }

    fn key_le_exec(&self, other: &Self) -> (r: bool) {
        self.fd <= other.fd
    }
}

/// One name in `/proc/<pid>/fd` with what the caller read for it: the link
/// target (`None` when it could not be read) and `/proc/<pid>/fdinfo/<fd>`.
#[derive(Debug, Clone)]
pub struct FdLink {
    pub name: String,
    pub target: Option<String>,
    pub fdinfo: Option<String>,
}

/// The access mode that the `flags:` line of an fdinfo file gives (octal
/// flags, low two bits), as a suffix for the description.
pub open spec fn mode_suffix(flags: nat) -> Seq<char> {
    let m = flags % 4;
    if m == 0 {
        " (read-only)"@
    } else if m == 1 {
        " (write-only)"@
    } else if m == 2 {
        " (read-write)"@
    } else {
        ""@
    }
}

/// The mode suffix of an fdinfo file: from its first line starting with
/// `flags:` and a tab (flags that do not parse count as 0); empty without one.
pub open spec fn fdinfo_mode(raw: Option<Seq<char>>) -> Seq<char> {
    match raw {
        None => ""@,
        Some(text) => {
            let ls = lines(text);
            let j = first_with_prefix(ls, "flags:\t"@);
            if j < 0 {
                ""@
            } else {
                let val = trim(ls[j].skip(7));
                let flags = match parse_uint(val, 8, u32::MAX as nat) {
                    Some(f) => f,
                    None => 0,
                };
                mode_suffix(flags)
            }
        },
    }
}

/// `s` without every leading repetition of `p` (`str::trim_start_matches`).
pub open spec fn strip_all_prefix(s: Seq<char>, p: Seq<char>) -> Seq<char>
    decreases s.len(),
{
    if p.len() > 0 && starts_with(s, p) {
        strip_all_prefix(s.skip(p.len() as int), p)
    } else {
        s
    }
}

/// Plain-English name of an anonymous inode kind.
pub open spec fn anon_description(kind: Seq<char>) -> Seq<char> {
    if kind == "eventfd"@ {
        "eventfd (async event notification)"@
    } else if kind == "eventpoll"@ {
        "epoll instance"@
    } else if kind == "timerfd"@ {
        "timerfd (timer)"@
    } else if kind == "signalfd"@ {
        "signalfd (signal handler)"@
    } else {
        "anon_inode:"@ + kind
    }
}

/// Type and description of a descriptor from its link target and fdinfo.
pub open spec fn fd_description(target: Option<Seq<char>>, fdinfo: Option<Seq<char>>) -> (
    Seq<char>,
    Seq<char>,
) {
    match target {
        None => ("unknown"@, "?"@),
        Some(t) => if starts_with(t, "/"@) {
            (
                if starts_with(t, "/dev/"@) {
                    "device"@
                } else {
                    "file"@
                },
                t + fdinfo_mode(fdinfo),
            )
        } else if bracketed(t, "socket:["@, ']').is_some() {
            ("socket"@, "socket inode "@ + bracketed(t, "socket:["@, ']').unwrap())
        } else if bracketed(t, "pipe:["@, ']').is_some() {
            ("pipe"@, "pipe:["@ + bracketed(t, "pipe:["@, ']').unwrap() + "]"@)
        } else if starts_with(t, "anon_inode:"@) {
            ("anon_inode"@, anon_description(strip_all_prefix(t, "anon_inode:"@)))
        } else {
            ("other"@, t)
        },
    }
}

/// The mode suffix from the contents of `/proc/<pid>/fdinfo/<fd>`.
pub fn read_fdinfo_mode(raw: Option<&str>) -> (s: String)
    ensures
        s@ == fdinfo_mode(
            match raw {
                Some(t) => Some(t@),
                None => None,
            },
        ),
{
    let text = match raw {
        None => {
            return string_from("");
        },
        Some(t) => t,
    };
    let tv = chars_of(text);
    let ls = lines_of(&tv);
    let prefix = chars_of("flags:\t");
    proof {
        reveal_strlit("flags:\t");
    }
    match find_with_prefix(&ls, &prefix) {
        None => string_from(""),
        Some(j) => {
            proof {
                lemma_char_vec_dv(ls@[j as int]);
            }
            let rest = skip_chars(&ls[j], 7);
            let val = trim_chars(&rest);
            let flags: u64 = match parse_unsigned(&val, 8, u32::MAX as u64) {
                Some(f) => f,
                None => 0,
            };
            let m = flags % 4;
            if m == 0 {
                string_from(" (read-only)")
            } else if m == 1 {
                string_from(" (write-only)")
            } else if m == 2 {
                string_from(" (read-write)")
            } else {
                string_from("")
            }
        },
    }
}

fn strip_all_prefix_chars(s: &Vec<char>, p: &Vec<char>) -> (out: Vec<char>)
    ensures
        out@ == strip_all_prefix(s@, p@),
    decreases s.len(),
{
    if p.len() > 0 && crate::text::has_prefix(s, p) {
        let rest = skip_chars(s, p.len());
        strip_all_prefix_chars(&rest, p)
    } else {
        sub_chars(s, 0, s.len())
    }
}

fn anon_description_of(kind: &Vec<char>) -> (s: String)
    ensures
        s@ == anon_description(kind@),
{
    if chars_eq_str(kind, "eventfd") {
        string_from("eventfd (async event notification)")
    } else if chars_eq_str(kind, "eventpoll") {
        string_from("epoll instance")
    } else if chars_eq_str(kind, "timerfd") {
        string_from("timerfd (timer)")
    } else if chars_eq_str(kind, "signalfd") {
        string_from("signalfd (signal handler)")
    } else {
        let mut s = string_from("anon_inode:");
        push_chars(&mut s, kind);
        s
    }
}

/// Type and description of one descriptor, from its link target (`None` when
/// unreadable) and its fdinfo contents.
pub fn resolve_fd(target: Option<&str>, fdinfo: Option<&str>) -> (r: (String, String))
    ensures
        (r.0@, r.1@) == fd_description(
            match target {
                Some(t) => Some(t@),
                None => None,
            },
            match fdinfo {
                Some(t) => Some(t@),
                None => None,
            },
        ),
{
    let t = match target {
        None => {
            return (string_from("unknown"), string_from("?"));
        },
        Some(t) => t,
    };
    let tv = chars_of(t);
    if has_prefix_str(&tv, "/") {
        let fd_type = if has_prefix_str(&tv, "/dev/") {
            string_from("device")
        } else {
            string_from("file")
        };
        let mode = read_fdinfo_mode(fdinfo);
        let mut desc = string_from(t);
        push_str(&mut desc, mode.as_str());
        return (fd_type, desc);
    }
    match strip_brackets(&tv, "socket:[", ']') {
        Some(inner) => {
            let mut desc = string_from("socket inode ");
            push_chars(&mut desc, &inner);
            return (string_from("socket"), desc);
        },
        None => {},
    }
    match strip_brackets(&tv, "pipe:[", ']') {
        Some(inner) => {
            let mut desc = string_from("pipe:[");
            push_chars(&mut desc, &inner);
            push_str(&mut desc, "]");
            return (string_from("pipe"), desc);
        },
        None => {},
    }
    if has_prefix_str(&tv, "anon_inode:") {
        let p = chars_of("anon_inode:");
        let kind = strip_all_prefix_chars(&tv, &p);
        return (string_from("anon_inode"), anon_description_of(&kind));
    }
    (string_from("other"), string_from(t))
}

pub open spec fn opt_view(o: Option<String>) -> Option<Seq<char>> {
    match o {
        Some(s) => Some(s@),
        None => None,
    }
}

/// The entries of a listing in listing order: names that are not a
/// descriptor number are left out.
pub open spec fn fd_entries_of(links: Seq<FdLink>) -> Seq<(u32, Seq<char>, Seq<char>)>
    decreases links.len(),
{
    if links.len() == 0 {
        seq![]
    } else {
        let prev = fd_entries_of(links.drop_last());
        let l = links.last();
        match parse_uint(l.name@, 10, u32::MAX as nat) {
            Some(fd) => {
                let d = fd_description(opt_view(l.target), opt_view(l.fdinfo));
                prev.push((fd as u32, d.0, d.1))
            },
            None => prev,
        }
    }
}

fn opt_as_str(o: &Option<String>) -> (r: Option<&str>)
    ensures
        match r {
            Some(t) => opt_view(*o) == Some(t@),
            None => o.is_none(),
        },
{
    match o {
        Some(s) => Some(s.as_str()),
        None => None,
    }
}

/// Open descriptors of `/proc/<pid>/fd`, sorted by number, from what listing it produced.
pub fn read_fd(pid: i32, listing: Result<Vec<FdLink>, IoFailure>) -> (r: Result<
    Vec<FdEntry>,
    ProcReaderError,
>)
    ensures
        match listing {
            Ok(links) => r matches Ok(out) && views(out@) == stable_sorted::<FdEntry>(
                fd_entries_of(links@),
            ),
            Err(e) => r matches Err(err) && (if e.kind == IoErrorKind::NotFound {
                err == ProcReaderError::NotFound(pid)
            } else {
                err matches ProcReaderError::Io { path, source } && path@ == proc_file(
                    pid as int,
                    "fd"@,
                ) && source == e
            }),
        },
{
    let links = match listing {
        Ok(l) => l,
        Err(e) => {
            let path = proc_file_path(pid, "fd");
            return Err(io_to_error(path, e, pid));
        },
    };
    let mut files: Vec<FdEntry> = Vec::new();
    let mut i: usize = 0;
    assert(links@.take(0) =~= Seq::<FdLink>::empty());
    while i < links.len()
        invariant
            i <= links.len(),
            views(files@) == fd_entries_of(links@.take(i as int)),
        decreases links.len() - i,
    {
        let l = &links[i];
        assert(links@.take(i + 1).drop_last() =~= links@.take(i as int));
        let nv = chars_of(l.name.as_str());
        match parse_unsigned(&nv, 10, u32::MAX as u64) {
            Some(fd) => {
                let (fd_type, description) = resolve_fd(opt_as_str(&l.target), opt_as_str(&l.fdinfo));
                let ghost before = views(files@);
                let e = FdEntry { fd: fd as u32, fd_type, description };
                files.push(e);
                assert(views(files@) =~= before.push(e@));
            },
            None => {},
        }
        i = i + 1;
    }
    assert(links@.take(links.len() as int) =~= links@);
    Ok(stable_sort(files))
}

/// Number of open descriptors, from how many entries listing `/proc/<pid>/fd` gave.
pub fn count_fds(pid: i32, listing: Result<usize, IoFailure>) -> (r: Result<usize, ProcReaderError>)
    ensures
        match listing {
            Ok(n) => r == Ok::<usize, ProcReaderError>(n),
            Err(e) => r matches Err(err) && (if e.kind == IoErrorKind::NotFound {
                err == ProcReaderError::NotFound(pid)
            } else {
                err matches ProcReaderError::Io { path, source } && path@ == proc_file(
                    pid as int,
                    "fd"@,
                ) && source == e
            }),
        },
{
    match listing {
        Ok(n) => Ok(n),
        Err(e) => {
            let path = proc_file_path(pid, "fd");
            Err(io_to_error(path, e, pid))
        },
    }
}

/// The descriptor listing comes out in increasing descriptor order and holds
/// exactly the entries read, one per numeric name.
pub proof fn lemma_fd_listing_sorted(links: Seq<FdLink>)
    ensures
        sorted_by_key::<FdEntry>(stable_sorted::<FdEntry>(fd_entries_of(links))),
        stable_sorted::<FdEntry>(fd_entries_of(links)).len() == fd_entries_of(links).len(),
        forall|e: (u32, Seq<char>, Seq<char>)| #[trigger] stable_sorted::<FdEntry>(fd_entries_of(links)).contains(e)
            <==> fd_entries_of(links).contains(e),
{
    assert(key_order_total::<FdEntry>());
    lemma_stable_sorted::<FdEntry>(fd_entries_of(links));
}

} // verus!
