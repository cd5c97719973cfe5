//! Process snapshot types, the error type of collection, and the pieces of
//! collection that interpret what was read.

pub mod config;
pub mod proc;

use vstd::prelude::*;
use crate::proc_reader::error::{pid_of_path, IoErrorKind, IoFailure, ProcReaderError};
use crate::proc_reader::limits::{read_limits, Limits};
use crate::text::{push_chars, push_signed, push_str, signed_dec, string_from};

verus! {

// ─── Kernel context ──────────────────────────────────────────────────────────

#[derive(Debug, Clone)]
pub struct KernelInfo {
    pub sched_policy: String,
    pub nice: i32,
    pub priority: i32,
    pub oom_score: i32,
    pub oom_score_adj: i32,
    pub cgroup: String,
    pub namespaces: Vec<NamespaceEntry>,
    pub cap_permitted: String,
    pub cap_effective: String,
    pub seccomp: u32,
    pub voluntary_ctxt_switches: Option<u64>,
    pub nonvoluntary_ctxt_switches: Option<u64>,
    /// Optional LSM security label (e.g. AppArmor/SELinux).
    pub security_label: Option<String>,
}

#[derive(Debug, Clone)]
pub struct NamespaceEntry {
    pub ns_type: String,
    pub inode: String,
}

// ─── Network ─────────────────────────────────────────────────────────────────

#[derive(Debug, Clone)]
pub struct NetworkInfo {
    pub listening_tcp: Vec<SocketEntry>,
    pub listening_udp: Vec<SocketEntry>,
    pub connections: Vec<ConnectionEntry>,
    /// Unix socket paths for this process.
    pub unix_sockets: Option<Vec<UnixSocketEntry>>,
    /// RX bytes/sec in the process network namespace.
    pub traffic_rx_bytes_per_sec: Option<u64>,
    /// TX bytes/sec in the process network namespace.
    pub traffic_tx_bytes_per_sec: Option<u64>,
}

#[derive(Debug, Clone)]
pub struct UnixSocketEntry {
    pub path: String,
}

#[derive(Debug, Clone)]
pub struct SocketEntry {
    pub protocol: String,
    pub local_addr: String,
    pub local_port: u16,
}

#[derive(Debug, Clone)]
pub struct ConnectionEntry {
    pub protocol: String,
    pub local_addr: String,
    pub local_port: u16,
    pub remote_addr: String,
    pub remote_port: u16,
    pub state: String,
}

// ─── Files ───────────────────────────────────────────────────────────────────

#[derive(Debug, Clone)]
pub struct OpenFile {
    pub fd: u32,
    pub fd_type: String,
    pub description: String,
}

impl View for OpenFile {
    type V = (u32, Seq<char>, Seq<char>);

    open spec fn view(&self) -> (u32, Seq<char>, Seq<char>) {
        (self.fd, self.fd_type@, self.description@)
    }
}

// ─── Environment ─────────────────────────────────────────────────────────────

#[derive(Debug, Clone)]
pub struct EnvVar {
    pub key: String,
    pub value: String,
    pub redacted: bool,
}

impl View for EnvVar {
    type V = (Seq<char>, Seq<char>, bool);

    open spec fn view(&self) -> (Seq<char>, Seq<char>, bool) {
        (self.key@, self.value@, self.redacted)
    }
}

// ─── Process tree ────────────────────────────────────────────────────────────

#[derive(Debug)]
pub struct ProcessNode {
    pub pid: i32,
    pub name: String,
    pub uid: u32,
    pub rss_kb: u64,
    pub children: Vec<ProcessNode>,
}

// ─── FD leak detection ───────────────────────────────────────────────────────

#[derive(Debug, Clone, Copy, PartialEq, Eq, Structural)]
pub struct FdLeakWarning {
    /// FD count at the start of the observation window.
    pub start_count: usize,
    /// FD count at the end.
    pub end_count: usize,
    /// How many consecutive samples showed an increase.
    pub consecutive_increases: usize,
}

// ─── Errors ──────────────────────────────────────────────────────────────────

#[derive(Debug, Clone)]
pub enum PeekError {
    NotFound(i32),
    ProcIo { pid: i32, source: IoFailure },
    ProcParse { pid: i32, msg: String },
}

/// The PID that an error names by its path, -1 when none.
pub open spec fn pid_or_unknown(path: Seq<char>) -> int {
    match pid_of_path(path) {
        Some(p) => p,
        None => -1,
    }
}

impl vstd::std_specs::convert::FromSpecImpl<ProcReaderError> for PeekError {
    open spec fn obeys_from_spec() -> bool {
        true
    }

    open spec fn from_spec(e: ProcReaderError) -> PeekError {
        peek_error_from(e)
    }
}

/// The collection error for a reader error: the PID is that of the error's
/// path (-1 when it names none).
pub open spec fn peek_error_from(e: ProcReaderError) -> PeekError {
        match e {
            ProcReaderError::NotFound(p) => PeekError::NotFound(p),
            ProcReaderError::Io { path, source } => PeekError::ProcIo {
                pid: pid_or_unknown(path@) as i32,
                source,
            },
            ProcReaderError::Parse { path, msg } => PeekError::ProcParse {
                pid: pid_or_unknown(path@) as i32,
                msg,
            },
        }
}

impl From<ProcReaderError> for PeekError {
    fn from(e: ProcReaderError) -> (r: PeekError) {
        let pid = match e.pid() {
            Some(p) => p,
            None => -1,
        };
        match e {
            ProcReaderError::NotFound(pid) => PeekError::NotFound(pid),
            ProcReaderError::Io { source, .. } => PeekError::ProcIo { pid, source },
            ProcReaderError::Parse { msg, .. } => PeekError::ProcParse { pid, msg },
        }
    }
}

/// The collection error for an I/O failure reading a file of process `pid`:
/// a missing file means the process is gone; otherwise the failure with the PID.
pub open spec fn io_error_for(err: PeekError, pid: i32, e: IoFailure) -> bool {
    if e.kind == IoErrorKind::NotFound {
        err == PeekError::NotFound(pid)
    } else {
        err matches PeekError::ProcIo { pid: p, source } && p == pid && source == e
    }
}

/// Converting the reader's error for `/proc/<pid>/<leaf>` keeps the PID.
pub proof fn lemma_convert_io_error(pid: i32, leaf: Seq<char>, e: IoFailure, re: ProcReaderError)
    requires
        leaf.len() > 0,
        leaf != seq!['.'],
        forall|i: int| 0 <= i < leaf.len() ==> #[trigger] leaf[i] != '/',
        if e.kind == IoErrorKind::NotFound {
            re == ProcReaderError::NotFound(pid)
        } else {
            re matches ProcReaderError::Io { path, source } && path@ == crate::proc_reader::error::proc_file(
                pid as int,
                leaf,
            ) && source == e
        },
    ensures
        io_error_for(peek_error_from(re), pid, e),
{
    crate::proc_reader::error::lemma_proc_file_pid(pid, leaf);
}

/// What a `PeekError` says, as its `Display` would.
pub open spec fn peek_error_text(e: PeekError) -> Seq<char> {
    match e {
        PeekError::NotFound(p) => "process "@ + signed_dec(p as int) + " not found"@,
        PeekError::ProcIo { pid, source } => "failed to read /proc for pid "@ + signed_dec(
            pid as int,
        ) + ": "@ + source.message@,
        PeekError::ProcParse { pid, msg } => "failed to parse /proc for pid "@ + signed_dec(
            pid as int,
        ) + ": "@ + msg@,
    }
}

impl PeekError {
    /// The error's message.
    pub fn message(&self) -> (s: String)
        ensures
            s@ == peek_error_text(*self),
    {
        match self {
            PeekError::NotFound(p) => {
                let mut v: Vec<char> = Vec::new();
                push_signed(&mut v, *p as i64);
                let mut s = string_from("process ");
                push_chars(&mut s, &v);
                push_str(&mut s, " not found");
                s
            },
            PeekError::ProcIo { pid, source } => {
                let mut v: Vec<char> = Vec::new();
                push_signed(&mut v, *pid as i64);
                let mut s = string_from("failed to read /proc for pid ");
                push_chars(&mut s, &v);
                push_str(&mut s, ": ");
                push_str(&mut s, source.message.as_str());
                s
            },
            PeekError::ProcParse { pid, msg } => {
                let mut v: Vec<char> = Vec::new();
                push_signed(&mut v, *pid as i64);
                let mut s = string_from("failed to parse /proc for pid ");
                push_chars(&mut s, &v);
                push_str(&mut s, ": ");
                push_str(&mut s, msg.as_str());
                s
            },
        }
    }
}

// ─── Collect options ─────────────────────────────────────────────────────────

#[derive(Debug, Clone, Copy, PartialEq, Eq, Structural)]
pub struct CollectOptions {
    pub resources: bool,
    pub kernel: bool,
    pub network: bool,
    pub files: bool,
    pub env: bool,
    pub tree: bool,
    pub gpu: bool,
}

impl Default for CollectOptions {
    fn default() -> (r: Self)
        ensures
            r == (CollectOptions {
                resources: false,
                kernel: false,
                network: false,
                files: false,
                env: false,
                tree: false,
                gpu: false,
            }),
    {
        CollectOptions {
            resources: false,
            kernel: false,
            network: false,
            files: false,
            env: false,
            tree: false,
            gpu: false,
        }
    }
}

// ─── Limits ──────────────────────────────────────────────────────────────────

/// Soft "Max open files" limit of `/proc/<pid>/limits`, from what reading it produced.
pub fn fd_soft_limit(pid: i32, raw: Result<String, IoFailure>) -> (r: Option<u64>)
    ensures
        match raw {
            Ok(text) => crate::proc_reader::limits::opt_u64(r)
                == crate::proc_reader::limits::open_files_limits(text@).0,
            Err(_) => r.is_none(),
        },
{
    match read_limits(pid, raw) {
        Ok(l) => l.max_open_files_soft,
        Err(_) => None,
    }
}

} // verus!
