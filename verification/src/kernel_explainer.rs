//! Plain-English descriptions of kernel values: namespaces, scheduler
//! policies and signals.

use vstd::prelude::*;
use crate::text::{push_signed, push_str, signed_dec, str_eq, string_from, string_of};

verus! {

/// Description of a Linux namespace type.
pub open spec fn namespace_text(ns: Seq<char>) -> Seq<char> {
    if ns == "pid"@ {
        "Process ID isolation: processes see only PIDs in this namespace"@
    } else if ns == "net"@ {
        "Network: separate network stack, interfaces, and ports"@
    } else if ns == "ipc"@ {
        "IPC: isolated System V IPC and POSIX message queues"@
    } else if ns == "mnt"@ {
        "Mount: separate mount hierarchy and filesystem view"@
    } else if ns == "uts"@ {
        "UTS: isolated hostname and NIS domain"@
    } else if ns == "user"@ {
        "User: separate UID/GID mapping (e.g. root in namespace ≠ root on host)"@
    } else if ns == "cgroup"@ {
        "Cgroup: separate cgroup hierarchy for resource limits"@
    } else if ns == "time"@ {
        "Time: separate system clock (e.g. for containers)"@
    } else {
        "Namespace type: "@ + ns
    }
}

/// Returns a plain-English description of a Linux namespace type (e.g. "pid" → "Process ID isolation").
pub fn namespace_description(ns_type: &str) -> (s: String)
    ensures
        s@ == namespace_text(ns_type@),
{
    if str_eq(ns_type, "pid") {
        string_from("Process ID isolation: processes see only PIDs in this namespace")
    } else if str_eq(ns_type, "net") {
        string_from("Network: separate network stack, interfaces, and ports")
    } else if str_eq(ns_type, "ipc") {
        string_from("IPC: isolated System V IPC and POSIX message queues")
    } else if str_eq(ns_type, "mnt") {
        string_from("Mount: separate mount hierarchy and filesystem view")
    } else if str_eq(ns_type, "uts") {
        string_from("UTS: isolated hostname and NIS domain")
    } else if str_eq(ns_type, "user") {
        string_from("User: separate UID/GID mapping (e.g. root in namespace ≠ root on host)")
    } else if str_eq(ns_type, "cgroup") {
        string_from("Cgroup: separate cgroup hierarchy for resource limits")
    } else if str_eq(ns_type, "time") {
        string_from("Time: separate system clock (e.g. for containers)")
    } else {
        let mut s = string_from("Namespace type: ");
        push_str(&mut s, ns_type);
        s
    }
}

/// Description of a scheduler policy; each policy has a short name and a `SCHED_` name.
pub open spec fn scheduler_text(p: Seq<char>) -> Seq<char> {
    if p == "normal"@ || p == "other"@ || p == "SCHED_OTHER"@ {
        "Normal time-sharing scheduler (CFS) — balanced for general workloads"@
    } else if p == "batch"@ || p == "SCHED_BATCH"@ {
        "Batch scheduler — optimized for non-interactive, CPU-intensive jobs"@
    } else if p == "idle"@ || p == "SCHED_IDLE"@ {
        "Idle scheduler — only runs when the CPU would otherwise be idle"@
    } else if p == "fifo"@ || p == "SCHED_FIFO"@ {
        "Realtime FIFO — fixed-priority, first-in/first-out scheduling"@
    } else if p == "rr"@ || p == "SCHED_RR"@ {
        "Realtime round-robin — fixed-priority, time-sliced scheduling"@
    } else if p == "deadline"@ || p == "SCHED_DEADLINE"@ {
        "Realtime deadline — tasks scheduled to meet explicit deadlines"@
    } else {
        "Scheduler policy: "@ + p
    }
}

/// Each scheduler policy, by its short name or its `SCHED_` name, is
/// described as that policy: normal/other (CFS), batch, idle, FIFO,
/// round-robin and deadline; any other name is echoed after
/// `Scheduler policy: `.
pub proof fn lemma_scheduler_table(p: Seq<char>)
    ensures
        (p == "normal"@ || p == "other"@ || p == "SCHED_OTHER"@) ==> scheduler_text(p)
            == "Normal time-sharing scheduler (CFS) — balanced for general workloads"@,
        (p == "batch"@ || p == "SCHED_BATCH"@) ==> scheduler_text(p)
            == "Batch scheduler — optimized for non-interactive, CPU-intensive jobs"@,
        (p == "idle"@ || p == "SCHED_IDLE"@) ==> scheduler_text(p)
            == "Idle scheduler — only runs when the CPU would otherwise be idle"@,
        (p == "fifo"@ || p == "SCHED_FIFO"@) ==> scheduler_text(p)
            == "Realtime FIFO — fixed-priority, first-in/first-out scheduling"@,
        (p == "rr"@ || p == "SCHED_RR"@) ==> scheduler_text(p)
            == "Realtime round-robin — fixed-priority, time-sliced scheduling"@,
        (p == "deadline"@ || p == "SCHED_DEADLINE"@) ==> scheduler_text(p)
            == "Realtime deadline — tasks scheduled to meet explicit deadlines"@,
        (p != "normal"@ && p != "other"@ && p != "SCHED_OTHER"@ && p != "batch"@ && p
            != "SCHED_BATCH"@ && p != "idle"@ && p != "SCHED_IDLE"@ && p != "fifo"@ && p
            != "SCHED_FIFO"@ && p != "rr"@ && p != "SCHED_RR"@ && p != "deadline"@ && p
            != "SCHED_DEADLINE"@) ==> scheduler_text(p) == "Scheduler policy: "@ + p,
{
    reveal_strlit("normal");
    assert("normal"@.len() == 6 && "normal"@[0] == 'n');
    reveal_strlit("other");
    assert("other"@.len() == 5 && "other"@[0] == 'o');
    reveal_strlit("SCHED_OTHER");
    assert("SCHED_OTHER"@.len() == 11 && "SCHED_OTHER"@[0] == 'S' && "SCHED_OTHER"@[6] == 'O');
    reveal_strlit("batch");
    assert("batch"@.len() == 5 && "batch"@[0] == 'b');
    reveal_strlit("SCHED_BATCH");
    assert("SCHED_BATCH"@.len() == 11 && "SCHED_BATCH"@[0] == 'S' && "SCHED_BATCH"@[6] == 'B');
    reveal_strlit("idle");
    assert("idle"@.len() == 4 && "idle"@[0] == 'i');
    reveal_strlit("SCHED_IDLE");
    assert("SCHED_IDLE"@.len() == 10 && "SCHED_IDLE"@[0] == 'S' && "SCHED_IDLE"@[6] == 'I');
    reveal_strlit("fifo");
    assert("fifo"@.len() == 4 && "fifo"@[0] == 'f');
    reveal_strlit("SCHED_FIFO");
    assert("SCHED_FIFO"@.len() == 10 && "SCHED_FIFO"@[0] == 'S' && "SCHED_FIFO"@[6] == 'F');
    reveal_strlit("rr");
    assert("rr"@.len() == 2 && "rr"@[0] == 'r');
    reveal_strlit("SCHED_RR");
    assert("SCHED_RR"@.len() == 8 && "SCHED_RR"@[0] == 'S' && "SCHED_RR"@[6] == 'R');
    reveal_strlit("deadline");
    assert("deadline"@.len() == 8 && "deadline"@[0] == 'd');
    reveal_strlit("SCHED_DEADLINE");
    assert("SCHED_DEADLINE"@.len() == 14 && "SCHED_DEADLINE"@[0] == 'S' && "SCHED_DEADLINE"@[6] == 'D');
}

/// Scheduler policy → plain English (SCHED_OTHER, SCHED_FIFO, ...).
pub fn scheduler_description(policy: &str) -> (s: String)
    ensures
        s@ == scheduler_text(policy@),
{
    if str_eq(policy, "normal") || str_eq(policy, "other") || str_eq(policy, "SCHED_OTHER") {
        string_from("Normal time-sharing scheduler (CFS) — balanced for general workloads")
    } else if str_eq(policy, "batch") || str_eq(policy, "SCHED_BATCH") {
        string_from("Batch scheduler — optimized for non-interactive, CPU-intensive jobs")
    } else if str_eq(policy, "idle") || str_eq(policy, "SCHED_IDLE") {
        string_from("Idle scheduler — only runs when the CPU would otherwise be idle")
    } else if str_eq(policy, "fifo") || str_eq(policy, "SCHED_FIFO") {
        string_from("Realtime FIFO — fixed-priority, first-in/first-out scheduling")
    } else if str_eq(policy, "rr") || str_eq(policy, "SCHED_RR") {
        string_from("Realtime round-robin — fixed-priority, time-sliced scheduling")
    } else if str_eq(policy, "deadline") || str_eq(policy, "SCHED_DEADLINE") {
        string_from("Realtime deadline — tasks scheduled to meet explicit deadlines")
    } else {
        let mut s = string_from("Scheduler policy: ");
        push_str(&mut s, policy);
        s
    }
}

/// Description of a signal number for the kill panel.
pub open spec fn signal_text(num: int) -> Seq<char> {
    if num == 15 {
        "SIGTERM (15): ask the process to exit cleanly; can be caught or handled."@
    } else if num == 9 {
        "SIGKILL (9): forcefully kill the process; cannot be caught, blocked, or ignored."@
    } else if num == 2 {
        "SIGINT (2): interrupt from keyboard (Ctrl-C); default is to terminate."@
    } else if num == 3 {
        "SIGQUIT (3): quit from keyboard; usually terminates and produces a core dump."@
    } else if num == 1 {
        "SIGHUP (1): hangup; often used by daemons to reload configuration."@
    } else if num == 19 {
        "SIGSTOP (19): stop (pause) the process; cannot be caught or ignored."@
    } else if num == 18 {
        "SIGCONT (18): resume a process previously stopped with SIGSTOP/SIGTSTP."@
    } else if num == 10 {
        "SIGUSR1 (10): user-defined signal 1; semantics are application-specific."@
    } else if num == 12 {
        "SIGUSR2 (12): user-defined signal 2; semantics are application-specific."@
    } else {
        "Signal "@ + signed_dec(num) + ": see `kill -l` for details."@
    }
}

/// Signal number → name and description for the kill panel.
pub fn signal_description(num: i32) -> (s: String)
    ensures
        s@ == signal_text(num as int),
{
    match num {
        15 => string_from("SIGTERM (15): ask the process to exit cleanly; can be caught or handled."),
        9 => string_from(
            "SIGKILL (9): forcefully kill the process; cannot be caught, blocked, or ignored.",
        ),
        2 => string_from("SIGINT (2): interrupt from keyboard (Ctrl-C); default is to terminate."),
        3 => string_from(
            "SIGQUIT (3): quit from keyboard; usually terminates and produces a core dump.",
        ),
        1 => string_from("SIGHUP (1): hangup; often used by daemons to reload configuration."),
        19 => string_from("SIGSTOP (19): stop (pause) the process; cannot be caught or ignored."),
        18 => string_from(
            "SIGCONT (18): resume a process previously stopped with SIGSTOP/SIGTSTP.",
        ),
        10 => string_from(
            "SIGUSR1 (10): user-defined signal 1; semantics are application-specific.",
        ),
        12 => string_from(
            "SIGUSR2 (12): user-defined signal 2; semantics are application-specific.",
        ),
        other => {
            let mut v: Vec<char> = vec!['S', 'i', 'g', 'n', 'a', 'l', ' '];
            push_signed(&mut v, other as i64);
            let mut s = string_of(&v);
            push_str(&mut s, ": see `kill -l` for details.");
            proof {
                reveal_strlit("Signal ");
            }
            assert(s@ =~= signal_text(num as int));
            s
        },
    }
}

} // verus!
