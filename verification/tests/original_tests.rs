use peek::kernel_explainer::{namespace_description, scheduler_description, signal_description};
use peek::network::tcp::{inodes_using_port, parse_addr, tcp_state, NetTables};
use peek::proc_reader::cgroup::read_cgroup;
use peek::proc_reader::environ::EnvironEntry;
use peek::proc_reader::error::{IoErrorKind, IoFailure};
use peek::proc_reader::fd::FdEntry;
use peek::proc_reader::limits::{parse_limit_field, read_limits};
use peek::proc_reader::security::read_label;

#[test]
fn describes_known_policies() {
    let s = scheduler_description("SCHED_OTHER");
    assert!(s.contains("Normal time-sharing"));

    let s = scheduler_description("SCHED_BATCH");
    assert!(s.contains("Batch scheduler"));

    let s = scheduler_description("SCHED_FIFO");
    assert!(s.contains("Realtime FIFO"));
}

#[test]
fn falls_back_for_unknown() {
    let s = scheduler_description("weird_policy");
    assert!(s.contains("weird_policy"));
}

#[test]
fn describes_common_signals() {
    let term = signal_description(15);
    assert!(term.contains("SIGTERM"));

    let kill = signal_description(9);
    assert!(kill.contains("SIGKILL"));
}

#[test]
fn describes_unknown_signal_generically() {
    let s = signal_description(99);
    assert!(s.contains("Signal 99"));
}

#[test]
fn scheduler_description_has_fallback() {
    let s = scheduler_description("SCHED_OTHER");
    assert!(s.contains("Normal"));
    let unknown = scheduler_description("weird");
    assert!(unknown.contains("weird"));
}

#[test]
fn namespace_description_handles_known_and_unknown() {
    assert!(namespace_description("pid").contains("Process ID"));
    assert!(namespace_description("custom").contains("custom"));
}

#[test]
fn parses_ipv4_addr_and_port() {
    // 127.0.0.1:8000 encoded as hex
    let (addr, port) = parse_addr("0100007F:1F40", false);
    assert_eq!(addr, "127.0.0.1");
    assert_eq!(port, 8000);
}

#[test]
fn parses_tcp_states() {
    assert_eq!(tcp_state(0x01), "ESTABLISHED");
    assert_eq!(tcp_state(0x0A), "LISTEN");
    assert_eq!(tcp_state(0xFF), "UNKNOWN");
}

#[test]
fn inodes_using_port_does_not_panic() {
    let tables = NetTables { tcp: None, udp: None, tcp6: None, udp6: None };
    let _ = inodes_using_port(0, &tables);
}

#[test]
fn cgroup_non_linux_stub_returns_none() {
    // Where the cgroup file cannot be read there is nothing to report.
    assert!(read_cgroup(None).is_none());
}

#[test]
fn environ_entry_debug_clone_works() {
    let e = EnvironEntry {
        key: "KEY".to_string(),
        value: "VALUE".to_string(),
    };
    let cloned = e.clone();
    assert_eq!(cloned.key, "KEY");
    assert_eq!(cloned.value, "VALUE");
    let debug = format!("{:?}", e);
    assert!(debug.contains("KEY"));
}

#[test]
fn fd_entry_clone_and_debug() {
    let e = FdEntry {
        fd: 3,
        fd_type: "file".to_string(),
        description: "/tmp/test".to_string(),
    };
    let cloned = e.clone();
    assert_eq!(cloned.fd, 3);
    assert_eq!(cloned.fd_type, "file");
    assert_eq!(cloned.description, "/tmp/test");
    let debug = format!("{:?}", e);
    assert!(debug.contains("FdEntry"));
}

#[test]
fn parses_numeric_limits() {
    assert_eq!(parse_limit_field(Some("1024")), Some(1024));
    assert_eq!(parse_limit_field(Some("0")), Some(0));
}

#[test]
fn treats_unlimited_as_none() {
    assert_eq!(parse_limit_field(Some("unlimited")), None);
}

#[test]
fn handles_missing_field() {
    assert_eq!(parse_limit_field(None), None);
}

#[test]
fn security_non_linux_stub_returns_none() {
    // Where no LSM attribute can be read there is no label.
    assert!(read_label(None).is_none());
}

#[test]
fn limits_parse_limit_field_unlimited_and_numeric() {
    // /proc/-1/limits cannot exist: the read fails and the call still returns.
    let failure = IoFailure {
        kind: IoErrorKind::NotFound,
        message: "No such file or directory (os error 2)".to_string(),
    };
    let _ = read_limits(-1, Err(failure));
}
