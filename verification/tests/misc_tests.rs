use peek::colors::{bold, cyan, cyan_bold, dimmed, green, red, red_bold, yellow, yellow_bold};
use peek::kernel_explainer::{namespace_description, scheduler_description, signal_description};
use peek::network::ipv6::format_ipv6;
use peek::network::tcp::{collect_network, inodes_using_port, parse_addr, process_socket_inodes, socket_inode, NetTables};
use peek::signal_engine::{signal_menu, signal_name};
use peek::tui::{
    fd_leak_status, history_len, leak_check_due, max_connections, max_open_files, next_tab, prev_tab,
    tab_title, FdLeakStatus, TAB_COUNT,
};
use std::collections::HashSet;

#[test]
fn colors_wrap_or_pass_through() {
    assert_eq!(red("x", false), "\x1b[31mx\x1b[39m");
    assert_eq!(green("x", false), "\x1b[32mx\x1b[39m");
    assert_eq!(yellow("x", false), "\x1b[33mx\x1b[39m");
    assert_eq!(cyan("x", false), "\x1b[36mx\x1b[39m");
    assert_eq!(bold("x", false), "\x1b[1mx\x1b[0m");
    assert_eq!(dimmed("x", false), "\x1b[2mx\x1b[0m");
    assert_eq!(red_bold("x", false), "\x1b[1m\x1b[31mx\x1b[39m\x1b[0m");
    assert_eq!(yellow_bold("x", false), "\x1b[1m\x1b[33mx\x1b[39m\x1b[0m");
    assert_eq!(cyan_bold("x", false), "\x1b[1m\x1b[36mx\x1b[39m\x1b[0m");
    assert_eq!(red("x", true), "x");
    assert_eq!(cyan_bold("x", true), "x");
}

#[test]
fn explainer_texts() {
    assert_eq!(
        namespace_description("net"),
        "Network: separate network stack, interfaces, and ports"
    );
    assert_eq!(namespace_description("odd"), "Namespace type: odd");
    assert_eq!(
        scheduler_description("rr"),
        "Realtime round-robin — fixed-priority, time-sliced scheduling"
    );
    assert_eq!(scheduler_description("x"), "Scheduler policy: x");
    assert_eq!(
        signal_description(2),
        "SIGINT (2): interrupt from keyboard (Ctrl-C); default is to terminate."
    );
    assert_eq!(signal_description(-4), "Signal -4: see `kill -l` for details.");
}

#[test]
fn signal_menu_and_names() {
    let m = signal_menu();
    assert_eq!(m.len(), 7);
    assert_eq!(m[0].0, "SIGTERM");
    assert_eq!(m[1].1, 9);
    assert_eq!(signal_name(19), "SIGSTOP");
    assert_eq!(signal_name(12), "SIGUSR2");
    assert_eq!(signal_name(3), "UNKNOWN");
}

#[test]
fn ipv6_text_follows_the_canonical_form() {
    assert_eq!(format_ipv6([0; 16]), "::");
    let mut one = [0u8; 16];
    one[15] = 1;
    assert_eq!(format_ipv6(one), "::1");
    let doc = [0x20, 0x01, 0x0d, 0xb8, 0, 0, 0, 0, 0, 0, 0, 0, 0, 0, 0, 1];
    assert_eq!(format_ipv6(doc), "2001:db8::1");
    let mapped = [0, 0, 0, 0, 0, 0, 0, 0, 0, 0, 0xff, 0xff, 127, 0, 0, 1];
    assert_eq!(format_ipv6(mapped), "::ffff:127.0.0.1");
    let two_runs = [0, 1, 0, 0, 0, 0, 0, 2, 0, 0, 0, 0, 0, 0, 0, 3];
    assert_eq!(format_ipv6(two_runs), "1:0:0:2::3");
    let no_run = [0, 1, 0, 2, 0, 3, 0, 4, 0, 5, 0, 6, 0, 7, 0, 8];
    assert_eq!(format_ipv6(no_run), "1:2:3:4:5:6:7:8");
}

#[test]
fn addresses_parse_from_tables() {
    assert_eq!(parse_addr("00000000000000000000000001000000:0050", true), ("::1".to_string(), 80));
    assert_eq!(parse_addr("nocolon", false), ("?".to_string(), 0));
    assert_eq!(parse_addr("ZZ:0016", false), ("ZZ".to_string(), 22));
    assert_eq!(parse_addr("0100007F:zz", false), ("127.0.0.1".to_string(), 0));
}

const TCP: &str = "  sl  local_address rem_address   st tx_queue rx_queue tr tm->when retrnsmt   uid  timeout inode\n   0: 0100007F:1F40 00000000:0000 0A 00000000:00000000 00:00000000 00000000  1000        0 12345 1 0000000000000000 100 0 0 10 0\n   1: 0100007F:A000 0200007F:0050 01 00000000:00000000 00:00000000 00000000  1000        0 777 1 0000000000000000 100 0 0 10 0\n   2: 0100007F:A001 0200007F:0050 01 00000000:00000000 00:00000000 00000000  1000        0 888 1 0000000000000000 100 0 0 10 0\n";

#[test]
fn collect_network_for_current_process_is_resilient() {
    let tables = NetTables { tcp: Some(TCP.to_string()), udp: None, tcp6: None, udp6: None };
    let mut mine = HashSet::new();
    mine.insert(12345u64);
    mine.insert(777u64);
    let net = collect_network(&tables, &mine);
    assert_eq!(net.listening_tcp.len(), 1);
    assert_eq!(net.listening_tcp[0].local_addr, "127.0.0.1");
    assert_eq!(net.listening_tcp[0].local_port, 8000);
    assert_eq!(net.connections.len(), 1);
    assert_eq!(net.connections[0].remote_addr, "127.0.0.2");
    assert_eq!(net.connections[0].remote_port, 80);
    assert_eq!(net.connections[0].state, "ESTABLISHED");
    let none = NetTables { tcp: None, udp: None, tcp6: None, udp6: None };
    assert!(collect_network(&none, &mine).connections.is_empty());
}

const UDP: &str = "  sl  local_address rem_address   st tx_queue rx_queue tr tm->when retrnsmt   uid  timeout inode ref pointer drops\n  1: 00000000:0035 00000000:0000 07 00000000:00000000 00:00000000 00000000   101        0 4242 2 0000000000000000 0\n  2: 0100007F:D000 0200007F:0035 01 00000000:00000000 00:00000000 00000000   101        0 4343 2 0000000000000000 0\n";

#[test]
fn bound_udp_sockets_are_listening() {
    let tables = NetTables { tcp: None, udp: Some(UDP.to_string()), tcp6: None, udp6: None };
    let mut mine = HashSet::new();
    mine.insert(4242u64);
    mine.insert(4343u64);
    let net = collect_network(&tables, &mine);
    assert!(net.listening_tcp.is_empty());
    assert_eq!(net.listening_udp.len(), 1);
    assert_eq!(net.listening_udp[0].protocol, "UDP");
    assert_eq!(net.listening_udp[0].local_addr, "0.0.0.0");
    assert_eq!(net.listening_udp[0].local_port, 53);
    assert_eq!(net.connections.len(), 1);
    assert_eq!(net.connections[0].remote_port, 53);
    assert_eq!(net.connections[0].state, "ESTABLISHED");
}

#[test]
fn port_map_marks_listeners() {
    let tables = NetTables { tcp: Some(TCP.to_string()), udp: None, tcp6: None, udp6: None };
    let m = inodes_using_port(8000, &tables);
    assert_eq!(m.len(), 1);
    assert_eq!(
        m.get(&12345),
        Some(&("LISTEN/TCP".to_string(), "127.0.0.1:8000".to_string(), "-".to_string()))
    );
    let m80 = inodes_using_port(80, &tables);
    assert_eq!(
        m80.get(&777),
        Some(&("CONN/TCP".to_string(), "127.0.0.1:40960".to_string(), "127.0.0.2:80".to_string()))
    );
}

#[test]
fn socket_links_give_inodes() {
    assert_eq!(socket_inode("socket:[42]"), Some(42));
    assert_eq!(socket_inode("pipe:[42]"), None);
    assert_eq!(socket_inode("socket:[x]"), None);
    let targets = vec![Some("socket:[5]".to_string()), Some("pipe:[1]".to_string()), None, Some("socket:[5]".to_string())];
    let set = process_socket_inodes(&targets);
    assert_eq!(set.len(), 1);
    assert!(set.contains(&5));
}

#[test]
fn tabs_wrap_both_ways() {
    assert_eq!(TAB_COUNT, 7);
    assert_eq!(next_tab(6), 0);
    assert_eq!(next_tab(2), 3);
    assert_eq!(prev_tab(0), 6);
    assert_eq!(prev_tab(3), 2);
    for t in 0..TAB_COUNT {
        assert_eq!(prev_tab(next_tab(t)), t);
        assert_eq!(next_tab(prev_tab(t)), t);
    }
    assert_eq!(tab_title(0), "Overview");
    assert_eq!(tab_title(6), "GPU");
}

#[test]
fn tui_state_helpers() {
    assert_eq!(fd_leak_status(None), FdLeakStatus::NoLeak);
    assert_eq!(
        fd_leak_status(Some((10, 20, 5))),
        FdLeakStatus::Warning { start: 10, end: 20, n: 5 }
    );
    assert!(leak_check_due(10));
    assert!(!leak_check_due(11));
    assert_eq!(history_len(None), 120);
    assert_eq!(history_len(Some("60")), 60);
    assert_eq!(max_connections(None), 50);
    assert_eq!(max_open_files(Some("5001")), 200);
    assert_eq!(max_open_files(Some("5000")), 5000);
}
