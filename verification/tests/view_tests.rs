use peek::peek_core::{ConnectionEntry, EnvVar, KernelInfo, NamespaceEntry, NetworkInfo, OpenFile, SocketEntry};
use peek::tui::view::{
    conn_rows, conn_tone, disk_io_line, env_title, env_tones, fd_type_tone, fds_title, file_rows,
    files_title, footer_tick, kernel_rows, listen_items, memory_title, network_titles, oom_tone,
    spark_max, state_tone, uptime_text, Tone,
};
use peek::tui::FdLeakStatus;

#[test]
fn header_and_footer_texts() {
    assert_eq!(state_tone("Running"), Tone::Green);
    assert_eq!(state_tone("Dead"), Tone::Red);
    assert_eq!(state_tone("Uninterruptible sleep"), Tone::Yellow);
    assert_eq!(state_tone("Sleeping"), Tone::Plain);
    assert_eq!(uptime_text(59), "0m");
    assert_eq!(uptime_text(3599), "59m");
    assert_eq!(uptime_text(-61), "-1m");
    assert_eq!(uptime_text(7200), "2h");
    assert_eq!(uptime_text(90000), "1d");
    assert_eq!(footer_tick(false, 12), " tick #12 ");
    assert_eq!(footer_tick(true, 12), " ⏸ PAUSED ");
}

#[test]
fn kernel_tab_rows() {
    let k = KernelInfo {
        sched_policy: "SCHED_FIFO".to_string(),
        nice: -5,
        priority: 10,
        oom_score: 800,
        oom_score_adj: -100,
        cgroup: "/".to_string(),
        namespaces: vec![NamespaceEntry { ns_type: "uts".to_string(), inode: "9".to_string() }],
        cap_permitted: "0".to_string(),
        cap_effective: "0".to_string(),
        seccomp: 1,
        voluntary_ctxt_switches: None,
        nonvoluntary_ctxt_switches: Some(2),
        security_label: None,
    };
    let rows = kernel_rows(&k);
    assert_eq!(rows.len(), 10);
    assert_eq!(rows[1], ("Nice / Priority".to_string(), "-5 / 10".to_string()));
    assert_eq!(rows[2], ("OOM Score".to_string(), "800 / 1000".to_string()));
    assert_eq!(rows[5], ("Seccomp".to_string(), "strict".to_string()));
    assert_eq!(rows[6], ("Namespaces".to_string(), "uts".to_string()));
    assert_eq!(rows[9], ("Ctx Switches".to_string(), "0 voluntary / 2 involuntary".to_string()));
    assert_eq!(oom_tone(800), Tone::Red);
    assert_eq!(oom_tone(401), Tone::Yellow);
    assert_eq!(oom_tone(400), Tone::Green);
}

#[test]
fn file_and_env_tabs() {
    let files = vec![
        OpenFile { fd: 0, fd_type: "device".to_string(), description: "/dev/null".to_string() },
        OpenFile { fd: 3, fd_type: "socket".to_string(), description: "socket inode 1".to_string() },
        OpenFile { fd: 4, fd_type: "file".to_string(), description: "/tmp/a".to_string() },
    ];
    let rows = file_rows(&files, 2);
    assert_eq!(rows.len(), 2);
    assert_eq!(rows[1], ("3".to_string(), "socket".to_string(), Tone::Cyan, "socket inode 1".to_string()));
    assert_eq!(files_title(&files), " Open Files (3) ");
    assert_eq!(fd_type_tone("pipe"), Tone::Yellow);
    assert_eq!(fd_type_tone("anon_inode"), Tone::Magenta);
    assert_eq!(fd_type_tone("file"), Tone::Plain);
    let vars = vec![
        EnvVar { key: "A".to_string(), value: "1".to_string(), redacted: false },
        EnvVar { key: "TOKEN".to_string(), value: "***".to_string(), redacted: true },
    ];
    assert_eq!(env_title(&vars), " Environment (2 vars, 1 redacted) ");
    assert_eq!(env_tones(&vars[1]), (Tone::Yellow, Tone::Red));
    assert_eq!(env_tones(&vars[0]), (Tone::Cyan, Tone::Plain));
}

#[test]
fn network_tab_rows() {
    let net = NetworkInfo {
        listening_tcp: vec![SocketEntry { protocol: "TCP".to_string(), local_addr: "0.0.0.0".to_string(), local_port: 80 }],
        listening_udp: vec![SocketEntry { protocol: "UDP".to_string(), local_addr: "::".to_string(), local_port: 53 }],
        connections: vec![ConnectionEntry {
            protocol: "TCP6".to_string(),
            local_addr: "::1".to_string(),
            local_port: 5,
            remote_addr: "::1".to_string(),
            remote_port: 6,
            state: "TIME_WAIT".to_string(),
        }],
        unix_sockets: None,
        traffic_rx_bytes_per_sec: None,
        traffic_tx_bytes_per_sec: None,
    };
    assert_eq!(listen_items(&net), vec!["  TCP  0.0.0.0:80".to_string(), "  UDP  :::53".to_string()]);
    let rows = conn_rows(&net, 50);
    assert_eq!(rows[0].1, "::1:5");
    assert_eq!(rows[0].4, Tone::DarkGray);
    assert!(conn_rows(&net, 0).is_empty());
    assert_eq!(network_titles(&net), (" Listening (2) ".to_string(), " Connections (1) ".to_string()));
    assert_eq!(conn_tone("ESTABLISHED"), Tone::Green);
    assert_eq!(conn_tone("FIN_WAIT2"), Tone::Yellow);
    assert_eq!(conn_tone("LISTEN"), Tone::Plain);
}

#[test]
fn overview_texts() {
    assert_eq!(memory_title(2048, 4096, None, None), " Memory  2 MB RSS  /  4 MB VSZ");
    assert_eq!(memory_title(2048, 4096, Some(7), Some(3)), " Memory  2 MB RSS  /  4 MB VSZ  |  PSS 7 KB  swap 3 KB");
    assert_eq!(memory_title(2048, 4096, None, Some(3)), " Memory  2 MB RSS  /  4 MB VSZ  |  swap 3 KB");
    assert_eq!(fds_title(12, FdLeakStatus::NoLeak), (" FDs  12 open".to_string(), Tone::Gray));
    assert_eq!(
        fds_title(30, FdLeakStatus::Warning { start: 10, end: 30, n: 10 }),
        (" FDs  30 open  ⚠ LEAK DETECTED (+20 over 10 samples)".to_string(), Tone::Red)
    );
    assert_eq!(spark_max(&vec![]), 1);
    assert_eq!(spark_max(&vec![0, 0]), 1);
    assert_eq!(spark_max(&vec![3, 9, 2]), 9);
    assert_eq!(disk_io_line(Some(5), None).as_deref(), Some("  disk I/O: read 5 bytes / write 0 bytes"));
    assert_eq!(disk_io_line(None, Some(5)), None);
}
