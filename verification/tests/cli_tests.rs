use peek::cli::plan::{color_disabled, export_format, net_sample_setting, sudo_args, ExportFormat};
use peek::peek_core::config::config_path;
use peek::cli::kill::menu_line;
use peek::signal_engine::signal_menu;
use peek::cli::report::mem_total_kb;
use peek::cli::args::{apply_config_defaults, apply_default_format, make_opts, Cli};
use peek::cli::browser::{browse_line, browse_rows, browse_step, cmd_preview, listed_rows, BrowseStep};
use peek::cli::kill::{confirmed, kill_choice, KillChoice};
use peek::cli::peekd_client::{
    effective_socket_path, is_valid_metric, normalize_comparison, notify_kind, ping, register_watch, Notify,
};
use peek::cli::plan::{first_step, output_step, target_step, FirstStep, Output, TargetStep};
use peek::cli::port_search::{hit_line, pid_entry, port_hits, PidEntry, PortHit, ProcSockets};
use peek::cli::report::{
    age_string, colorize_state, exit_code_for_error, map_core_error, oom_colored, rate_unit,
    rss_delta, seccomp_label, truncate, CliError, RateUnit,
};
use peek::cli::sections::{
    diff_delta_row, diff_row, env_section, files_section, kernel_section, memory_extra,
    network_section, resource_memory_extra,
};
use peek::cli::select::{name_error_message, select_by_name, target_pid, NameMatchError, ProcRow};
use peek::cli::tree::{render_tree_lines, report_tree_lines};
use peek::peek_core::config::{DefaultsSection, ExportSection, PeekConfig, PeekdSection};
use peek::peek_core::{
    ConnectionEntry, EnvVar, KernelInfo, NamespaceEntry, NetworkInfo, OpenFile, PeekError,
    ProcessNode, SocketEntry, UnixSocketEntry,
};
use peek::proc_reader::error::{IoErrorKind, IoFailure};
use std::collections::HashMap;

fn bare_cli() -> Cli {
    Cli {
        target: None,
        resources: false,
        kernel: false,
        network: false,
        resolve: false,
        files: false,
        env: false,
        tree: false,
        watch: None,
        kill: false,
        all: false,
        export: None,
        json: false,
        json_snapshot: false,
        no_color: false,
        diff: None,
        history: false,
        alert_list: false,
        alert_add: None,
        alert_remove: None,
        sudo: false,
        verbose: false,
        net_sample_ms: None,
        port: None,
    }
}

fn config(no_color: bool, resolve: bool, fmt: Option<&str>, socket: Option<&str>) -> PeekConfig {
    PeekConfig {
        defaults: DefaultsSection { no_color, resolve },
        peekd: PeekdSection { socket_path: socket.map(|s| s.to_string()), history_dir: None },
        export: ExportSection { default_format: fmt.map(|s| s.to_string()) },
    }
}

#[test]
fn config_defaults_switch_flags_on() {
    let mut cli = bare_cli();
    apply_config_defaults(&mut cli, &Some(config(true, true, Some("JSON"), None)));
    assert!(cli.no_color && cli.resolve && cli.json);
    let mut cli = bare_cli();
    apply_config_defaults(&mut cli, &None);
    assert!(!cli.no_color && !cli.json);
}

#[test]
fn default_format_only_when_none_chosen() {
    let mut cli = bare_cli();
    apply_default_format(&mut cli, "markdown");
    assert_eq!(cli.export.as_deref(), Some("md"));
    let mut cli = bare_cli();
    cli.json = true;
    apply_default_format(&mut cli, "html");
    assert!(cli.export.is_none());
    let mut cli = bare_cli();
    apply_default_format(&mut cli, "json_snapshot");
    assert!(cli.json_snapshot && !cli.json);
    let mut cli = bare_cli();
    apply_default_format(&mut cli, "yaml");
    assert!(cli.export.is_none() && !cli.json && !cli.json_snapshot);
}

#[test]
fn all_expands_collection_options() {
    let mut cli = bare_cli();
    cli.all = true;
    let o = make_opts(&cli);
    assert!(o.resources && o.kernel && o.network && o.files && o.env && o.tree && o.gpu);
    let mut cli = bare_cli();
    cli.files = true;
    let o = make_opts(&cli);
    assert!(o.files && !o.env && !o.kernel);
}

#[test]
fn plan_orders_its_decisions() {
    let mut cli = bare_cli();
    cli.port = Some(80);
    cli.alert_list = true;
    assert!(matches!(first_step(&cli), FirstStep::PortSearch(80)));
    let mut cli = bare_cli();
    cli.alert_remove = Some("rule-1".to_string());
    assert!(matches!(first_step(&cli), FirstStep::AlertRemove(ref s) if s == "rule-1"));
    assert!(matches!(first_step(&bare_cli()), FirstStep::Continue));

    assert!(matches!(target_step(&bare_cli(), true), TargetStep::Tui(2000)));
    let mut cli = bare_cli();
    cli.watch = Some(None);
    assert!(matches!(target_step(&cli, false), TargetStep::Watch(2000)));
    cli.watch = Some(Some(500));
    assert!(matches!(target_step(&cli, true), TargetStep::Watch(500)));
    let mut cli = bare_cli();
    cli.diff = Some(7);
    cli.history = true;
    assert!(matches!(target_step(&cli, false), TargetStep::Diff(7)));
    assert!(matches!(target_step(&bare_cli(), false), TargetStep::Collect));

    let mut cli = bare_cli();
    cli.kill = true;
    cli.json = true;
    assert!(matches!(output_step(&cli), Output::Kill));
    let mut cli = bare_cli();
    cli.export = Some("html".to_string());
    cli.json = true;
    assert!(matches!(output_step(&cli), Output::Export(ref f) if f == "html"));
    assert!(matches!(output_step(&bare_cli()), Output::Report));
}

#[test]
fn targets_and_name_lookup() {
    assert_eq!(target_pid("1234"), Some(1234));
    assert_eq!(target_pid("0"), None);
    assert_eq!(target_pid("nginx"), None);
    let rows = vec![
        ProcRow { pid: 10, comm: Some("nginx".to_string()), cmdline: Some(vec!["nginx".to_string(), "-g".to_string()]) },
        ProcRow { pid: 11, comm: Some("bash".to_string()), cmdline: Some(vec!["bash".to_string()]) },
        ProcRow { pid: 12, comm: None, cmdline: Some(vec!["/usr/bin/python3".to_string(), "nginx_check.py".to_string()]) },
    ];
    assert!(matches!(select_by_name("bash", &rows, 0), Ok(11)));
    assert!(matches!(select_by_name("zsh", &rows, 0), Err(NameMatchError::NoMatch)));
    match select_by_name("nginx", &rows, 0) {
        Err(e) => assert_eq!(
            name_error_message(&e, "nginx"),
            "multiple matches for 'nginx': [10, 12]\nSpecify a PID."
        ),
        Ok(_) => panic!("two processes match"),
    }
    assert_eq!(name_error_message(&NameMatchError::NoMatch, "x"), "no process matching 'x'");
}

#[test]
fn name_lookup_skips_the_caller() {
    let rows = vec![
        ProcRow { pid: 10, comm: Some("nginx".to_string()), cmdline: Some(vec!["nginx".to_string()]) },
        ProcRow { pid: 20, comm: Some("peek".to_string()), cmdline: Some(vec!["peek".to_string(), "nginx".to_string()]) },
    ];
    assert!(matches!(select_by_name("nginx", &rows, 20), Ok(10)));
    assert!(matches!(select_by_name("peek", &rows, 20), Err(NameMatchError::NoMatch)));
    assert!(matches!(select_by_name("nginx", &rows, 0), Err(NameMatchError::Multiple(_))));
}

#[test]
fn report_helpers_format_values() {
    assert_eq!(colorize_state("Running", true), "Running");
    assert_eq!(colorize_state("Running", false), "\x1b[32mRunning\x1b[39m");
    assert_eq!(colorize_state("Zombie", false), "\x1b[1m\x1b[31mZombie\x1b[39m\x1b[0m");
    assert_eq!(colorize_state("Sleeping", false), "Sleeping");
    assert_eq!(oom_colored(800, false), "\x1b[1m\x1b[31m800\x1b[39m\x1b[0m");
    assert_eq!(oom_colored(500, false), "\x1b[33m500\x1b[39m");
    assert_eq!(oom_colored(5, true), "5");
    assert_eq!(seccomp_label(0), "disabled");
    assert_eq!(seccomp_label(2), "filter active");
    assert_eq!(seccomp_label(9), "unknown");
    assert_eq!(rate_unit(999), RateUnit::Bytes);
    assert_eq!(rate_unit(1000), RateUnit::KiloBytes);
    assert_eq!(rate_unit(1_000_000), RateUnit::MegaBytes);
    assert_eq!(truncate("hello", 5), "hello");
    assert_eq!(truncate("hello world", 5), "hell…");
    assert_eq!(truncate("abc", 0), "…");
    assert_eq!(age_string(59), "59s ago");
    assert_eq!(age_string(120), "2m ago");
    assert_eq!(age_string(7200), "2h ago");
    assert_eq!(age_string(172_800), "2d ago");
    assert_eq!(rss_delta(100, 150, true), "+50 KB");
    assert_eq!(rss_delta(150, 100, true), "-50 KB");
    assert_eq!(rss_delta(100, 100, false), "\x1b[33m+0 KB\x1b[39m");
}

#[test]
fn errors_map_to_exit_codes_and_messages() {
    let denied = IoFailure { kind: IoErrorKind::PermissionDenied, message: "Permission denied".to_string() };
    assert_eq!(exit_code_for_error(&CliError::Peek(PeekError::NotFound(5))), 3);
    assert_eq!(
        exit_code_for_error(&CliError::Peek(PeekError::ProcIo { pid: 5, source: denied.clone() })),
        4
    );
    assert_eq!(exit_code_for_error(&CliError::Io(IoErrorKind::PermissionDenied)), 4);
    assert_eq!(exit_code_for_error(&CliError::Other), 1);
    assert_eq!(map_core_error(&PeekError::NotFound(5)), "process 5 not found");
    assert_eq!(
        map_core_error(&PeekError::ProcIo { pid: 5, source: denied }),
        "permission denied reading /proc/5 (try --sudo or run as root): Permission denied"
    );
    let other = IoFailure { kind: IoErrorKind::Other, message: "boom".to_string() };
    assert_eq!(
        map_core_error(&PeekError::ProcIo { pid: 6, source: other }),
        "failed to read /proc for pid 6: boom"
    );
    assert_eq!(
        map_core_error(&PeekError::ProcParse { pid: 7, msg: "bad".to_string() }),
        "failed to parse /proc for pid 7: bad"
    );
}

#[test]
fn kill_panel_choices() {
    let menu = vec![15, 2, 9];
    assert_eq!(kill_choice(" 1 ", &menu, false), KillChoice::Send { signal: 15, confirm: false });
    assert_eq!(kill_choice("3", &menu, false), KillChoice::Send { signal: 9, confirm: true });
    assert_eq!(kill_choice("4", &menu, false), KillChoice::Unknown);
    assert_eq!(kill_choice("s", &menu, true), KillChoice::StopUnit);
    assert_eq!(kill_choice("s", &menu, false), KillChoice::NoUnit);
    assert_eq!(kill_choice("R", &menu, true), KillChoice::RestartUnit);
    assert_eq!(kill_choice("", &menu, true), KillChoice::Quit);
    assert_eq!(kill_choice("Q", &menu, true), KillChoice::Quit);
    assert!(confirmed("y\n"));
    assert!(confirmed(" Y "));
    assert!(!confirmed("YES"));
    assert!(!confirmed("no"));
}

#[test]
fn peekd_client_decisions() {
    assert_eq!(effective_socket_path(Some("/tmp/s".to_string()), None), "/tmp/s");
    assert_eq!(
        effective_socket_path(None, Some(config(false, false, None, Some("/run/x.sock")))),
        "/run/x.sock"
    );
    assert_eq!(effective_socket_path(None, None), "/run/peekd/peekd.sock");
    assert!(ping(Some(true)));
    assert!(!ping(Some(false)));
    assert!(!ping(None));
    assert!(register_watch(true, None).is_ok());
    assert_eq!(register_watch(false, Some("nope".to_string())).unwrap_err(), "nope");
    assert_eq!(register_watch(false, None).unwrap_err(), "");
    assert_eq!(normalize_comparison("GT"), "greater_than");
    assert_eq!(normalize_comparison("<"), "less_than");
    assert_eq!(normalize_comparison("Equal"), "equal");
    assert!(matches!(notify_kind("script:echo hi"), Notify::Script(ref c) if c == "echo hi"));
    assert!(matches!(notify_kind("stderr"), Notify::Stderr));
    assert!(matches!(notify_kind("log"), Notify::Log));
    assert!(is_valid_metric("fd_count"));
    assert!(!is_valid_metric("disk"));
}

fn procs() -> Vec<ProcRow> {
    vec![
        ProcRow { pid: 30, comm: Some("sshd".to_string()), cmdline: Some(vec!["/usr/sbin/sshd".to_string(), "-D".to_string()]) },
        ProcRow { pid: 5, comm: Some("Nginx".to_string()), cmdline: Some(vec![]) },
        ProcRow { pid: 12, comm: None, cmdline: None },
    ]
}

#[test]
fn browser_rows_are_sorted_and_filtered() {
    let rows = browse_rows(&procs());
    let pids: Vec<i32> = rows.iter().map(|r| r.pid).collect();
    assert_eq!(pids, vec![5, 12, 30]);
    assert_eq!(rows[0].cmd, "Nginx");
    assert_eq!(rows[1].name, "?");
    assert_eq!(rows[2].cmd, "/usr/sbin/sshd -D");
    assert_eq!(listed_rows(&rows, &None), vec![0, 1, 2]);
    assert_eq!(listed_rows(&rows, &Some("NGINX".to_string())), vec![0]);
}

#[test]
fn browser_steps_follow_the_input() {
    let rows = browse_rows(&procs());
    let shown = listed_rows(&rows, &None);
    assert!(matches!(browse_step(&rows, &shown, "  "), BrowseStep::Cancel));
    assert!(matches!(browse_step(&rows, &shown, "q"), BrowseStep::Cancel));
    assert!(matches!(browse_step(&rows, &shown, "/ssh"), BrowseStep::SetFilter(Some(ref f)) if f == "ssh"));
    assert!(matches!(browse_step(&rows, &shown, "/"), BrowseStep::SetFilter(None)));
    assert!(matches!(browse_step(&rows, &shown, "30"), BrowseStep::Select(30)));
    assert!(matches!(browse_step(&rows, &shown, "2"), BrowseStep::Select(12)));
    assert!(matches!(browse_step(&rows, &shown, "sshd"), BrowseStep::Select(30)));
    assert!(matches!(browse_step(&rows, &shown, "zzz"), BrowseStep::NoMatch));
    assert!(matches!(browse_step(&rows, &shown, "N"), BrowseStep::Refine(ref q) if q == "n"));
}

#[test]
fn browser_lines_cut_long_commands() {
    assert_eq!(cmd_preview("short"), "short");
    let long = "a".repeat(45);
    assert_eq!(cmd_preview(&long), format!("{}…", "a".repeat(40)));
    let rows = browse_rows(&procs());
    assert_eq!(
        browse_line(1, &rows[0]),
        format!("{:<4} {:>6}  {:<20}  {}", 1, 5, "Nginx", "Nginx")
    );
    let long_row = &browse_rows(&vec![ProcRow {
        pid: 9,
        comm: Some("x".to_string()),
        cmdline: Some(vec!["b".repeat(50)]),
    }])[0];
    assert_eq!(
        browse_line(3, long_row),
        format!("{:<4} {:>6}  {:<20}  {}…", 3, 9, "x", "b".repeat(40))
    );
}

#[test]
fn port_search_joins_sockets() {
    let mut map: HashMap<u64, (String, String, String)> = HashMap::new();
    map.insert(100, ("TCP LISTEN".to_string(), "0.0.0.0:80".to_string(), "-".to_string()));
    let procs = vec![
        ProcSockets { pid: 1, comm: Some("nginx".to_string()), inodes: vec![5, 100] },
        ProcSockets { pid: 2, comm: None, inodes: vec![100] },
        ProcSockets { pid: 3, comm: Some("idle".to_string()), inodes: vec![7] },
    ];
    let hits: Vec<PortHit> = port_hits(&procs, &map);
    assert_eq!(hits.len(), 2);
    assert_eq!(hits[0].name, "nginx");
    assert_eq!(hits[1].name, "2");
    assert_eq!(hits[1].local, "0.0.0.0:80");
    assert_eq!(
        hit_line(&hits[0]),
        format!("{:<6} {:<20} {:<14} {:<22} {:<22}", 1, "nginx", "TCP LISTEN", "0.0.0.0:80", "-")
    );
    assert!(matches!(pid_entry("  "), PidEntry::Leave));
    assert!(matches!(pid_entry(" 42\n"), PidEntry::Pid(42)));
    assert!(matches!(pid_entry("x1"), PidEntry::Invalid(ref m) if m == "invalid PID 'x1'"));
}

fn node(pid: i32, name: &str, rss_kb: u64, children: Vec<ProcessNode>) -> ProcessNode {
    ProcessNode { pid, name: name.to_string(), uid: 0, rss_kb, children }
}

#[test]
fn trees_draw_connectors() {
    let tree = node(1, "init", 4096, vec![
        node(2, "a", 2048, vec![node(4, "c", 0, vec![])]),
        node(3, "b", 1024, vec![]),
    ]);
    let lines = report_tree_lines(&tree, 4, true);
    assert_eq!(lines, vec![
        "  └── init (1) [4 MB]".to_string(),
        "      ├── a (2) [2 MB]".to_string(),
        "      │   └── c (4) [0 MB]".to_string(),
        "      └── b (3) [1 MB]".to_string(),
    ]);
    let colored = report_tree_lines(&tree, 3, false);
    assert_eq!(colored[3], "      └── \x1b[1m\x1b[36mb\x1b[39m\x1b[0m (3) [1 MB]");
    let tab = render_tree_lines(&tree, 2);
    assert_eq!(tab[1], ("    ├── a (2)  [2 MB]".to_string(), true));
    assert_eq!(tab[0], ("└── init (1)  [4 MB]".to_string(), false));
}

#[test]
fn report_sections_render() {
    assert_eq!(memory_extra(Some(10), Some(5)), "  |  10 KB PSS  |  5 KB swap");
    assert_eq!(memory_extra(Some(10), Some(0)), "  |  10 KB PSS");
    assert_eq!(memory_extra(None, Some(5)), "  |  5 KB swap");
    assert_eq!(memory_extra(None, None), "");
    assert_eq!(resource_memory_extra(Some(1), Some(2)), "  |  PSS 1 KB  |  swap 2 KB");

    let files = vec![OpenFile { fd: 3, fd_type: "file".to_string(), description: "/tmp/x".to_string() }];
    let f = files_section(&files, true);
    assert_eq!(f[0], "    FD        Type  Path");
    assert_eq!(f[2], format!("  {:>4}  {:>10}  {}", 3, "file", "/tmp/x"));
    assert_eq!(f[3], "  Total: 1");

    let vars = vec![
        EnvVar { key: "HOME".to_string(), value: "/root".to_string(), redacted: false },
        EnvVar { key: "API_TOKEN".to_string(), value: "***".to_string(), redacted: true },
    ];
    let e = env_section(&vars, true);
    assert_eq!(e[0], "  ⚠️ 1 secret(s) detected and redacted.");
    assert_eq!(e[1], format!("  {:<11} = {}", "HOME", "/root"));
    assert_eq!(e[2], format!("  {:<11} = {} {}", "API_TOKEN", "***", "[REDACTED]"));

    assert_eq!(diff_row("PPID", "1", "2").len(), 28 + 1 + 22 + 1 + 22);
    assert!(diff_delta_row("+5 KB").ends_with("+5 KB"));
}

#[test]
fn network_and_kernel_sections_render() {
    let empty = NetworkInfo {
        listening_tcp: vec![],
        listening_udp: vec![],
        connections: vec![],
        unix_sockets: None,
        traffic_rx_bytes_per_sec: None,
        traffic_tx_bytes_per_sec: None,
    };
    assert_eq!(network_section(&empty, &vec![], true), vec!["  No sockets.".to_string()]);
    let net = NetworkInfo {
        listening_tcp: vec![SocketEntry { protocol: "TCP".to_string(), local_addr: "0.0.0.0".to_string(), local_port: 22 }],
        listening_udp: vec![],
        connections: vec![ConnectionEntry {
            protocol: "TCP".to_string(),
            local_addr: "10.0.0.1".to_string(),
            local_port: 22,
            remote_addr: "10.0.0.2".to_string(),
            remote_port: 5000,
            state: "ESTABLISHED".to_string(),
        }],
        unix_sockets: Some(vec![UnixSocketEntry { path: String::new() }]),
        traffic_rx_bytes_per_sec: None,
        traffic_tx_bytes_per_sec: None,
    };
    let n = network_section(&net, &vec![Some("host".to_string())], true);
    assert_eq!(n, vec![
        "  ▶ Listening (TCP): TCP 0.0.0.0:22".to_string(),
        "  ▶ Unix sockets (1):".to_string(),
        "    <anonymous>".to_string(),
        "  ▶ Connections (1):".to_string(),
        "    TCP 10.0.0.1:22 → host (10.0.0.2:5000) [ESTABLISHED]".to_string(),
    ]);

    let k = KernelInfo {
        sched_policy: "SCHED_OTHER".to_string(),
        nice: 0,
        priority: 20,
        oom_score: 10,
        oom_score_adj: 0,
        cgroup: "/user.slice".to_string(),
        namespaces: vec![
            NamespaceEntry { ns_type: "pid".to_string(), inode: "1".to_string() },
            NamespaceEntry { ns_type: "net".to_string(), inode: "2".to_string() },
        ],
        cap_permitted: "none".to_string(),
        cap_effective: "none".to_string(),
        seccomp: 0,
        voluntary_ctxt_switches: Some(3),
        nonvoluntary_ctxt_switches: Some(4),
        security_label: None,
    };
    let lines = kernel_section(&k, "low", &None, true);
    assert_eq!(lines[0], "  Scheduler  : SCHED_OTHER | Nice: 0 | Priority: 20");
    assert_eq!(lines[1], "  OOM Score  : 10 / 1000  (adj: 0) — low");
    assert_eq!(lines[2], "  Cgroup     : /user.slice");
    assert_eq!(lines[3], "  Seccomp    : disabled");
    assert_eq!(lines[6], "  Namespaces : pid, net");
    assert_eq!(lines[7], "  Ctx Sw     : 3 voluntary, 4 involuntary");
}

#[test]
fn run_setup_decisions() {
    assert!(color_disabled(true, false, false, false, true));
    assert!(color_disabled(false, true, false, false, true));
    assert!(color_disabled(false, false, true, true, true));
    assert!(!color_disabled(false, false, true, false, false));
    assert!(color_disabled(false, false, false, false, false));
    assert!(!color_disabled(false, false, false, false, true));
    assert_eq!(net_sample_setting(false, false, None).as_deref(), Some("0"));
    assert_eq!(net_sample_setting(true, false, None), None);
    assert_eq!(net_sample_setting(false, true, None), None);
    assert_eq!(net_sample_setting(true, true, Some(250)).as_deref(), Some("250"));
    let args = vec!["peek".to_string(), "123".to_string(), "--sudo".to_string(), "-r".to_string()];
    assert_eq!(sudo_args("/usr/bin/peek", &args), vec!["/usr/bin/peek".to_string(), "123".to_string(), "-r".to_string()]);
    assert!(matches!(export_format("JSON"), ExportFormat::Json));
    assert!(matches!(export_format("Markdown"), ExportFormat::Markdown));
    assert!(matches!(export_format("pdf"), ExportFormat::Pdf));
    assert!(matches!(export_format("XML"), ExportFormat::Unknown(ref m) if m == "unknown format 'xml' (json | html | md | pdf)"));
    assert_eq!(config_path(Some("/cfg"), Some("/home/u")), "/cfg/peek/config.toml");
    assert_eq!(config_path(None, Some("/home/u")), "/home/u/.config/peek/config.toml");
    assert_eq!(config_path(None, None), ".config/peek/config.toml");
}

#[test]
fn kill_menu_lines_align() {
    let m = signal_menu();
    assert_eq!(
        menu_line(1, m[0].0, m[0].1, m[0].2),
        format!("  [{}] {:<8} ({:>2})  {}", 1, m[0].0, m[0].1, m[0].2)
    );
    assert_eq!(menu_line(5, "SIGHUP", 1, "d"), "  [5] SIGHUP   ( 1)  d");
}

#[test]
fn meminfo_total_is_read() {
    assert_eq!(mem_total_kb("MemTotal:       16318480 kB\nMemFree:  1 kB\n"), Some(16318480));
    assert_eq!(mem_total_kb("MemFree:  1 kB\n"), None);
    assert_eq!(mem_total_kb("MemTotal:\n"), None);
}
