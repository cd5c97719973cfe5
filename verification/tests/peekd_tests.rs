use peek::peekd::dispatch::{request_of, Daemon, Reply, Request};
use peek::peekd::paths::{already_running_message, history_lines, history_path, history_root, recorded_pid};
use peek::text::join;
use peek::peekd::ring_store::History;
use peek::peekd::tunables::{
    max_connections, max_watched_pids, min_request_interval_ms, ring_size, sample_interval_secs,
};
use peek::peekd::watch::{cap_watched, unwatch, watch};

#[test]
fn ring_size_reads_bounded_values() {
    assert_eq!(ring_size(None), 300);
    assert_eq!(ring_size(Some("60")), 60);
    assert_eq!(ring_size(Some("+60")), 60);
    assert_eq!(ring_size(Some("0")), 300);
    assert_eq!(ring_size(Some("3601")), 300);
    assert_eq!(ring_size(Some("3600")), 3600);
    assert_eq!(ring_size(Some(" 60")), 300);
    assert_eq!(ring_size(Some("abc")), 300);
    assert_eq!(ring_size(Some("99999999999999999999999")), 300);
}

#[test]
fn daemon_limits_have_their_defaults() {
    assert_eq!(max_watched_pids(None), 256);
    assert_eq!(max_watched_pids(Some("10000")), 10_000);
    assert_eq!(max_watched_pids(Some("10001")), 256);
    assert_eq!(max_connections(None), 20);
    assert_eq!(max_connections(Some("5")), 5);
    assert_eq!(min_request_interval_ms(None), 50);
    assert_eq!(min_request_interval_ms(Some("0")), 0);
    assert_eq!(min_request_interval_ms(Some("60001")), 50);
    assert_eq!(sample_interval_secs(None), 1);
    assert_eq!(sample_interval_secs(Some("5")), 5);
    assert_eq!(sample_interval_secs(Some("-5")), 1);
}

#[test]
fn ring_keeps_only_the_newest_samples() {
    let mut h: History<u32> = History::new();
    for s in 1..=5u32 {
        h.push_sample(7, s, 3);
    }
    assert_eq!(h.samples(7).unwrap(), &vec![3, 4, 5]);
    assert!(h.samples(8).is_none());
    h.remove_pid(7);
    assert!(!h.contains(7));
}

#[test]
fn loaded_history_keeps_last_cap_lines() {
    let mut h: History<u32> = History::new();
    h.push_sample(1, 99, 10);
    h.load_samples(1, vec![1, 2, 3, 4], 2);
    assert_eq!(h.samples(1).unwrap(), &vec![3, 4]);
    h.load_samples(2, vec![], 2);
    assert!(h.contains(2));
    assert!(h.samples(2).unwrap().is_empty());
}

#[test]
fn watch_list_refuses_past_the_limit() {
    let mut w: Vec<i32> = vec![1, 2];
    assert!(watch(&mut w, 2, 2).is_ok());
    assert_eq!(w, vec![1, 2]);
    let err = watch(&mut w, 3, 2).unwrap_err();
    assert_eq!(
        err,
        "too many watched PIDs (limit 2) — adjust PEEKD_MAX_WATCHED_PIDS if needed"
    );
    assert_eq!(w, vec![1, 2]);
    assert!(watch(&mut w, 3, 3).is_ok());
    assert_eq!(w, vec![1, 2, 3]);
}

#[test]
fn unwatch_removes_only_that_pid() {
    let mut w: Vec<i32> = vec![4, 5, 4, 6];
    unwatch(&mut w, 4);
    assert_eq!(w, vec![5, 6]);
    unwatch(&mut w, 9);
    assert_eq!(w, vec![5, 6]);
    let mut big = vec![1, 2, 3, 4];
    cap_watched(&mut big, 2);
    assert_eq!(big, vec![1, 2]);
}

fn failed_text(r: Reply) -> String {
    match r {
        Reply::Failed(m) => m,
        other => panic!("expected a failure, got {:?}", matches!(other, Reply::Alert)),
    }
}

#[test]
fn dispatch_watch_list_unwatch() {
    let mut d: Daemon<u64> = Daemon::new(vec![]);
    assert!(matches!(d.dispatch(Request::Watch(Some(42)), 256), Reply::Watching(42)));
    assert!(matches!(d.dispatch(Request::List, 256), Reply::WatchList(ref v) if v == &vec![42]));
    d.record(42, 7, 300);
    assert!(matches!(d.dispatch(Request::History(Some(42)), 256), Reply::Samples(42)));
    assert!(matches!(d.dispatch(Request::Unwatch(Some(42)), 256), Reply::Unwatched(42)));
    assert!(d.watched.is_empty());
    assert!(!d.history.contains(42));
    assert!(matches!(d.dispatch(Request::Ping, 256), Reply::Pong(0)));
}

#[test]
fn dispatch_reports_missing_fields_and_unknown_actions() {
    let mut d: Daemon<u64> = Daemon::new(vec![1]);
    assert_eq!(failed_text(d.dispatch(Request::Watch(None), 256)), "'watch' requires pid");
    assert_eq!(failed_text(d.dispatch(Request::Unwatch(None), 256)), "'unwatch' requires pid");
    assert_eq!(failed_text(d.dispatch(Request::History(None), 256)), "'history' requires pid");
    assert_eq!(
        failed_text(d.dispatch(Request::AlertRemove(None), 256)),
        "'alert_remove' requires rule_id"
    );
    assert_eq!(
        failed_text(d.dispatch(Request::Unknown("dance".to_string()), 256)),
        "unknown action 'dance'"
    );
    assert_eq!(
        failed_text(d.dispatch(Request::Watch(Some(2)), 1)),
        "too many watched PIDs (limit 1) — adjust PEEKD_MAX_WATCHED_PIDS if needed"
    );
    assert!(matches!(d.dispatch(Request::AlertList, 256), Reply::Alert));
}

#[test]
fn alert_add_watches_the_rule_pid() {
    let mut d: Daemon<u64> = Daemon::new(vec![1]);
    assert!(matches!(d.dispatch(Request::AlertAdd(Some(7)), 256), Reply::Alert));
    assert_eq!(d.watched, vec![1, 7]);
    assert!(matches!(d.dispatch(Request::AlertAdd(Some(7)), 256), Reply::Alert));
    assert_eq!(d.watched, vec![1, 7]);
    assert!(matches!(d.dispatch(Request::AlertAdd(None), 256), Reply::Alert));
    assert!(matches!(d.dispatch(Request::AlertAdd(Some(-3)), 256), Reply::Alert));
    assert_eq!(d.watched, vec![1, 7]);
    assert_eq!(
        failed_text(d.dispatch(Request::AlertAdd(Some(9)), 2)),
        "too many watched PIDs (limit 2) — adjust PEEKD_MAX_WATCHED_PIDS if needed"
    );
    assert_eq!(d.watched, vec![1, 7]);
}

#[test]
fn history_request_loads_then_answers() {
    let mut d: Daemon<u64> = Daemon::new(vec![]);
    assert!(matches!(d.dispatch(Request::History(Some(9)), 256), Reply::LoadHistory(9)));
    assert_eq!(
        failed_text(d.history_reply(9)),
        "no history for pid 9 — add it with 'watch' first"
    );
    d.history.load_samples(9, vec![1, 2], 300);
    assert!(matches!(d.history_reply(9), Reply::Samples(9)));
}

#[test]
fn watch_pid_truncates_like_a_cast() {
    let mut d: Daemon<u64> = Daemon::new(vec![]);
    // 2^32 + 5 as i32 is 5.
    assert!(matches!(d.dispatch(Request::Watch(Some(4_294_967_301)), 256), Reply::Watching(5)));
    assert!(d.watch_for_rule(None, 256).is_ok());
    assert!(d.watch_for_rule(Some(-3), 256).is_ok());
    assert_eq!(d.watched, vec![5]);
    assert!(d.watch_for_rule(Some(8), 256).is_ok());
    assert_eq!(d.watched, vec![5, 8]);
}

#[test]
fn request_names_map_to_variants() {
    assert!(matches!(request_of("watch", Some(3), None), Request::Watch(Some(3))));
    assert!(matches!(request_of("unwatch", None, None), Request::Unwatch(None)));
    assert!(matches!(request_of("list", None, None), Request::List));
    assert!(matches!(request_of("history", Some(1), None), Request::History(Some(1))));
    assert!(matches!(request_of("alert_add", Some(1), None), Request::AlertAdd(Some(1))));
    assert!(matches!(request_of("alert_list", None, None), Request::AlertList));
    assert!(matches!(
        request_of("alert_remove", None, Some("rule-1".to_string())),
        Request::AlertRemove(Some(ref s)) if s == "rule-1"
    ));
    assert!(matches!(request_of("ping", None, None), Request::Ping));
    assert!(matches!(request_of("", None, None), Request::Unknown(ref s) if s.is_empty()));
}

#[test]
fn history_paths_follow_the_environment() {
    assert_eq!(history_root(Some("/state"), Some("/home/u")), "/state/peekd");
    assert_eq!(history_root(Some("/state/"), None), "/state/peekd");
    assert_eq!(history_root(None, Some("/home/u")), "/home/u/.local/state/peekd");
    assert_eq!(history_root(None, None), "/var/lib/peekd");
    assert_eq!(history_root(Some(""), None), "peekd");
    assert_eq!(history_path("/var/lib/peekd", 1234), "/var/lib/peekd/1234.jsonl");
    assert_eq!(join("a", "b"), "a/b");
}

#[test]
fn history_file_lines_skip_blanks() {
    let raw = "{\"a\":1}\n\n   \n{\"a\":2}\r\n";
    assert_eq!(history_lines(raw), vec!["{\"a\":1}".to_string(), "{\"a\":2}".to_string()]);
    assert!(history_lines("").is_empty());
}

#[test]
fn pid_file_contents_are_read() {
    assert_eq!(recorded_pid(" 1234\n"), Some(1234));
    assert_eq!(recorded_pid("abc"), None);
    assert_eq!(recorded_pid("-1"), None);
    assert_eq!(recorded_pid("4294967296"), None);
    assert_eq!(already_running_message(77), "peekd already running with pid 77");
}
