use vstd::prelude::*;
use crate::peekd::ring_store::History;
use crate::peekd::watch::{too_many_text, unwatch, watch, watch_refused, watched_after, without};
use crate::text::{signed_dec, signed_string, push_str, str_eq, string_from};

verus! {

/// A client request, as named by its `action` field.
pub enum Request {
    Watch(Option<i64>),
    Unwatch(Option<i64>),
    List,
    History(Option<i64>),
    AlertAdd(Option<i64>),
    AlertList,
    AlertRemove(Option<String>),
    Ping,
    Unknown(String),
}

/// What the daemon answers, before it is written as JSON.
pub enum Reply {
    /// `{"ok": false, "message": ..}`
    Failed(String),
    /// `{"ok": true, "data": {"watching": pid}}`
    Watching(i32),
    /// `{"ok": true, "data": {"unwatched": pid}}`
    Unwatched(i32),
    /// `{"ok": true, "data": {"watching": [..]}}`
    WatchList(Vec<i32>),
    /// The stored samples of the PID, as the `data` array.
    Samples(i32),
    /// No samples are in memory: the caller loads the PID's history file and
    /// then asks [`Daemon::history_reply`].
    LoadHistory(i32),
    /// `{"pong": true, "watching": n}`
    Pong(usize),
    /// An alert-rule request, answered by the alert engine (for an added
    /// rule, after its PID is watched).
    Alert,
}

/// Names each action the daemon knows.
pub fn request_of(action: &str, pid: Option<i64>, rule_id: Option<String>) -> (r: Request)
    ensures
        action@ == "watch"@ ==> r == Request::Watch(pid),
        action@ == "unwatch"@ ==> r == Request::Unwatch(pid),
        action@ == "list"@ ==> r == Request::List,
        action@ == "history"@ ==> r == Request::History(pid),
        action@ == "alert_add"@ ==> r == Request::AlertAdd(pid),
        action@ == "alert_list"@ ==> r == Request::AlertList,
        action@ == "alert_remove"@ ==> r == Request::AlertRemove(rule_id),
        action@ == "ping"@ ==> r == Request::Ping,
        (action@ != "watch"@ && action@ != "unwatch"@ && action@ != "list"@ && action@ != "history"@
            && action@ != "alert_add"@ && action@ != "alert_list"@ && action@ != "alert_remove"@
            && action@ != "ping"@) ==> (r matches Request::Unknown(a) && a@ == action@),
{
    proof {
        reveal_strlit("watch");
        assert("watch"@.len() == 5 && "watch"@[0] == 'w');
        reveal_strlit("unwatch");
        assert("unwatch"@.len() == 7 && "unwatch"@[0] == 'u');
        reveal_strlit("list");
        assert("list"@.len() == 4 && "list"@[0] == 'l');
        reveal_strlit("history");
        assert("history"@.len() == 7 && "history"@[0] == 'h');
        reveal_strlit("alert_add");
        assert("alert_add"@.len() == 9 && "alert_add"@[0] == 'a');
        reveal_strlit("alert_list");
        assert("alert_list"@.len() == 10 && "alert_list"@[0] == 'a');
        reveal_strlit("alert_remove");
        assert("alert_remove"@.len() == 12 && "alert_remove"@[0] == 'a');
        reveal_strlit("ping");
        assert("ping"@.len() == 4 && "ping"@[0] == 'p');
    }
    if str_eq(action, "watch") {
        Request::Watch(pid)
    } else if str_eq(action, "unwatch") {
        Request::Unwatch(pid)
    } else if str_eq(action, "list") {
        Request::List
    } else if str_eq(action, "history") {
        Request::History(pid)
    } else if str_eq(action, "alert_add") {
        Request::AlertAdd(pid)
    } else if str_eq(action, "alert_list") {
        Request::AlertList
    } else if str_eq(action, "alert_remove") {
        Request::AlertRemove(rule_id)
    } else if str_eq(action, "ping") {
        Request::Ping
    } else {
        Request::Unknown(string_from(action))
    }
}

pub open spec fn failed_with(r: Reply, text: Seq<char>) -> bool {
    r matches Reply::Failed(m) && m@ == text
}

pub open spec fn no_history_text(pid: i32) -> Seq<char> {
    "no history for pid "@ + signed_dec(pid as int) + " — add it with 'watch' first"@
}

/// The PID an alert rule names: the request's `pid` (absent taken as 0)
/// cut to 32 bits.
pub open spec fn rule_pid(pid: Option<i64>) -> i32 {
    (match pid {
        Some(v) => v,
        None => 0,
    }) as i32
}

/// The daemon's state: the watched PIDs, in the order they were added, and
/// their sample rings.
pub struct Daemon<S> {
    pub watched: Vec<i32>,
    pub history: History<S>,
}

/// How one request changes the watch list `w` and rings `h` into `w2`, `h2`
/// and what it answers; `max` is the watch-list limit.
pub open spec fn dispatched<S>(
    w: Seq<i32>,
    h: Map<i32, Seq<S>>,
    req: Request,
    max: nat,
    w2: Seq<i32>,
    h2: Map<i32, Seq<S>>,
    r: Reply,
) -> bool {
    match req {
        Request::Watch(None) => failed_with(r, "'watch' requires pid"@) && w2 == w && h2 == h,
        Request::Watch(Some(p)) => {
            let pid = p as i32;
            &&& w2 == watched_after(w, pid, max)
            &&& h2 == h
            &&& if watch_refused(w, pid, max) {
                failed_with(r, too_many_text(max))
            } else {
                r == Reply::Watching(pid)
            }
        },
        Request::Unwatch(None) => failed_with(r, "'unwatch' requires pid"@) && w2 == w && h2 == h,
        Request::Unwatch(Some(p)) => {
            let pid = p as i32;
            w2 == without(w, pid) && h2 == h.remove(pid) && r == Reply::Unwatched(pid)
        },
        Request::List => w2 == w && h2 == h && (r matches Reply::WatchList(v) && v@ == w),
        Request::History(None) => failed_with(r, "'history' requires pid"@) && w2 == w && h2 == h,
        Request::History(Some(p)) => {
            let pid = p as i32;
            &&& w2 == w
            &&& h2 == h
            &&& if h.dom().contains(pid) {
                r == Reply::Samples(pid)
            } else {
                r == Reply::LoadHistory(pid)
            }
        },
        Request::AlertRemove(None) => failed_with(r, "'alert_remove' requires rule_id"@) && w2 == w
            && h2 == h,
        Request::AlertAdd(pid) => {
            let p = rule_pid(pid);
            &&& h2 == h
            &&& if p > 0 {
                &&& w2 == watched_after(w, p, max)
                &&& if watch_refused(w, p, max) {
                    failed_with(r, too_many_text(max))
                } else {
                    r == Reply::Alert
                }
            } else {
                w2 == w && r == Reply::Alert
            }
        },
        Request::AlertList | Request::AlertRemove(Some(_)) => w2 == w && h2 == h && r
            == Reply::Alert,
        Request::Ping => w2 == w && h2 == h && r == Reply::Pong(w.len() as usize),
        Request::Unknown(a) => failed_with(r, "unknown action '"@ + a@ + "'"@) && w2 == w && h2 == h,
    }
}

fn failed(text: &str) -> (r: Reply)
    ensures
        failed_with(r, text@),
{
    Reply::Failed(string_from(text))
}

impl<S> Daemon<S> {
    /// A daemon watching `watched`, with no samples yet.
    pub fn new(watched: Vec<i32>) -> (d: Self)
        ensures
            d.watched@ == watched@,
            d.history.view() == Map::<i32, Seq<S>>::empty(),
    {
        Daemon { watched, history: History::new() }
    }

    /// Answers one request; `max` is the watch-list limit.
    pub fn dispatch(&mut self, req: Request, max: usize) -> (r: Reply)
        ensures
            dispatched(
                old(self).watched@,
                old(self).history.view(),
                req,
                max as nat,
                final(self).watched@,
                final(self).history.view(),
                r,
            ),
    {
        match req {
            Request::Watch(None) => failed("'watch' requires pid"),
            Request::Watch(Some(p)) => {
                #[verifier::truncate]
                let pid = p as i32;
                match watch(&mut self.watched, pid, max) {
                    Ok(()) => Reply::Watching(pid),
                    Err(msg) => Reply::Failed(msg),
                }
            },
            Request::Unwatch(None) => failed("'unwatch' requires pid"),
            Request::Unwatch(Some(p)) => {
                #[verifier::truncate]
                let pid = p as i32;
                self.forget(pid);
                Reply::Unwatched(pid)
            },
            Request::List => Reply::WatchList(self.watched.clone()),
            Request::History(None) => failed("'history' requires pid"),
            Request::History(Some(p)) => {
                #[verifier::truncate]
                let pid = p as i32;
                if self.history.contains(pid) {
                    Reply::Samples(pid)
                } else {
                    Reply::LoadHistory(pid)
                }
            },
            Request::AlertRemove(None) => failed("'alert_remove' requires rule_id"),
            Request::AlertAdd(pid) => match self.watch_for_rule(pid, max) {
                Ok(()) => Reply::Alert,
                Err(msg) => Reply::Failed(msg),
            },
            Request::AlertList | Request::AlertRemove(Some(_)) => Reply::Alert,
            Request::Ping => Reply::Pong(self.watched.len()),
            Request::Unknown(a) => {
                let mut m = string_from("unknown action '");
                push_str(&mut m, a.as_str());
                push_str(&mut m, "'");
                Reply::Failed(m)
            },
        }
    }

    /// The answer to a history request once the PID's history file has been
    /// loaded, if there was one.
    pub fn history_reply(&self, pid: i32) -> (r: Reply)
        ensures
            if self.history.view().dom().contains(pid) {
                r == Reply::Samples(pid)
            } else {
                failed_with(r, no_history_text(pid))
            },
    {
        if self.history.contains(pid) {
            Reply::Samples(pid)
        } else {
            let mut m = string_from("no history for pid ");
            let n = signed_string(pid as i64);
            push_str(&mut m, n.as_str());
            push_str(&mut m, " — add it with 'watch' first");
            assert(m@ =~= no_history_text(pid));
            Reply::Failed(m)
        }
    }

    /// Stops watching `pid` and drops its samples: on an unwatch request and
    /// when the sampler finds the process gone.
    pub fn forget(&mut self, pid: i32)
        ensures
            final(self).watched@ == without(old(self).watched@, pid),
            final(self).history.view() == old(self).history.view().remove(pid),
    {
        unwatch(&mut self.watched, pid);
        self.history.remove_pid(pid);
    }

    /// Stores a fresh sample of a watched PID in a ring of `cap`.
    pub fn record(&mut self, pid: i32, sample: S, cap: usize)
        ensures
            final(self).watched@ == old(self).watched@,
            final(self).history.view() == old(self).history.view().insert(
                pid,
                crate::peekd::ring_store::pushed(old(self).history.ring(pid), sample, cap as nat),
            ),
    {
        self.history.push_sample(pid, sample, cap);
    }

    /// After an alert rule is added, watches the rule's PID when it is
    /// positive (`pid` is the request's `pid`, absent taken as 0).
    pub fn watch_for_rule(&mut self, pid: Option<i64>, max: usize) -> (r: Result<(), String>)
        ensures
            final(self).history.view() == old(self).history.view(),
            ({
                let p = rule_pid(pid);
                if p > 0 {
                    &&& final(self).watched@ == watched_after(old(self).watched@, p, max as nat)
                    &&& match r {
                        Ok(()) => !watch_refused(old(self).watched@, p, max as nat),
                        Err(m) => watch_refused(old(self).watched@, p, max as nat) && m@
                            == too_many_text(max as nat),
                    }
                } else {
                    final(self).watched@ == old(self).watched@ && r is Ok
                }
            }),
    {
        let raw: i64 = match pid {
            Some(v) => v,
            None => 0,
        };
        #[verifier::truncate]
        let p = raw as i32;
        if p > 0 {
            watch(&mut self.watched, p, max)
        } else {
            Ok(())
        }
    }
}

} // verus!
