use vstd::prelude::*;
use crate::text::{dec, dec_string, push_str};

verus! {

/// The refusal sent when the watch list is full.
pub open spec fn too_many_text(max: nat) -> Seq<char> {
    "too many watched PIDs (limit "@ + dec(max) + ") — adjust PEEKD_MAX_WATCHED_PIDS if needed"@
}

/// Whether watching `pid` is refused: it is not watched yet and the list
/// already holds `max` PIDs.
pub open spec fn watch_refused(w: Seq<i32>, pid: i32, max: nat) -> bool {
    !w.contains(pid) && w.len() >= max
}

/// The watch list after a request to watch `pid`: unchanged when the PID is
/// already there or the request is refused, else `pid` is appended.
pub open spec fn watched_after(w: Seq<i32>, pid: i32, max: nat) -> Seq<i32> {
    if w.contains(pid) || w.len() >= max {
        w
    } else {
        w.push(pid)
    }
}

/// The watch list without `pid`, the others in their order.
pub open spec fn without(w: Seq<i32>, pid: i32) -> Seq<i32>
    decreases w.len(),
{
    if w.len() == 0 {
        w
    } else if w.last() == pid {
        without(w.drop_last(), pid)
    } else {
        without(w.drop_last(), pid).push(w.last())
    }
}

/// `too_many_text` as a `String`.
pub fn too_many_message(max: usize) -> (s: String)
    ensures
        s@ == too_many_text(max as nat),
{
    let mut s = String::new();
    push_str(&mut s, "too many watched PIDs (limit ");
    let n = dec_string(max as u64);
    push_str(&mut s, n.as_str());
    push_str(&mut s, ") — adjust PEEKD_MAX_WATCHED_PIDS if needed");
    proof {
        reveal_strlit("too many watched PIDs (limit ");
        reveal_strlit(") — adjust PEEKD_MAX_WATCHED_PIDS if needed");
    }
    assert(s@ =~= too_many_text(max as nat));
    s
}

/// Whether `pid` is in the list.
pub fn is_watched(w: &Vec<i32>, pid: i32) -> (r: bool)
    ensures
        r == w@.contains(pid),
{
    let mut i: usize = 0;
    while i < w.len()
        invariant
            i <= w.len(),
            forall|k: int| 0 <= k < i ==> w@[k] != pid,
        decreases w.len() - i,
    {
        if w[i] == pid {
            assert(w@[i as int] == pid);
            return true;
        }
        i = i + 1;
    }
    false
}

/// Adds `pid` to the watch list unless it is there already; refuses, leaving
/// the list as it was, when the list holds `max` PIDs.
pub fn watch(w: &mut Vec<i32>, pid: i32, max: usize) -> (r: Result<(), String>)
    ensures
        final(w)@ == watched_after(old(w)@, pid, max as nat),
        match r {
            Ok(()) => !watch_refused(old(w)@, pid, max as nat),
            Err(msg) => watch_refused(old(w)@, pid, max as nat) && msg@ == too_many_text(max as nat),
        },
{
    if is_watched(w, pid) {
        return Ok(());
    }
    if w.len() >= max {
        return Err(too_many_message(max));
    }
    w.push(pid);
    Ok(())
}

/// Removes every occurrence of `pid` from the watch list.
pub fn unwatch(w: &mut Vec<i32>, pid: i32)
    ensures
        final(w)@ == without(old(w)@, pid),
{
    let ghost all = w@;
    let mut kept: Vec<i32> = Vec::new();
    let mut i: usize = 0;
    while i < w.len()
        invariant
            w@ == all,
            i <= w.len(),
            kept@ == without(all.take(i as int), pid),
        decreases w.len() - i,
    {
        assert(all.take(i as int + 1).drop_last() =~= all.take(i as int));
        let p = w[i];
        if p != pid {
            kept.push(p);
        }
        i = i + 1;
    }
    assert(all.take(all.len() as int) =~= all);
    *w = kept;
}

/// Keeps the first `max` PIDs of a list read at start-up.
pub fn cap_watched(w: &mut Vec<i32>, max: usize)
    ensures
        final(w)@ == (if old(w)@.len() > max { old(w)@.take(max as int) } else { old(w)@ }),
{
    if w.len() > max {
        w.truncate(max);
    }
}

// ─── Laws ────────────────────────────────────────────────────────────────────

/// What `without` keeps: exactly the PIDs other than `pid`.
pub proof fn lemma_without_contains(w: Seq<i32>, pid: i32, q: i32)
    ensures
        without(w, pid).contains(q) <==> (w.contains(q) && q != pid),
        without(w, pid).len() <= w.len(),
    decreases w.len(),
{
    if w.len() > 0 {
        let d = w.drop_last();
        lemma_without_contains(d, pid, q);
        let rest = without(d, pid);
        let out = without(w, pid);
        if w.contains(q) && q != pid {
            let k = choose|k: int| 0 <= k < w.len() && w[k] == q;
            if k < w.len() - 1 {
                assert(d[k] == q);
                assert(d.contains(q));
                assert(rest.contains(q));
                let j = choose|j: int| 0 <= j < rest.len() && rest[j] == q;
                assert(out[j] == q);
            } else {
                assert(out[out.len() - 1] == q);
            }
            assert(out.contains(q));
        }
        if out.contains(q) {
            let k = choose|k: int| 0 <= k < out.len() && out[k] == q;
            if w.last() == pid || k < rest.len() {
                assert(rest[k] == q);
                assert(rest.contains(q));
                let j = choose|j: int| 0 <= j < d.len() && d[j] == q;
                assert(w[j] == q);
            } else {
                assert(w[w.len() - 1] == q);
            }
            assert(w.contains(q));
        }
    }
}

/// `without` keeps a list free of repeats.
pub proof fn lemma_without_no_duplicates(w: Seq<i32>, pid: i32)
    requires
        w.no_duplicates(),
    ensures
        without(w, pid).no_duplicates(),
    decreases w.len(),
{
    if w.len() > 0 {
        let d = w.drop_last();
        assert(d.no_duplicates()) by {
            assert forall|i: int, j: int| 0 <= i < d.len() && 0 <= j < d.len() && i != j implies d[i] != d[j] by {
                assert(d[i] == w[i] && d[j] == w[j]);
            }
        }
        lemma_without_no_duplicates(d, pid);
        let rest = without(d, pid);
        if w.last() != pid {
            lemma_without_contains(d, pid, w.last());
            assert(!d.contains(w.last())) by {
                if d.contains(w.last()) {
                    let k = choose|k: int| 0 <= k < d.len() && d[k] == w.last();
                    assert(w[k] == w[w.len() - 1]);
                }
            }
            let out = rest.push(w.last());
            assert forall|i: int, j: int| 0 <= i < out.len() && 0 <= j < out.len() && i != j implies out[i] != out[j] by {
                if i == rest.len() {
                    assert(rest.contains(out[j]));
                } else if j == rest.len() {
                    assert(rest.contains(out[i]));
                }
            }
        }
    }
}

/// The watch list never repeats a PID and never grows past `max`: every
/// watch and unwatch request keeps both.
pub proof fn lemma_watch_list_invariant(w: Seq<i32>, pid: i32, max: nat)
    requires
        w.no_duplicates(),
        w.len() <= max,
    ensures
        watched_after(w, pid, max).no_duplicates(),
        watched_after(w, pid, max).len() <= max,
        without(w, pid).no_duplicates(),
        without(w, pid).len() <= max,
{
    lemma_without_no_duplicates(w, pid);
    lemma_without_contains(w, pid, pid);
    let a = watched_after(w, pid, max);
    if !(w.contains(pid) || w.len() >= max) {
        assert forall|i: int, j: int| 0 <= i < a.len() && 0 <= j < a.len() && i != j implies a[i] != a[j] by {
            if i == w.len() {
                assert(w[j] == a[j]);
            } else if j == w.len() {
                assert(w[i] == a[i]);
            }
        }
    }
}

/// A request to watch `pid` that is not refused leaves it watched, and an
/// unwatch request leaves it unwatched while every other PID stays.
pub proof fn lemma_watch_then_unwatch(w: Seq<i32>, pid: i32, max: nat, q: i32)
    ensures
        !watch_refused(w, pid, max) ==> watched_after(w, pid, max).contains(pid),
        !without(w, pid).contains(pid),
        q != pid ==> (without(w, pid).contains(q) <==> w.contains(q)),
{
    lemma_without_contains(w, pid, pid);
    lemma_without_contains(w, pid, q);
    if !watch_refused(w, pid, max) && !w.contains(pid) {
        assert(w.push(pid)[w.len() as int] == pid);
    }
}

} // verus!
