use vstd::prelude::*;
use crate::text::{
    chars_of, lemma_char_vec_dv, lemma_push_dv, lemma_split_on_nonempty, parse_i32, parse_i32_spec,
    push_signed, signed_dec, split_chars, split_on, string_of, lemma_signed_dec_round_trip,
    lemma_split_on_append,
};

verus! {

/// The kinds of I/O failure that the library tells apart.
#[derive(Debug, Clone, Copy, PartialEq, Eq, Structural)]
pub enum IoErrorKind {
    NotFound,
    PermissionDenied,
    Other,
}

/// An I/O failure as plain values: its kind and its message.
#[derive(Debug, Clone)]
pub struct IoFailure {
    pub kind: IoErrorKind,
    pub message: String,
}

/// Typed errors so consumers can match on failure modes.
#[derive(Debug, Clone)]
pub enum ProcReaderError {
    NotFound(i32),
    Io { path: String, source: IoFailure },
    Parse { path: String, msg: String },
}

/// The components of a Unix path as `Path::components` yields them, each as
/// its text: `/` for the root, `.` for a leading current directory, `..`,
/// and the normal names; empty and `.` segments elsewhere are dropped.
pub open spec fn path_components(p: Seq<char>) -> Seq<Seq<char>> {
    let segs = split_on(p, '/');
    if p.len() > 0 && p[0] == '/' {
        seq![seq!['/']] + kept_segments(segs.drop_first())
    } else if segs[0] == seq!['.'] {
        seq![seq!['.']] + kept_segments(segs.drop_first())
    } else {
        kept_segments(segs)
    }
}

/// The segments that name a component: neither empty nor `.`.
pub open spec fn kept_segments(segs: Seq<Seq<char>>) -> Seq<Seq<char>>
    decreases segs.len(),
{
    if segs.len() == 0 {
        seq![]
    } else {
        let prev = kept_segments(segs.drop_last());
        let x = segs.last();
        if x.len() > 0 && x != seq!['.'] {
            prev.push(x)
        } else {
            prev
        }
    }
}

/// PID named by a path `/proc/<pid>/...`: the third component, when the second is `proc`.
pub open spec fn pid_of_path(p: Seq<char>) -> Option<int> {
    let c = path_components(p);
    if c.len() >= 3 && c[1] == seq!['p', 'r', 'o', 'c'] {
        parse_i32_spec(c[2])
    } else {
        None
    }
}

fn kept_from(segs: &Vec<Vec<char>>, from: usize, out: &mut Vec<Vec<char>>)
    requires
        from <= segs.len(),
    ensures
        final(out).deep_view() == old(out).deep_view() + kept_segments(
            segs.deep_view().skip(from as int),
        ),
{
    let ghost o0 = out.deep_view();
    let ghost sd = segs.deep_view().skip(from as int);
    let mut i = from;
    assert(sd.take(0) =~= Seq::<Seq<char>>::empty());
    assert(out.deep_view() =~= o0 + kept_segments(sd.take(0)));
    while i < segs.len()
        invariant
            from <= i <= segs.len(),
            sd == segs.deep_view().skip(from as int),
            out.deep_view() == o0 + kept_segments(sd.take(i - from)),
        decreases segs.len() - i,
    {
        let ghost k = (i - from) as int;
        assert(sd.take(k + 1).drop_last() =~= sd.take(k));
        proof {
            lemma_char_vec_dv(segs@[i as int]);
        }
        assert(sd.take(k + 1).last() == segs@[i as int]@);
        let seg = segs[i].clone();
        assert(seg@ =~= segs@[i as int]@);
        let is_dot = seg.len() == 1 && seg[0] == '.';
        assert(is_dot == (seg@ == seq!['.'])) by {
            if seg@ == seq!['.'] {
                assert(seg@[0] == '.');
            }
            if is_dot {
                assert(seg@ =~= seq!['.']);
            }
        }
        if seg.len() > 0 && !is_dot {
            let ghost ob = *out;
            out.push(seg);
            proof {
                lemma_push_dv(ob, *out, seg);
            }
            assert(out.deep_view() =~= o0 + kept_segments(sd.take(k + 1)));
        }
        i = i + 1;
    }
    assert(sd.take(segs.len() - from) =~= sd);
}

/// `Path::components`, each component as its text.
pub fn path_components_of(p: &Vec<char>) -> (out: Vec<Vec<char>>)
    ensures
        out.deep_view() == path_components(p@),
{
    let segs = split_chars(p, '/');
    proof {
        lemma_split_on_nonempty(p@, '/');
    }
    let mut out: Vec<Vec<char>> = Vec::new();
    let ghost sd = segs.deep_view();
    assert(sd.skip(1) =~= sd.drop_first());
    assert(sd.skip(0) =~= sd);
    if p.len() > 0 && p[0] == '/' {
        let mut root: Vec<char> = Vec::new();
        root.push('/');
        let ghost ob = out;
        out.push(root);
        proof {
            lemma_push_dv(ob, out, root);
        }
        assert(root@ =~= seq!['/']);
        assert(out.deep_view() =~= seq![seq!['/']]);
        kept_from(&segs, 1, &mut out);
    } else {
        proof {
            lemma_char_vec_dv(segs@[0]);
        }
        let first_dot = segs[0].len() == 1 && segs[0][0] == '.';
        assert(first_dot == (sd[0] == seq!['.'])) by {
            if sd[0] == seq!['.'] {
                assert(sd[0][0] == '.');
            }
            if first_dot {
                assert(sd[0] =~= seq!['.']);
            }
        }
        if first_dot {
            let mut cur: Vec<char> = Vec::new();
            cur.push('.');
            let ghost ob = out;
            out.push(cur);
            proof {
                lemma_push_dv(ob, out, cur);
            }
            assert(cur@ =~= seq!['.']);
            assert(out.deep_view() =~= seq![seq!['.']]);
            kept_from(&segs, 1, &mut out);
        } else {
            assert(out.deep_view() =~= Seq::<Seq<char>>::empty());
            kept_from(&segs, 0, &mut out);
            assert(out.deep_view() =~= kept_segments(sd));
        }
    }
    out
}

/// Extract the PID from a path like `/proc/123/limits`. `None` if it is not `/proc/<pid>/...`.
pub fn pid_from_proc_path(path: &str) -> (r: Option<i32>)
    ensures
        match r {
            Some(v) => pid_of_path(path@) == Some(v as int),
            None => pid_of_path(path@).is_none(),
        },
{
    let pv = chars_of(path);
    let comps = path_components_of(&pv);
    let ghost cd = comps.deep_view();
    if comps.len() < 3 {
        return None;
    }
    proof {
        lemma_char_vec_dv(comps@[1]);
        lemma_char_vec_dv(comps@[2]);
    }
    let is_proc = comps[1].len() == 4 && comps[1][0] == 'p' && comps[1][1] == 'r' && comps[1][2]
        == 'o' && comps[1][3] == 'c';
    assert(is_proc == (cd[1] == seq!['p', 'r', 'o', 'c'])) by {
        if is_proc {
            assert(cd[1] =~= seq!['p', 'r', 'o', 'c']);
        }
    }
    if !is_proc {
        return None;
    }
    parse_i32(&comps[2])
}

impl ProcReaderError {
    /// PID involved in the error, if known (from `NotFound` or from a path like `/proc/123/...`).
    pub fn pid(&self) -> (r: Option<i32>)
        ensures
            match self {
                ProcReaderError::NotFound(p) => r == Some(*p),
                ProcReaderError::Io { path, .. } => match r {
                    Some(v) => pid_of_path(path@) == Some(v as int),
                    None => pid_of_path(path@).is_none(),
                },
                ProcReaderError::Parse { path, .. } => match r {
                    Some(v) => pid_of_path(path@) == Some(v as int),
                    None => pid_of_path(path@).is_none(),
                },
            },
    {
        match self {
            ProcReaderError::NotFound(pid) => Some(*pid),
            ProcReaderError::Io { path, .. } => pid_from_proc_path(path.as_str()),
            ProcReaderError::Parse { path, .. } => pid_from_proc_path(path.as_str()),
        }
    }
}

/// Map an I/O failure to a `ProcReaderError`: a missing file means the process is gone.
pub fn io_to_error(path: String, e: IoFailure, pid: i32) -> (r: ProcReaderError)
    ensures
        e.kind == IoErrorKind::NotFound ==> r == ProcReaderError::NotFound(pid),
        e.kind != IoErrorKind::NotFound ==> r == (ProcReaderError::Io { path, source: e }),
{
    if e.kind == IoErrorKind::NotFound {
        ProcReaderError::NotFound(pid)
    } else {
        ProcReaderError::Io { path, source: e }
    }
}

/// The text `/proc/<pid>/<leaf>`.
pub open spec fn proc_file(pid: int, leaf: Seq<char>) -> Seq<char> {
    seq!['/', 'p', 'r', 'o', 'c', '/'] + signed_dec(pid) + seq!['/'] + leaf
}

/// Builds `/proc/<pid>/<leaf>`.
pub fn proc_file_path(pid: i32, leaf: &str) -> (s: String)
    ensures
        s@ == proc_file(pid as int, leaf@),
{
    let mut v: Vec<char> = vec!['/', 'p', 'r', 'o', 'c', '/'];
    push_signed(&mut v, pid as i64);
    v.push('/');
    let lv = chars_of(leaf);
    let ghost v0 = v@;
    let mut i: usize = 0;
    while i < lv.len()
        invariant
            i <= lv.len(),
            v@ == v0 + lv@.take(i as int),
        decreases lv.len() - i,
    {
        v.push(lv[i]);
        i = i + 1;
        assert(v@ =~= v0 + lv@.take(i as int));
    }
    assert(lv@.take(lv.len() as int) =~= lv@);
    assert(v@ =~= proc_file(pid as int, leaf@));
    string_of(&v)
}


proof fn lemma_kept_segments_all(segs: Seq<Seq<char>>)
    requires
        forall|i: int| 0 <= i < segs.len() ==> (#[trigger] segs[i]).len() > 0 && segs[i] != seq!['.'],
    ensures
        kept_segments(segs) == segs,
    decreases segs.len(),
{
    if segs.len() > 0 {
        lemma_kept_segments_all(segs.drop_last());
        assert(segs.drop_last().push(segs.last()) =~= segs);
    }
}

/// The PID of a path `/proc/<pid>/<leaf>` is recovered from it (`leaf` a
/// single non-empty name other than `.`).
pub proof fn lemma_proc_file_pid(pid: i32, leaf: Seq<char>)
    requires
        leaf.len() > 0,
        leaf != seq!['.'],
        forall|i: int| 0 <= i < leaf.len() ==> #[trigger] leaf[i] != '/',
    ensures
        pid_of_path(proc_file(pid as int, leaf)) == Some(pid as int),
{
    let d = signed_dec(pid as int);
    lemma_signed_dec_round_trip(pid);
    let p = proc_file(pid as int, leaf);
    let proc_ = seq!['p', 'r', 'o', 'c'];
    assert(p =~= Seq::<char>::empty() + seq!['/'] + proc_ + seq!['/'] + d + seq!['/'] + leaf);
    assert(split_on(Seq::<char>::empty(), '/') == seq![Seq::<char>::empty()]);
    lemma_split_on_append(Seq::<char>::empty(), '/', proc_);
    assert(Seq::<char>::empty() + seq!['/'] + proc_ =~= seq!['/'] + proc_);
    lemma_split_on_append(seq!['/'] + proc_, '/', d);
    lemma_split_on_append(seq!['/'] + proc_ + seq!['/'] + d, '/', leaf);
    assert(seq!['/'] + proc_ + seq!['/'] + d + seq!['/'] + leaf =~= p);
    let segs = split_on(p, '/');
    assert(segs =~= seq![Seq::<char>::empty(), proc_, d, leaf]);
    assert(p[0] == '/');
    assert(segs.drop_first() =~= seq![proc_, d, leaf]);
    lemma_kept_segments_all(seq![proc_, d, leaf]);
    let c = path_components(p);
    assert(c =~= seq![seq!['/'], proc_, d, leaf]);
}

} // verus!
