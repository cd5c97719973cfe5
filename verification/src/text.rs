use vstd::prelude::*;

verus! {

// ─── Character classes ───────────────────────────────────────────────────────

/// Unicode `White_Space` property, the class that `str::trim` and
/// `str::split_whitespace` split on.
pub open spec fn is_ws(c: char) -> bool {
    let u = c as u32;
    ||| 9 <= u <= 13
    ||| u == 32
    ||| u == 0x85
    ||| u == 0xA0
    ||| u == 0x1680
    ||| 0x2000 <= u <= 0x200A
    ||| u == 0x2028
    ||| u == 0x2029
    ||| u == 0x202F
    ||| u == 0x205F
    ||| u == 0x3000
}

pub fn char_is_ws(c: char) -> (b: bool)
    ensures
        b == is_ws(c),
{
    let u = c as u32;
    (9 <= u && u <= 13) || u == 32 || u == 0x85 || u == 0xA0 || u == 0x1680 || (0x2000 <= u
        && u <= 0x200A) || u == 0x2028 || u == 0x2029 || u == 0x202F || u == 0x205F || u
        == 0x3000
}

// ─── Conversions between str, String and Vec<char> ───────────────────────────

/// The characters of `s`, in order.
pub fn chars_of(s: &str) -> (out: Vec<char>)
    ensures
        out@ == s@,
{
    let mut out: Vec<char> = Vec::new();
    for c in it: s.chars()
        invariant
            out@ == it.seq().take(it.index() as int),
            it.seq() == s@,
    {
        out.push(c);
    }
    out
}

/// Trusted: calls `String::push`, which appends one character; the contract
/// claims the text afterwards is the text before followed by `c`.
#[verifier::external_body]
pub(crate) fn push_char(s: &mut String, c: char)
    ensures
        final(s)@ == old(s)@.push(c),
{
    s.push(c);
}

/// Appends `t` to `s`.
pub(crate) fn push_str(s: &mut String, t: &str)
    ensures
        final(s)@ == old(s)@ + t@,
{
    s.append(t);
}

/// A `String` holding the characters of `v` in order.
pub fn string_of(v: &Vec<char>) -> (s: String)
    ensures
        s@ == v@,
{
    let mut s = String::new();
    let mut i: usize = 0;
    while i < v.len()
        invariant
            i <= v.len(),
            s@ == v@.take(i as int),
        decreases v.len() - i,
    {
        push_char(&mut s, v[i]);
        i = i + 1;
        assert(s@ == v@.take(i as int));
    }
    assert(v@.take(v.len() as int) == v@);
    s
}

/// A `String` equal to `t`.
pub fn string_from(t: &str) -> (s: String)
    ensures
        s@ == t@,
{
    let mut s = String::new();
    push_str(&mut s, t);
    s
}

/// Appends the characters of `v` to `s`.
pub fn push_chars(s: &mut String, v: &Vec<char>)
    ensures
        final(s)@ == old(s)@ + v@,
{
    let ghost s0 = s@;
    let mut i: usize = 0;
    while i < v.len()
        invariant
            i <= v.len(),
            s@ == s0 + v@.take(i as int),
        decreases v.len() - i,
    {
        push_char(s, v[i]);
        i = i + 1;
        assert(s@ == s0 + v@.take(i as int));
    }
    assert(v@.take(v.len() as int) == v@);
}

// ─── Equality and prefixes ───────────────────────────────────────────────────

pub fn chars_eq(a: &Vec<char>, b: &Vec<char>) -> (r: bool)
    ensures
        r == (a@ == b@),
{
    if a.len() != b.len() {
        return false;
    }
    let mut i: usize = 0;
    while i < a.len()
        invariant
            a.len() == b.len(),
            i <= a.len(),
            forall|j: int| 0 <= j < i ==> a@[j] == b@[j],
        decreases a.len() - i,
    {
        if a[i] != b[i] {
            return false;
        }
        i = i + 1;
    }
    assert(a@ =~= b@);
    true
}

/// Whether `s` is exactly the text `t`.
pub fn chars_eq_str(s: &Vec<char>, t: &str) -> (r: bool)
    ensures
        r == (s@ == t@),
{
    let tv = chars_of(t);
    chars_eq(s, &tv)
}

/// Whether the two strings are equal.
pub fn str_eq(a: &str, b: &str) -> (r: bool)
    ensures
        r == (a@ == b@),
{
    let av = chars_of(a);
    let bv = chars_of(b);
    chars_eq(&av, &bv)
}

pub open spec fn starts_with(s: Seq<char>, p: Seq<char>) -> bool {
    p.len() <= s.len() && s.take(p.len() as int) == p
}

pub open spec fn ends_with(s: Seq<char>, p: Seq<char>) -> bool {
    p.len() <= s.len() && s.skip(s.len() - p.len()) == p
}

pub fn has_prefix(s: &Vec<char>, p: &Vec<char>) -> (r: bool)
    ensures
        r == starts_with(s@, p@),
{
    if p.len() > s.len() {
        return false;
    }
    let mut i: usize = 0;
    while i < p.len()
        invariant
            p.len() <= s.len(),
            i <= p.len(),
            forall|j: int| 0 <= j < i ==> s@[j] == p@[j],
        decreases p.len() - i,
    {
        if s[i] != p[i] {
            assert(s@.take(p.len() as int)[i as int] != p@[i as int]);
            return false;
        }
        i = i + 1;
    }
    assert(s@.take(p.len() as int) =~= p@);
    true
}

pub fn has_prefix_str(s: &Vec<char>, p: &str) -> (r: bool)
    ensures
        r == starts_with(s@, p@),
{
    let pv = chars_of(p);
    has_prefix(s, &pv)
}

pub fn has_suffix(s: &Vec<char>, p: &Vec<char>) -> (r: bool)
    ensures
        r == ends_with(s@, p@),
{
    if p.len() > s.len() {
        return false;
    }
    let off = s.len() - p.len();
    let mut i: usize = 0;
    while i < p.len()
        invariant
            p.len() <= s.len(),
            off == s.len() - p.len(),
            i <= p.len(),
            forall|j: int| 0 <= j < i ==> s@[off + j] == p@[j],
        decreases p.len() - i,
    {
        if s[off + i] != p[i] {
            assert(s@.skip(off as int)[i as int] != p@[i as int]);
            return false;
        }
        i = i + 1;
    }
    assert(s@.skip(off as int) =~= p@);
    true
}

/// The characters `s[from..to]`.
pub fn sub_chars(s: &Vec<char>, from: usize, to: usize) -> (out: Vec<char>)
    requires
        from <= to <= s.len(),
    ensures
        out@ == s@.subrange(from as int, to as int),
{
    let mut out: Vec<char> = Vec::new();
    let mut i = from;
    while i < to
        invariant
            from <= i <= to <= s.len(),
            out@ == s@.subrange(from as int, i as int),
        decreases to - i,
    {
        out.push(s[i]);
        i = i + 1;
        assert(out@ =~= s@.subrange(from as int, i as int));
    }
    out
}

// ─── Trimming ────────────────────────────────────────────────────────────────

pub open spec fn trim_end(s: Seq<char>) -> Seq<char>
    decreases s.len(),
{
    if s.len() > 0 && is_ws(s.last()) {
        trim_end(s.drop_last())
    } else {
        s
    }
}

pub open spec fn trim_start(s: Seq<char>) -> Seq<char>
    decreases s.len(),
{
    if s.len() > 0 && is_ws(s[0]) {
        trim_start(s.drop_first())
    } else {
        s
    }
}

/// `str::trim`: leading and trailing white space removed.
pub open spec fn trim(s: Seq<char>) -> Seq<char> {
    trim_start(trim_end(s))
}

proof fn lemma_trim_end_prefix(s: Seq<char>, k: int)
    requires
        0 <= k <= s.len(),
        forall|j: int| k <= j < s.len() ==> is_ws(#[trigger] s[j]),
    ensures
        trim_end(s) == trim_end(s.take(k)),
    decreases s.len() - k,
{
    if k < s.len() {
        assert(s.drop_last().take(k) == s.take(k));
        lemma_trim_end_prefix(s.drop_last(), k);
    } else {
        assert(s.take(k) == s);
    }
}

proof fn lemma_trim_start_suffix(s: Seq<char>, k: int)
    requires
        0 <= k <= s.len(),
        forall|j: int| 0 <= j < k ==> is_ws(#[trigger] s[j]),
    ensures
        trim_start(s) == trim_start(s.skip(k)),
    decreases k,
{
    if k > 0 {
        assert(s.drop_first().skip(k - 1) == s.skip(k));
        lemma_trim_start_suffix(s.drop_first(), k - 1);
    } else {
        assert(s.skip(0) == s);
    }
}

pub fn trim_chars(s: &Vec<char>) -> (out: Vec<char>)
    ensures
        out@ == trim(s@),
{
    let mut end = s.len();
    while end > 0 && char_is_ws(s[end - 1])
        invariant
            end <= s.len(),
            forall|j: int| end <= j < s.len() ==> is_ws(#[trigger] s@[j]),
        decreases end,
    {
        end = end - 1;
    }
    proof {
        lemma_trim_end_prefix(s@, end as int);
    }
    let ghost te = s@.take(end as int);
    assert(trim_end(te) == te);
    let mut start: usize = 0;
    while start < end && char_is_ws(s[start])
        invariant
            start <= end <= s.len(),
            te == s@.take(end as int),
            forall|j: int| 0 <= j < start ==> is_ws(#[trigger] te[j]),
        decreases end - start,
    {
        start = start + 1;
    }
    proof {
        lemma_trim_start_suffix(te, start as int);
        assert(te.skip(start as int) =~= s@.subrange(start as int, end as int));
        let r = te.skip(start as int);
        assert(!(r.len() > 0 && is_ws(r[0])));
    }
    sub_chars(s, start, end)
}

pub fn trim_end_chars(s: &Vec<char>) -> (out: Vec<char>)
    ensures
        out@ == trim_end(s@),
{
    let mut end = s.len();
    while end > 0 && char_is_ws(s[end - 1])
        invariant
            end <= s.len(),
            forall|j: int| end <= j < s.len() ==> is_ws(#[trigger] s@[j]),
        decreases end,
    {
        end = end - 1;
    }
    proof {
        lemma_trim_end_prefix(s@, end as int);
    }
    sub_chars(s, 0, end)
}


// ─── Searching and splitting ─────────────────────────────────────────────────

/// Index of the first occurrence of `c` in `s`, or -1.
pub open spec fn index_of(s: Seq<char>, c: char) -> int
    decreases s.len(),
{
    if s.len() == 0 {
        -1
    } else if s[0] == c {
        0
    } else {
        let r = index_of(s.drop_first(), c);
        if r < 0 {
            -1
        } else {
            r + 1
        }
    }
}

pub proof fn lemma_index_of(s: Seq<char>, c: char)
    ensures
        -1 <= index_of(s, c) < s.len(),
        index_of(s, c) >= 0 ==> s[index_of(s, c)] == c,
        forall|j: int| 0 <= j < s.len() && (index_of(s, c) < 0 || j < index_of(s, c)) ==> s[j]
            != c,
    decreases s.len(),
{
    if s.len() > 0 {
        lemma_index_of(s.drop_first(), c);
        assert forall|j: int|
            0 <= j < s.len() && (index_of(s, c) < 0 || j < index_of(s, c)) implies s[j] != c by {
            if j > 0 {
                assert(s[j] == s.drop_first()[j - 1]);
            }
        }
    }
}

pub(crate) proof fn lemma_index_of_unique(s: Seq<char>, c: char, k: int)
    requires
        -1 <= k < s.len(),
        k >= 0 ==> s[k] == c,
        forall|j: int| 0 <= j < s.len() && (k < 0 || j < k) ==> s[j] != c,
    ensures
        index_of(s, c) == k,
    decreases s.len(),
{
    if s.len() > 0 {
        if k != 0 {
            let k2 = if k < 0 {
                -1
            } else {
                k - 1
            };
            assert forall|j: int|
                0 <= j < s.drop_first().len() && (k2 < 0 || j < k2) implies s.drop_first()[j]
                != c by {
                assert(s.drop_first()[j] == s[j + 1]);
            }
            lemma_index_of_unique(s.drop_first(), c, k2);
        }
    }
}

/// Position of the first `c` in `s`, if any.
pub fn find_char(s: &Vec<char>, c: char) -> (r: Option<usize>)
    ensures
        match r {
            Some(k) => index_of(s@, c) == k && k < s.len(),
            None => index_of(s@, c) == -1,
        },
{
    let mut i: usize = 0;
    while i < s.len()
        invariant
            i <= s.len(),
            forall|j: int| 0 <= j < i ==> s@[j] != c,
        decreases s.len() - i,
    {
        if s[i] == c {
            proof {
                lemma_index_of_unique(s@, c, i as int);
            }
            return Some(i);
        }
        i = i + 1;
    }
    proof {
        lemma_index_of_unique(s@, c, -1);
    }
    None
}

/// `str::split(sep)`: the pieces between separators (always at least one).
pub open spec fn split_on(s: Seq<char>, sep: char) -> Seq<Seq<char>>
    decreases s.len(),
{
    if s.len() == 0 {
        seq![Seq::<char>::empty()]
    } else {
        let prev = split_on(s.drop_last(), sep);
        if s.last() == sep {
            prev.push(Seq::<char>::empty())
        } else {
            prev.update(prev.len() - 1, prev.last().push(s.last()))
        }
    }
}

pub proof fn lemma_split_on_nonempty(s: Seq<char>, sep: char)
    ensures
        split_on(s, sep).len() >= 1,
    decreases s.len(),
{
    if s.len() > 0 {
        lemma_split_on_nonempty(s.drop_last(), sep);
    }
}

pub proof fn lemma_char_vec_dv(v: Vec<char>)
    ensures
        v.deep_view() == v@,
{
    assert(v.deep_view() =~= v@);
}

/// Pushing onto a vector of character vectors pushes the pushed one's characters.
pub proof fn lemma_push_dv(before: Vec<Vec<char>>, after: Vec<Vec<char>>, x: Vec<char>)
    requires
        after@ == before@.push(x),
    ensures
        after.deep_view() == before.deep_view().push(x@),
{
    lemma_char_vec_dv(x);
    assert(after.deep_view() =~= before.deep_view().push(x@));
}

pub fn split_chars(s: &Vec<char>, sep: char) -> (out: Vec<Vec<char>>)
    ensures
        out.deep_view() == split_on(s@, sep),
{
    let mut out: Vec<Vec<char>> = Vec::new();
    let mut cur: Vec<char> = Vec::new();
    let mut i: usize = 0;
    assert(s@.take(0) =~= Seq::<char>::empty());
    assert(out.deep_view().push(cur@) =~= split_on(s@.take(0), sep));
    while i < s.len()
        invariant
            i <= s.len(),
            out.deep_view().push(cur@) == split_on(s@.take(i as int), sep),
        decreases s.len() - i,
    {
        let ghost prev = out.deep_view().push(cur@);
        let c = s[i];
        assert(s@.take(i + 1).drop_last() =~= s@.take(i as int));
        if c == sep {
            let done = cur;
            let ghost ob = out;
            out.push(done);
            proof { lemma_push_dv(ob, out, done); }
            cur = Vec::new();
            assert(out.deep_view().push(cur@) =~= prev.push(Seq::<char>::empty()));
        } else {
            cur.push(c);
            assert(out.deep_view().push(cur@) =~= prev.update(
                prev.len() - 1,
                prev.last().push(c),
            ));
        }
        i = i + 1;
    }
    assert(s@.take(s.len() as int) =~= s@);
    let ghost ob = out;
    let ghost cv = cur;
    out.push(cur);
    proof { lemma_push_dv(ob, out, cv); }
    out
}

pub open spec fn strip_cr(l: Seq<char>) -> Seq<char> {
    if l.len() > 0 && l.last() == '\r' {
        l.drop_last()
    } else {
        l
    }
}

/// `str::lines`: split at `\n`, a `\r` just before a `\n` dropped, no final empty line.
pub open spec fn lines(s: Seq<char>) -> Seq<Seq<char>> {
    let p = split_on(s, '\n');
    let init = p.drop_last().map_values(|l: Seq<char>| strip_cr(l));
    if p.last().len() == 0 {
        init
    } else {
        init.push(p.last())
    }
}

pub fn strip_cr_chars(l: Vec<char>) -> (out: Vec<char>)
    ensures
        out@ == strip_cr(l@),
{
    let mut l = l;
    if l.len() > 0 && l[l.len() - 1] == '\r' {
        l.pop();
    }
    l
}

pub fn lines_of(s: &Vec<char>) -> (out: Vec<Vec<char>>)
    ensures
        out.deep_view() == lines(s@),
{
    let parts = split_chars(s, '\n');
    proof {
        lemma_split_on_nonempty(s@, '\n');
    }
    let n = parts.len();
    let mut out: Vec<Vec<char>> = Vec::new();
    let mut i: usize = 0;
    let ghost p = parts.deep_view();
    while i + 1 < n
        invariant
            n == parts.len(),
            n >= 1,
            p == parts.deep_view(),
            i + 1 <= n,
            out.deep_view() == p.drop_last().map_values(|l: Seq<char>| strip_cr(l)).take(
                i as int,
            ),
        decreases n - i,
    {
        let pi = parts[i].clone();
        proof {
            lemma_char_vec_dv(parts@[i as int]);
            assert(pi@ =~= parts@[i as int]@);
        }
        let l = strip_cr_chars(pi);
        let ghost before = out.deep_view();
        let ghost ob = out;
        let ghost lv = l;
        out.push(l);
        proof { lemma_push_dv(ob, out, lv); }
        assert(out.deep_view() =~= before.push(strip_cr(p[i as int])));
        assert(out.deep_view() =~= p.drop_last().map_values(|l: Seq<char>| strip_cr(l)).take(
            i + 1,
        ));
        i = i + 1;
    }
    assert(p.drop_last().map_values(|l: Seq<char>| strip_cr(l)).take(i as int) =~= p.drop_last().map_values(|l: Seq<char>| strip_cr(l)));
    let last = parts[n - 1].clone();
    proof {
        lemma_char_vec_dv(parts@[n - 1]);
        assert(last@ =~= parts@[n - 1]@);
    }
    if last.len() > 0 {
        let ghost before = out.deep_view();
        let ghost ob = out;
        let ghost lv = last;
        out.push(last);
        proof { lemma_push_dv(ob, out, lv); }
        assert(out.deep_view() =~= before.push(p.last()));
    }
    out
}

/// `str::split_whitespace`: the maximal runs of non-white-space characters.
pub open spec fn ws_fields(s: Seq<char>) -> Seq<Seq<char>>
    decreases s.len(),
{
    if s.len() == 0 {
        seq![]
    } else {
        let f = ws_fields(s.drop_last());
        let c = s.last();
        if is_ws(c) {
            f
        } else if s.len() >= 2 && !is_ws(s[s.len() - 2]) {
            f.update(f.len() - 1, f.last().push(c))
        } else {
            f.push(seq![c])
        }
    }
}

pub proof fn lemma_ws_fields_open(s: Seq<char>)
    ensures
        s.len() > 0 && !is_ws(s.last()) ==> ws_fields(s).len() > 0,
    decreases s.len(),
{
    if s.len() > 0 {
        lemma_ws_fields_open(s.drop_last());
    }
}

pub fn split_ws(s: &Vec<char>) -> (out: Vec<Vec<char>>)
    ensures
        out.deep_view() == ws_fields(s@),
{
    let mut out: Vec<Vec<char>> = Vec::new();
    let mut cur: Vec<char> = Vec::new();
    let mut i: usize = 0;
    assert(s@.take(0) =~= Seq::<char>::empty());
    while i < s.len()
        invariant
            i <= s.len(),
            cur@.len() > 0 <==> (i > 0 && !is_ws(s@[i - 1])),
            ws_fields(s@.take(i as int)) == if cur@.len() > 0 {
                out.deep_view().push(cur@)
            } else {
                out.deep_view()
            },
        decreases s.len() - i,
    {
        let c = s[i];
        let ghost t = s@.take(i + 1);
        assert(t.drop_last() =~= s@.take(i as int));
        assert(t.last() == c);
        proof {
            lemma_ws_fields_open(s@.take(i as int));
            if i > 0 {
                assert(t[t.len() - 2] == s@[i - 1]);
            }
        }
        if char_is_ws(c) {
            if cur.len() > 0 {
                let done = cur;
                let ghost ob = out;
                out.push(done);
                proof { lemma_push_dv(ob, out, done); }
                cur = Vec::new();
            }
        } else {
            let ghost prev = ws_fields(s@.take(i as int));
            if cur.len() > 0 {
                cur.push(c);
                assert(out.deep_view().push(cur@) =~= prev.update(
                    prev.len() - 1,
                    prev.last().push(c),
                ));
            } else {
                cur.push(c);
                assert(cur@ =~= seq![c]);
            }
        }
        i = i + 1;
    }
    assert(s@.take(s.len() as int) =~= s@);
    if cur.len() > 0 {
        let ghost ob = out;
        let ghost cv = cur;
        out.push(cur);
        proof { lemma_push_dv(ob, out, cv); }
    }
    out
}

// ─── Numbers ─────────────────────────────────────────────────────────────────

/// Value of `c` as a digit in any radix up to 36 (36 when it is no digit).
pub open spec fn digit_value(c: char) -> nat {
    let u = c as u32;
    if '0' as u32 <= u <= '9' as u32 {
        (u - '0' as u32) as nat
    } else if 'a' as u32 <= u <= 'z' as u32 {
        (u - 'a' as u32 + 10) as nat
    } else if 'A' as u32 <= u <= 'Z' as u32 {
        (u - 'A' as u32 + 10) as nat
    } else {
        36
    }
}

pub fn digit_of(c: char) -> (d: u64)
    ensures
        d == digit_value(c),
{
    let u = c as u32;
    if '0' as u32 <= u && u <= '9' as u32 {
        (u - '0' as u32) as u64
    } else if 'a' as u32 <= u && u <= 'z' as u32 {
        (u - 'a' as u32 + 10) as u64
    } else if 'A' as u32 <= u && u <= 'Z' as u32 {
        (u - 'A' as u32 + 10) as u64
    } else {
        36
    }
}

pub open spec fn all_digits(s: Seq<char>, radix: nat) -> bool {
    forall|i: int| 0 <= i < s.len() ==> digit_value(#[trigger] s[i]) < radix
}

pub open spec fn digits_value(s: Seq<char>, radix: nat) -> nat
    decreases s.len(),
{
    if s.len() == 0 {
        0
    } else {
        digits_value(s.drop_last(), radix) * radix + digit_value(s.last())
    }
}

/// The digits after an optional leading `+` (and, when `signed`, `-`).
pub open spec fn unsigned_body(s: Seq<char>) -> Seq<char> {
    if s.len() > 0 && s[0] == '+' {
        s.drop_first()
    } else {
        s
    }
}

/// `uN::from_str_radix(s, radix)` for an unsigned type whose largest value is `max`.
pub open spec fn parse_uint(s: Seq<char>, radix: nat, max: nat) -> Option<nat> {
    let body = unsigned_body(s);
    if body.len() > 0 && all_digits(body, radix) && digits_value(body, radix) <= max {
        Some(digits_value(body, radix))
    } else {
        None
    }
}

/// `i32::from_str` (decimal, optional sign).
pub open spec fn parse_i32_spec(s: Seq<char>) -> Option<int> {
    if s.len() > 0 && s[0] == '-' {
        let body = s.drop_first();
        if body.len() > 0 && all_digits(body, 10) && digits_value(body, 10) <= 0x8000_0000 {
            Some(-(digits_value(body, 10) as int))
        } else {
            None
        }
    } else {
        match parse_uint(s, 10, 0x7fff_ffff) {
            Some(v) => Some(v as int),
            None => None,
        }
    }
}

proof fn lemma_digits_value_grows(s: Seq<char>, radix: nat, k: int)
    requires
        radix >= 1,
        0 <= k <= s.len(),
    ensures
        digits_value(s.take(k), radix) <= digits_value(s, radix),
    decreases s.len() - k,
{
    if k < s.len() {
        assert(s.drop_last().take(k) == s.take(k));
        lemma_digits_value_grows(s.drop_last(), radix, k);
        let v = digits_value(s.drop_last(), radix);
        assert(v * radix >= v) by (nonlinear_arith)
            requires
                radix >= 1,
        ;
    } else {
        assert(s.take(k) == s);
    }
}

/// Parses the digits `s[from..]` in `radix`; `None` when one is no digit or the value exceeds `max`.
fn digits_from(s: &Vec<char>, from: usize, radix: u64, max: u64) -> (r: Option<u64>)
    requires
        from <= s.len(),
        2 <= radix <= 36,
    ensures
        match r {
            Some(v) => all_digits(s@.skip(from as int), radix as nat) && digits_value(
                s@.skip(from as int),
                radix as nat,
            ) == v && v <= max,
            None => !(all_digits(s@.skip(from as int), radix as nat) && digits_value(
                s@.skip(from as int),
                radix as nat,
            ) <= max),
        },
{
    let ghost body = s@.skip(from as int);
    let mut acc: u64 = 0;
    let mut i: usize = from;
    assert(body.take(0) =~= Seq::<char>::empty());
    while i < s.len()
        invariant
            from <= i <= s.len(),
            2 <= radix <= 36,
            body == s@.skip(from as int),
            all_digits(body.take(i - from), radix as nat),
            acc == digits_value(body.take(i - from), radix as nat),
            acc <= max,
        decreases s.len() - i,
    {
        let ghost k = (i - from) as int;
        assert(body.take(k + 1).drop_last() =~= body.take(k));
        assert(body.take(k + 1).last() == s@[i as int]);
        let d = digit_of(s[i]);
        if d >= radix {
            assert(!all_digits(body, radix as nat)) by {
                assert(body[k] == s@[i as int]);
            }
            return None;
        }
        assert(all_digits(body.take(k + 1), radix as nat)) by {
            assert forall|j: int| 0 <= j < k + 1 implies digit_value(
                #[trigger] body.take(k + 1)[j],
            ) < radix as nat by {
                if j < k {
                    assert(body.take(k + 1)[j] == body.take(k)[j]);
                }
            }
        }
        match acc.checked_mul(radix) {
            None => {
                proof {
                    lemma_digits_value_grows(body, radix as nat, k + 1);
                    assert(acc * radix + d >= acc * radix) by (nonlinear_arith)
                        requires
                            d >= 0,
                    ;
                }
                return None;
            },
            Some(m) => match m.checked_add(d) {
                None => {
                    proof {
                        lemma_digits_value_grows(body, radix as nat, k + 1);
                    }
                    return None;
                },
                Some(v) => {
                    if v > max {
                        proof {
                            lemma_digits_value_grows(body, radix as nat, k + 1);
                        }
                        return None;
                    }
                    acc = v;
                },
            },
        }
        i = i + 1;
    }
    assert(body.take(s.len() - from) =~= body);
    Some(acc)
}

/// `uN::from_str_radix(s, radix)` where `max` is the largest value of the type.
pub fn parse_unsigned(s: &Vec<char>, radix: u64, max: u64) -> (r: Option<u64>)
    requires
        2 <= radix <= 36,
    ensures
        match r {
            Some(v) => parse_uint(s@, radix as nat, max as nat) == Some(v as nat),
            None => parse_uint(s@, radix as nat, max as nat).is_none(),
        },
{
    let from: usize = if s.len() > 0 && s[0] == '+' {
        1
    } else {
        0
    };
    assert(s@.skip(from as int) == unsigned_body(s@));
    if from >= s.len() {
        return None;
    }
    digits_from(s, from, radix, max)
}

/// `i32::from_str`.
pub fn parse_i32(s: &Vec<char>) -> (r: Option<i32>)
    ensures
        match r {
            Some(v) => parse_i32_spec(s@) == Some(v as int),
            None => parse_i32_spec(s@).is_none(),
        },
{
    if s.len() > 0 && s[0] == '-' {
        assert(s@.skip(1) == s@.drop_first());
        if s.len() == 1 {
            return None;
        }
        match digits_from(s, 1, 10, 0x8000_0000) {
            Some(v) => {
                let r: i64 = -(v as i64);
                Some(r as i32)
            },
            None => None,
        }
    } else {
        match parse_unsigned(s, 10, 0x7fff_ffff) {
            Some(v) => Some(v as i32),
            None => None,
        }
    }
}

/// Decimal digits of `n`.
pub open spec fn dec(n: nat) -> Seq<char>
    decreases n,
{
    if n < 10 {
        seq![digit_char(n)]
    } else {
        dec(n / 10).push(digit_char(n % 10))
    }
}

pub open spec fn digit_char(d: nat) -> char {
    if d == 0 {
        '0'
    } else if d == 1 {
        '1'
    } else if d == 2 {
        '2'
    } else if d == 3 {
        '3'
    } else if d == 4 {
        '4'
    } else if d == 5 {
        '5'
    } else if d == 6 {
        '6'
    } else if d == 7 {
        '7'
    } else if d == 8 {
        '8'
    } else {
        '9'
    }
}

fn digit_ch(d: u64) -> (c: char)
    requires
        d < 10,
    ensures
        c == digit_char(d as nat),
{
    if d == 0 {
        '0'
    } else if d == 1 {
        '1'
    } else if d == 2 {
        '2'
    } else if d == 3 {
        '3'
    } else if d == 4 {
        '4'
    } else if d == 5 {
        '5'
    } else if d == 6 {
        '6'
    } else if d == 7 {
        '7'
    } else if d == 8 {
        '8'
    } else {
        '9'
    }
}

/// Appends the decimal digits of `n`.
pub fn push_dec(out: &mut Vec<char>, n: u64)
    ensures
        final(out)@ == old(out)@ + dec(n as nat),
    decreases n,
{
    if n >= 10 {
        push_dec(out, n / 10);
    }
    let c = digit_ch(n % 10);
    let ghost before = out@;
    out.push(c);
    proof {
        if n >= 10 {
            assert(out@ =~= old(out)@ + dec(n as nat));
        } else {
            assert(out@ =~= old(out)@ + dec(n as nat));
        }
    }
}

/// Decimal rendering of a signed integer (`-` before a negative one).
pub open spec fn signed_dec(n: int) -> Seq<char> {
    if n < 0 {
        seq!['-'] + dec((-n) as nat)
    } else {
        dec(n as nat)
    }
}

pub fn push_signed(out: &mut Vec<char>, n: i64)
    ensures
        final(out)@ == old(out)@ + signed_dec(n as int),
{
    if n < 0 {
        out.push('-');
        let m: u64 = ((-(n + 1)) as u64) + 1;
        push_dec(out, m);
        assert(out@ =~= old(out)@ + signed_dec(n as int));
    } else {
        push_dec(out, n as u64);
    }
}

/// `n.to_string()` for unsigned integers.
pub fn dec_string(n: u64) -> (s: String)
    ensures
        s@ == dec(n as nat),
{
    let mut v: Vec<char> = Vec::new();
    push_dec(&mut v, n);
    assert(v@ =~= dec(n as nat));
    string_of(&v)
}

/// `n.to_string()` for signed integers.
pub fn signed_string(n: i64) -> (s: String)
    ensures
        s@ == signed_dec(n as int),
{
    let mut v: Vec<char> = Vec::new();
    push_signed(&mut v, n);
    assert(v@ =~= signed_dec(n as int));
    string_of(&v)
}


/// Index of the first sequence in `ls` that starts with `p`, or -1.
pub open spec fn first_with_prefix(ls: Seq<Seq<char>>, p: Seq<char>) -> int
    decreases ls.len(),
{
    if ls.len() == 0 {
        -1
    } else if starts_with(ls[0], p) {
        0
    } else {
        let r = first_with_prefix(ls.drop_first(), p);
        if r < 0 {
            -1
        } else {
            r + 1
        }
    }
}

proof fn lemma_first_with_prefix_unique(ls: Seq<Seq<char>>, p: Seq<char>, k: int)
    requires
        -1 <= k < ls.len(),
        k >= 0 ==> starts_with(ls[k], p),
        forall|j: int| 0 <= j < ls.len() && (k < 0 || j < k) ==> !starts_with(#[trigger] ls[j], p),
    ensures
        first_with_prefix(ls, p) == k,
    decreases ls.len(),
{
    if ls.len() > 0 {
        if k != 0 {
            let k2 = if k < 0 {
                -1
            } else {
                k - 1
            };
            assert forall|j: int|
                0 <= j < ls.drop_first().len() && (k2 < 0 || j < k2) implies !starts_with(
                #[trigger] ls.drop_first()[j],
                p,
            ) by {
                assert(ls.drop_first()[j] == ls[j + 1]);
            }
            lemma_first_with_prefix_unique(ls.drop_first(), p, k2);
        }
    }
}

/// Position of the first line of `ls` that starts with `p`.
pub fn find_with_prefix(ls: &Vec<Vec<char>>, p: &Vec<char>) -> (r: Option<usize>)
    ensures
        match r {
            Some(k) => first_with_prefix(ls.deep_view(), p@) == k && k < ls.len() && starts_with(
                ls.deep_view()[k as int],
                p@,
            ),
            None => first_with_prefix(ls.deep_view(), p@) == -1,
        },
{
    let ghost d = ls.deep_view();
    let mut i: usize = 0;
    while i < ls.len()
        invariant
            i <= ls.len(),
            d == ls.deep_view(),
            forall|j: int| 0 <= j < i ==> !starts_with(#[trigger] d[j], p@),
        decreases ls.len() - i,
    {
        proof {
            lemma_char_vec_dv(ls@[i as int]);
        }
        if has_prefix(&ls[i], p) {
            proof {
                lemma_first_with_prefix_unique(d, p@, i as int);
            }
            return Some(i);
        }
        i = i + 1;
    }
    proof {
        lemma_first_with_prefix_unique(d, p@, -1);
    }
    None
}

/// The characters `s[from..]`.
pub fn skip_chars(s: &Vec<char>, from: usize) -> (out: Vec<char>)
    requires
        from <= s.len(),
    ensures
        out@ == s@.skip(from as int),
{
    let out = sub_chars(s, from, s.len());
    assert(out@ =~= s@.skip(from as int));
    out
}

/// The text before the first `c` and the text after it, when `s` holds a `c`.
pub open spec fn split_once(s: Seq<char>, c: char) -> Option<(Seq<char>, Seq<char>)> {
    let k = index_of(s, c);
    if k < 0 {
        None
    } else {
        Some((s.take(k), s.skip(k + 1)))
    }
}

pub fn split_once_chars(s: &Vec<char>, c: char) -> (r: Option<(Vec<char>, Vec<char>)>)
    ensures
        match r {
            Some((a, b)) => split_once(s@, c) == Some((a@, b@)),
            None => split_once(s@, c).is_none(),
        },
{
    proof {
        lemma_index_of(s@, c);
    }
    match find_char(s, c) {
        Some(k) => {
            let a = sub_chars(s, 0, k);
            let b = skip_chars(s, k + 1);
            assert(a@ =~= s@.take(k as int));
            Some((a, b))
        },
        None => None,
    }
}


/// `t.strip_prefix(open).and_then(|r| r.strip_suffix(close))`.
pub open spec fn bracketed(t: Seq<char>, open: Seq<char>, close: char) -> Option<Seq<char>> {
    if starts_with(t, open) && ends_with(t.skip(open.len() as int), seq![close]) {
        Some(t.subrange(open.len() as int, t.len() - 1))
    } else {
        None
    }
}

pub fn strip_brackets(t: &Vec<char>, open: &str, close: char) -> (r: Option<Vec<char>>)
    ensures
        match r {
            Some(inner) => bracketed(t@, open@, close) == Some(inner@),
            None => bracketed(t@, open@, close).is_none(),
        },
{
    if !has_prefix_str(t, open) {
        return None;
    }
    let ov = chars_of(open);
    let rest = skip_chars(t, ov.len());
    let mut cv: Vec<char> = Vec::new();
    cv.push(close);
    assert(cv@ =~= seq![close]);
    if !has_suffix(&rest, &cv) {
        return None;
    }
    Some(sub_chars(t, ov.len(), t.len() - 1))
}


// ─── Substrings and case ─────────────────────────────────────────────────────

/// Whether `p` occurs in `s` (`str::contains`).
pub open spec fn contains_seq(s: Seq<char>, p: Seq<char>) -> bool {
    exists|i: int| 0 <= i && i + p.len() <= s.len() && #[trigger] s.subrange(i, i + p.len()) == p
}

pub fn chars_contains(s: &Vec<char>, p: &Vec<char>) -> (r: bool)
    ensures
        r == contains_seq(s@, p@),
{
    if p.len() > s.len() {
        return false;
    }
    let mut i: usize = 0;
    while i <= s.len() - p.len()
        invariant
            p.len() <= s.len(),
            i <= s.len() - p.len() + 1,
            forall|k: int| 0 <= k < i ==> #[trigger] s@.subrange(k, k + p.len()) != p@,
        decreases s.len() - i,
    {
        let mut j: usize = 0;
        while j < p.len() && s[i + j] == p[j]
            invariant
                i + p.len() <= s.len(),
                j <= p.len(),
                forall|m: int| 0 <= m < j ==> s@[i + m] == p@[m],
            decreases p.len() - j,
        {
            j = j + 1;
        }
        if j == p.len() {
            assert(s@.subrange(i as int, i + p.len()) =~= p@);
            return true;
        }
        assert(s@.subrange(i as int, i + p.len())[j as int] != p@[j as int]);
        i = i + 1;
    }
    assert forall|k: int| 0 <= k && k + p@.len() <= s@.len() implies #[trigger] s@.subrange(k, k + p@.len()) != p@ by {
        assert(k < i);
    }
    false
}

/// What `str::to_uppercase` makes of a text (Unicode upper case mapping).
pub uninterp spec fn uppercase(s: Seq<char>) -> Seq<char>;

/// What `str::to_lowercase` makes of a text (Unicode lower case mapping).
pub uninterp spec fn lowercase(s: Seq<char>) -> Seq<char>;

/// Trusted: calls `str::to_uppercase`; the contract only names its result
/// (`uppercase`), a function of the text alone.
#[verifier::external_body]
pub(crate) fn to_uppercase(s: &str) -> (r: String)
    ensures
        r@ == uppercase(s@),
{
    s.to_uppercase()
}

/// Trusted: calls `str::to_lowercase`; the contract only names its result
/// (`lowercase`), a function of the text alone.
#[verifier::external_body]
pub(crate) fn to_lowercase(s: &str) -> (r: String)
    ensures
        r@ == lowercase(s@),
{
    s.to_lowercase()
}

/// Length of a text in UTF-8 bytes (`str::len`).
pub open spec fn byte_len(s: Seq<char>) -> usize {
    vstd::utf8::encode_utf8(s).len() as usize
}

pub fn chars_byte_len(v: &Vec<char>) -> (n: usize)
    ensures
        n == byte_len(v@),
{
    let s = string_of(v);
    s.as_str().len()
}


// ─── Round trips ─────────────────────────────────────────────────────────────

proof fn lemma_digit_char_value(d: nat)
    requires
        d < 10,
    ensures
        digit_value(digit_char(d)) == d,
        digit_char(d) != '+' && digit_char(d) != '-' && digit_char(d) != '/',
{
}

/// The decimal digits of `n` read back in radix 10 give `n`.
pub proof fn lemma_dec_round_trip(n: nat)
    ensures
        dec(n).len() > 0,
        all_digits(dec(n), 10),
        digits_value(dec(n), 10) == n,
        forall|i: int| 0 <= i < dec(n).len() ==> #[trigger] dec(n)[i] != '/' && dec(n)[i] != '+'
            && dec(n)[i] != '-' && dec(n)[i] != '.',
    decreases n,
{
    if n < 10 {
        lemma_digit_char_value(n);
        assert(dec(n) == seq![digit_char(n)]);
        assert(dec(n).drop_last() =~= Seq::<char>::empty());
        assert(digits_value(dec(n), 10) == digits_value(dec(n).drop_last(), 10) * 10
            + digit_value(dec(n).last()));
        assert(digits_value(Seq::<char>::empty(), 10) == 0);
    } else {
        lemma_dec_round_trip(n / 10);
        lemma_digit_char_value(n % 10);
        let d = dec(n);
        assert(d.drop_last() == dec(n / 10));
        assert(d.last() == digit_char(n % 10));
        assert(n == (n / 10) * 10 + n % 10);
        assert(digits_value(d, 10) == digits_value(d.drop_last(), 10) * 10 + digit_value(d.last()));
        assert forall|i: int| 0 <= i < d.len() implies digit_value(#[trigger] d[i]) < 10 by {
            if i < d.len() - 1 {
                assert(d[i] == dec(n / 10)[i]);
            }
        }
        assert forall|i: int| 0 <= i < d.len() implies #[trigger] d[i] != '/' && d[i] != '+' && d[i]
            != '-' && d[i] != '.' by {
            if i < d.len() - 1 {
                assert(d[i] == dec(n / 10)[i]);
            }
        }
    }
}

/// `i32::from_str` reads back what `to_string` wrote.
pub proof fn lemma_signed_dec_round_trip(n: i32)
    ensures
        parse_i32_spec(signed_dec(n as int)) == Some(n as int),
        forall|i: int| 0 <= i < signed_dec(n as int).len() ==> #[trigger] signed_dec(n as int)[i]
            != '/',
        signed_dec(n as int).len() > 0,
        signed_dec(n as int) != seq!['.'],
{
    if n < 0 {
        let m = (-(n as int)) as nat;
        lemma_dec_round_trip(m);
        let s = signed_dec(n as int);
        assert(s.drop_first() =~= dec(m));
        assert(s[0] == '-');
        assert forall|i: int| 0 <= i < s.len() implies #[trigger] s[i] != '/' by {
            if i > 0 {
                assert(s[i] == dec(m)[i - 1]);
            }
        }
    } else {
        lemma_dec_round_trip(n as nat);
        let s = dec(n as nat);
        assert(s[0] != '-' && s[0] != '+');
        assert(unsigned_body(s) == s);
        if s == seq!['.'] {
            assert(s[0] == '.');
        }
    }
}

/// Splitting `a`, a separator, and `b` (which holds no separator) gives the
/// pieces of `a` followed by `b`.
pub proof fn lemma_split_on_append(a: Seq<char>, sep: char, b: Seq<char>)
    requires
        forall|i: int| 0 <= i < b.len() ==> #[trigger] b[i] != sep,
    ensures
        split_on(a + seq![sep] + b, sep) == split_on(a, sep).push(b),
    decreases b.len(),
{
    if b.len() == 0 {
        let x = a + seq![sep] + b;
        assert(x =~= a.push(sep));
        assert(x.drop_last() =~= a);
        assert(x.last() == sep);
        assert(split_on(x, sep) == split_on(x.drop_last(), sep).push(Seq::<char>::empty()));
        assert(b =~= Seq::<char>::empty());
    } else {
        let bb = b.drop_last();
        assert forall|i: int| 0 <= i < bb.len() implies #[trigger] bb[i] != sep by {
            assert(bb[i] == b[i]);
        }
        lemma_split_on_append(a, sep, bb);
        assert(b.last() != sep);
        assert(bb.push(b.last()) =~= b);
        let x = a + seq![sep] + b;
        assert(x.drop_last() =~= a + seq![sep] + bb);
        assert(x.last() == b.last());
        let prev = split_on(a, sep).push(bb);
        assert(split_on(x, sep) == prev.update(prev.len() - 1, prev.last().push(x.last())));
        assert(prev.update(prev.len() - 1, prev.last().push(b.last())) =~= split_on(a, sep).push(b));
    }
}

} // verus!

verus! {

// ─── UTF-8 lengths and column padding ────────────────────────────────────────

/// Number of UTF-8 bytes of a text, unbounded.
pub open spec fn utf8_len(s: Seq<char>) -> nat {
    vstd::utf8::encode_utf8(s).len()
}

/// Encoding a concatenation encodes each part in turn.
pub proof fn lemma_encode_concat(a: Seq<char>, b: Seq<char>)
    ensures
        vstd::utf8::encode_utf8(a + b) == vstd::utf8::encode_utf8(a) + vstd::utf8::encode_utf8(b),
    decreases a.len(),
{
    if a.len() == 0 {
        assert(a + b =~= b);
        assert(vstd::utf8::encode_utf8(a) =~= Seq::<u8>::empty());
        assert(vstd::utf8::encode_utf8(a) + vstd::utf8::encode_utf8(b) =~= vstd::utf8::encode_utf8(b));
    } else {
        assert((a + b).drop_first() =~= a.drop_first() + b);
        assert((a + b)[0] == a[0]);
        lemma_encode_concat(a.drop_first(), b);
        let e0 = vstd::utf8::encode_scalar(a[0] as u32);
        assert(e0 + (vstd::utf8::encode_utf8(a.drop_first()) + vstd::utf8::encode_utf8(b)) =~= (e0
            + vstd::utf8::encode_utf8(a.drop_first())) + vstd::utf8::encode_utf8(b));
    }
}

/// The UTF-8 length of one character.
pub open spec fn char_utf8_len(c: char) -> nat {
    vstd::utf8::encode_scalar(c as u32).len()
}

/// `char::len_utf8`.
pub fn char_len_utf8(c: char) -> (n: usize)
    ensures
        n == char_utf8_len(c),
        1 <= n <= 4,
{
    proof {
        vstd::utf8::char_is_scalar(c);
    }
    let u = c as u32;
    if u <= 0x7F {
        1
    } else if u <= 0x7FF {
        2
    } else if u <= 0xFFFF {
        3
    } else {
        4
    }
}

/// Each character adds its own UTF-8 length to a prefix.
pub proof fn lemma_utf8_len_take(s: Seq<char>, k: int)
    requires
        0 <= k < s.len(),
    ensures
        utf8_len(s.take(k + 1)) == utf8_len(s.take(k)) + char_utf8_len(s[k]),
        char_utf8_len(s[k]) >= 1,
{
    vstd::utf8::char_is_scalar(s[k]);
    assert(s.take(k + 1) =~= s.take(k) + seq![s[k]]);
    lemma_encode_concat(s.take(k), seq![s[k]]);
    let one = seq![s[k]];
    assert(one.drop_first() =~= Seq::<char>::empty());
    assert(one[0] == s[k]);
    reveal_with_fuel(vstd::utf8::encode_utf8, 2);
    assert(vstd::utf8::encode_utf8(one) =~= vstd::utf8::encode_scalar(s[k] as u32));
}

/// Longer prefixes have strictly more UTF-8 bytes.
pub proof fn lemma_utf8_len_prefix_grows(s: Seq<char>, i: int, j: int)
    requires
        0 <= i < j <= s.len(),
    ensures
        utf8_len(s.take(i)) < utf8_len(s.take(j)),
    decreases j - i,
{
    lemma_utf8_len_take(s, j - 1);
    if i < j - 1 {
        lemma_utf8_len_prefix_grows(s, i, j - 1);
    }
}

/// Count of spaces that `{:<w}` or `{:>w}` adds to `s`.
pub open spec fn pad_count(s: Seq<char>, w: nat) -> nat {
    if s.len() < w {
        (w - s.len()) as nat
    } else {
        0
    }
}

pub open spec fn spaces(n: nat) -> Seq<char> {
    Seq::new(n, |i: int| ' ')
}

/// `format!("{:<w$}", s)`: `s` followed by spaces up to `w` characters.
pub open spec fn left_aligned(s: Seq<char>, w: nat) -> Seq<char> {
    s + spaces(pad_count(s, w))
}

/// `format!("{:>w$}", s)`: spaces up to `w` characters, then `s`.
pub open spec fn right_aligned(s: Seq<char>, w: nat) -> Seq<char> {
    spaces(pad_count(s, w)) + s
}

fn push_spaces(out: &mut Vec<char>, n: usize)
    ensures
        final(out)@ == old(out)@ + spaces(n as nat),
{
    let ghost start = out@;
    let mut i: usize = 0;
    while i < n
        invariant
            i <= n,
            out@ == start + spaces(i as nat),
        decreases n - i,
    {
        out.push(' ');
        i = i + 1;
        assert(out@ =~= start + spaces(i as nat));
    }
}

/// Appends `s` left-aligned in a column of `w` characters.
pub fn push_left(out: &mut Vec<char>, s: &str, w: usize)
    ensures
        final(out)@ == old(out)@ + left_aligned(s@, w as nat),
{
    let v = chars_of(s);
    let ghost start = out@;
    push_vec(out, &v);
    let pad = if v.len() < w {
        w - v.len()
    } else {
        0
    };
    push_spaces(out, pad);
    assert(out@ =~= start + left_aligned(s@, w as nat));
}

/// Appends `s` right-aligned in a column of `w` characters.
pub fn push_right(out: &mut Vec<char>, s: &str, w: usize)
    ensures
        final(out)@ == old(out)@ + right_aligned(s@, w as nat),
{
    let v = chars_of(s);
    let ghost start = out@;
    let pad = if v.len() < w {
        w - v.len()
    } else {
        0
    };
    push_spaces(out, pad);
    push_vec(out, &v);
    assert(out@ =~= start + right_aligned(s@, w as nat));
}

/// Appends the characters of `v`.
pub fn push_vec(out: &mut Vec<char>, v: &Vec<char>)
    ensures
        final(out)@ == old(out)@ + v@,
{
    let ghost start = out@;
    let mut i: usize = 0;
    while i < v.len()
        invariant
            i <= v.len(),
            out@ == start + v@.take(i as int),
        decreases v.len() - i,
    {
        out.push(v[i]);
        i = i + 1;
        assert(out@ =~= start + v@.take(i as int));
    }
    assert(v@.take(v.len() as int) =~= v@);
}

// ─── Paths ───────────────────────────────────────────────────────────────────

/// `Path::join` of a relative `rel` onto `base`: a `/` goes between them
/// unless `base` is empty or already ends with one.
pub open spec fn joined(base: Seq<char>, rel: Seq<char>) -> Seq<char> {
    if base.len() == 0 {
        rel
    } else if base.last() == '/' {
        base + rel
    } else {
        base + "/"@ + rel
    }
}

/// Joins a relative path onto `base`.
pub fn join(base: &str, rel: &str) -> (r: String)
    ensures
        r@ == joined(base@, rel@),
{
    let b = chars_of(base);
    let mut r = string_from(base);
    if b.len() > 0 && b[b.len() - 1] != '/' {
        push_str(&mut r, "/");
    }
    push_str(&mut r, rel);
    proof {
        reveal_strlit("/");
    }
    assert(r@ =~= joined(base@, rel@));
    r
}

} // verus!
