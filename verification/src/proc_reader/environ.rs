use vstd::prelude::*;
use vstd::utf8::{
    decode_utf8, encode_scalar, encode_utf8, encode_utf8_decode_utf8, encode_utf8_valid_utf8,
    valid_utf8,
};
use crate::text::{chars_of, split_once, split_once_chars, string_of};
use crate::sort::{chars_le, lex_le, stable_sort, stable_sorted, views, SortKey};
use crate::proc_reader::error::{
    io_to_error, proc_file, proc_file_path, IoErrorKind, IoFailure, ProcReaderError,
};

verus! {

/// Raw environment entry as parsed from `/proc/<pid>/environ`.
#[derive(Debug, Clone)]
pub struct EnvironEntry {
    pub key: String,
    pub value: String,
}

impl View for EnvironEntry {
    type V = (Seq<char>, Seq<char>);

    open spec fn view(&self) -> (Seq<char>, Seq<char>) {
        (self.key@, self.value@)
    }
}

impl SortKey for EnvironEntry {
    open spec fn key_le(a: (Seq<char>, Seq<char>), b: (Seq<char>, Seq<char>)) -> bool {
        lex_le(a.0, b.0)
    }

    fn key_le_exec(&self, other: &Self) -> (r: bool) {
        let a = chars_of(self.key.as_str());
        let b = chars_of(other.key.as_str());
        chars_le(&a, &b)
    }
}

/// What `String::from_utf8_lossy` makes of `bytes`.
pub uninterp spec fn utf8_lossy(bytes: Seq<u8>) -> Seq<char>;

/// Trusted: calls `String::from_utf8_lossy`; the contract names its result
/// (`utf8_lossy`) and claims that bytes already valid UTF-8 are decoded as
/// they stand (invalid sequences become U+FFFD, which is left unstated).
#[verifier::external_body]
fn from_utf8_lossy(bytes: &[u8]) -> (s: String)
    ensures
        s@ == utf8_lossy(bytes@),
        valid_utf8(bytes@) ==> s@ == decode_utf8(bytes@),
{
    String::from_utf8_lossy(bytes).into_owned()
}

/// The text of a byte string as `String::from_utf8_lossy` gives it: the
/// decoded characters where the bytes are valid UTF-8.
pub open spec fn lossy_text(bytes: Seq<u8>) -> Seq<char> {
    if valid_utf8(bytes) {
        decode_utf8(bytes)
    } else {
        utf8_lossy(bytes)
    }
}

/// `<[u8]>::split(|b| b == sep)`: the pieces between separators.
pub open spec fn byte_split(b: Seq<u8>, sep: u8) -> Seq<Seq<u8>>
    decreases b.len(),
{
    if b.len() == 0 {
        seq![Seq::<u8>::empty()]
    } else {
        let prev = byte_split(b.drop_last(), sep);
        if b.last() == sep {
            prev.push(Seq::<u8>::empty())
        } else {
            prev.update(prev.len() - 1, prev.last().push(b.last()))
        }
    }
}

proof fn lemma_byte_split_nonempty(b: Seq<u8>, sep: u8)
    ensures
        byte_split(b, sep).len() >= 1,
    decreases b.len(),
{
    if b.len() > 0 {
        lemma_byte_split_nonempty(b.drop_last(), sep);
    }
}

/// The entry that one `KEY=VALUE` piece contributes: none for an empty piece
/// or one without `=`; else the text before the first `=` and the text after.
pub open spec fn piece_entry(piece: Seq<u8>) -> Option<(Seq<char>, Seq<char>)> {
    if piece.len() == 0 {
        None
    } else {
        split_once(lossy_text(piece), '=')
    }
}

pub open spec fn entries_of_pieces(ps: Seq<Seq<u8>>) -> Seq<(Seq<char>, Seq<char>)>
    decreases ps.len(),
{
    if ps.len() == 0 {
        seq![]
    } else {
        let prev = entries_of_pieces(ps.drop_last());
        match piece_entry(ps.last()) {
            Some(e) => prev.push(e),
            None => prev,
        }
    }
}

/// The entries of a NUL-separated environment block, in file order.
pub open spec fn environ_entries(raw: Seq<u8>) -> Seq<(Seq<char>, Seq<char>)> {
    entries_of_pieces(byte_split(raw, 0))
}

fn entry_of_piece(piece: &Vec<u8>) -> (r: Option<EnvironEntry>)
    ensures
        match r {
            Some(e) => piece_entry(piece@) == Some(e@),
            None => piece_entry(piece@).is_none(),
        },
{
    if piece.len() == 0 {
        return None;
    }
    let s = from_utf8_lossy(piece.as_slice());
    let sv = chars_of(s.as_str());
    match split_once_chars(&sv, '=') {
        Some((k, v)) => Some(EnvironEntry { key: string_of(&k), value: string_of(&v) }),
        None => None,
    }
}

/// Parse the raw bytes of `/proc/<pid>/environ` into key/value pairs sorted by key.
pub fn parse_environ_bytes(raw: &[u8]) -> (out: Vec<EnvironEntry>)
    ensures
        views(out@) == stable_sorted::<EnvironEntry>(environ_entries(raw@)),
{
    let mut vars: Vec<EnvironEntry> = Vec::new();
    let mut cur: Vec<u8> = Vec::new();
    let ghost mut pieces: Seq<Seq<u8>> = seq![];
    let mut i: usize = 0;
    assert(raw@.take(0) =~= Seq::<u8>::empty());
    while i < raw.len()
        invariant
            i <= raw.len(),
            byte_split(raw@.take(i as int), 0) == pieces.push(cur@),
            views(vars@) == entries_of_pieces(pieces),
        decreases raw.len() - i,
    {
        let b = raw[i];
        assert(raw@.take(i + 1).drop_last() =~= raw@.take(i as int));
        if b == 0 {
            let ghost before = views(vars@);
            match entry_of_piece(&cur) {
                Some(e) => {
                    vars.push(e);
                    assert(views(vars@) =~= before.push(e@));
                },
                None => {},
            }
            proof {
                assert(pieces.push(cur@).drop_last() =~= pieces);
                pieces = pieces.push(cur@);
            }
            cur = Vec::new();
            assert(byte_split(raw@.take(i + 1), 0) =~= pieces.push(cur@));
        } else {
            let ghost prev = pieces.push(cur@);
            cur.push(b);
            assert(byte_split(raw@.take(i + 1), 0) =~= pieces.push(cur@)) by {
                assert(prev.update(prev.len() - 1, prev.last().push(b)) =~= pieces.push(cur@));
            }
        }
        i = i + 1;
    }
    assert(raw@.take(raw.len() as int) =~= raw@);
    let ghost before = views(vars@);
    match entry_of_piece(&cur) {
        Some(e) => {
            vars.push(e);
            assert(views(vars@) =~= before.push(e@));
        },
        None => {},
    }
    assert(pieces.push(cur@).drop_last() =~= pieces);
    stable_sort(vars)
}

/// `/proc/<pid>/environ` from what reading it produced.
pub fn read_environ(pid: i32, raw: Result<Vec<u8>, IoFailure>) -> (r: Result<
    Vec<EnvironEntry>,
    ProcReaderError,
>)
    ensures
        match raw {
            Ok(bytes) => r matches Ok(out) && views(out@) == stable_sorted::<EnvironEntry>(
                environ_entries(bytes@),
            ),
            Err(e) => r matches Err(err) && (if e.kind == IoErrorKind::NotFound {
                err == ProcReaderError::NotFound(pid)
            } else {
                err matches ProcReaderError::Io { path, source } && path@ == proc_file(
                    pid as int,
                    "environ"@,
                ) && source == e
            }),
        },
{
    match raw {
        Ok(bytes) => Ok(parse_environ_bytes(bytes.as_slice())),
        Err(e) => {
            let path = proc_file_path(pid, "environ");
            Err(io_to_error(path, e, pid))
        },
    }
}

// ─── Writing a block back ────────────────────────────────────────────────────

/// The `KEY=VALUE` text of one pair.
pub open spec fn env_text(kv: (Seq<char>, Seq<char>)) -> Seq<char> {
    kv.0 + seq!['='] + kv.1
}

/// The UTF-8 bytes of one pair's `KEY=VALUE` text.
pub open spec fn env_piece(kv: (Seq<char>, Seq<char>)) -> Seq<u8> {
    encode_utf8(env_text(kv))
}

/// An environment block as the kernel lays it out: each pair as
/// `KEY=VALUE` in UTF-8, followed by a NUL byte.
pub open spec fn env_block(kvs: Seq<(Seq<char>, Seq<char>)>) -> Seq<u8>
    decreases kvs.len(),
{
    if kvs.len() == 0 {
        seq![]
    } else {
        env_block(kvs.drop_last()) + env_piece(kvs.last()).push(0u8)
    }
}

/// A pair that survives a round trip through a block: its key holds neither
/// `=` nor NUL, and its value holds no NUL.
pub open spec fn writable_pair(kv: (Seq<char>, Seq<char>)) -> bool {
    !kv.0.contains('=') && !kv.0.contains('\0') && !kv.1.contains('\0')
}

proof fn lemma_or_high_bit(x: u8)
    by (bit_vector)
    ensures
        0x80u8 | x != 0,
        0xC0u8 | x != 0,
        0xE0u8 | x != 0,
        0xF0u8 | x != 0,
{
}

proof fn lemma_low_byte(c: u32)
    by (bit_vector)
    requires
        1 <= c <= 0x7F,
    ensures
        (c & 0x7F) as u8 != 0,
{
}

/// The UTF-8 encoding of a character other than NUL holds no zero byte.
proof fn lemma_scalar_no_zero(c: char)
    requires
        c != '\0',
    ensures
        forall|i: int| 0 <= i < encode_scalar(c as u32).len() ==> #[trigger] encode_scalar(c as u32)[i] != 0,
{
    let u = c as u32;
    if u == 0 {
        vstd::utf8::char_u32_cast(c, u);
        vstd::utf8::char_u32_cast('\0', u);
    }
    if u <= 0x7F {
        lemma_low_byte(u);
    }
    lemma_or_high_bit(((u >> 6) & 0x1F) as u8);
    lemma_or_high_bit(((u >> 12) & 0x0F) as u8);
    lemma_or_high_bit(((u >> 18) & 0x7) as u8);
    lemma_or_high_bit((u & 0x3F) as u8);
    lemma_or_high_bit(((u >> 6) & 0x3F) as u8);
    lemma_or_high_bit(((u >> 12) & 0x3F) as u8);
}

/// Text without NUL encodes to bytes without a zero byte.
proof fn lemma_encode_no_zero(t: Seq<char>)
    requires
        !t.contains('\0'),
    ensures
        forall|i: int| 0 <= i < encode_utf8(t).len() ==> #[trigger] encode_utf8(t)[i] != 0,
    decreases t.len(),
{
    if t.len() > 0 {
        assert(t[0] != '\0') by {
            if t[0] == '\0' {
                assert(t.contains(t[0]));
            }
        }
        lemma_scalar_no_zero(t[0]);
        assert(!t.drop_first().contains('\0')) by {
            if t.drop_first().contains('\0') {
                let j = choose|j: int| 0 <= j < t.drop_first().len() && t.drop_first()[j] == '\0';
                assert(t[j + 1] == '\0');
            }
        }
        lemma_encode_no_zero(t.drop_first());
        let a = encode_scalar(t[0] as u32);
        let b = encode_utf8(t.drop_first());
        assert(encode_utf8(t) == a + b);
        assert forall|i: int| 0 <= i < encode_utf8(t).len() implies encode_utf8(t)[i] != 0 by {
            if i < a.len() {
                assert(encode_utf8(t)[i] == a[i]);
            } else {
                assert(encode_utf8(t)[i] == b[i - a.len()]);
            }
        }
    }
}

/// Appending bytes that hold no separator extends the last piece.
proof fn lemma_split_extend(b: Seq<u8>, q: Seq<u8>, sep: u8)
    requires
        forall|i: int| 0 <= i < q.len() ==> q[i] != sep,
    ensures
        byte_split(b + q, sep) == byte_split(b, sep).update(
            byte_split(b, sep).len() - 1,
            byte_split(b, sep).last() + q,
        ),
    decreases q.len(),
{
    lemma_byte_split_nonempty(b, sep);
    let s = byte_split(b, sep);
    if q.len() == 0 {
        assert(b + q =~= b);
        assert(s.last() + q =~= s.last());
        assert(s.update(s.len() - 1, s.last()) =~= s);
    } else {
        let q1 = q.drop_last();
        lemma_split_extend(b, q1, sep);
        assert((b + q).drop_last() =~= b + q1);
        assert((b + q).last() == q.last());
        let prev = byte_split(b + q1, sep);
        assert(prev.last() == s.last() + q1);
        assert(prev.update(prev.len() - 1, prev.last().push(q.last())) =~= s.update(
            s.len() - 1,
            s.last() + q,
        )) by {
            assert(s.last() + q1 + seq![q.last()] =~= s.last() + q);
            assert((s.last() + q1).push(q.last()) =~= s.last() + q);
        }
    }
}

/// A block splits at its NUL bytes into the pairs' pieces and an empty tail.
proof fn lemma_block_split(kvs: Seq<(Seq<char>, Seq<char>)>)
    requires
        forall|i: int| 0 <= i < kvs.len() ==> writable_pair(#[trigger] kvs[i]),
    ensures
        byte_split(env_block(kvs), 0) == kvs.map_values(|kv: (Seq<char>, Seq<char>)| env_piece(kv)).push(
            Seq::<u8>::empty(),
        ),
    decreases kvs.len(),
{
    let ps = kvs.map_values(|kv: (Seq<char>, Seq<char>)| env_piece(kv));
    if kvs.len() == 0 {
        assert(ps =~= Seq::<Seq<u8>>::empty());
    } else {
        let init = kvs.drop_last();
        let kv = kvs.last();
        assert forall|i: int| 0 <= i < init.len() implies writable_pair(#[trigger] init[i]) by {
            assert(init[i] == kvs[i]);
        }
        lemma_block_split(init);
        assert(writable_pair(kvs[kvs.len() - 1]));
        let t = env_text(kv);
        assert(!t.contains('\0')) by {
            if t.contains('\0') {
                let j = choose|j: int| 0 <= j < t.len() && t[j] == '\0';
                if j < kv.0.len() {
                    assert(kv.0[j] == '\0');
                    assert(kv.0.contains('\0'));
                } else if j > kv.0.len() {
                    assert(kv.1[j - kv.0.len() - 1] == '\0');
                    assert(kv.1.contains('\0'));
                } else {
                    assert(t[j] == '=');
                }
            }
        }
        lemma_encode_no_zero(t);
        let x = env_block(init);
        let p = env_piece(kv);
        lemma_split_extend(x, p, 0);
        assert(env_block(kvs) == x + p.push(0u8));
        assert(x + p.push(0u8) =~= (x + p).push(0u8));
        assert((x + p).push(0u8).drop_last() =~= x + p);
        let pinit = init.map_values(|kv: (Seq<char>, Seq<char>)| env_piece(kv));
        assert(Seq::<u8>::empty() + p =~= p);
        assert(pinit.push(Seq::<u8>::empty()).update(pinit.len() as int, p) =~= ps);
    }
}

/// The pieces of writable pairs parse back to the pairs themselves.
proof fn lemma_pieces_entries(kvs: Seq<(Seq<char>, Seq<char>)>)
    requires
        forall|i: int| 0 <= i < kvs.len() ==> writable_pair(#[trigger] kvs[i]),
    ensures
        entries_of_pieces(kvs.map_values(|kv: (Seq<char>, Seq<char>)| env_piece(kv))) == kvs,
    decreases kvs.len(),
{
    let ps = kvs.map_values(|kv: (Seq<char>, Seq<char>)| env_piece(kv));
    if kvs.len() == 0 {
        assert(kvs =~= Seq::<(Seq<char>, Seq<char>)>::empty());
    } else {
        let init = kvs.drop_last();
        let kv = kvs.last();
        assert forall|i: int| 0 <= i < init.len() implies writable_pair(#[trigger] init[i]) by {
            assert(init[i] == kvs[i]);
        }
        lemma_pieces_entries(init);
        assert(writable_pair(kvs[kvs.len() - 1]));
        assert(ps.drop_last() =~= init.map_values(|kv: (Seq<char>, Seq<char>)| env_piece(kv)));
        let t = env_text(kv);
        let p = env_piece(kv);
        encode_utf8_valid_utf8(t);
        encode_utf8_decode_utf8(t);
        assert(lossy_text(p) == t);
        assert(p.len() > 0) by {
            assert(t.len() > 0);
            assert(encode_utf8(t) == encode_scalar(t[0] as u32) + encode_utf8(t.drop_first()));
        }
        let k = kv.0.len() as int;
        assert(t[k] == '=');
        assert forall|j: int| 0 <= j < t.len() && j < k implies t[j] != '=' by {
            assert(t[j] == kv.0[j]);
            if kv.0[j] == '=' {
                assert(kv.0.contains('='));
            }
        }
        crate::text::lemma_index_of_unique(t, '=', k);
        assert(t.take(k) =~= kv.0);
        assert(t.skip(k + 1) =~= kv.1);
        assert(piece_entry(p) == Some(kv));
        assert(kvs =~= init.push(kv));
    }
}

/// Writing pairs out as an environment block (`KEY=VALUE` in UTF-8, each
/// followed by a NUL byte) and parsing the block gives back the same pairs in
/// the same order, and so the same listing once sorted by key, whenever no
/// key holds `=` or NUL and no value holds NUL.
pub proof fn lemma_environ_round_trip(kvs: Seq<(Seq<char>, Seq<char>)>)
    requires
        forall|i: int| 0 <= i < kvs.len() ==> writable_pair(#[trigger] kvs[i]),
    ensures
        environ_entries(env_block(kvs)) == kvs,
        stable_sorted::<EnvironEntry>(environ_entries(env_block(kvs))) == stable_sorted::<
            EnvironEntry,
        >(kvs),
{
    lemma_block_split(kvs);
    lemma_pieces_entries(kvs);
    let ps = kvs.map_values(|kv: (Seq<char>, Seq<char>)| env_piece(kv));
    assert(ps.push(Seq::<u8>::empty()).drop_last() =~= ps);
}

} // verus!
