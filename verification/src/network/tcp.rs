use vstd::prelude::*;
use crate::network::ipv6::{format_ipv6, ipv6_text};
use crate::text::{
    chars_of, dec, lemma_char_vec_dv, lines, lines_of, parse_uint, parse_unsigned, push_dec,
    split_once, split_once_chars, split_ws, string_from, string_of, strip_brackets, ws_fields,
    bracketed,
};

verus! {

broadcast use vstd::std_specs::hash::group_hash_axioms;

/// Name of a TCP state number of `/proc/net/tcp`.
pub open spec fn tcp_state_name(state: u8) -> Seq<char> {
    if state == 0x01 {
        "ESTABLISHED"@
    } else if state == 0x02 {
        "SYN_SENT"@
    } else if state == 0x03 {
        "SYN_RECV"@
    } else if state == 0x04 {
        "FIN_WAIT1"@
    } else if state == 0x05 {
        "FIN_WAIT2"@
    } else if state == 0x06 {
        "TIME_WAIT"@
    } else if state == 0x07 {
        "CLOSE"@
    } else if state == 0x08 {
        "CLOSE_WAIT"@
    } else if state == 0x09 {
        "LAST_ACK"@
    } else if state == 0x0A {
        "LISTEN"@
    } else if state == 0x0B {
        "CLOSING"@
    } else {
        "UNKNOWN"@
    }
}

pub fn tcp_state(state: u8) -> (r: &'static str)
    ensures
        r@ == tcp_state_name(state),
{
    match state {
        0x01 => "ESTABLISHED",
        0x02 => "SYN_SENT",
        0x03 => "SYN_RECV",
        0x04 => "FIN_WAIT1",
        0x05 => "FIN_WAIT2",
        0x06 => "TIME_WAIT",
        0x07 => "CLOSE",
        0x08 => "CLOSE_WAIT",
        0x09 => "LAST_ACK",
        0x0A => "LISTEN",
        0x0B => "CLOSING",
        _ => "UNKNOWN",
    }
}

/// The state numbers of `/proc/net/tcp` name the kernel's TCP states: 1
/// ESTABLISHED, 2 SYN_SENT, 3 SYN_RECV, 4 FIN_WAIT1, 5 FIN_WAIT2, 6
/// TIME_WAIT, 7 CLOSE, 8 CLOSE_WAIT, 9 LAST_ACK, 10 LISTEN, 11 CLOSING; any
/// other number is UNKNOWN.
pub proof fn lemma_tcp_state_table(state: u8)
    ensures
        state == 0x01 ==> tcp_state_name(state) == "ESTABLISHED"@,
        state == 0x02 ==> tcp_state_name(state) == "SYN_SENT"@,
        state == 0x03 ==> tcp_state_name(state) == "SYN_RECV"@,
        state == 0x04 ==> tcp_state_name(state) == "FIN_WAIT1"@,
        state == 0x05 ==> tcp_state_name(state) == "FIN_WAIT2"@,
        state == 0x06 ==> tcp_state_name(state) == "TIME_WAIT"@,
        state == 0x07 ==> tcp_state_name(state) == "CLOSE"@,
        state == 0x08 ==> tcp_state_name(state) == "CLOSE_WAIT"@,
        state == 0x09 ==> tcp_state_name(state) == "LAST_ACK"@,
        state == 0x0A ==> tcp_state_name(state) == "LISTEN"@,
        state == 0x0B ==> tcp_state_name(state) == "CLOSING"@,
        (state == 0 || state > 0x0B) ==> tcp_state_name(state) == "UNKNOWN"@,
{
}

// ─── Addresses ───────────────────────────────────────────────────────────────

/// Byte `k` (0 = lowest) of `n`: `n.to_le_bytes()[k]`.
pub open spec fn le_byte(n: nat, k: nat) -> nat
    decreases k,
{
    if k == 0 {
        n % 256
    } else {
        le_byte(n / 256, (k - 1) as nat)
    }
}

/// `Ipv4Addr::from(n.to_le_bytes())` as text: the four bytes of `n`, lowest first, in dotted decimal.
pub open spec fn ipv4_le_text(n: nat) -> Seq<char> {
    dec(le_byte(n, 0)) + seq!['.'] + dec(le_byte(n, 1)) + seq!['.'] + dec(le_byte(n, 2)) + seq!['.']
        + dec(le_byte(n, 3))
}

/// The bytes of `b` in chunks of eight (the last one shorter).
pub open spec fn chunks8(b: Seq<u8>) -> Seq<Seq<u8>>
    decreases b.len(),
{
    if b.len() == 0 {
        seq![]
    } else if b.len() <= 8 {
        seq![b]
    } else {
        seq![b.take(8)] + chunks8(b.skip(8))
    }
}

/// A chunk read as a hexadecimal `u32`: it must be ASCII text that `u32::from_str_radix(_, 16)` accepts.
pub open spec fn chunk_word(c: Seq<u8>) -> Option<nat> {
    if forall|i: int| 0 <= i < c.len() ==> #[trigger] c[i] < 128 {
        parse_uint(c.map_values(|b: u8| b as char), 16, u32::MAX as nat)
    } else {
        None
    }
}

/// The chunks that read as words, in order.
pub open spec fn hex_words(cs: Seq<Seq<u8>>) -> Seq<nat>
    decreases cs.len(),
{
    if cs.len() == 0 {
        seq![]
    } else {
        let rest = hex_words(cs.drop_first());
        match chunk_word(cs[0]) {
            Some(w) => seq![w] + rest,
            None => rest,
        }
    }
}

/// The sixteen octets of four 32-bit words, each word's bytes lowest first.
pub open spec fn words_octets(w: Seq<nat>) -> Seq<u8> {
    Seq::new(16, |i: int| le_byte(w[i / 4], (i % 4) as nat) as u8)
}

/// Text of the address column of `/proc/net/*` (hexadecimal, in host order).
pub open spec fn addr_text(hex: Seq<char>, is_v6: bool) -> Seq<char> {
    if is_v6 {
        let w = hex_words(chunks8(vstd::utf8::encode_utf8(hex)));
        if w.len() == 4 {
            ipv6_text(words_octets(w))
        } else {
            hex
        }
    } else {
        match parse_uint(hex, 16, u32::MAX as nat) {
            Some(n) => ipv4_le_text(n),
            None => hex,
        }
    }
}

/// `ADDR:PORT` of `/proc/net/*` (hexadecimal) as address text and port;
/// `("?", 0)` without a `:`, port 0 when it does not parse.
pub open spec fn addr_port(field: Seq<char>, is_v6: bool) -> (Seq<char>, u16) {
    match split_once(field, ':') {
        None => ("?"@, 0),
        Some((a, p)) => (
            addr_text(a, is_v6),
            match parse_uint(p, 16, u16::MAX as nat) {
                Some(v) => v as u16,
                None => 0,
            },
        ),
    }
}

fn le_byte_of(n: u64, k: u64) -> (b: u64)
    requires
        k < 8,
    ensures
        b == le_byte(n as nat, k as nat),
        b < 256,
    decreases k,
{
    if k == 0 {
        n % 256
    } else {
        le_byte_of(n / 256, k - 1)
    }
}

fn ipv4_le_string(n: u64) -> (s: String)
    ensures
        s@ == ipv4_le_text(n as nat),
{
    let mut v: Vec<char> = Vec::new();
    push_dec(&mut v, le_byte_of(n, 0));
    v.push('.');
    push_dec(&mut v, le_byte_of(n, 1));
    v.push('.');
    push_dec(&mut v, le_byte_of(n, 2));
    v.push('.');
    push_dec(&mut v, le_byte_of(n, 3));
    assert(v@ =~= ipv4_le_text(n as nat));
    string_of(&v)
}

fn chunk_word_of(b: &[u8], from: usize, to: usize) -> (r: Option<u64>)
    requires
        from <= to <= b@.len(),
    ensures
        match r {
            Some(w) => chunk_word(b@.subrange(from as int, to as int)) == Some(w as nat),
            None => chunk_word(b@.subrange(from as int, to as int)).is_none(),
        },
{
    let ghost c = b@.subrange(from as int, to as int);
    let mut cv: Vec<char> = Vec::new();
    let mut i = from;
    while i < to
        invariant
            from <= i <= to <= b@.len(),
            c == b@.subrange(from as int, to as int),
            forall|j: int| 0 <= j < i - from ==> #[trigger] c[j] < 128,
            cv@ == c.take(i - from).map_values(|x: u8| x as char),
        decreases to - i,
    {
        if b[i] >= 128 {
            assert(c[i - from] >= 128);
            return None;
        }
        cv.push(b[i] as char);
        assert(cv@ =~= c.take(i + 1 - from).map_values(|x: u8| x as char));
        i = i + 1;
    }
    assert(c.take(to - from) =~= c);
    parse_unsigned(&cv, 16, u32::MAX as u64)
}

proof fn lemma_chunks8_skip(b: Seq<u8>, k: int)
    requires
        0 <= k,
        8 * k <= b.len(),
    ensures
        hex_words(chunks8(b)) == hex_words(chunks8(b.take(8 * k))) + hex_words(chunks8(b.skip(8 * k))),
    decreases k,
{
    if k > 0 {
        assert(b.len() > 8 || b.len() == 8);
        if b.len() <= 8 {
            assert(b.take(8) =~= b);
            assert(b.skip(8) =~= Seq::<u8>::empty());
            assert(chunks8(b.skip(8)) =~= Seq::<Seq<u8>>::empty());
            assert(chunks8(b.take(8)) == seq![b]);
            assert(hex_words(seq![b]) =~= hex_words(chunks8(b)));
        } else {
            let t = b.skip(8);
            lemma_chunks8_skip(t, k - 1);
            assert(t.take(8 * (k - 1)) =~= b.subrange(8, 8 * k));
            assert(t.skip(8 * (k - 1)) =~= b.skip(8 * k));
            let p = b.take(8 * k);
            assert(p.take(8) =~= b.take(8));
            assert(p.skip(8) =~= b.subrange(8, 8 * k));
            if p.len() <= 8 {
                assert(p =~= b.take(8));
                assert(b.subrange(8, 8 * k) =~= Seq::<u8>::empty());
                assert(chunks8(b.subrange(8, 8 * k)) =~= Seq::<Seq<u8>>::empty());
            }
            let cs = chunks8(b);
            assert(cs.drop_first() =~= chunks8(t));
            let cp = chunks8(p);
            if p.len() > 8 {
                assert(cp.drop_first() =~= chunks8(p.skip(8)));
            } else {
                assert(cp =~= seq![b.take(8)]);
                assert(cp.drop_first() =~= Seq::<Seq<u8>>::empty());
            }
            assert(cp[0] == cs[0]);
            assert(hex_words(cs) =~= hex_words(cp) + hex_words(chunks8(b.skip(8 * k))));
        }
    } else {
        assert(b.take(0) =~= Seq::<u8>::empty());
        assert(chunks8(b.take(0)) =~= Seq::<Seq<u8>>::empty());
        assert(b.skip(0) =~= b);
        assert(hex_words(chunks8(b.take(0))) =~= Seq::<nat>::empty());
    }
}

proof fn lemma_chunks8_step(b: Seq<u8>, k: int)
    requires
        0 <= k,
        8 * k < b.len(),
    ensures
        ({
            let end = if b.len() < 8 * k + 8 { b.len() as int } else { 8 * k + 8 };
            hex_words(chunks8(b.take(end))) == hex_words(chunks8(b.take(8 * k))) + match chunk_word(b.subrange(8 * k, end)) {
                Some(w) => seq![w],
                None => seq![],
            }
        }),
{
    let end = if b.len() < 8 * k + 8 { b.len() as int } else { 8 * k + 8 };
    let e = b.take(end);
    lemma_chunks8_skip(e, k);
    assert(e.take(8 * k) =~= b.take(8 * k));
    let last = e.skip(8 * k);
    assert(last =~= b.subrange(8 * k, end));
    assert(last.len() > 0 && last.len() <= 8);
    assert(chunks8(last) == seq![last]);
    assert(seq![last].drop_first() =~= Seq::<Seq<u8>>::empty());
    assert(hex_words(Seq::<Seq<u8>>::empty()) == Seq::<nat>::empty());
    match chunk_word(last) {
        Some(w) => {
            assert(hex_words(seq![last]) =~= seq![w]);
        },
        None => {
            assert(hex_words(seq![last]) =~= Seq::<nat>::empty());
        },
    }
}

fn ipv6_or_hex(a: &Vec<char>) -> (s: String)
    ensures
        s@ == addr_text(a@, true),
{
    let astr = string_of(a);
    let b = astr.as_str().as_bytes();
    let ghost bytes = b@;
    assert(bytes == vstd::utf8::encode_utf8(a@));
    let mut words: Vec<u64> = Vec::new();
    let mut k: usize = 0;
    assert(bytes.take(0) =~= Seq::<u8>::empty());
    assert(chunks8(bytes.take(0)) =~= Seq::<Seq<u8>>::empty());
    while k < b.len()
        invariant
            bytes == b@,
            k % 8 == 0 || k == b.len(),
            k <= b.len(),
            words@.map_values(|w: u64| w as nat) == hex_words(chunks8(bytes.take(k as int))),
            forall|i: int| 0 <= i < words.len() ==> #[trigger] words@[i] <= u32::MAX,
        decreases b.len() - k,
    {
        let end = if b.len() - k < 8 {
            b.len()
        } else {
            k + 8
        };
        proof {
            lemma_chunks8_step(bytes, (k / 8) as int);
        }
        let ghost before = words@.map_values(|w: u64| w as nat);
        match chunk_word_of(b, k, end) {
            Some(w) => {
                words.push(w);
                assert(words@.map_values(|w: u64| w as nat) =~= before + seq![w as nat]);
            },
            None => {
                assert(before + seq![] =~= before);
            },
        }
        k = end;
        if k == b.len() {
            assert(bytes.take(k as int) =~= bytes);
        }
    }
    assert(bytes.take(b.len() as int) =~= bytes);
    if words.len() == 4 {
        let mut oct: Vec<u8> = Vec::new();
        let mut i: usize = 0;
        while i < 16
            invariant
                words.len() == 4,
                i <= 16,
                oct.len() == i,
                forall|j: int| 0 <= j < i ==> #[trigger] oct@[j] == le_byte(
                    words@[j / 4] as nat,
                    (j % 4) as nat,
                ) as u8,
            decreases 16 - i,
        {
            let byte = le_byte_of(words[i / 4], (i % 4) as u64);
            oct.push(byte as u8);
            i = i + 1;
        }
        let arr: [u8; 16] = [
            oct[0],
            oct[1],
            oct[2],
            oct[3],
            oct[4],
            oct[5],
            oct[6],
            oct[7],
            oct[8],
            oct[9],
            oct[10],
            oct[11],
            oct[12],
            oct[13],
            oct[14],
            oct[15],
        ];
        let ghost w = hex_words(chunks8(bytes));
        assert(arr@ =~= words_octets(w)) by {
            assert forall|j: int| 0 <= j < 16 implies #[trigger] arr@[j] == words_octets(w)[j] by {
                assert(w[j / 4] == words@[j / 4] as nat);
            }
        }
        format_ipv6(arr)
    } else {
        string_of(a)
    }
}

fn addr_text_of(a: &Vec<char>, is_v6: bool) -> (s: String)
    ensures
        s@ == addr_text(a@, is_v6),
{
    if is_v6 {
        ipv6_or_hex(a)
    } else {
        match parse_unsigned(a, 16, u32::MAX as u64) {
            Some(n) => ipv4_le_string(n),
            None => string_of(a),
        }
    }
}

/// Parse hex address:port like "0100007F:1F40" into ("127.0.0.1", 8000).
pub fn parse_addr(field: &str, is_v6: bool) -> (r: (String, u16))
    ensures
        (r.0@, r.1) == addr_port(field@, is_v6),
{
    let fv = chars_of(field);
    parse_addr_chars(&fv, is_v6)
}

fn parse_addr_chars(fv: &Vec<char>, is_v6: bool) -> (r: (String, u16))
    ensures
        (r.0@, r.1) == addr_port(fv@, is_v6),
{
    match split_once_chars(fv, ':') {
        None => (string_from("?"), 0),
        Some((a, p)) => {
            let port: u16 = match parse_unsigned(&p, 16, u16::MAX as u64) {
                Some(v) => v as u16,
                None => 0,
            };
            (addr_text_of(&a, is_v6), port)
        },
    }
}


// ─── Tables ──────────────────────────────────────────────────────────────────

#[derive(Debug, Clone)]
pub struct SocketEntry {
    pub protocol: String,
    pub local_addr: String,
    pub local_port: u16,
}

impl View for SocketEntry {
    type V = (Seq<char>, Seq<char>, u16);

    open spec fn view(&self) -> (Seq<char>, Seq<char>, u16) {
        (self.protocol@, self.local_addr@, self.local_port)
    }
}

#[derive(Debug, Clone)]
pub struct ConnectionEntry {
    pub protocol: String,
    pub local_addr: String,
    pub local_port: u16,
    pub remote_addr: String,
    pub remote_port: u16,
    pub state: String,
}

impl View for ConnectionEntry {
    type V = (Seq<char>, Seq<char>, u16, Seq<char>, u16, Seq<char>);

    open spec fn view(&self) -> (Seq<char>, Seq<char>, u16, Seq<char>, u16, Seq<char>) {
        (
            self.protocol@,
            self.local_addr@,
            self.local_port,
            self.remote_addr@,
            self.remote_port,
            self.state@,
        )
    }
}

#[derive(Debug, Clone)]
pub struct NetworkInfo {
    pub listening_tcp: Vec<SocketEntry>,
    pub listening_udp: Vec<SocketEntry>,
    pub connections: Vec<ConnectionEntry>,
}

pub type SockV = (Seq<char>, Seq<char>, u16);

pub type ConnV = (Seq<char>, Seq<char>, u16, Seq<char>, u16, Seq<char>);

pub type NetView = (Seq<SockV>, Seq<SockV>, Seq<ConnV>);

impl View for NetworkInfo {
    type V = NetView;

    open spec fn view(&self) -> NetView {
        (
            self.listening_tcp@.map_values(|e: SocketEntry| e@),
            self.listening_udp@.map_values(|e: SocketEntry| e@),
            self.connections@.map_values(|e: ConnectionEntry| e@),
        )
    }
}

/// The contents of `/proc/net/{tcp,udp,tcp6,udp6}`, each `None` when it could not be read.
#[derive(Debug, Clone)]
pub struct NetTables {
    pub tcp: Option<String>,
    pub udp: Option<String>,
    pub tcp6: Option<String>,
    pub udp6: Option<String>,
}

/// The lines of a table after its header line.
pub open spec fn data_lines(t: Seq<char>) -> Seq<Seq<char>> {
    let ls = lines(t);
    if ls.len() == 0 {
        ls
    } else {
        ls.drop_first()
    }
}

/// Inode column of a row (0 when it does not parse).
pub open spec fn row_inode(f: Seq<Seq<char>>) -> u64 {
    match parse_uint(f[9], 10, u64::MAX as nat) {
        Some(v) => v as u64,
        None => 0,
    }
}

/// State column of a row as a name (state 0 when it does not parse).
pub open spec fn row_state(f: Seq<Seq<char>>) -> Seq<char> {
    tcp_state_name(
        match parse_uint(f[3], 16, u8::MAX as nat) {
            Some(v) => v as u8,
            None => 0,
        },
    )
}

/// What one row of a table adds for a process owning `inodes`: a row with
/// fewer than ten columns, or whose socket is not the process's, adds
/// nothing; a `LISTEN` row adds a listening socket (UDP or TCP list); a UDP
/// row with remote port 0 (a bound, unconnected socket, in state `CLOSE`)
/// adds a listening UDP socket; another row adds a connection.
pub open spec fn net_row(acc: NetView, line: Seq<char>, proto: Seq<char>, is_v6: bool, udp: bool, inodes: Set<u64>) -> NetView {
    let f = ws_fields(line);
    if f.len() < 10 || !inodes.contains(row_inode(f)) {
        acc
    } else {
        let local = addr_port(f[1], is_v6);
        let remote = addr_port(f[2], is_v6);
        let state = row_state(f);
        if state == "LISTEN"@ {
            let e = (proto, local.0, local.1);
            if udp {
                (acc.0, acc.1.push(e), acc.2)
            } else {
                (acc.0.push(e), acc.1, acc.2)
            }
        } else if udp && remote.1 == 0 {
            (acc.0, acc.1.push((proto, local.0, local.1)), acc.2)
        } else {
            (acc.0, acc.1, acc.2.push((proto, local.0, local.1, remote.0, remote.1, state)))
        }
    }
}

pub open spec fn net_rows(acc: NetView, ls: Seq<Seq<char>>, proto: Seq<char>, is_v6: bool, udp: bool, inodes: Set<u64>) -> NetView
    decreases ls.len(),
{
    if ls.len() == 0 {
        acc
    } else {
        net_row(net_rows(acc, ls.drop_last(), proto, is_v6, udp, inodes), ls.last(), proto, is_v6, udp, inodes)
    }
}

pub open spec fn net_table(acc: NetView, content: Option<String>, proto: Seq<char>, is_v6: bool, udp: bool, inodes: Set<u64>) -> NetView {
    match content {
        None => acc,
        Some(t) => net_rows(acc, data_lines(t@), proto, is_v6, udp, inodes),
    }
}

/// Listening sockets and connections of the process that owns `inodes`, from
/// the four tables in the order TCP, UDP, TCP6, UDP6.
pub open spec fn network_of(tables: NetTables, inodes: Set<u64>) -> NetView {
    let e: NetView = (seq![], seq![], seq![]);
    let a = net_table(e, tables.tcp, "TCP"@, false, false, inodes);
    let b = net_table(a, tables.udp, "UDP"@, false, true, inodes);
    let c = net_table(b, tables.tcp6, "TCP6"@, true, false, inodes);
    net_table(c, tables.udp6, "UDP6"@, true, true, inodes)
}

fn row_inode_of(f: &Vec<Vec<char>>) -> (r: u64)
    requires
        f.len() >= 10,
    ensures
        r == row_inode(f.deep_view()),
{
    proof {
        lemma_char_vec_dv(f@[9]);
    }
    match parse_unsigned(&f[9], 10, u64::MAX) {
        Some(v) => v,
        None => 0,
    }
}

fn row_state_of(f: &Vec<Vec<char>>) -> (r: &'static str)
    requires
        f.len() >= 10,
    ensures
        r@ == row_state(f.deep_view()),
{
    proof {
        lemma_char_vec_dv(f@[3]);
    }
    let st: u8 = match parse_unsigned(&f[3], 16, u8::MAX as u64) {
        Some(v) => v as u8,
        None => 0,
    };
    tcp_state(st)
}

fn scan_table(
    info: &mut NetworkInfo,
    content: &Option<String>,
    proto: &str,
    is_v6: bool,
    udp: bool,
    inodes: &std::collections::HashSet<u64>,
)
    ensures
        final(info)@ == net_table(old(info)@, *content, proto@, is_v6, udp, inodes@),
{
    let text = match content {
        None => {
            return;
        },
        Some(t) => t,
    };
    let tv = chars_of(text.as_str());
    let ls = lines_of(&tv);
    let ghost dl = data_lines(text@);
    let ghost acc0 = info@;
    if ls.len() == 0 {
        assert(dl.len() == 0);
        return;
    }
    assert(dl =~= ls.deep_view().drop_first());
    let mut i: usize = 1;
    assert(dl.take(0) =~= Seq::<Seq<char>>::empty());
    while i < ls.len()
        invariant
            1 <= i <= ls.len(),
            dl == ls.deep_view().drop_first(),
            info@ == net_rows(acc0, dl.take(i - 1), proto@, is_v6, udp, inodes@),
        decreases ls.len() - i,
    {
        let ghost k = (i - 1) as int;
        assert(dl.take(k + 1).drop_last() =~= dl.take(k));
        proof {
            lemma_char_vec_dv(ls@[i as int]);
        }
        assert(dl.take(k + 1).last() == ls@[i as int]@);
        let f = split_ws(&ls[i]);
        let ghost before = info@;
        if f.len() >= 10 {
            let inode = row_inode_of(&f);
            if inodes.contains(&inode) {
                proof {
                    lemma_char_vec_dv(f@[1]);
                    lemma_char_vec_dv(f@[2]);
                }
                let (laddr, lport) = parse_addr_chars(&f[1], is_v6);
                let (raddr, rport) = parse_addr_chars(&f[2], is_v6);
                let state = row_state_of(&f);
                if crate::text::str_eq(state, "LISTEN") {
                    let e = SocketEntry { protocol: string_from(proto), local_addr: laddr, local_port: lport };
                    if udp {
                        info.listening_udp.push(e);
                    } else {
                        info.listening_tcp.push(e);
                    }
                    assert(info@.0 =~= (if udp { before.0 } else { before.0.push(e@) }));
                    assert(info@.1 =~= (if udp { before.1.push(e@) } else { before.1 }));
                } else if udp && rport == 0 {
                    let e = SocketEntry { protocol: string_from(proto), local_addr: laddr, local_port: lport };
                    info.listening_udp.push(e);
                    assert(info@.1 =~= before.1.push(e@));
                } else {
                    let c = ConnectionEntry {
                        protocol: string_from(proto),
                        local_addr: laddr,
                        local_port: lport,
                        remote_addr: raddr,
                        remote_port: rport,
                        state: string_from(state),
                    };
                    info.connections.push(c);
                    assert(info@.2 =~= before.2.push(c@));
                }
            }
        }
        assert(info@ == net_row(before, ls@[i as int]@, proto@, is_v6, udp, inodes@));
        i = i + 1;
    }
    assert(dl.take(ls.len() - 1) =~= dl);
}

/// Listening sockets and active connections of the process whose socket
/// inodes are `socket_inodes`, from the contents of the four tables.
pub fn collect_network(tables: &NetTables, socket_inodes: &std::collections::HashSet<u64>) -> (r: NetworkInfo)
    ensures
        r@ == network_of(*tables, socket_inodes@),
{
    let mut info = NetworkInfo { listening_tcp: Vec::new(), listening_udp: Vec::new(), connections: Vec::new() };
    assert(info@ =~= (seq![], seq![], seq![]));
    scan_table(&mut info, &tables.tcp, "TCP", false, false, socket_inodes);
    scan_table(&mut info, &tables.udp, "UDP", false, true, socket_inodes);
    scan_table(&mut info, &tables.tcp6, "TCP6", true, false, socket_inodes);
    scan_table(&mut info, &tables.udp6, "UDP6", true, true, socket_inodes);
    info
}


// ─── Port search ─────────────────────────────────────────────────────────────

pub type PortUseV = (Seq<char>, Seq<char>, Seq<char>);

/// `ADDR:PORT` text of an address and port.
pub open spec fn endpoint_text(a: (Seq<char>, u16)) -> Seq<char> {
    a.0 + seq![':'] + dec(a.1 as nat)
}

/// What one row adds to the port map: rows with fewer than ten columns, or
/// with neither end on `port`, add nothing; another row maps its inode to
/// its kind (`LISTEN/<proto>` or `CONN/<proto>`), local end and remote end
/// (`-` for a listening socket), replacing an earlier entry of that inode.
pub open spec fn port_row(m: Map<u64, PortUseV>, line: Seq<char>, proto: Seq<char>, is_v6: bool, port: u16) -> Map<u64, PortUseV> {
    let f = ws_fields(line);
    if f.len() < 10 {
        m
    } else {
        let local = addr_port(f[1], is_v6);
        let remote = addr_port(f[2], is_v6);
        if local.1 != port && remote.1 != port {
            m
        } else {
            let listen = row_state(f) == "LISTEN"@;
            let kind = if listen {
                "LISTEN/"@ + proto
            } else {
                "CONN/"@ + proto
            };
            let remote_s = if listen {
                "-"@
            } else {
                endpoint_text(remote)
            };
            m.insert(row_inode(f), (kind, endpoint_text(local), remote_s))
        }
    }
}

pub open spec fn port_rows(m: Map<u64, PortUseV>, ls: Seq<Seq<char>>, proto: Seq<char>, is_v6: bool, port: u16) -> Map<u64, PortUseV>
    decreases ls.len(),
{
    if ls.len() == 0 {
        m
    } else {
        port_row(port_rows(m, ls.drop_last(), proto, is_v6, port), ls.last(), proto, is_v6, port)
    }
}

pub open spec fn port_table(m: Map<u64, PortUseV>, content: Option<String>, proto: Seq<char>, is_v6: bool, port: u16) -> Map<u64, PortUseV> {
    match content {
        None => m,
        Some(t) => port_rows(m, data_lines(t@), proto, is_v6, port),
    }
}

/// Inode → (kind, local, remote) of every socket on `port`, over the four
/// tables in the order TCP, UDP, TCP6, UDP6 (a later row wins).
pub open spec fn port_uses(tables: NetTables, port: u16) -> Map<u64, PortUseV> {
    let a = port_table(Map::empty(), tables.tcp, "TCP"@, false, port);
    let b = port_table(a, tables.udp, "UDP"@, false, port);
    let c = port_table(b, tables.tcp6, "TCP6"@, true, port);
    port_table(c, tables.udp6, "UDP6"@, true, port)
}

/// The view of a port map with its text as character sequences.
pub open spec fn port_map_view(m: Map<u64, (String, String, String)>) -> Map<u64, PortUseV> {
    m.map_values(|v: (String, String, String)| (v.0@, v.1@, v.2@))
}

fn endpoint_string(a: &String, port: u16) -> (s: String)
    ensures
        s@ == endpoint_text((a@, port)),
{
    let mut v = chars_of(a.as_str());
    v.push(':');
    push_dec(&mut v, port as u64);
    assert(v@ =~= endpoint_text((a@, port)));
    string_of(&v)
}

fn scan_port_table(
    m: &mut std::collections::HashMap<u64, (String, String, String)>,
    content: &Option<String>,
    proto: &str,
    is_v6: bool,
    port: u16,
)
    ensures
        port_map_view(final(m)@) == port_table(port_map_view(old(m)@), *content, proto@, is_v6, port),
{
    let text = match content {
        None => {
            return;
        },
        Some(t) => t,
    };
    let tv = chars_of(text.as_str());
    let ls = lines_of(&tv);
    let ghost dl = data_lines(text@);
    let ghost m0 = port_map_view(m@);
    if ls.len() == 0 {
        assert(dl.len() == 0);
        return;
    }
    assert(dl =~= ls.deep_view().drop_first());
    let mut i: usize = 1;
    assert(dl.take(0) =~= Seq::<Seq<char>>::empty());
    while i < ls.len()
        invariant
            1 <= i <= ls.len(),
            dl == ls.deep_view().drop_first(),
            port_map_view(m@) == port_rows(m0, dl.take(i - 1), proto@, is_v6, port),
        decreases ls.len() - i,
    {
        let ghost k = (i - 1) as int;
        assert(dl.take(k + 1).drop_last() =~= dl.take(k));
        proof {
            lemma_char_vec_dv(ls@[i as int]);
        }
        assert(dl.take(k + 1).last() == ls@[i as int]@);
        let f = split_ws(&ls[i]);
        let ghost before = port_map_view(m@);
        if f.len() >= 10 {
            proof {
                lemma_char_vec_dv(f@[1]);
                lemma_char_vec_dv(f@[2]);
            }
            let (laddr, lport) = parse_addr_chars(&f[1], is_v6);
            let (raddr, rport) = parse_addr_chars(&f[2], is_v6);
            if lport == port || rport == port {
                let inode = row_inode_of(&f);
                let state = row_state_of(&f);
                let listen = crate::text::str_eq(state, "LISTEN");
                let mut kind = if listen {
                    string_from("LISTEN/")
                } else {
                    string_from("CONN/")
                };
                crate::text::push_str(&mut kind, proto);
                let local_s = endpoint_string(&laddr, lport);
                let remote_s = if listen {
                    string_from("-")
                } else {
                    endpoint_string(&raddr, rport)
                };
                let ghost val = (kind@, local_s@, remote_s@);
                m.insert(inode, (kind, local_s, remote_s));
                assert(port_map_view(m@) =~= before.insert(inode, val));
            }
        }
        assert(port_map_view(m@) == port_row(before, ls@[i as int]@, proto@, is_v6, port));
        i = i + 1;
    }
    assert(dl.take(ls.len() - 1) =~= dl);
}

/// One pass over the four tables: inode → (kind, local, remote) for every socket on `port`.
pub fn inodes_using_port(port: u16, tables: &NetTables) -> (r: std::collections::HashMap<u64, (String, String, String)>)
    ensures
        port_map_view(r@) == port_uses(*tables, port),
{
    let mut m: std::collections::HashMap<u64, (String, String, String)> = std::collections::HashMap::new();
    assert(port_map_view(m@) =~= Map::<u64, PortUseV>::empty());
    scan_port_table(&mut m, &tables.tcp, "TCP", false, port);
    scan_port_table(&mut m, &tables.udp, "UDP", false, port);
    scan_port_table(&mut m, &tables.tcp6, "TCP6", true, port);
    scan_port_table(&mut m, &tables.udp6, "UDP6", true, port);
    m
}

/// The inode of a `socket:[N]` link target.
pub open spec fn socket_inode_of(target: Seq<char>) -> Option<nat> {
    match bracketed(target, "socket:["@, ']') {
        Some(inner) => parse_uint(inner, 10, u64::MAX as nat),
        None => None,
    }
}

pub fn socket_inode(target: &str) -> (r: Option<u64>)
    ensures
        match r {
            Some(v) => socket_inode_of(target@) == Some(v as nat),
            None => socket_inode_of(target@).is_none(),
        },
{
    let tv = chars_of(target);
    match strip_brackets(&tv, "socket:[", ']') {
        Some(inner) => parse_unsigned(&inner, 10, u64::MAX),
        None => None,
    }
}

/// The socket inodes among the link targets of `/proc/<pid>/fd`.
pub open spec fn socket_inodes_of(targets: Seq<Option<String>>) -> Set<u64>
    decreases targets.len(),
{
    if targets.len() == 0 {
        Set::empty()
    } else {
        let prev = socket_inodes_of(targets.drop_last());
        match targets.last() {
            Some(t) => match socket_inode_of(t@) {
                Some(v) => prev.insert(v as u64),
                None => prev,
            },
            None => prev,
        }
    }
}

/// Socket inodes of a process, from the link targets of its `/proc/<pid>/fd`
/// entries (`None` for a link that could not be read).
pub fn process_socket_inodes(targets: &Vec<Option<String>>) -> (r: std::collections::HashSet<u64>)
    ensures
        r@ == socket_inodes_of(targets@),
{
    let mut set: std::collections::HashSet<u64> = std::collections::HashSet::new();
    let mut i: usize = 0;
    assert(targets@.take(0) =~= Seq::<Option<String>>::empty());
    assert(set@ =~= Set::<u64>::empty());
    while i < targets.len()
        invariant
            i <= targets.len(),
            set@ == socket_inodes_of(targets@.take(i as int)),
        decreases targets.len() - i,
    {
        assert(targets@.take(i + 1).drop_last() =~= targets@.take(i as int));
        match &targets[i] {
            Some(t) => match socket_inode(t.as_str()) {
                Some(v) => {
                    set.insert(v);
                },
                None => {},
            },
            None => {},
        }
        i = i + 1;
    }
    assert(targets@.take(targets.len() as int) =~= targets@);
    set
}

} // verus!
