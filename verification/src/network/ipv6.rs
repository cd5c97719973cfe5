use vstd::prelude::*;
use crate::text::{dec, push_dec, string_of};

verus! {

/// Lowercase hexadecimal digits of `n`, without leading zeros.
pub open spec fn hex(n: nat) -> Seq<char>
    decreases n,
{
    if n < 16 {
        seq![hex_char(n)]
    } else {
        hex(n / 16).push(hex_char(n % 16))
    }
}

pub open spec fn hex_char(d: nat) -> char {
    if d < 10 {
        ((d + 48) as u8) as char
    } else {
        ((d + 87) as u8) as char
    }
}

fn hex_ch(d: u64) -> (c: char)
    requires
        d < 16,
    ensures
        c == hex_char(d as nat),
{
    if d < 10 {
        ((d + 48) as u8) as char
    } else {
        ((d + 87) as u8) as char
    }
}

fn push_hex(out: &mut Vec<char>, n: u64)
    ensures
        final(out)@ == old(out)@ + hex(n as nat),
    decreases n,
{
    if n >= 16 {
        push_hex(out, n / 16);
    }
    let c = hex_ch(n % 16);
    out.push(c);
    assert(out@ =~= old(out)@ + hex(n as nat));
}

/// The eight 16-bit groups of an address, most significant octet first.
pub open spec fn segments(o: Seq<u8>) -> Seq<nat> {
    Seq::new(8, |i: int| (o[2 * i] as nat) * 256 + o[2 * i + 1] as nat)
}

/// Groups in hexadecimal joined by `:`.
pub open spec fn hex_join(s: Seq<nat>) -> Seq<char>
    decreases s.len(),
{
    if s.len() == 0 {
        seq![]
    } else if s.len() == 1 {
        hex(s[0])
    } else {
        hex_join(s.drop_last()) + seq![':'] + hex(s.last())
    }
}

/// Start and length of the longest run of zero groups, the first one of
/// that length: the scan state after groups `s`, as (best start, best length,
/// current start, current length).
pub open spec fn zero_scan(s: Seq<nat>) -> (int, int, int, int)
    decreases s.len(),
{
    if s.len() == 0 {
        (0, 0, 0, 0)
    } else {
        let (bs, bl, cs, cl) = zero_scan(s.drop_last());
        let i = s.len() - 1;
        if s.last() == 0 {
            let ncs = if cl == 0 { i } else { cs };
            let ncl = cl + 1;
            if ncl > bl {
                (ncs, ncl, ncs, ncl)
            } else {
                (bs, bl, ncs, ncl)
            }
        } else {
            (bs, bl, 0, 0)
        }
    }
}

/// Whether the address is an IPv4-mapped one (`::ffff:a.b.c.d`).
pub open spec fn is_v4_mapped(o: Seq<u8>) -> bool {
    let g = segments(o);
    g[0] == 0 && g[1] == 0 && g[2] == 0 && g[3] == 0 && g[4] == 0 && g[5] == 0xffff
}

/// Text of an IPv6 address in the canonical style of RFC 5952: lowercase
/// hexadecimal groups without leading zeros, the first longest run of two or
/// more zero groups written `::`, and an IPv4-mapped address as `::ffff:`
/// followed by the IPv4 address in dotted decimal.
pub open spec fn ipv6_text(o: Seq<u8>) -> Seq<char> {
    let g = segments(o);
    if is_v4_mapped(o) {
        "::ffff:"@ + dec(o[12] as nat) + seq!['.'] + dec(o[13] as nat) + seq!['.'] + dec(
            o[14] as nat,
        ) + seq!['.'] + dec(o[15] as nat)
    } else {
        let (start, len, _, _) = zero_scan(g);
        if len > 1 {
            hex_join(g.take(start)) + seq![':', ':'] + hex_join(g.skip(start + len))
        } else {
            hex_join(g)
        }
    }
}

proof fn lemma_zero_scan_bounds(s: Seq<nat>)
    ensures
        ({
            let (bs, bl, cs, cl) = zero_scan(s);
            &&& 0 <= bs && 0 <= bl && bs + bl <= s.len()
            &&& 0 <= cs && 0 <= cl && cs + cl == (if cl > 0 { s.len() as int } else { cs + cl })
            &&& cl <= bl
            &&& cs + cl <= s.len()
        }),
    decreases s.len(),
{
    if s.len() > 0 {
        lemma_zero_scan_bounds(s.drop_last());
    }
}

/// Without two zero groups side by side, the scan finds no run longer than
/// one group.
proof fn lemma_zero_scan_short(s: Seq<nat>)
    requires
        forall|i: int| 0 <= i && i + 1 < s.len() ==> !(s[i] == 0 && #[trigger] s[i + 1] == 0),
    ensures
        zero_scan(s).1 <= 1,
        zero_scan(s).3 <= 1,
        zero_scan(s).3 == 1 ==> s.last() == 0,
    decreases s.len(),
{
    if s.len() > 0 {
        let t = s.drop_last();
        assert forall|i: int| 0 <= i && i + 1 < t.len() implies !(t[i] == 0 && #[trigger] t[i + 1]
            == 0) by {
            assert(t[i] == s[i] && t[i + 1] == s[i + 1]);
        }
        lemma_zero_scan_short(t);
        if s.len() >= 2 && s.last() == 0 {
            let i = s.len() - 2;
            assert(!(s[i] == 0 && s[i + 1] == 0));
            assert(t.last() == s[i]);
        }
    }
}

/// `::` stands only for a run of two or more zero groups: an address (not
/// IPv4-mapped) without two zero groups side by side is written as its eight
/// groups joined by `:`.
pub proof fn lemma_ipv6_single_zero_groups(o: Seq<u8>)
    requires
        o.len() == 16,
        !is_v4_mapped(o),
        forall|i: int| 0 <= i < 7 ==> !(segments(o)[i] == 0 && #[trigger] segments(o)[i + 1] == 0),
    ensures
        ipv6_text(o) == hex_join(segments(o)),
{
    let g = segments(o);
    assert forall|i: int| 0 <= i && i + 1 < g.len() implies !(g[i] == 0 && #[trigger] g[i + 1] == 0) by {
        assert(!(segments(o)[i] == 0 && segments(o)[i + 1] == 0));
    }
    lemma_zero_scan_short(g);
}

/// Appends `hex_join(g[from..to])`.
fn push_hex_join(out: &mut Vec<char>, g: &Vec<u64>, from: usize, to: usize)
    requires
        from <= to <= g.len(),
    ensures
        final(out)@ == old(out)@ + hex_join(g@.subrange(from as int, to as int).map_values(|x: u64| x as nat)),
{
    let ghost o0 = out@;
    let mut i = from;
    assert(g@.subrange(from as int, from as int).map_values(|x: u64| x as nat) =~= Seq::<nat>::empty());
    while i < to
        invariant
            from <= i <= to <= g.len(),
            out@ == o0 + hex_join(g@.subrange(from as int, i as int).map_values(|x: u64| x as nat)),
        decreases to - i,
    {
        let ghost prev = g@.subrange(from as int, i as int).map_values(|x: u64| x as nat);
        let ghost next = g@.subrange(from as int, i + 1).map_values(|x: u64| x as nat);
        assert(next.drop_last() =~= prev);
        assert(next.last() == g@[i as int] as nat);
        if i > from {
            out.push(':');
        }
        push_hex(out, g[i]);
        assert(out@ =~= o0 + hex_join(next));
        i = i + 1;
    }
}

/// `Ipv6Addr::from(octets).to_string()`: the RFC 5952 text of the address.
pub fn format_ipv6(o: [u8; 16]) -> (s: String)
    ensures
        s@ == ipv6_text(o@),
{
    let ghost ov = o@;
    let mut g: Vec<u64> = Vec::new();
    let mut i: usize = 0;
    while i < 8
        invariant
            ov == o@,
            ov.len() == 16,
            i <= 8,
            g.len() == i,
            forall|j: int| 0 <= j < i ==> (#[trigger] g@[j]) as nat == segments(ov)[j],
            forall|j: int| 0 <= j < i ==> #[trigger] g@[j] <= 0xffff,
        decreases 8 - i,
    {
        g.push((o[2 * i] as u64) * 256 + (o[2 * i + 1] as u64));
        i = i + 1;
    }
    let ghost gs = segments(ov);
    assert(g@.map_values(|x: u64| x as nat) =~= gs);
    let mut v: Vec<char> = Vec::new();
    if g[0] == 0 && g[1] == 0 && g[2] == 0 && g[3] == 0 && g[4] == 0 && g[5] == 0xffff {
        v.push(':');
        v.push(':');
        v.push('f');
        v.push('f');
        v.push('f');
        v.push('f');
        v.push(':');
        push_dec(&mut v, o[12] as u64);
        v.push('.');
        push_dec(&mut v, o[13] as u64);
        v.push('.');
        push_dec(&mut v, o[14] as u64);
        v.push('.');
        push_dec(&mut v, o[15] as u64);
        proof {
            reveal_strlit("::ffff:");
        }
        assert(v@ =~= ipv6_text(ov));
        return string_of(&v);
    }
    // Longest run of zero groups, the first one on a tie.
    let mut bs: usize = 0;
    let mut bl: usize = 0;
    let mut cs: usize = 0;
    let mut cl: usize = 0;
    let mut k: usize = 0;
    while k < 8
        invariant
            g.len() == 8,
            gs == g@.map_values(|x: u64| x as nat),
            k <= 8,
            zero_scan(gs.take(k as int)) == (bs as int, bl as int, cs as int, cl as int),
            bs + bl <= k,
            cs + cl <= k,
        decreases 8 - k,
    {
        assert(gs.take(k + 1).drop_last() =~= gs.take(k as int));
        assert(gs.take(k + 1).last() == g@[k as int] as nat);
        proof {
            lemma_zero_scan_bounds(gs.take(k as int));
        }
        if g[k] == 0 {
            if cl == 0 {
                cs = k;
            }
            cl = cl + 1;
            if cl > bl {
                bs = cs;
                bl = cl;
            }
        } else {
            cs = 0;
            cl = 0;
        }
        k = k + 1;
    }
    assert(gs.take(8) =~= gs);
    if bl > 1 {
        push_hex_join(&mut v, &g, 0, bs);
        v.push(':');
        v.push(':');
        push_hex_join(&mut v, &g, bs + bl, 8);
        assert(g@.subrange(0, bs as int).map_values(|x: u64| x as nat) =~= gs.take(bs as int));
        assert(g@.subrange((bs + bl) as int, 8).map_values(|x: u64| x as nat) =~= gs.skip((bs + bl) as int));
        assert(v@ =~= ipv6_text(ov));
    } else {
        push_hex_join(&mut v, &g, 0, 8);
        assert(g@.subrange(0, 8).map_values(|x: u64| x as nat) =~= gs);
        assert(v@ =~= ipv6_text(ov));
    }
    string_of(&v)
}

} // verus!
