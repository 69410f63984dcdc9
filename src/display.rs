//! How IP addresses, socket addresses and next hops are written out: IPv4 in
//! dotted decimal, IPv6 in the canonical form of RFC 5952.
use vstd::prelude::*;

use crate::addr::{IpAddr, NextHop, SocketAddr};
use crate::text::{decimal_digits, hex_digits, push_char, push_decimal_digits, push_hex_digits};

verus! {

/// The lowest `n` digits of `v` in base `base`, the most significant first.
pub open spec fn base_digits(v: u128, base: u128, n: nat) -> Seq<u128>
    decreases n,
{
    if n == 0 || base == 0 {
        Seq::empty()
    } else {
        base_digits(v / base, base, (n - 1) as nat).push(v % base)
    }
}

fn split_digits(v: u128, base: u128, n: usize) -> (r: Vec<u128>)
    requires
        base > 0,
    ensures
        r@ == base_digits(v, base, n as nat),
    decreases n,
{
    if n == 0 {
        Vec::new()
    } else {
        let mut r = split_digits(v / base, base, n - 1);
        r.push(v % base);
        r
    }
}

/// The four octets of an IPv4 address.
pub open spec fn octets(v: u32) -> Seq<u128> {
    base_digits(v as u128, 256, 4)
}

/// The eight 16-bit groups of an IPv6 address.
pub open spec fn segments(v: u128) -> Seq<u128> {
    base_digits(v, 65536, 8)
}

/// Numbers in decimal, separated by dots.
pub open spec fn dotted(parts: Seq<u128>) -> Seq<char>
    decreases parts.len(),
{
    if parts.len() == 0 {
        Seq::empty()
    } else if parts.len() == 1 {
        decimal_digits(parts[0] as nat)
    } else {
        dotted(parts.drop_last()).push('.') + decimal_digits(parts.last() as nat)
    }
}

/// Numbers in lowercase hexadecimal without leading zeros, separated by
/// colons.
pub open spec fn hex_groups(parts: Seq<u128>) -> Seq<char>
    decreases parts.len(),
{
    if parts.len() == 0 {
        Seq::empty()
    } else if parts.len() == 1 {
        hex_digits(parts[0] as nat)
    } else {
        hex_groups(parts.drop_last()).push(':') + hex_digits(parts.last() as nat)
    }
}

/// An IPv4 address in dotted decimal.
pub open spec fn v4_text(v: u32) -> Seq<char> {
    dotted(octets(v))
}

/// The `len` groups from `start` on are all zero.
pub open spec fn zeros_at(s: Seq<u128>, start: int, len: int) -> bool {
    &&& 0 <= start
    &&& 0 <= len
    &&& start + len <= s.len()
    &&& forall|k: int| start <= k < start + len ==> s[k] == 0
}

/// `(start, len)` is the longest run of zero groups, the first of them where
/// several are longest; `(0, 0)` where there is no zero group.
pub open spec fn is_longest_zero_run(s: Seq<u128>, start: int, len: int) -> bool {
    &&& zeros_at(s, start, len)
    &&& len == 0 ==> start == 0
    &&& forall|st: int, l: int|
        #[trigger] zeros_at(s, st, l) ==> l <= len && (l == len && len > 0 ==> start <= st)
}

/// The longest run of zero groups, the first of them where several are
/// longest.
pub open spec fn longest_zero_run(s: Seq<u128>) -> (int, int) {
    choose|p: (int, int)| is_longest_zero_run(s, p.0, p.1)
}

/// An IPv6 address as RFC 5952 writes it: an IPv4-mapped address as
/// `::ffff:` and dotted decimal; otherwise the groups in hexadecimal, with the
/// longest run of two or more zero groups (the first such) shortened to `::`.
pub open spec fn v6_text(v: u128) -> Seq<char> {
    let s = segments(v);
    if s.take(6) == seq![0u128, 0u128, 0u128, 0u128, 0u128, 0xffffu128] {
        "::ffff:"@ + v4_text((v % 0x1_0000_0000) as u32)
    } else {
        let run = longest_zero_run(s);
        if run.1 > 1 {
            hex_groups(s.take(run.0)) + "::"@ + hex_groups(s.skip(run.0 + run.1))
        } else {
            hex_groups(s)
        }
    }
}

/// A socket address: `a.b.c.d:port`, or `[v6]:port`.
pub open spec fn socket_text(a: SocketAddr) -> Seq<char> {
    match a.ip {
        IpAddr::V4(v) => v4_text(v) + ":"@ + decimal_digits(a.port as nat),
        IpAddr::V6(v) => "["@ + v6_text(v) + "]:"@ + decimal_digits(a.port as nat),
    }
}

/// A next hop: `Broadcast(addr)` or `Destination(addr)`.
pub open spec fn next_hop_text(h: NextHop) -> Seq<char> {
    match h {
        NextHop::Broadcast(a) => "Broadcast("@ + socket_text(a) + ")"@,
        NextHop::Destination(a) => "Destination("@ + socket_text(a) + ")"@,
    }
}

/// Appends `parts[from..to]` in hexadecimal, separated by colons.
fn push_hex_groups(s: &mut String, parts: &Vec<u128>, from: usize, to: usize)
    requires
        from <= to <= parts@.len(),
    ensures
        final(s)@ == old(s)@ + hex_groups(parts@.subrange(from as int, to as int)),
{
    let mut i: usize = from;
    while i < to
        invariant
            from <= i <= to <= parts@.len(),
            s@ == old(s)@ + hex_groups(parts@.subrange(from as int, i as int)),
        decreases to - i,
    {
        let ghost done = parts@.subrange(from as int, i as int);
        let ghost next = parts@.subrange(from as int, i as int + 1);
        assert(next.drop_last() =~= done);
        if i > from {
            push_char(s, ':');
        }
        push_hex_digits(s, parts[i]);
        proof {
            if i == from {
                assert(hex_groups(done) =~= Seq::<char>::empty());
            }
        }
        assert(s@ =~= old(s)@ + hex_groups(parts@.subrange(from as int, i as int + 1)));
        i = i + 1;
    }
}

/// Appends the numbers in decimal, separated by dots.
fn push_dotted(s: &mut String, parts: &Vec<u128>)
    ensures
        final(s)@ == old(s)@ + dotted(parts@),
{
    let mut i: usize = 0;
    while i < parts.len()
        invariant
            i <= parts@.len(),
            s@ == old(s)@ + dotted(parts@.take(i as int)),
        decreases parts@.len() - i,
    {
        let ghost done = parts@.take(i as int);
        let ghost next = parts@.take(i as int + 1);
        assert(next.drop_last() =~= done);
        if i > 0 {
            push_char(s, '.');
        }
        push_decimal_digits(s, parts[i]);
        proof {
            if i == 0 {
                assert(dotted(done) =~= Seq::<char>::empty());
            }
        }
        assert(s@ =~= old(s)@ + dotted(parts@.take(i as int + 1)));
        i = i + 1;
    }
    assert(parts@.take(i as int) =~= parts@);
}

proof fn lemma_base_digits_len(v: u128, base: u128, n: nat)
    requires
        base > 0,
    ensures
        base_digits(v, base, n).len() == n,
    decreases n,
{
    if n > 0 {
        lemma_base_digits_len(v / base, base, (n - 1) as nat);
    }
}

proof fn lemma_longest_zero_run_unique(s: Seq<u128>, a: int, la: int, b: int, lb: int)
    requires
        is_longest_zero_run(s, a, la),
        is_longest_zero_run(s, b, lb),
    ensures
        a == b,
        la == lb,
{
    assert(zeros_at(s, a, la));
    assert(zeros_at(s, b, lb));
}

fn find_longest_zero_run(segs: &Vec<u128>) -> (r: (usize, usize))
    ensures
        is_longest_zero_run(segs@, r.0 as int, r.1 as int),
{
    let n: usize = segs.len();
    let mut best_start: usize = 0;
    let mut best_len: usize = 0;
    let mut i: usize = 0;
    while i < n
        invariant
            i <= n == segs@.len(),
            zeros_at(segs@, best_start as int, best_len as int),
            best_len == 0 ==> best_start == 0,
            best_len > 0 ==> best_start < i,
            forall|st: int, l: int|
                0 <= st < i && #[trigger] zeros_at(segs@, st, l) ==> l <= best_len && (l
                    == best_len && best_len > 0 ==> best_start <= st),
        decreases n - i,
    {
        let mut j: usize = i;
        while j < n && segs[j] == 0
            invariant
                i <= j <= n == segs@.len(),
                forall|k: int| i <= k < j ==> segs@[k] == 0,
            decreases n - j,
        {
            j = j + 1;
        }
        assert forall|l: int| #[trigger] zeros_at(segs@, i as int, l) implies l <= j - i by {
            if l > j - i {
                assert(segs@[j as int] == 0);
            }
        }
        if j - i > best_len {
            best_start = i;
            best_len = j - i;
        }
        i = i + 1;
    }
    assert forall|st: int, l: int| #[trigger] zeros_at(segs@, st, l) implies l <= best_len && (l
        == best_len && best_len > 0 ==> best_start <= st) by {
        if st >= n {
            assert(l == 0);
        }
    }
    (best_start, best_len)
}

fn push_v4(s: &mut String, v: u32)
    ensures
        final(s)@ == old(s)@ + v4_text(v),
{
    let parts = split_digits(v as u128, 256, 4);
    push_dotted(s, &parts);
}

fn push_v6(s: &mut String, v: u128)
    ensures
        final(s)@ == old(s)@ + v6_text(v),
{
    let segs = split_digits(v, 65536, 8);
    proof {
        lemma_base_digits_len(v, 65536, 8);
    }
    let ghost mapped = seq![0u128, 0u128, 0u128, 0u128, 0u128, 0xffffu128];
    if segs[0] == 0 && segs[1] == 0 && segs[2] == 0 && segs[3] == 0 && segs[4] == 0 && segs[5]
        == 0xffff {
        assert(segs@.take(6) =~= mapped);
        s.append("::ffff:");
        push_v4(s, (v % 0x1_0000_0000) as u32);
        assert(final(s)@ =~= old(s)@ + v6_text(v));
    } else {
        proof {
            if segs@.take(6) == mapped {
                assert(segs@[0] == segs@.take(6)[0]);
                assert(segs@[1] == segs@.take(6)[1]);
                assert(segs@[2] == segs@.take(6)[2]);
                assert(segs@[3] == segs@.take(6)[3]);
                assert(segs@[4] == segs@.take(6)[4]);
                assert(segs@[5] == segs@.take(6)[5]);
            }
        }
        let (start, len) = find_longest_zero_run(&segs);
        proof {
            let w = (start as int, len as int);
            assert(is_longest_zero_run(segs@, w.0, w.1));
            let p = longest_zero_run(segs@);
            lemma_longest_zero_run_unique(segs@, p.0, p.1, w.0, w.1);
        }
        if len > 1 {
            push_hex_groups(s, &segs, 0, start);
            s.append("::");
            push_hex_groups(s, &segs, start + len, 8);
            assert(segs@.subrange(0, start as int) =~= segs@.take(start as int));
            assert(segs@.subrange(start + len, 8) =~= segs@.skip(start + len));
        } else {
            push_hex_groups(s, &segs, 0, 8);
            assert(segs@.subrange(0, 8) =~= segs@);
        }
        assert(final(s)@ =~= old(s)@ + v6_text(v));
    }
}

fn push_socket(s: &mut String, a: &SocketAddr)
    ensures
        final(s)@ == old(s)@ + socket_text(*a),
{
    match a.ip {
        IpAddr::V4(v) => {
            push_v4(s, v);
            s.append(":");
        },
        IpAddr::V6(v) => {
            s.append("[");
            push_v6(s, v);
            s.append("]:");
        },
    }
    push_decimal_digits(s, a.port as u128);
    assert(final(s)@ =~= old(s)@ + socket_text(*a));
}

impl NextHop {
    /// The next hop written out: `Broadcast(addr)` or `Destination(addr)`,
    /// with the socket address as `a.b.c.d:port` or `[v6]:port`.
    pub fn as_string(&self) -> (r: String)
        ensures
            r@ == next_hop_text(*self),
    {
        let mut s = String::new();
        match self {
            NextHop::Broadcast(a) => {
                s.append("Broadcast(");
                push_socket(&mut s, a);
            },
            NextHop::Destination(a) => {
                s.append("Destination(");
                push_socket(&mut s, a);
            },
        }
        s.append(")");
        assert(s@ =~= next_hop_text(*self));
        s
    }
}

} // verus!
