//! Writing IPv4 and IPv6 addresses as text, in the usual shortest form.
//!
//! An IPv4 address is written as four decimal fields. An IPv6 address is
//! written as eight lower-case hexadecimal groups without leading zeros; the
//! longest run of two or more zero groups (the first such run when several are
//! equally long) is replaced by `::`, and an IPv4-mapped address
//! (`::ffff:a.b.c.d`) keeps its IPv4 part in dotted form.

use vstd::prelude::*;

use crate::ip_text::words;
use crate::text::{decimal, hex_lower, push_decimal, push_hex_lower};

verus! {

/// The dotted-decimal text of an IPv4 address.
pub open spec fn ipv4_text(v: u32) -> Seq<char> {
    decimal((v / 16777216) as nat) + "."@ + decimal(((v / 65536) % 256) as nat) + "."@ + decimal(
        ((v / 256) % 256) as nat,
    ) + "."@ + decimal((v % 256) as nat)
}

/// The `k` base-65536 digits of `n`, most significant first (higher digits dropped).
pub open spec fn fixed_words(n: nat, k: nat) -> Seq<nat>
    decreases k,
{
    if k == 0 {
        Seq::empty()
    } else {
        fixed_words(n / 65536, (k - 1) as nat).push(n % 65536)
    }
}

/// The eight 16-bit groups of an IPv6 address.
pub open spec fn ipv6_segments(v: u128) -> Seq<nat> {
    fixed_words(v as nat, 8)
}

/// Groups written in lower-case hexadecimal, separated by `:`.
pub open spec fn join_hex(ws: Seq<nat>) -> Seq<char>
    decreases ws.len(),
{
    if ws.len() == 0 {
        Seq::empty()
    } else if ws.len() == 1 {
        hex_lower(ws[0])
    } else {
        join_hex(ws.drop_last()) + ":"@ + hex_lower(ws.last())
    }
}

/// `g[start..start + len]` are all zero.
pub open spec fn zeros_in(g: Seq<nat>, start: int, len: int) -> bool {
    &&& 0 <= start
    &&& 0 <= len
    &&& start + len <= g.len()
    &&& forall|k: int| start <= k < start + len ==> #[trigger] g[k] == 0
}

/// `g[start..start + len]` is the longest run of zeros in `g`, and the first among the longest.
pub open spec fn best_zero_span(g: Seq<nat>, start: int, len: int) -> bool {
    &&& zeros_in(g, start, len)
    &&& forall|s2: int, l2: int| #[trigger] zeros_in(g, s2, l2) ==> l2 <= len
    &&& forall|s2: int| 0 <= s2 < start ==> !zeros_in(g, s2, len)
}

/// The groups of an IPv4-mapped IPv6 address (`::ffff:a.b.c.d`).
pub open spec fn is_ipv4_mapped(g: Seq<nat>) -> bool {
    g[0] == 0 && g[1] == 0 && g[2] == 0 && g[3] == 0 && g[4] == 0 && g[5] == 65535
}

/// The text of an IPv6 address.
pub open spec fn ipv6_text(v: u128) -> Seq<char> {
    let g = ipv6_segments(v);
    if is_ipv4_mapped(g) {
        "::ffff:"@ + ipv4_text((g[6] * 65536 + g[7]) as u32)
    } else {
        let span = choose|p: (int, int)| best_zero_span(g, p.0, p.1);
        if span.1 > 1 {
            join_hex(g.subrange(0, span.0)) + "::"@ + join_hex(g.subrange(span.0 + span.1, 8))
        } else {
            join_hex(g)
        }
    }
}

/// Appends the dotted-decimal text of an IPv4 address.
pub fn push_ipv4_text(s: &mut String, v: u32)
    ensures
        final(s)@ == old(s)@ + ipv4_text(v),
{
    let ghost s0 = old(s)@;
    push_decimal(s, (v / 16777216) as u64);
    s.append(".");
    push_decimal(s, ((v / 65536) % 256) as u64);
    s.append(".");
    push_decimal(s, ((v / 256) % 256) as u64);
    s.append(".");
    push_decimal(s, (v % 256) as u64);
    assert(s@ =~= s0 + ipv4_text(v));
}

fn push_fixed_words(out: &mut Vec<u16>, n: u128, k: usize)
    ensures
        words(final(out)@) == words(old(out)@) + fixed_words(n as nat, k as nat),
    decreases k,
{
    if k > 0 {
        push_fixed_words(out, n / 65536, k - 1);
        let ghost w1 = words(out@);
        out.push((n % 65536) as u16);
        assert(words(out@) =~= w1.push((n % 65536) as nat));
        assert(words(out@) =~= words(old(out)@) + fixed_words(n as nat, k as nat));
    } else {
        assert(words(out@) =~= words(old(out)@) + fixed_words(n as nat, k as nat));
    }
}

/// The eight groups of an IPv6 address.
pub fn segments_of(v: u128) -> (g: Vec<u16>)
    ensures
        g.len() == 8,
        words(g@) == ipv6_segments(v),
{
    let mut g: Vec<u16> = Vec::new();
    push_fixed_words(&mut g, v, 8);
    assert(words(g@).len() == 8) by {
        assert(words(Seq::<u16>::empty()) =~= Seq::empty());
        lemma_fixed_words_len(v as nat, 8);
    }
    proof {
        assert(words(Seq::<u16>::empty()) =~= Seq::empty());
        assert(Seq::<nat>::empty() + fixed_words(v as nat, 8) =~= fixed_words(v as nat, 8));
    }
    g
}

proof fn lemma_fixed_words_len(n: nat, k: nat)
    ensures
        fixed_words(n, k).len() == k,
    decreases k,
{
    if k > 0 {
        lemma_fixed_words_len(n / 65536, (k - 1) as nat);
    }
}

/// Appends the groups `g[lo..hi]`, joined by `:`.
fn push_join_hex(s: &mut String, g: &Vec<u16>, lo: usize, hi: usize)
    requires
        lo <= hi <= g.len(),
    ensures
        final(s)@ == old(s)@ + join_hex(words(g@).subrange(lo as int, hi as int)),
{
    let ghost s0 = old(s)@;
    let ghost w = words(g@);
    let mut i = lo;
    assert(w.subrange(lo as int, lo as int) =~= Seq::<nat>::empty());
    assert(s@ =~= s0 + join_hex(w.subrange(lo as int, lo as int)));
    while i < hi
        invariant
            lo <= i <= hi <= g.len(),
            w == words(g@),
            s@ == s0 + join_hex(w.subrange(lo as int, i as int)),
        decreases hi - i,
    {
        let ghost prev = s@;
        assert(w.subrange(lo as int, i + 1).drop_last() =~= w.subrange(lo as int, i as int));
        if i > lo {
            s.append(":");
        }
        push_hex_lower(s, g[i] as u64);
        if i == lo {
            assert(w.subrange(lo as int, i + 1) =~= seq![w[i as int]]);
        }
        assert(s@ =~= s0 + join_hex(w.subrange(lo as int, i + 1)));
        i += 1;
    }
}

/// Finds the longest run of zero groups (the first among the longest).
fn best_zero_span_of(g: &Vec<u16>) -> (r: (usize, usize))
    requires
        g.len() == 8,
    ensures
        best_zero_span(words(g@), r.0 as int, r.1 as int),
{
    let ghost w = words(g@);
    let mut ls: usize = 0;
    let mut ll: usize = 0;
    let mut cs: usize = 0;
    let mut cl: usize = 0;
    let mut i: usize = 0;
    while i < 8
        invariant
            g.len() == 8,
            w == words(g@),
            w.len() == 8,
            i <= 8,
            ls + ll <= i,
            zeros_in(w, ls as int, ll as int),
            ll == 0 ==> ls == 0,
            forall|s2: int, l2: int|
                #![trigger zeros_in(w, s2, l2)]
                s2 + l2 <= i && zeros_in(w, s2, l2) ==> l2 <= ll,
            forall|s2: int| 0 <= s2 < ls && s2 + ll <= i ==> !zeros_in(w, s2, ll as int),
            cs + cl == i,
            cl <= ll,
            zeros_in(w, cs as int, cl as int),
            cs == 0 || w[cs - 1] != 0,
        decreases 8 - i,
    {
        if g[i] == 0 {
            cl = cl + 1;
            assert(zeros_in(w, cs as int, cl as int));
            assert forall|s2: int, l2: int|
                #![trigger zeros_in(w, s2, l2)]
                s2 + l2 == i + 1 && zeros_in(w, s2, l2) implies l2 <= cl by {
                if s2 < cs {
                    assert(w[cs - 1] == 0);
                }
            }
            if cl > ll {
                assert forall|s2: int| 0 <= s2 < cs && s2 + cl <= i + 1 implies !zeros_in(
                    w,
                    s2,
                    cl as int,
                ) by {
                    if zeros_in(w, s2, cl as int) {
                        assert(zeros_in(w, s2, (cl - 1) as int + 1));
                        assert(s2 + cl <= i);
                    }
                }
                ls = cs;
                ll = cl;
            } else {
                assert forall|s2: int| 0 <= s2 < ls && s2 + ll <= i + 1 implies !zeros_in(
                    w,
                    s2,
                    ll as int,
                ) by {
                    if s2 + ll == i + 1 && zeros_in(w, s2, ll as int) {
                        if s2 < cs {
                            assert(w[cs - 1] == 0);
                        }
                    }
                }
            }
        } else {
            assert forall|s2: int, l2: int|
                #![trigger zeros_in(w, s2, l2)]
                s2 + l2 == i + 1 && zeros_in(w, s2, l2) implies l2 <= ll by {
                if l2 > 0 {
                    assert(w[i as int] == 0);
                }
            }
            assert forall|s2: int| 0 <= s2 < ls && s2 + ll <= i + 1 implies !zeros_in(
                w,
                s2,
                ll as int,
            ) by {
                if s2 + ll == i + 1 && zeros_in(w, s2, ll as int) && ll > 0 {
                    assert(w[i as int] == 0);
                }
            }
            cs = i + 1;
            cl = 0;
        }
        i += 1;
    }
    (ls, ll)
}

/// Appends the text of an IPv6 address.
pub fn push_ipv6_text(s: &mut String, v: u128)
    ensures
        final(s)@ == old(s)@ + ipv6_text(v),
{
    let ghost s0 = old(s)@;
    let g = segments_of(v);
    let ghost w = words(g@);
    assert(w[0] == g@[0] as nat && w[5] == g@[5] as nat);
    if g[0] == 0 && g[1] == 0 && g[2] == 0 && g[3] == 0 && g[4] == 0 && g[5] == 65535 {
        s.append("::ffff:");
        push_ipv4_text(s, (g[6] as u32) * 65536 + g[7] as u32);
        assert(s@ =~= s0 + ipv6_text(v));
    } else {
        assert(!is_ipv4_mapped(w));
        let (st, ln) = best_zero_span_of(&g);
        proof {
            let span = choose|p: (int, int)| best_zero_span(w, p.0, p.1);
            assert(best_zero_span(w, st as int, ln as int));
            assert(best_zero_span(w, span.0, span.1));
            assert(zeros_in(w, span.0, span.1));
            assert(zeros_in(w, st as int, ln as int));
            assert(span.1 <= ln && ln <= span.1);
            if span.0 < st {
                assert(!zeros_in(w, span.0, ln as int));
            }
            if st < span.0 {
                assert(!zeros_in(w, st as int, span.1));
            }
            assert(span == (st as int, ln as int));
        }
        if ln > 1 {
            push_join_hex(s, &g, 0, st);
            s.append("::");
            push_join_hex(s, &g, st + ln, 8);
            assert(s@ =~= s0 + ipv6_text(v));
        } else {
            push_join_hex(s, &g, 0, 8);
            assert(w.subrange(0, 8) =~= w);
            assert(s@ =~= s0 + ipv6_text(v));
        }
    }
}

} // verus!
