//! Reading back what is written: an address printed in its usual form, and a
//! number printed in decimal, read back to the same value.

use vstd::prelude::*;

use crate::condition::{parse_u8_text, scan_u8_digits};
use vstd::arithmetic::div_mod::{lemma_breakdown, lemma_fundamental_div_mod_converse, lemma_small_mod};

use crate::ip_format::{
    best_zero_span, fixed_words, ipv4_text, ipv6_segments, ipv6_text, is_ipv4_mapped, join_hex,
    zeros_in,
};
use crate::ip_text::{
    all_hex_groups, colon_fields, digit_value, digits_value, double_colon_at, first_double_colon,
    group_values, hex_group_ok, ipv4_field_ok, ipv6_words, is_dec_digit, is_hex_digit,
    ipv4_words, lemma_first_double_colon_unique, parse_ipv4_text, parse_ipv6_text, split,
    tail_words,
    words_value,
};
use crate::text::{decimal, digit_char, hex_lower, radix_text};

verus! {

/// The character of a digit value is a digit of that value.
proof fn lemma_digit_char(d: nat, upper: bool, radix: nat)
    requires
        d < radix,
        radix == 10 || radix == 16,
        radix == 10 ==> upper,
    ensures
        is_hex_digit(digit_char(d, upper)),
        radix == 10 ==> is_dec_digit(digit_char(d, upper)),
        digit_value(digit_char(d, upper)) == d,
        (digit_char(d, upper) == '0') <==> d == 0,
{
}

/// What the digits of `n` in base 10 or 16 are: digits of their base, as
/// many as `n` needs, with no leading zero, whose value is `n`.
pub proof fn lemma_radix_text(n: nat, radix: nat, upper: bool)
    requires
        radix == 10 || radix == 16,
        radix == 10 ==> upper,
    ensures
        radix_text(n, radix, upper).len() >= 1,
        forall|i: int|
            0 <= i < radix_text(n, radix, upper).len() ==> is_hex_digit(
                #[trigger] radix_text(n, radix, upper)[i],
            ) && (radix == 10 ==> is_dec_digit(radix_text(n, radix, upper)[i])),
        digits_value(radix_text(n, radix, upper), radix) == n,
        n >= radix ==> radix_text(n, radix, upper)[0] != '0',
        n == 0 ==> radix_text(n, radix, upper) == seq!['0'],
        n < radix * radix ==> radix_text(n, radix, upper).len() <= 2,
        n < radix * radix * radix ==> radix_text(n, radix, upper).len() <= 3,
        n < radix * radix * radix * radix ==> radix_text(n, radix, upper).len() <= 4,
    decreases n,
{
    let t = radix_text(n, radix, upper);
    if n < radix {
        lemma_digit_char(n, upper, radix);
        assert(t.drop_last() =~= Seq::<char>::empty());
        assert(digits_value(t.drop_last(), radix) == 0);
        assert(t.last() == digit_char(n, upper));
    } else {
        assert(n / radix < n) by (nonlinear_arith)
            requires
                n >= radix,
                radix >= 2,
        ;
        lemma_radix_text(n / radix, radix, upper);
        let p = radix_text(n / radix, radix, upper);
        lemma_digit_char(n % radix, upper, radix);
        assert(t == p.push(digit_char(n % radix, upper)));
        assert(t.drop_last() =~= p);
        assert(n == (n / radix) * radix + n % radix) by (nonlinear_arith)
            requires
                radix > 0,
        ;
        assert(t.last() == digit_char(n % radix, upper));
        assert(digits_value(t, radix) == digits_value(p, radix) * radix + digit_value(
            digit_char(n % radix, upper),
        ));
        assert(n / radix >= radix ==> p[0] != '0');
        assert(n / radix < radix ==> p[0] != '0') by {
            if n / radix < radix {
                assert(n / radix != 0) by (nonlinear_arith)
                    requires
                        n >= radix,
                        radix > 0,
                ;
                lemma_digit_char(n / radix, upper, radix);
            }
        }
        assert(t[0] == p[0]);
        assert(n < radix * radix ==> n / radix < radix) by (nonlinear_arith)
            requires
                radix > 0,
        ;
        assert(n < radix * radix * radix ==> n / radix < radix * radix) by (nonlinear_arith)
            requires
                radix > 0,
        ;
        assert(n < radix * radix * radix * radix ==> n / radix < radix * radix * radix)
            by (nonlinear_arith)
            requires
                radix > 0,
        ;
    }
}

/// A text without `sep` is one field.
pub proof fn lemma_split_none(s: Seq<char>, sep: char)
    requires
        forall|i: int| 0 <= i < s.len() ==> s[i] != sep,
    ensures
        split(s, sep) == seq![s],
    decreases s.len(),
{
    if s.len() > 0 {
        lemma_split_none(s.drop_last(), sep);
        assert(s.drop_last().push(s.last()) =~= s);
        assert(seq![s.drop_last()].update(0, s) =~= seq![s]);
    } else {
        assert(s =~= Seq::<char>::empty());
    }
}

/// A separator followed by a text without it adds that text as a field.
pub proof fn lemma_split_append(a: Seq<char>, sep: char, t: Seq<char>)
    requires
        forall|i: int| 0 <= i < t.len() ==> t[i] != sep,
    ensures
        split(a.push(sep) + t, sep) == split(a, sep).push(t),
    decreases t.len(),
{
    let s = a.push(sep) + t;
    if t.len() == 0 {
        assert(s =~= a.push(sep));
        assert(s.drop_last() =~= a);
        assert(t =~= Seq::<char>::empty());
    } else {
        lemma_split_append(a, sep, t.drop_last());
        assert(s.drop_last() =~= a.push(sep) + t.drop_last());
        assert(s.last() == t.last());
        let prev = split(a, sep).push(t.drop_last());
        assert(t.drop_last().push(t.last()) =~= t);
        assert(prev.last() == t.drop_last());
        assert(prev.update(prev.len() - 1, prev.last().push(t.last())) =~= split(a, sep).push(t));
    }
}

/// The decimal text of a byte value is a field of an IPv4 address.
proof fn lemma_byte_field(n: nat)
    requires
        n <= 255,
    ensures
        ipv4_field_ok(decimal(n)),
        digits_value(decimal(n), 10) == n,
        forall|i: int| 0 <= i < decimal(n).len() ==> is_dec_digit(#[trigger] decimal(n)[i]),
{
    lemma_radix_text(n, 10, true);
    if n >= 10 {
        assert(decimal(n)[0] != '0');
    }
}

/// The dotted text of an IPv4 address: its characters are digits and dots.
pub open spec fn dotted_chars(s: Seq<char>) -> bool {
    forall|i: int| 0 <= i < s.len() ==> is_dec_digit(#[trigger] s[i]) || s[i] == '.'
}

/// An IPv4 address printed in dotted-decimal form reads back as itself.
pub proof fn lemma_ipv4_text_roundtrip(v: u32)
    ensures
        parse_ipv4_text(ipv4_text(v)) == Some(v),
        dotted_chars(ipv4_text(v)),
        ipv4_text(v).len() >= 1,
{
    let a = (v / 16777216) as nat;
    let b = ((v / 65536) % 256) as nat;
    let c = ((v / 256) % 256) as nat;
    let d = (v % 256) as nat;
    assert(v / 16777216 <= 255) by (bit_vector);
    lemma_byte_field(a);
    lemma_byte_field(b);
    lemma_byte_field(c);
    lemma_byte_field(d);
    let da = decimal(a);
    let db = decimal(b);
    let dc = decimal(c);
    let dd = decimal(d);
    assert forall|i: int| 0 <= i < da.len() implies da[i] != '.' by {
        assert(is_dec_digit(da[i]));
    }
    assert forall|i: int| 0 <= i < db.len() implies db[i] != '.' by {
        assert(is_dec_digit(db[i]));
    }
    assert forall|i: int| 0 <= i < dc.len() implies dc[i] != '.' by {
        assert(is_dec_digit(dc[i]));
    }
    assert forall|i: int| 0 <= i < dd.len() implies dd[i] != '.' by {
        assert(is_dec_digit(dd[i]));
    }
    lemma_split_none(da, '.');
    lemma_split_append(da, '.', db);
    lemma_split_append(da.push('.') + db, '.', dc);
    lemma_split_append((da.push('.') + db).push('.') + dc, '.', dd);
    reveal_strlit(".");
    let s = ((da.push('.') + db).push('.') + dc).push('.') + dd;
    assert(ipv4_text(v) =~= s);
    assert(split(s, '.') =~= seq![da, db, dc, dd]);
    assert(v as int == (v / 16777216) * 16777216 + ((v / 65536) % 256) * 65536 + ((v / 256) % 256)
        * 256 + v % 256) by (bit_vector);
    assert forall|i: int| 0 <= i < s.len() implies is_dec_digit(#[trigger] s[i]) || s[i] == '.' by {
        let l1 = da.len() as int;
        let l2 = l1 + 1 + db.len();
        let l3 = l2 + 1 + dc.len();
        if i < l1 {
            assert(s[i] == da[i]);
        } else if i == l1 {
        } else if i < l2 {
            assert(s[i] == db[i - l1 - 1]);
        } else if i == l2 {
        } else if i < l3 {
            assert(s[i] == dc[i - l2 - 1]);
        } else if i == l3 {
        } else {
            assert(s[i] == dd[i - l3 - 1]);
        }
    }
}

/// A byte printed in decimal reads back as itself.
pub proof fn lemma_u8_decimal_roundtrip(p: u8)
    ensures
        parse_u8_text(decimal(p as nat)) == Ok::<u8, crate::condition::IntErrorKind>(p),
        forall|i: int| 0 <= i < decimal(p as nat).len() ==> is_dec_digit(#[trigger] decimal(p as nat)[i]),
{
    let d = decimal(p as nat);
    lemma_radix_text(p as nat, 10, true);
    assert(is_dec_digit(d[0]));
    reveal_with_fuel(digits_value, 4);
    reveal_with_fuel(scan_u8_digits, 4);
    if d.len() == 1 {
        assert(d.drop_first() =~= Seq::<char>::empty());
        assert(d.drop_last() =~= Seq::<char>::empty());
    } else if d.len() == 2 {
        assert(is_dec_digit(d[1]));
        assert(d.drop_first().drop_first() =~= Seq::<char>::empty());
        assert(d.drop_last().drop_last() =~= Seq::<char>::empty());
        assert(d.drop_last()[0] == d[0]);
    } else {
        assert(is_dec_digit(d[1]));
        assert(is_dec_digit(d[2]));
        assert(d.drop_first().drop_first().drop_first() =~= Seq::<char>::empty());
        assert(d.drop_last().drop_last().drop_last() =~= Seq::<char>::empty());
        assert(d.drop_last().drop_last()[0] == d[0]);
        assert(d.drop_last()[1] == d[1]);
    }
}

/// `65536` to the power `k`.
pub open spec fn base_pow(k: nat) -> nat
    decreases k,
{
    if k == 0 {
        1
    } else {
        base_pow((k - 1) as nat) * 65536
    }
}

/// The `k` base-65536 digits of `n` are digits, and their value is `n`
/// without its higher digits.
pub proof fn lemma_fixed_words_value(n: nat, k: nat)
    ensures
        fixed_words(n, k).len() == k,
        forall|i: int| 0 <= i < k ==> #[trigger] fixed_words(n, k)[i] < 65536,
        words_value(fixed_words(n, k)) == n % base_pow(k),
        base_pow(k) > 0,
    decreases k,
{
    if k == 0 {
        lemma_small_mod(0, 1);
        assert(n % 1 == 0) by (nonlinear_arith);
    } else {
        let prev = fixed_words(n / 65536, (k - 1) as nat);
        lemma_fixed_words_value(n / 65536, (k - 1) as nat);
        let fw = fixed_words(n, k);
        assert(fw == prev.push(n % 65536));
        assert(fw.drop_last() =~= prev);
        let pk = base_pow((k - 1) as nat);
        lemma_breakdown(n as int, 65536, pk as int);
        assert(65536 * pk == pk * 65536) by (nonlinear_arith);
        assert(base_pow(k) == pk * 65536);
        assert(base_pow(k) > 0) by (nonlinear_arith)
            requires
                pk > 0,
                base_pow(k) == pk * 65536,
        ;
        assert forall|i: int| 0 <= i < k implies #[trigger] fw[i] < 65536 by {
            if i < k - 1 {
                assert(fw[i] == prev[i]);
            }
        }
    }
}

/// The eight groups of an IPv6 address have the address as their value.
pub proof fn lemma_segments_value(v: u128)
    ensures
        fixed_words(v as nat, 8).len() == 8,
        forall|i: int| 0 <= i < 8 ==> #[trigger] fixed_words(v as nat, 8)[i] < 65536,
        words_value(fixed_words(v as nat, 8)) == v,
{
    lemma_fixed_words_value(v as nat, 8);
    reveal_with_fuel(base_pow, 9);
    assert(base_pow(8) == 0x1_0000_0000_0000_0000_0000_0000_0000_0000);
    lemma_small_mod(v as nat, base_pow(8));
}

/// The hexadecimal texts of groups.
pub open spec fn hex_fields(ws: Seq<nat>) -> Seq<Seq<char>> {
    Seq::new(ws.len(), |i: int| hex_lower(ws[i]))
}

/// The texts of 16-bit groups are hexadecimal groups of their values.
pub proof fn lemma_hex_fields(ws: Seq<nat>)
    requires
        forall|i: int| 0 <= i < ws.len() ==> #[trigger] ws[i] < 65536,
    ensures
        all_hex_groups(hex_fields(ws)),
        group_values(hex_fields(ws)) == ws,
{
    assert forall|i: int| 0 <= i < ws.len() implies hex_group_ok(#[trigger] hex_fields(ws)[i])
        && digits_value(hex_fields(ws)[i], 16) == ws[i] by {
        lemma_radix_text(ws[i], 16, false);
        assert(ws[i] < 16 * 16 * 16 * 16);
    }
    assert(group_values(hex_fields(ws)) =~= ws);
}

/// No `::` anywhere in `s`.
pub open spec fn no_double_colon(s: Seq<char>) -> bool {
    forall|i: int| !double_colon_at(s, i)
}

/// Hexadecimal digits and colons only.
pub open spec fn hex_or_colon(s: Seq<char>) -> bool {
    forall|i: int| 0 <= i < s.len() ==> is_hex_digit(#[trigger] s[i]) || s[i] == ':'
}

/// Groups joined by `:` split back into their texts; the text has no `::`,
/// and starts and ends with a digit.
pub proof fn lemma_join_hex(ws: Seq<nat>)
    requires
        ws.len() >= 1,
        forall|i: int| 0 <= i < ws.len() ==> #[trigger] ws[i] < 65536,
    ensures
        split(join_hex(ws), ':') == hex_fields(ws),
        hex_or_colon(join_hex(ws)),
        no_double_colon(join_hex(ws)),
        join_hex(ws).len() >= 1,
        is_hex_digit(join_hex(ws)[0]),
        is_hex_digit(join_hex(ws).last()),
    decreases ws.len(),
{
    let j = join_hex(ws);
    if ws.len() == 1 {
        lemma_radix_text(ws[0], 16, false);
        assert forall|i: int| 0 <= i < j.len() implies j[i] != ':' by {
            assert(is_hex_digit(j[i]));
        }
        lemma_split_none(j, ':');
        assert(hex_fields(ws) =~= seq![j]);
        assert forall|i: int| !double_colon_at(j, i) by {
            if 0 <= i && i + 1 < j.len() {
                assert(is_hex_digit(j[i]));
            }
        }
    } else {
        let w0 = ws.drop_last();
        assert forall|i: int| 0 <= i < w0.len() implies #[trigger] w0[i] < 65536 by {
            assert(w0[i] == ws[i]);
        }
        lemma_join_hex(w0);
        let a = join_hex(w0);
        let h = hex_lower(ws.last());
        lemma_radix_text(ws.last(), 16, false);
        reveal_strlit(":");
        assert(j =~= a.push(':') + h);
        assert forall|i: int| 0 <= i < h.len() implies h[i] != ':' by {
            assert(is_hex_digit(h[i]));
        }
        lemma_split_append(a, ':', h);
        assert(hex_fields(ws) =~= hex_fields(w0).push(h));
        let la = a.len() as int;
        assert forall|i: int| 0 <= i < j.len() implies is_hex_digit(#[trigger] j[i]) || j[i]
            == ':' by {
            if i < la {
                assert(j[i] == a[i]);
            } else if i > la {
                assert(j[i] == h[i - la - 1]);
            }
        }
        assert forall|i: int| !double_colon_at(j, i) by {
            if 0 <= i && i + 1 < j.len() {
                if i + 1 < la {
                    assert(j[i] == a[i] && j[i + 1] == a[i + 1]);
                    assert(!double_colon_at(a, i));
                } else if i + 1 == la {
                    assert(j[i] == a.last());
                } else if i == la {
                    assert(j[i + 1] == h[0]);
                } else {
                    assert(j[i] == h[i - la - 1]);
                }
            }
        }
        assert(j[0] == a[0]);
        assert(j.last() == h.last());
    }
}

/// The first field of a text that does not start with the separator starts
/// with the text's first character.
pub proof fn lemma_split_first(s: Seq<char>, sep: char)
    requires
        s.len() >= 1,
        s[0] != sep,
    ensures
        split(s, sep)[0].len() >= 1,
        split(s, sep)[0][0] == s[0],
    decreases s.len(),
{
    crate::ip_text::lemma_split_len(s, sep);
    if s.len() == 1 {
        assert(s.drop_last() =~= Seq::<char>::empty());
    } else {
        lemma_split_first(s.drop_last(), sep);
        crate::ip_text::lemma_split_len(s.drop_last(), sep);
    }
}

/// The first start of a run of `l` zero groups at or after `s`, given that one exists.
proof fn lemma_first_run(g: Seq<nat>, l: int, s: int, witness: int) -> (st: int)
    requires
        0 <= s <= witness,
        zeros_in(g, witness, l),
        forall|s2: int| 0 <= s2 < s ==> !zeros_in(g, s2, l),
    ensures
        zeros_in(g, st, l),
        forall|s2: int| 0 <= s2 < st ==> !zeros_in(g, s2, l),
    decreases witness - s,
{
    if zeros_in(g, s, l) {
        s
    } else {
        lemma_first_run(g, l, s + 1, witness)
    }
}

/// The length of the longest run of zero groups, no longer than `l`.
proof fn lemma_longest_run(g: Seq<nat>, l: int) -> (r: (int, int))
    requires
        0 <= l <= g.len(),
        forall|s2: int, l2: int| zeros_in(g, s2, l2) ==> l2 <= l,
    ensures
        zeros_in(g, r.0, r.1),
        forall|s2: int, l2: int| #[trigger] zeros_in(g, s2, l2) ==> l2 <= r.1,
    decreases l,
{
    if exists|s2: int| zeros_in(g, s2, l) {
        let w = choose|s2: int| zeros_in(g, s2, l);
        (w, l)
    } else {
        assert(zeros_in(g, 0, 0));
        lemma_longest_run(g, l - 1)
    }
}

/// Every address has a longest run of zero groups, and a first among the longest.
pub proof fn lemma_best_zero_span_exists(g: Seq<nat>)
    ensures
        exists|p: (int, int)| best_zero_span(g, p.0, p.1),
{
    let r = lemma_longest_run(g, g.len() as int);
    let st = lemma_first_run(g, r.1, 0, r.0);
    assert(best_zero_span(g, st, r.1));
    let p = (st, r.1);
    assert(best_zero_span(g, p.0, p.1));
}

/// Groups that are all digits, with a run of at least two zero groups written
/// as `::`, read back as the groups.
proof fn lemma_compressed_text(g: Seq<nat>, st: int, l: int)
    requires
        g.len() == 8,
        forall|i: int| 0 <= i < 8 ==> #[trigger] g[i] < 65536,
        zeros_in(g, st, l),
        l > 1,
    ensures
        ipv6_words(join_hex(g.subrange(0, st)) + "::"@ + join_hex(g.subrange(st + l, 8)))
            == Some(g),
        hex_or_colon(join_hex(g.subrange(0, st)) + "::"@ + join_hex(g.subrange(st + l, 8))),
{
    let h = g.subrange(0, st);
    let tl = g.subrange(st + l, 8);
    assert forall|i: int| 0 <= i < h.len() implies #[trigger] h[i] < 65536 by {
        assert(h[i] == g[i]);
    }
    assert forall|i: int| 0 <= i < tl.len() implies #[trigger] tl[i] < 65536 by {
        assert(tl[i] == g[st + l + i]);
    }
    let a = join_hex(h);
    let b = join_hex(tl);
    if h.len() >= 1 {
        lemma_join_hex(h);
    } else {
        assert(h =~= Seq::<nat>::empty());
    }
    if tl.len() >= 1 {
        lemma_join_hex(tl);
    } else {
        assert(tl =~= Seq::<nat>::empty());
    }
    reveal_strlit("::");
    let s = a + "::"@ + b;
    assert(s =~= a + seq![':', ':'] + b);
    let p = a.len() as int;
    assert forall|j: int| 0 <= j < p implies !double_colon_at(s, j) by {
        if j + 1 < p {
            assert(s[j] == a[j] && s[j + 1] == a[j + 1]);
            assert(!double_colon_at(a, j));
        } else {
            assert(s[j] == a.last());
        }
    }
    assert(first_double_colon(s, p));
    lemma_first_double_colon_unique(s, p);
    assert(s.subrange(0, p) =~= a);
    assert(s.subrange(p + 2, s.len() as int) =~= b);
    assert(colon_fields(a) =~= hex_fields(h));
    assert(colon_fields(b) =~= hex_fields(tl));
    lemma_hex_fields(h);
    lemma_hex_fields(tl);
    assert(tail_words(hex_fields(tl)) == Some(tl));
    assert(group_values(hex_fields(h)) + Seq::new(
        (8 - hex_fields(h).len() - tl.len()) as nat,
        |k: int| 0nat,
    ) + tl =~= g);
    assert forall|i: int| 0 <= i < s.len() implies is_hex_digit(#[trigger] s[i]) || s[i] == ':' by {
        if i < p {
            assert(s[i] == a[i]);
        } else if i >= p + 2 {
            assert(s[i] == b[i - p - 2]);
        }
    }
}

/// Eight groups written in full read back as the groups.
proof fn lemma_plain_text(g: Seq<nat>)
    requires
        g.len() == 8,
        forall|i: int| 0 <= i < 8 ==> #[trigger] g[i] < 65536,
    ensures
        ipv6_words(join_hex(g)) == Some(g),
        hex_or_colon(join_hex(g)),
{
    lemma_join_hex(g);
    let s = join_hex(g);
    assert(!exists|i: int| first_double_colon(s, i));
    lemma_hex_fields(g);
}

/// An IPv4-mapped address written as `::ffff:` and its IPv4 part reads back
/// as its groups; its text starts with a colon and has no `/`.
/// The part after `::` of an IPv4-mapped address, `ffff:` and the IPv4
/// address, stands for the group `ffff` and the two groups of the address.
proof fn lemma_mapped_tail(w: u32)
    ensures
        tail_words(colon_fields(seq!['f', 'f', 'f', 'f', ':'] + ipv4_text(w))) == Some(
            seq![65535nat] + crate::ip_text::ipv4_words(w),
        ),
{
    lemma_ipv4_text_roundtrip(w);
    let t = ipv4_text(w);
    let ffff = seq!['f', 'f', 'f', 'f'];
    let tail = seq!['f', 'f', 'f', 'f', ':'] + t;
    assert(tail =~= ffff.push(':') + t);
    assert forall|i: int| 0 <= i < t.len() implies t[i] != ':' by {
        assert(is_dec_digit(t[i]) || t[i] == '.');
    }
    lemma_split_none(ffff, ':');
    lemma_split_append(ffff, ':', t);
    let fields = seq![ffff, t];
    assert(colon_fields(tail) =~= fields);
    // The IPv4 part holds a dot, so it is not a hexadecimal group.
    let da = decimal((w / 16777216) as nat);
    lemma_radix_text((w / 16777216) as nat, 10, true);
    reveal_strlit(".");
    assert(t[da.len() as int] == '.');
    assert(!hex_group_ok(t));
    assert(!all_hex_groups(fields));
    assert(fields.drop_last() =~= seq![ffff]);
    reveal_with_fuel(digits_value, 5);
    assert(ffff.drop_last().drop_last().drop_last().drop_last() =~= Seq::<char>::empty());
    assert(digits_value(ffff, 16) == 65535);
    assert(hex_group_ok(ffff));
    assert(all_hex_groups(fields.drop_last()));
    assert(fields.last() == t);
    assert(group_values(fields.drop_last()) =~= seq![65535nat]);
}

proof fn lemma_mapped_text(g: Seq<nat>)
    requires
        g.len() == 8,
        forall|i: int| 0 <= i < 8 ==> #[trigger] g[i] < 65536,
        is_ipv4_mapped(g),
    ensures
        ipv6_words("::ffff:"@ + ipv4_text((g[6] * 65536 + g[7]) as u32)) == Some(g),
        ("::ffff:"@ + ipv4_text((g[6] * 65536 + g[7]) as u32))[0] == ':',
        forall|i: int|
            0 <= i < ("::ffff:"@ + ipv4_text((g[6] * 65536 + g[7]) as u32)).len() ==> #[trigger] (
            "::ffff:"@ + ipv4_text((g[6] * 65536 + g[7]) as u32))[i] != '/',
{
    let g6 = g[6];
    let g7 = g[7];
    assert(g6 * 65536 + g7 < 0x1_0000_0000) by (nonlinear_arith)
        requires
            g6 < 65536,
            g7 < 65536,
    ;
    let w = (g6 * 65536 + g7) as u32;
    lemma_fundamental_div_mod_converse(w as int, 65536, g6 as int, g7 as int);
    lemma_ipv4_text_roundtrip(w);
    let t = ipv4_text(w);
    reveal_strlit("::ffff:");
    let s = "::ffff:"@ + t;
    let ffff = seq!['f', 'f', 'f', 'f'];
    let pre = seq![':', ':'] + ffff.push(':');
    assert(s =~= pre + t);
    assert(first_double_colon(s, 0));
    lemma_first_double_colon_unique(s, 0);
    assert(s.subrange(0, 0) =~= Seq::<char>::empty());
    let tail = s.subrange(2, s.len() as int);
    assert(tail =~= seq!['f', 'f', 'f', 'f', ':'] + t);
    lemma_mapped_tail(w);
    let tw = seq![65535nat] + crate::ip_text::ipv4_words(w);
    assert(group_values(colon_fields(Seq::<char>::empty())) =~= Seq::<nat>::empty());
    assert(Seq::<nat>::empty() + Seq::new(5, |k: int| 0nat) + tw =~= g);
    assert forall|i: int| 0 <= i < s.len() implies #[trigger] s[i] != '/' by {
        if i >= pre.len() {
            assert(s[i] == t[i - pre.len()]);
            assert(is_dec_digit(t[i - pre.len()]) || t[i - pre.len()] == '.');
        }
    }
}

/// An IPv6 address printed in its usual form reads back as itself, and is
/// not read as an IPv4 address.
pub proof fn lemma_ipv6_text_roundtrip(v: u128)
    ensures
        parse_ipv6_text(ipv6_text(v)) == Some(v),
        parse_ipv4_text(ipv6_text(v)) is None,
        forall|i: int| 0 <= i < ipv6_text(v).len() ==> #[trigger] ipv6_text(v)[i] != '/',
{
    let g = ipv6_segments(v);
    lemma_segments_value(v);
    let s = ipv6_text(v);
    if is_ipv4_mapped(g) {
        lemma_mapped_text(g);
        lemma_split_first(s, '.');
        assert(!ipv4_field_ok(split(s, '.')[0]));
    } else {
        lemma_best_zero_span_exists(g);
        let span = choose|p: (int, int)| best_zero_span(g, p.0, p.1);
        if span.1 > 1 {
            lemma_compressed_text(g, span.0, span.1);
        } else {
            lemma_plain_text(g);
        }
        assert(hex_or_colon(s));
        assert forall|i: int| 0 <= i < s.len() implies s[i] != '.' && s[i] != '/' by {
            assert(is_hex_digit(s[i]) || s[i] == ':');
        }
        lemma_split_none(s, '.');
    }
}

/// The dotted text of an IPv4 address holds a dot and no colon, so it is
/// not a hexadecimal group and is one colon-separated field.
proof fn lemma_ipv4_text_shape(v: u32)
    ensures
        !hex_group_ok(ipv4_text(v)),
        forall|i: int| 0 <= i < ipv4_text(v).len() ==> #[trigger] ipv4_text(v)[i] != ':',
        split(ipv4_text(v), ':') == seq![ipv4_text(v)],
{
    lemma_ipv4_text_roundtrip(v);
    let t = ipv4_text(v);
    assert forall|i: int| 0 <= i < t.len() implies #[trigger] t[i] != ':' by {
        assert(is_dec_digit(t[i]) || t[i] == '.');
    }
    let da = decimal((v / 16777216) as nat);
    lemma_radix_text((v / 16777216) as nat, 10, true);
    reveal_strlit(".");
    assert(t[da.len() as int] == '.');
    lemma_split_none(t, ':');
}

/// The text after `::` made of the groups `t` and then an IPv4 address.
pub open spec fn groups_then_ipv4(t: Seq<nat>, v: u32) -> Seq<char> {
    if t.len() == 0 {
        ipv4_text(v)
    } else {
        join_hex(t) + ":"@ + ipv4_text(v)
    }
}

/// An IPv6 address written with groups `h`, then `::`, then groups `t` and an
/// IPv4 address in dotted form (at most seven groups written, counting the
/// IPv4 address as two) reads as the groups of `h`, as many zero groups as
/// make eight, the groups of `t`, and the two halves of the IPv4 address,
/// whatever groups come before `::`.
pub proof fn lemma_ipv6_embedded_ipv4(h: Seq<nat>, t: Seq<nat>, v: u32)
    requires
        forall|i: int| 0 <= i < h.len() ==> #[trigger] h[i] < 65536,
        forall|i: int| 0 <= i < t.len() ==> #[trigger] t[i] < 65536,
        h.len() + t.len() <= 5,
    ensures
        parse_ipv6_text(join_hex(h) + "::"@ + groups_then_ipv4(t, v)) == Some(
            words_value(
                h + Seq::new((6 - h.len() - t.len()) as nat, |k: int| 0nat) + t + seq![
                    (v / 65536) as nat,
                    (v % 65536) as nat,
                ],
            ) as u128,
        ),
{
    let a = join_hex(h);
    let b = groups_then_ipv4(t, v);
    let q = ipv4_text(v);
    lemma_ipv4_text_roundtrip(v);
    lemma_ipv4_text_shape(v);
    if h.len() >= 1 {
        lemma_join_hex(h);
    } else {
        assert(h =~= Seq::<nat>::empty());
    }
    reveal_strlit("::");
    reveal_strlit(":");
    let s = a + "::"@ + b;
    assert(s =~= a + seq![':', ':'] + b);
    let p = a.len() as int;
    assert forall|j: int| 0 <= j < p implies !double_colon_at(s, j) by {
        if j + 1 < p {
            assert(s[j] == a[j] && s[j + 1] == a[j + 1]);
            assert(!double_colon_at(a, j));
        } else {
            assert(s[j] == a.last());
        }
    }
    assert(first_double_colon(s, p));
    lemma_first_double_colon_unique(s, p);
    assert(s.subrange(0, p) =~= a);
    assert(s.subrange(p + 2, s.len() as int) =~= b);
    assert(colon_fields(a) =~= hex_fields(h));
    lemma_hex_fields(h);
    lemma_hex_fields(t);
    let fields = hex_fields(t).push(q);
    if t.len() == 0 {
        assert(hex_fields(t) =~= Seq::<Seq<char>>::empty());
        assert(colon_fields(b) =~= fields);
    } else {
        lemma_join_hex(t);
        assert(b =~= join_hex(t).push(':') + q);
        lemma_split_append(join_hex(t), ':', q);
        assert(colon_fields(b) =~= fields);
    }
    assert(!all_hex_groups(fields)) by {
        assert(fields[fields.len() - 1] == q);
    }
    assert(fields.drop_last() =~= hex_fields(t));
    assert(fields.last() == q);
    let tw = t + ipv4_words(v);
    assert(tail_words(fields) == Some(tw));
    assert(ipv4_words(v) =~= seq![(v / 65536) as nat, (v % 65536) as nat]);
    assert(group_values(hex_fields(h)) + Seq::new(
        (8 - hex_fields(h).len() - tw.len()) as nat,
        |k: int| 0nat,
    ) + tw =~= h + Seq::new((6 - h.len() - t.len()) as nat, |k: int| 0nat) + t + seq![
        (v / 65536) as nat,
        (v % 65536) as nat,
    ]);
}

} // verus!
