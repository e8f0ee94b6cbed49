//! Reading IPv4 and IPv6 addresses written as text.
//!
//! An IPv4 address is four decimal fields separated by `.`; each field has
//! one to three digits, no leading zero (other than the field `0` itself) and
//! a value of at most 255.
//!
//! An IPv6 address is eight colon-separated groups of one to four hex digits
//! (either case). The last two groups may be written as an IPv4 address. One
//! run of zero groups may be replaced by `::`; then at most seven groups are
//! written, and an IPv4 address may end only the part after `::`.

use vstd::arithmetic::power2::{lemma2_to64, lemma_pow2_adds, lemma_pow2_strictly_increases, lemma_pow2_pos, pow2};
use vstd::prelude::*;

verus! {

/// A decimal digit.
pub open spec fn is_dec_digit(c: char) -> bool {
    '0' <= c && c <= '9'
}

/// A hexadecimal digit of either case.
pub open spec fn is_hex_digit(c: char) -> bool {
    is_dec_digit(c) || ('a' <= c && c <= 'f') || ('A' <= c && c <= 'F')
}

/// The value of a (hexadecimal or decimal) digit.
pub open spec fn digit_value(c: char) -> nat {
    if is_dec_digit(c) {
        (c as int - 48) as nat
    } else if 'a' <= c && c <= 'f' {
        (c as int - 87) as nat
    } else {
        (c as int - 55) as nat
    }
}

/// The value of the digits `s` in base `radix`, most significant first.
pub open spec fn digits_value(s: Seq<char>, radix: nat) -> nat
    decreases s.len(),
{
    if s.len() == 0 {
        0
    } else {
        digits_value(s.drop_last(), radix) * radix + digit_value(s.last())
    }
}

/// The fields of `s` between occurrences of `sep` (one more field than separators).
pub open spec fn split(s: Seq<char>, sep: char) -> Seq<Seq<char>>
    decreases s.len(),
{
    if s.len() == 0 {
        seq![Seq::<char>::empty()]
    } else {
        let prev = split(s.drop_last(), sep);
        if s.last() == sep {
            prev.push(Seq::<char>::empty())
        } else {
            prev.update(prev.len() - 1, prev.last().push(s.last()))
        }
    }
}

/// The character sequences held by a vector of character vectors.
pub open spec fn views(v: Seq<Vec<char>>) -> Seq<Seq<char>> {
    v.map_values(|x: Vec<char>| x@)
}

/// A decimal field of an IPv4 address.
pub open spec fn ipv4_field_ok(f: Seq<char>) -> bool {
    &&& 1 <= f.len() <= 3
    &&& forall|i: int| 0 <= i < f.len() ==> is_dec_digit(#[trigger] f[i])
    &&& (f.len() == 1 || f[0] != '0')
    &&& digits_value(f, 10) <= 255
}

/// The IPv4 address written as `s`, as a 32-bit value whose most significant
/// byte is the first field.
pub open spec fn parse_ipv4_text(s: Seq<char>) -> Option<u32> {
    let f = split(s, '.');
    if f.len() == 4 && ipv4_field_ok(f[0]) && ipv4_field_ok(f[1]) && ipv4_field_ok(f[2])
        && ipv4_field_ok(f[3]) {
        Some(
            (digits_value(f[0], 10) * 16777216 + digits_value(f[1], 10) * 65536 + digits_value(
                f[2],
                10,
            ) * 256 + digits_value(f[3], 10)) as u32,
        )
    } else {
        None
    }
}

/// A group of an IPv6 address: one to four hexadecimal digits.
pub open spec fn hex_group_ok(f: Seq<char>) -> bool {
    &&& 1 <= f.len() <= 4
    &&& forall|i: int| 0 <= i < f.len() ==> is_hex_digit(#[trigger] f[i])
}

/// Every field is a hexadecimal group.
pub open spec fn all_hex_groups(fs: Seq<Seq<char>>) -> bool {
    forall|i: int| 0 <= i < fs.len() ==> hex_group_ok(#[trigger] fs[i])
}

/// The values of hexadecimal groups.
pub open spec fn group_values(fs: Seq<Seq<char>>) -> Seq<nat> {
    fs.map_values(|f: Seq<char>| digits_value(f, 16))
}

/// The two 16-bit groups that an IPv4 address stands for inside an IPv6 address.
pub open spec fn ipv4_words(v: u32) -> Seq<nat> {
    seq![(v / 65536) as nat, (v % 65536) as nat]
}

/// The colon-separated fields of `t`; none when `t` is empty.
pub open spec fn colon_fields(t: Seq<char>) -> Seq<Seq<char>> {
    if t.len() == 0 {
        Seq::empty()
    } else {
        split(t, ':')
    }
}

/// The groups written by fields that are hexadecimal groups, the last of
/// which may instead be an IPv4 address.
pub open spec fn tail_words(fs: Seq<Seq<char>>) -> Option<Seq<nat>> {
    if all_hex_groups(fs) {
        Some(group_values(fs))
    } else if fs.len() >= 1 && all_hex_groups(fs.drop_last()) && parse_ipv4_text(fs.last()) is Some {
        Some(group_values(fs.drop_last()) + ipv4_words(parse_ipv4_text(fs.last()).unwrap()))
    } else {
        None
    }
}

/// `s` holds `::` at position `i`.
pub open spec fn double_colon_at(s: Seq<char>, i: int) -> bool {
    0 <= i && i + 1 < s.len() && s[i] == ':' && s[i + 1] == ':'
}

/// `i` is the first position of `::` in `s`.
pub open spec fn first_double_colon(s: Seq<char>, i: int) -> bool {
    double_colon_at(s, i) && forall|j: int| 0 <= j < i ==> !double_colon_at(s, j)
}

/// The eight 16-bit groups of the IPv6 address written as `s`.
pub open spec fn ipv6_words(s: Seq<char>) -> Option<Seq<nat>> {
    if exists|i: int| first_double_colon(s, i) {
        let p = choose|i: int| first_double_colon(s, i);
        let head = colon_fields(s.subrange(0, p));
        let tail = colon_fields(s.subrange(p + 2, s.len() as int));
        match tail_words(tail) {
            Some(tw) => if all_hex_groups(head) && head.len() + tw.len() <= 7 {
                Some(
                    group_values(head) + Seq::new(
                        (8 - head.len() - tw.len()) as nat,
                        |k: int| 0nat,
                    ) + tw,
                )
            } else {
                None
            },
            None => None,
        }
    } else {
        match tail_words(split(s, ':')) {
            Some(w) => if w.len() == 8 {
                Some(w)
            } else {
                None
            },
            None => None,
        }
    }
}

/// The number whose base-65536 digits are `w`, most significant first.
pub open spec fn words_value(w: Seq<nat>) -> nat
    decreases w.len(),
{
    if w.len() == 0 {
        0
    } else {
        words_value(w.drop_last()) * 65536 + w.last()
    }
}

/// The IPv6 address written as `s`, as a 128-bit value whose most
/// significant 16 bits are the first group.
pub open spec fn parse_ipv6_text(s: Seq<char>) -> Option<u128> {
    match ipv6_words(s) {
        Some(w) => Some(words_value(w) as u128),
        None => None,
    }
}

/// The 16-bit values of a vector as numbers.
pub open spec fn words(v: Seq<u16>) -> Seq<nat> {
    v.map_values(|x: u16| x as nat)
}

pub proof fn lemma_split_len(s: Seq<char>, sep: char)
    ensures
        split(s, sep).len() >= 1,
    decreases s.len(),
{
    if s.len() > 0 {
        lemma_split_len(s.drop_last(), sep);
    }
}

proof fn lemma_views_push(v: Seq<Vec<char>>, x: Vec<char>)
    ensures
        views(v.push(x)) == views(v).push(x@),
{
    assert(views(v.push(x)) =~= views(v).push(x@));
}

/// The characters of `s`.
pub fn chars_of(s: &str) -> (r: Vec<char>)
    ensures
        r@ == s@,
{
    let n = s.unicode_len();
    let mut r: Vec<char> = Vec::new();
    let mut i: usize = 0;
    while i < n
        invariant
            n == s@.len(),
            i <= n,
            r@ == s@.take(i as int),
        decreases n - i,
    {
        r.push(s.get_char(i));
        assert(r@ =~= s@.take(i + 1));
        i += 1;
    }
    assert(s@.take(n as int) =~= s@);
    r
}

/// The characters `cs[lo..hi]` as a new vector.
pub fn sub_chars(cs: &Vec<char>, lo: usize, hi: usize) -> (r: Vec<char>)
    requires
        lo <= hi <= cs.len(),
    ensures
        r@ == cs@.subrange(lo as int, hi as int),
{
    let mut r: Vec<char> = Vec::new();
    let mut i = lo;
    while i < hi
        invariant
            lo <= i <= hi <= cs.len(),
            r@ == cs@.subrange(lo as int, i as int),
        decreases hi - i,
    {
        r.push(cs[i]);
        assert(r@ =~= cs@.subrange(lo as int, i + 1));
        i += 1;
    }
    r
}

/// Splits `cs` at every occurrence of `sep`.
pub fn split_chars(cs: &Vec<char>, sep: char) -> (r: Vec<Vec<char>>)
    ensures
        views(r@) == split(cs@, sep),
{
    let mut fields: Vec<Vec<char>> = Vec::new();
    let mut cur: Vec<char> = Vec::new();
    let mut i: usize = 0;
    while i < cs.len()
        invariant
            i <= cs.len(),
            split(cs@.take(i as int), sep) == views(fields@).push(cur@),
        decreases cs.len() - i,
    {
        let c = cs[i];
        proof {
            assert(cs@.take(i + 1).drop_last() =~= cs@.take(i as int));
            lemma_split_len(cs@.take(i as int), sep);
        }
        if c == sep {
            proof {
                lemma_views_push(fields@, cur);
            }
            fields.push(cur);
            cur = Vec::new();
            assert(split(cs@.take(i + 1), sep) =~= views(fields@).push(cur@));
        } else {
            cur.push(c);
            assert(split(cs@.take(i + 1), sep) =~= views(fields@).push(cur@));
        }
        i += 1;
    }
    proof {
        lemma_views_push(fields@, cur);
        assert(cs@.take(cs.len() as int) =~= cs@);
    }
    fields.push(cur);
    fields
}

/// Reads one decimal field of an IPv4 address.
pub fn parse_ipv4_field(f: &Vec<char>) -> (r: Option<u32>)
    ensures
        r is Some <==> ipv4_field_ok(f@),
        r matches Some(v) ==> v == digits_value(f@, 10),
{
    let n = f.len();
    if n < 1 || n > 3 {
        return None;
    }
    if n > 1 && f[0] == '0' {
        return None;
    }
    let mut v: u32 = 0;
    let mut i: usize = 0;
    while i < n
        invariant
            n == f@.len(),
            1 <= n <= 3,
            i <= n,
            v == digits_value(f@.take(i as int), 10),
            forall|j: int| 0 <= j < i ==> is_dec_digit(#[trigger] f@[j]),
            i == 0 ==> v == 0,
            i == 1 ==> v < 10,
            i == 2 ==> v < 100,
            i == 3 ==> v < 1000,
        decreases n - i,
    {
        let c = f[i];
        if !('0' <= c && c <= '9') {
            return None;
        }
        let d = (c as u32) - 48;
        assert(f@.take(i + 1).drop_last() =~= f@.take(i as int));
        v = v * 10 + d;
        i += 1;
    }
    assert(f@.take(n as int) =~= f@);
    if v > 255 {
        return None;
    }
    Some(v)
}

/// Reads an IPv4 address.
pub fn parse_ipv4_chars(cs: &Vec<char>) -> (r: Option<u32>)
    ensures
        r == parse_ipv4_text(cs@),
{
    let f = split_chars(cs, '.');
    if f.len() != 4 {
        return None;
    }
    assert(views(f@)[0] == f@[0]@);
    assert(views(f@)[1] == f@[1]@);
    assert(views(f@)[2] == f@[2]@);
    assert(views(f@)[3] == f@[3]@);
    let a = match parse_ipv4_field(&f[0]) {
        Some(a) => a,
        None => return None,
    };
    let b = match parse_ipv4_field(&f[1]) {
        Some(b) => b,
        None => return None,
    };
    let c = match parse_ipv4_field(&f[2]) {
        Some(c) => c,
        None => return None,
    };
    let d = match parse_ipv4_field(&f[3]) {
        Some(d) => d,
        None => return None,
    };
    Some(a * 16777216 + b * 65536 + c * 256 + d)
}

/// Reads one hexadecimal group of an IPv6 address.
pub fn parse_hex_group(f: &Vec<char>) -> (r: Option<u16>)
    ensures
        r is Some <==> hex_group_ok(f@),
        r matches Some(v) ==> v as nat == digits_value(f@, 16),
{
    let n = f.len();
    if n < 1 || n > 4 {
        return None;
    }
    let mut v: u32 = 0;
    let mut i: usize = 0;
    while i < n
        invariant
            n == f@.len(),
            1 <= n <= 4,
            i <= n,
            v == digits_value(f@.take(i as int), 16),
            forall|j: int| 0 <= j < i ==> is_hex_digit(#[trigger] f@[j]),
            i == 0 ==> v == 0,
            i == 1 ==> v < 16,
            i == 2 ==> v < 256,
            i == 3 ==> v < 4096,
            i == 4 ==> v < 65536,
        decreases n - i,
    {
        let c = f[i];
        let d: u32 = if '0' <= c && c <= '9' {
            (c as u32) - 48
        } else if 'a' <= c && c <= 'f' {
            (c as u32) - 87
        } else if 'A' <= c && c <= 'F' {
            (c as u32) - 55
        } else {
            return None;
        };
        assert(f@.take(i + 1).drop_last() =~= f@.take(i as int));
        v = v * 16 + d;
        i += 1;
    }
    assert(f@.take(n as int) =~= f@);
    Some(v as u16)
}

/// Reads the first `n` fields of `fs` as hexadecimal groups.
pub fn parse_hex_groups(fs: &Vec<Vec<char>>, n: usize) -> (r: Option<Vec<u16>>)
    requires
        n <= fs.len(),
    ensures
        r is Some <==> all_hex_groups(views(fs@).take(n as int)),
        r matches Some(v) ==> words(v@) == group_values(views(fs@).take(n as int)),
{
    let ghost fv = views(fs@);
    let mut out: Vec<u16> = Vec::new();
    let mut i: usize = 0;
    while i < n
        invariant
            n <= fs.len(),
            fv == views(fs@),
            i <= n,
            all_hex_groups(fv.take(i as int)),
            words(out@) == group_values(fv.take(i as int)),
        decreases n - i,
    {
        assert(fv[i as int] == fs@[i as int]@);
        match parse_hex_group(&fs[i]) {
            Some(g) => {
                let ghost w0 = words(out@);
                out.push(g);
                assert(fv.take(i + 1) =~= fv.take(i as int).push(fv[i as int]));
                assert(group_values(fv.take(i + 1)) =~= group_values(fv.take(i as int)).push(
                    digits_value(fv[i as int], 16),
                ));
                assert(words(out@) =~= w0.push(g as nat));
            },
            None => {
                assert(!hex_group_ok(fv.take(n as int)[i as int]));
                return None;
            },
        }
        i += 1;
    }
    Some(out)
}

/// Reads fields that are hexadecimal groups, the last of which may be an IPv4 address.
pub fn parse_tail_words(fs: &Vec<Vec<char>>) -> (r: Option<Vec<u16>>)
    ensures
        match r {
            Some(v) => tail_words(views(fs@)) == Some(words(v@)),
            None => tail_words(views(fs@)) is None,
        },
{
    let ghost fv = views(fs@);
    assert(fv.take(fs.len() as int) =~= fv);
    match parse_hex_groups(fs, fs.len()) {
        Some(v) => {
            return Some(v);
        },
        None => {},
    }
    if fs.len() == 0 {
        return None;
    }
    let last = fs.len() - 1;
    assert(fv.take(last as int) =~= fv.drop_last());
    assert(fv.last() == fs@[last as int]@);
    let mut v = match parse_hex_groups(fs, last) {
        Some(v) => v,
        None => {
            return None;
        },
    };
    let a = match parse_ipv4_chars(&fs[last]) {
        Some(a) => a,
        None => {
            return None;
        },
    };
    let ghost w0 = words(v@);
    v.push((a / 65536) as u16);
    v.push((a % 65536) as u16);
    assert(words(v@) =~= w0 + ipv4_words(a));
    Some(v)
}

/// Finds the first `::` in `cs`.
pub fn find_double_colon(cs: &Vec<char>) -> (r: Option<usize>)
    ensures
        match r {
            Some(p) => first_double_colon(cs@, p as int),
            None => forall|i: int| !double_colon_at(cs@, i),
        },
{
    let mut i: usize = 0;
    while i < cs.len() && cs.len() - i > 1
        invariant
            forall|j: int| 0 <= j < i ==> !double_colon_at(cs@, j),
        decreases cs.len() - i,
    {
        if cs[i] == ':' && cs[i + 1] == ':' {
            return Some(i);
        }
        i += 1;
    }
    None
}

pub proof fn lemma_first_double_colon_unique(s: Seq<char>, p: int)
    requires
        first_double_colon(s, p),
    ensures
        (choose|i: int| first_double_colon(s, i)) == p,
{
    let q = choose|i: int| first_double_colon(s, i);
    assert(first_double_colon(s, q));
    if q < p {
        assert(!double_colon_at(s, q));
    }
    if p < q {
        assert(!double_colon_at(s, p));
    }
}

/// Bound on the value of base-65536 digits.
pub proof fn lemma_words_value_bound(w: Seq<nat>)
    requires
        forall|i: int| 0 <= i < w.len() ==> #[trigger] w[i] < 65536,
    ensures
        words_value(w) < pow2(16 * w.len()),
    decreases w.len(),
{
    if w.len() == 0 {
        lemma_pow2_pos(0);
    } else {
        let x = words_value(w.drop_last());
        lemma_words_value_bound(w.drop_last());
        lemma_pow2_adds(16 * (w.len() - 1) as nat, 16);
        lemma2_to64();
        let p = pow2(16 * (w.len() - 1) as nat);
        assert(pow2(16) == 65536);
        assert(16 * (w.len() - 1) as nat + 16 == 16 * w.len());
        assert(p * 65536 == pow2(16 * w.len()));
        assert(w.last() < 65536);
        assert(x * 65536 + w.last() < p * 65536) by (nonlinear_arith)
            requires
                x < p,
                w.last() < 65536,
        ;
    }
}

/// The 128-bit value of eight 16-bit groups.
pub fn words_to_u128(g: &Vec<u16>) -> (r: u128)
    requires
        g.len() == 8,
    ensures
        r as nat == words_value(words(g@)),
{
    let ghost w = words(g@);
    let mut acc: u128 = 0;
    let mut i: usize = 0;
    proof {
        lemma2_to64();
        lemma_pow2_adds(64, 64);
    }
    while i < 8
        invariant
            g.len() == 8,
            w == words(g@),
            i <= 8,
            acc as nat == words_value(w.take(i as int)),
            pow2(128) == 0x1_0000_0000_0000_0000_0000_0000_0000_0000,
        decreases 8 - i,
    {
        assert(w.take(i + 1).drop_last() =~= w.take(i as int));
        proof {
            lemma_words_value_bound(w.take(i + 1));
            if i + 1 < 8 {
                lemma_pow2_strictly_increases(16 * (i + 1) as nat, 128);
            }
        }
        acc = acc * 65536 + g[i] as u128;
        i += 1;
    }
    assert(w.take(8) =~= w);
    acc
}

/// Reads an IPv6 address.
pub fn parse_ipv6_chars(cs: &Vec<char>) -> (r: Option<u128>)
    ensures
        r == parse_ipv6_text(cs@),
{
    match find_double_colon(cs) {
        Some(p) => {
            proof {
                lemma_first_double_colon_unique(cs@, p as int);
            }
            assert(p + 2 <= cs.len());
            let head_text = sub_chars(cs, 0, p);
            let tail_text = sub_chars(cs, p + 2, cs.len());
            let head: Vec<Vec<char>> = if head_text.len() == 0 {
                Vec::new()
            } else {
                split_chars(&head_text, ':')
            };
            let tail: Vec<Vec<char>> = if tail_text.len() == 0 {
                Vec::new()
            } else {
                split_chars(&tail_text, ':')
            };
            assert(views(head@) =~= colon_fields(head_text@));
            assert(views(tail@) =~= colon_fields(tail_text@));
            let tw = match parse_tail_words(&tail) {
                Some(t) => t,
                None => {
                    return None;
                },
            };
            assert(views(head@).take(head.len() as int) =~= views(head@));
            let hw = match parse_hex_groups(&head, head.len()) {
                Some(h) => h,
                None => {
                    return None;
                },
            };
            if hw.len() > 7 || tw.len() > 7 || hw.len() + tw.len() > 7 {
                return None;
            }
            let zeros = 8 - hw.len() - tw.len();
            let mut g: Vec<u16> = Vec::new();
            let mut i: usize = 0;
            while i < hw.len()
                invariant
                    i <= hw.len(),
                    g@ == hw@.take(i as int),
                decreases hw.len() - i,
            {
                g.push(hw[i]);
                assert(g@ =~= hw@.take(i + 1));
                i += 1;
            }
            let mut k: usize = 0;
            while k < zeros
                invariant
                    k <= zeros,
                    g@ == hw@ + Seq::new(k as nat, |j: int| 0u16),
                decreases zeros - k,
            {
                g.push(0);
                assert(g@ =~= hw@ + Seq::new((k + 1) as nat, |j: int| 0u16));
                k += 1;
            }
            let mut j: usize = 0;
            while j < tw.len()
                invariant
                    j <= tw.len(),
                    g@ == hw@ + Seq::new(zeros as nat, |j: int| 0u16) + tw@.take(j as int),
                decreases tw.len() - j,
            {
                g.push(tw[j]);
                assert(g@ =~= hw@ + Seq::new(zeros as nat, |j: int| 0u16) + tw@.take(j + 1));
                j += 1;
            }
            assert(hw@.take(hw.len() as int) =~= hw@);
            assert(tw@.take(tw.len() as int) =~= tw@);
            assert(words(g@) =~= words(hw@) + Seq::new(zeros as nat, |k: int| 0nat) + words(tw@));
            Some(words_to_u128(&g))
        },
        None => {
            let f = split_chars(cs, ':');
            let w = match parse_tail_words(&f) {
                Some(w) => w,
                None => {
                    return None;
                },
            };
            if w.len() != 8 {
                return None;
            }
            Some(words_to_u128(&w))
        },
    }
}

} // verus!
