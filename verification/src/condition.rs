//! Filter condition values: IP addresses with a prefix length, and IP protocols.

use vstd::prelude::*;

use crate::ip_format::{ipv4_text, ipv6_text, push_ipv4_text, push_ipv6_text};
use crate::ip_text::{
    chars_of, parse_ipv4_chars, parse_ipv4_text, parse_ipv6_chars, parse_ipv6_text, split,
    split_chars, views,
};
use crate::ip_roundtrip::{lemma_ipv4_text_roundtrip, lemma_ipv6_text_roundtrip, lemma_split_append, lemma_split_none, lemma_u8_decimal_roundtrip};
use crate::ip_text::is_dec_digit;
use crate::text::{decimal, push_decimal};

verus! {

/// An IPv4 or IPv6 address.
///
/// An IPv4 address is held as a 32-bit value whose most significant byte is
/// the first field of its dotted form; an IPv6 address as a 128-bit value
/// whose most significant 16 bits are its first group.
#[derive(Debug, Clone, Copy, PartialEq, Eq, Structural)]
pub enum IpAddr {
    V4(u32),
    V6(u128),
}

/// The address written as `s` (an IPv4 address if `s` is one, else an IPv6 address).
pub open spec fn ip_from_text(s: Seq<char>) -> Option<IpAddr> {
    match parse_ipv4_text(s) {
        Some(v) => Some(IpAddr::V4(v)),
        None => match parse_ipv6_text(s) {
            Some(v) => Some(IpAddr::V6(v)),
            None => None,
        },
    }
}

/// The text of an address as its kind and usual form, such as `V4(10.0.0.1)` or `V6(::1)`.
pub open spec fn ip_debug_text(a: IpAddr) -> Seq<char> {
    match a {
        IpAddr::V4(v) => "V4("@ + ipv4_text(v) + ")"@,
        IpAddr::V6(v) => "V6("@ + ipv6_text(v) + ")"@,
    }
}

impl IpAddr {
    /// Reads an IPv4 or IPv6 address.
    pub fn parse(s: &str) -> (r: Option<IpAddr>)
        ensures
            r == ip_from_text(s@),
    {
        let cs = chars_of(s);
        Self::parse_chars(&cs)
    }

    /// Reads an IPv4 or IPv6 address held as characters.
    pub fn parse_chars(cs: &Vec<char>) -> (r: Option<IpAddr>)
        ensures
            r == ip_from_text(cs@),
    {
        match parse_ipv4_chars(cs) {
            Some(v) => Some(IpAddr::V4(v)),
            None => match parse_ipv6_chars(cs) {
                Some(v) => Some(IpAddr::V6(v)),
                None => None,
            },
        }
    }

    /// Whether this is an IPv6 address.
    pub fn is_ipv6(&self) -> (r: bool)
        ensures
            r == (*self is V6),
    {
        match self {
            IpAddr::V4(_) => false,
            IpAddr::V6(_) => true,
        }
    }

    /// Appends the kind and usual text of the address, such as `V4(10.0.0.1)`.
    pub fn push_debug_text(&self, s: &mut String)
        ensures
            final(s)@ == old(s)@ + ip_debug_text(*self),
    {
        let ghost s0 = old(s)@;
        match self {
            IpAddr::V4(v) => {
                s.append("V4(");
                push_ipv4_text(s, *v);
                s.append(")");
            },
            IpAddr::V6(v) => {
                s.append("V6(");
                push_ipv6_text(s, *v);
                s.append(")");
            },
        }
        assert(s@ =~= s0 + ip_debug_text(*self));
    }
}

/// Why a text is not a number of the integer type asked for.
#[derive(Debug, Clone, Copy, PartialEq, Eq, Structural)]
pub enum IntErrorKind {
    /// The text is empty.
    Empty,
    /// The text holds a character that is not a digit.
    InvalidDigit,
    /// The number is too large for the type.
    PosOverflow,
}

/// The message of an integer reading error.
pub open spec fn int_error_text(k: IntErrorKind) -> Seq<char> {
    match k {
        IntErrorKind::Empty => "cannot parse integer from empty string"@,
        IntErrorKind::InvalidDigit => "invalid digit found in string"@,
        IntErrorKind::PosOverflow => "number too large to fit in target type"@,
    }
}

/// Reads decimal digits from the left onto `acc`, stopping at the first
/// character that is not a digit or that takes the value above 255.
pub open spec fn scan_u8_digits(d: Seq<char>, acc: nat) -> Result<nat, IntErrorKind>
    decreases d.len(),
{
    if d.len() == 0 {
        Ok(acc)
    } else if !('0' <= d[0] && d[0] <= '9') {
        Err(IntErrorKind::InvalidDigit)
    } else if acc * 10 + (d[0] as int - 48) > 255 {
        Err(IntErrorKind::PosOverflow)
    } else {
        scan_u8_digits(d.drop_first(), (acc * 10 + (d[0] as int - 48)) as nat)
    }
}

/// The `u8` written as `s`: decimal digits, optionally preceded by `+`.
pub open spec fn parse_u8_text(s: Seq<char>) -> Result<u8, IntErrorKind> {
    if s.len() == 0 {
        Err(IntErrorKind::Empty)
    } else if s.len() == 1 && (s[0] == '+' || s[0] == '-') {
        Err(IntErrorKind::InvalidDigit)
    } else {
        let d = if s[0] == '+' {
            s.drop_first()
        } else {
            s
        };
        match scan_u8_digits(d, 0) {
            Ok(v) => Ok(v as u8),
            Err(k) => Err(k),
        }
    }
}

/// Reads a `u8` written in decimal.
pub fn parse_u8_chars(cs: &Vec<char>) -> (r: Result<u8, IntErrorKind>)
    ensures
        r == parse_u8_text(cs@),
{
    let n = cs.len();
    if n == 0 {
        return Err(IntErrorKind::Empty);
    }
    if n == 1 && (cs[0] == '+' || cs[0] == '-') {
        return Err(IntErrorKind::InvalidDigit);
    }
    let start: usize = if cs[0] == '+' {
        1
    } else {
        0
    };
    let ghost d = if cs@[0] == '+' {
        cs@.drop_first()
    } else {
        cs@
    };
    assert(d =~= cs@.subrange(start as int, n as int));
    let mut acc: u32 = 0;
    let mut i = start;
    while i < n
        invariant
            n == cs.len(),
            n >= 1,
            !(n == 1 && (cs@[0] == '+' || cs@[0] == '-')),
            d == (if cs@[0] == '+' {
                cs@.drop_first()
            } else {
                cs@
            }),
            d == cs@.subrange(start as int, n as int),
            start <= i <= n,
            acc <= 255,
            scan_u8_digits(d, 0) == scan_u8_digits(cs@.subrange(i as int, n as int), acc as nat),
        decreases n - i,
    {
        let c = cs[i];
        assert(cs@.subrange(i as int, n as int).drop_first() =~= cs@.subrange(i + 1, n as int));
        if !('0' <= c && c <= '9') {
            return Err(IntErrorKind::InvalidDigit);
        }
        let next = acc * 10 + ((c as u32) - 48);
        if next > 255 {
            return Err(IntErrorKind::PosOverflow);
        }
        acc = next;
        i += 1;
    }
    assert(cs@.subrange(n as int, n as int) =~= Seq::<char>::empty());
    Ok(acc as u8)
}

/// An IP address with a CIDR prefix length.
#[derive(Debug, Clone, Copy, PartialEq, Eq, Structural)]
pub struct IpAddrMask {
    /// IP address (IPv4 or IPv6)
    pub addr: IpAddr,
    /// CIDR prefix length (0-32 for IPv4, 0-128 for IPv6)
    pub prefix_len: u8,
}

/// The largest prefix length of an address kind.
pub open spec fn max_prefix(a: IpAddr) -> u8 {
    match a {
        IpAddr::V4(_) => 32,
        IpAddr::V6(_) => 128,
    }
}

/// What reading `s` in CIDR notation (`address/prefix`) gives: the address and
/// prefix length, or the message that says why `s` is refused.
pub open spec fn cidr_from_text(s: Seq<char>) -> Result<(IpAddr, u8), Seq<char>> {
    let parts = split(s, '/');
    if parts.len() != 2 {
        Err("Invalid CIDR notation: "@ + s)
    } else {
        match ip_from_text(parts[0]) {
            None => Err("Invalid IP address: invalid IP address syntax"@),
            Some(addr) => match parse_u8_text(parts[1]) {
                Err(k) => Err("Invalid prefix length: "@ + int_error_text(k)),
                Ok(p) => if p > max_prefix(addr) {
                    Err(
                        "Prefix length "@ + decimal(p as nat) + " exceeds maximum "@ + decimal(
                            max_prefix(addr) as nat,
                        ) + " for "@ + ip_debug_text(addr),
                    )
                } else {
                    Ok((addr, p))
                },
            },
        }
    }
}

impl IpAddrMask {
    /// Creates an address with a prefix length.
    pub fn new(addr: IpAddr, prefix_len: u8) -> (r: Self)
        ensures
            r.addr == addr,
            r.prefix_len == prefix_len,
    {
        IpAddrMask { addr, prefix_len }
    }

    /// Reads CIDR notation such as `192.168.1.0/24` or `::1/128`.
    pub fn from_cidr(s: &str) -> (r: Result<Self, String>)
        ensures
            match r {
                Ok(m) => cidr_from_text(s@) == Ok::<(IpAddr, u8), Seq<char>>((m.addr, m.prefix_len)),
                Err(e) => cidr_from_text(s@) == Err::<(IpAddr, u8), Seq<char>>(e@),
            },
    {
        let cs = chars_of(s);
        let parts = split_chars(&cs, '/');
        if parts.len() != 2 {
            let mut e = String::from_str("Invalid CIDR notation: ");
            e.append(s);
            return Err(e);
        }
        assert(views(parts@)[0] == parts@[0]@);
        assert(views(parts@)[1] == parts@[1]@);
        let addr = match IpAddr::parse_chars(&parts[0]) {
            Some(a) => a,
            None => {
                return Err(String::from_str("Invalid IP address: invalid IP address syntax"));
            },
        };
        let prefix_len = match parse_u8_chars(&parts[1]) {
            Ok(p) => p,
            Err(k) => {
                let mut e = String::from_str("Invalid prefix length: ");
                match k {
                    IntErrorKind::Empty => e.append("cannot parse integer from empty string"),
                    IntErrorKind::InvalidDigit => e.append("invalid digit found in string"),
                    IntErrorKind::PosOverflow => e.append("number too large to fit in target type"),
                }
                return Err(e);
            },
        };
        let max: u8 = if addr.is_ipv6() {
            128
        } else {
            32
        };
        if prefix_len > max {
            let mut e = String::from_str("Prefix length ");
            push_decimal(&mut e, prefix_len as u64);
            e.append(" exceeds maximum ");
            push_decimal(&mut e, max as u64);
            e.append(" for ");
            addr.push_debug_text(&mut e);
            return Err(e);
        }
        Ok(IpAddrMask { addr, prefix_len })
    }

    /// Whether the address is an IPv6 address.
    pub fn is_ipv6(&self) -> (r: bool)
        ensures
            r == (self.addr is V6),
    {
        self.addr.is_ipv6()
    }
}

/// IP protocol numbers (IANA assigned).
#[derive(Debug, Clone, Copy, PartialEq, Eq, Hash, Structural)]
pub enum Protocol {
    /// IPv6 Hop-by-Hop Option (protocol 0)
    Hopopt,
    /// Internet Control Message Protocol v4 (protocol 1)
    Icmp,
    /// Internet Group Management Protocol (protocol 2)
    Igmp,
    /// Transmission Control Protocol (protocol 6)
    Tcp,
    /// User Datagram Protocol (protocol 17)
    Udp,
    /// Generic Routing Encapsulation (protocol 47)
    Gre,
    /// Encapsulating Security Payload / IPsec (protocol 50)
    Esp,
    /// Authentication Header / IPsec (protocol 51)
    Ah,
    /// Internet Control Message Protocol v6 (protocol 58)
    Icmpv6,
}

/// The IANA number of a protocol.
pub open spec fn protocol_number(p: Protocol) -> u8 {
    match p {
        Protocol::Hopopt => 0,
        Protocol::Icmp => 1,
        Protocol::Igmp => 2,
        Protocol::Tcp => 6,
        Protocol::Udp => 17,
        Protocol::Gre => 47,
        Protocol::Esp => 50,
        Protocol::Ah => 51,
        Protocol::Icmpv6 => 58,
    }
}

/// The conventional name of a protocol.
pub open spec fn protocol_name(p: Protocol) -> Seq<char> {
    match p {
        Protocol::Hopopt => "HOPOPT"@,
        Protocol::Icmp => "ICMP"@,
        Protocol::Igmp => "IGMP"@,
        Protocol::Tcp => "TCP"@,
        Protocol::Udp => "UDP"@,
        Protocol::Gre => "GRE"@,
        Protocol::Esp => "ESP"@,
        Protocol::Ah => "AH"@,
        Protocol::Icmpv6 => "ICMPv6"@,
    }
}

impl Protocol {
    /// The IANA protocol number.
    pub fn as_u8(self) -> (r: u8)
        ensures
            r == protocol_number(self),
    {
        match self {
            Protocol::Hopopt => 0,
            Protocol::Icmp => 1,
            Protocol::Igmp => 2,
            Protocol::Tcp => 6,
            Protocol::Udp => 17,
            Protocol::Gre => 47,
            Protocol::Esp => 50,
            Protocol::Ah => 51,
            Protocol::Icmpv6 => 58,
        }
    }

    /// The conventional name of the protocol, such as `TCP`.
    pub fn to_string(&self) -> (r: String)
        ensures
            r@ == protocol_name(*self),
    {
        match self {
            Protocol::Hopopt => String::from_str("HOPOPT"),
            Protocol::Icmp => String::from_str("ICMP"),
            Protocol::Igmp => String::from_str("IGMP"),
            Protocol::Tcp => String::from_str("TCP"),
            Protocol::Udp => String::from_str("UDP"),
            Protocol::Gre => String::from_str("GRE"),
            Protocol::Esp => String::from_str("ESP"),
            Protocol::Ah => String::from_str("AH"),
            Protocol::Icmpv6 => String::from_str("ICMPv6"),
        }
    }
}

/// Distinct protocols have distinct numbers.
pub proof fn lemma_protocol_numbers_distinct(a: Protocol, b: Protocol)
    ensures
        protocol_number(a) == protocol_number(b) ==> a == b,
{
}

} // verus!

verus! {

/// An address read in CIDR notation never has a prefix longer than its kind
/// allows (32 bits for IPv4, 128 for IPv6).
pub proof fn lemma_cidr_prefix_bounded(s: Seq<char>)
    ensures
        cidr_from_text(s) matches Ok(r) ==> r.1 <= max_prefix(r.0),
{
}


/// The usual text of an address: an IPv4 address in dotted-decimal form, an
/// IPv6 address in its shortest form.
pub open spec fn ip_text(a: IpAddr) -> Seq<char> {
    match a {
        IpAddr::V4(v) => ipv4_text(v),
        IpAddr::V6(v) => ipv6_text(v),
    }
}

/// An address written in its usual form reads back as itself.
pub proof fn lemma_ip_text_roundtrip(a: IpAddr)
    ensures
        ip_from_text(ip_text(a)) == Some(a),
        forall|i: int| 0 <= i < ip_text(a).len() ==> #[trigger] ip_text(a)[i] != '/',
{
    match a {
        IpAddr::V4(v) => {
            lemma_ipv4_text_roundtrip(v);
            assert forall|i: int| 0 <= i < ip_text(a).len() implies #[trigger] ip_text(a)[i] != '/' by {
                assert(is_dec_digit(ipv4_text(v)[i]) || ipv4_text(v)[i] == '.');
            }
        },
        IpAddr::V6(v) => {
            lemma_ipv6_text_roundtrip(v);
        },
    }
}

/// An address with a prefix length that its kind allows, written in CIDR
/// notation (its usual text, `/`, the prefix length in decimal), reads back
/// as the same address and prefix length; the host bits are kept.
pub proof fn lemma_cidr_roundtrip(m: IpAddrMask)
    requires
        m.prefix_len <= max_prefix(m.addr),
    ensures
        cidr_from_text(ip_text(m.addr) + "/"@ + decimal(m.prefix_len as nat)) == Ok::<
            (IpAddr, u8),
            Seq<char>,
        >((m.addr, m.prefix_len)),
{
    let t = ip_text(m.addr);
    let d = decimal(m.prefix_len as nat);
    lemma_ip_text_roundtrip(m.addr);
    lemma_u8_decimal_roundtrip(m.prefix_len);
    assert forall|i: int| 0 <= i < d.len() implies d[i] != '/' by {
        assert(is_dec_digit(d[i]));
    }
    lemma_split_none(t, '/');
    lemma_split_append(t, '/', d);
    reveal_strlit("/");
    assert(t + "/"@ + d =~= t.push('/') + d);
    assert(split(t + "/"@ + d, '/') =~= seq![t, d]);
}

} // verus!
