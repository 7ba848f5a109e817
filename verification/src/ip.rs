//! IP addresses: which of them an outbound request may never reach, and their
//! textual form.
use vstd::prelude::*;
use vstd::string::*;

use crate::text::joined;

verus! {

/// An IPv4 address, by its four octets.
#[derive(Clone, Copy, Debug, PartialEq, Eq)]
pub struct Ipv4Addr {
    pub octets: [u8; 4],
}

/// An IPv6 address, by its eight 16-bit segments.
#[derive(Clone, Copy, Debug, PartialEq, Eq)]
pub struct Ipv6Addr {
    pub segments: [u16; 8],
}

/// An IP address of either family.
#[derive(Clone, Copy, Debug, PartialEq, Eq)]
pub enum IpAddr {
    V4(Ipv4Addr),
    V6(Ipv6Addr),
}

/// `value` lies in the block of `size` addresses that starts at `network`.
pub open spec fn in_block(value: int, network: int, size: int) -> bool {
    network <= value < network + size
}

/// The IPv4 addresses, as 32-bit numbers, that a request may never reach.
pub open spec fn forbidden_v4(bits: int) -> bool {
    // loopback: 127.0.0.0/8
    ||| in_block(bits, 0x7f00_0000, 0x0100_0000)
    // private: 10.0.0.0/8, 172.16.0.0/12, 192.168.0.0/16
    ||| in_block(bits, 0x0a00_0000, 0x0100_0000)
    ||| in_block(bits, 0xac10_0000, 0x0010_0000)
    ||| in_block(bits, 0xc0a8_0000, 0x0001_0000)
    // link-local: 169.254.0.0/16
    ||| in_block(bits, 0xa9fe_0000, 0x0001_0000)
    // broadcast
    ||| bits == 0xffff_ffff
    // documentation: 192.0.2.0/24, 198.51.100.0/24, 203.0.113.0/24
    ||| in_block(bits, 0xc000_0200, 0x100)
    ||| in_block(bits, 0xc633_6400, 0x100)
    ||| in_block(bits, 0xcb00_7100, 0x100)
    // unspecified
    ||| bits == 0
}

/// The number of addresses that IPv4 has.
pub open spec fn v4_count() -> int {
    0x1_0000_0000
}

/// The first IPv4-mapped IPv6 address, `::ffff:0.0.0.0`, as a number.
pub open spec fn mapped_base() -> int {
    0xffff_0000_0000
}

/// The IPv6 addresses, as 128-bit numbers, that a request may never reach.
pub open spec fn forbidden_v6(bits: int) -> bool {
    // unspecified and loopback
    ||| bits == 0
    ||| bits == 1
    // unique local: fc00::/7
    ||| in_block(
        bits,
        0xfc00_0000_0000_0000_0000_0000_0000_0000,
        0x0200_0000_0000_0000_0000_0000_0000_0000,
    )
    // link-local: fe80::/10
    ||| in_block(
        bits,
        0xfe80_0000_0000_0000_0000_0000_0000_0000,
        0x0040_0000_0000_0000_0000_0000_0000_0000,
    )
    // IPv4-compatible, ::a.b.c.d
    ||| in_block(bits, 0, v4_count()) && forbidden_v4(bits)
    // IPv4-mapped, ::ffff:a.b.c.d
    ||| in_block(bits, mapped_base(), v4_count()) && forbidden_v4(bits - mapped_base())
}

impl Ipv4Addr {
    /// The address as a 32-bit number.
    pub open spec fn bits(self) -> int {
        0x100_0000 * self.octets@[0] + 0x1_0000 * self.octets@[1] + 0x100 * self.octets@[2]
            + self.octets@[3]
    }

    /// 127.0.0.0/8.
    pub fn is_loopback(&self) -> (r: bool)
        ensures
            r == in_block(self.bits(), 0x7f00_0000, 0x0100_0000),
    {
        self.octets[0] == 127
    }

    /// 10.0.0.0/8, 172.16.0.0/12 and 192.168.0.0/16.
    pub fn is_private(&self) -> (r: bool)
        ensures
            r == (in_block(self.bits(), 0x0a00_0000, 0x0100_0000) || in_block(
                self.bits(),
                0xac10_0000,
                0x0010_0000,
            ) || in_block(self.bits(), 0xc0a8_0000, 0x0001_0000)),
    {
        let a: u8 = self.octets[0];
        let b: u8 = self.octets[1];
        a == 10 || (a == 172 && 16 <= b && b <= 31) || (a == 192 && b == 168)
    }

    /// 169.254.0.0/16.
    pub fn is_link_local(&self) -> (r: bool)
        ensures
            r == in_block(self.bits(), 0xa9fe_0000, 0x0001_0000),
    {
        self.octets[0] == 169 && self.octets[1] == 254
    }

    /// 255.255.255.255.
    pub fn is_broadcast(&self) -> (r: bool)
        ensures
            r == (self.bits() == 0xffff_ffff),
    {
        self.octets[0] == 255 && self.octets[1] == 255 && self.octets[2] == 255 && self.octets[3]
            == 255
    }

    /// 192.0.2.0/24, 198.51.100.0/24 and 203.0.113.0/24.
    pub fn is_documentation(&self) -> (r: bool)
        ensures
            r == (in_block(self.bits(), 0xc000_0200, 0x100) || in_block(
                self.bits(),
                0xc633_6400,
                0x100,
            ) || in_block(self.bits(), 0xcb00_7100, 0x100)),
    {
        let a: u8 = self.octets[0];
        let b: u8 = self.octets[1];
        let c: u8 = self.octets[2];
        (a == 192 && b == 0 && c == 2) || (a == 198 && b == 51 && c == 100) || (a == 203 && b == 0
            && c == 113)
    }

    /// 0.0.0.0.
    pub fn is_unspecified(&self) -> (r: bool)
        ensures
            r == (self.bits() == 0),
    {
        self.octets[0] == 0 && self.octets[1] == 0 && self.octets[2] == 0 && self.octets[3] == 0
    }
}

impl Ipv6Addr {
    /// The address as a 128-bit number.
    pub open spec fn bits(self) -> int {
        0x1_0000_0000_0000_0000_0000_0000_0000 * self.segments@[0]
            + 0x1_0000_0000_0000_0000_0000_0000 * self.segments@[1]
            + 0x1_0000_0000_0000_0000_0000 * self.segments@[2]
            + 0x1_0000_0000_0000_0000 * self.segments@[3] + 0x1_0000_0000_0000 * self.segments@[4]
            + 0x1_0000_0000 * self.segments@[5] + 0x1_0000 * self.segments@[6] + self.segments@[7]
    }

    /// The first `n` segments are zero.
    fn starts_with_zeros(&self, n: usize) -> (r: bool)
        requires
            n <= 8,
        ensures
            r == forall|i: int| 0 <= i < n ==> self.segments@[i] == 0,
    {
        for i in 0..n
            invariant
                n <= 8,
                forall|j: int| 0 <= j < i ==> self.segments@[j] == 0,
        {
            if self.segments[i] != 0 {
                return false;
            }
        }
        true
    }

    /// `::1`.
    pub fn is_loopback(&self) -> (r: bool)
        ensures
            r == (self.bits() == 1),
    {
        self.starts_with_zeros(7) && self.segments[7] == 1
    }

    /// `::`.
    pub fn is_unspecified(&self) -> (r: bool)
        ensures
            r == (self.bits() == 0),
    {
        self.starts_with_zeros(8)
    }

    /// fc00::/7.
    pub fn is_unique_local(&self) -> (r: bool)
        ensures
            r == in_block(
                self.bits(),
                0xfc00_0000_0000_0000_0000_0000_0000_0000,
                0x0200_0000_0000_0000_0000_0000_0000_0000,
            ),
    {
        0xfc00 <= self.segments[0] && self.segments[0] <= 0xfdff
    }

    /// fe80::/10.
    pub fn is_unicast_link_local(&self) -> (r: bool)
        ensures
            r == in_block(
                self.bits(),
                0xfe80_0000_0000_0000_0000_0000_0000_0000,
                0x0040_0000_0000_0000_0000_0000_0000_0000,
            ),
    {
        0xfe80 <= self.segments[0] && self.segments[0] <= 0xfebf
    }

    /// The IPv4 address in the last two segments.
    fn embedded(&self) -> (r: Ipv4Addr)
        ensures
            r.bits() == 0x1_0000 * self.segments@[6] + self.segments@[7],
            r.octets@ == seq![
                (self.segments@[6] / 256) as u8,
                (self.segments@[6] % 256) as u8,
                (self.segments@[7] / 256) as u8,
                (self.segments@[7] % 256) as u8,
            ],
    {
        let ab: u16 = self.segments[6];
        let cd: u16 = self.segments[7];
        Ipv4Addr {
            octets: [(ab / 256) as u8, (ab % 256) as u8, (cd / 256) as u8, (cd % 256) as u8],
        }
    }

    /// The IPv4 address `a.b.c.d` of an IPv4-mapped address `::ffff:a.b.c.d`.
    pub fn to_ipv4_mapped(&self) -> (r: Option<Ipv4Addr>)
        ensures
            r is Some == in_block(self.bits(), mapped_base(), v4_count()),
            r matches Some(v4) ==> v4.bits() == self.bits() - mapped_base(),
    {
        if self.starts_with_zeros(5) && self.segments[5] == 0xffff {
            Some(self.embedded())
        } else {
            None
        }
    }

    /// The IPv4 address `a.b.c.d` of an IPv4-mapped address `::ffff:a.b.c.d`
    /// or an IPv4-compatible one `::a.b.c.d`.
    pub fn to_ipv4(&self) -> (r: Option<Ipv4Addr>)
        ensures
            r is Some == (in_block(self.bits(), mapped_base(), v4_count()) || in_block(
                self.bits(),
                0,
                v4_count(),
            )),
            r matches Some(v4) ==> v4.bits() == if self.bits() < v4_count() {
                self.bits()
            } else {
                self.bits() - mapped_base()
            },
    {
        if self.starts_with_zeros(5) && (self.segments[5] == 0 || self.segments[5] == 0xffff) {
            Some(self.embedded())
        } else {
            None
        }
    }
}

impl IpAddr {
    /// The addresses that a request may never reach.
    pub open spec fn forbidden(self) -> bool {
        match self {
            IpAddr::V4(v4) => forbidden_v4(v4.bits()),
            IpAddr::V6(v6) => forbidden_v6(v6.bits()),
        }
    }
}

/// Whether `ip` must never be the target of an outbound request: loopback,
/// private, link-local (with the 169.254.169.254 cloud-metadata endpoint),
/// broadcast, documentation, the unspecified address (which the operating
/// system routes to the local host), IPv6 unique-local and link-local, and
/// every IPv4-mapped or IPv4-compatible IPv6 form of such an IPv4 address.
pub fn is_forbidden_ip(ip: IpAddr) -> (r: bool)
    ensures
        r == ip.forbidden(),
    decreases (if ip is V6 { 1int } else { 0int }),
{
    match ip {
        IpAddr::V4(v4) => {
            v4.is_loopback() || v4.is_private() || v4.is_link_local() || v4.is_broadcast()
                || v4.is_documentation() || v4.is_unspecified()
        },
        IpAddr::V6(v6) => {
            if v6.is_loopback() || v6.is_unspecified() || v6.is_unique_local()
                || v6.is_unicast_link_local() {
                return true;
            }
            // The embedded IPv4 address is held to the same rules, so that
            // ::ffff:127.0.0.1 is as forbidden as 127.0.0.1.
            let embedded = match v6.to_ipv4_mapped() {
                Some(v4) => Some(v4),
                None => v6.to_ipv4(),
            };
            match embedded {
                Some(v4) => is_forbidden_ip(IpAddr::V4(v4)),
                None => false,
            }
        },
    }
}

/// The digit with value `d`, from `0` to `9` and on with `a` to `f`.
pub open spec fn digit_char(d: int) -> char {
    if d < 10 {
        ('0' as u8 + d) as char
    } else {
        ('a' as u8 + d - 10) as char
    }
}

/// The digits of `n` in base `base`, without leading zeros.
pub open spec fn digits(n: nat, base: nat) -> Seq<char>
    decreases n,
{
    if n < base || base < 2 {
        seq![digit_char(n as int)]
    } else {
        proof {
            assert(n / base < n) by (nonlinear_arith)
                requires
                    2 <= base <= n,
            ;
        }
        digits(n / base, base).push(digit_char((n % base) as int))
    }
}

/// The dotted decimal form of an IPv4 address.
pub open spec fn v4_text(octets: Seq<u8>) -> Seq<char> {
    joined(octets.map_values(|octet: u8| digits(octet as nat, 10)), "."@)
}

/// Segments in hexadecimal, separated by colons.
pub open spec fn groups_text(segments: Seq<u16>) -> Seq<char> {
    joined(segments.map_values(|segment: u16| digits(segment as nat, 16)), ":"@)
}

/// The `len` segments from `start` on are zero.
pub open spec fn zero_run(segments: Seq<u16>, start: int, len: int) -> bool {
    &&& 0 <= start
    &&& 0 <= len
    &&& start + len <= segments.len()
    &&& forall|i: int| start <= i < start + len ==> segments[i] == 0
}

/// Among the runs of zeros in the first `n` segments, the one of `len`
/// segments from `start` on is the longest, and of the longest the first.
pub open spec fn longest_zero_run(segments: Seq<u16>, n: int, start: int, len: int) -> bool {
    &&& zero_run(segments, start, len)
    &&& start + len <= n
    &&& forall|s: int, l: int|
        #[trigger] zero_run(segments, s, l) && s + l <= n ==> l < len || (l == len && start <= s)
}

/// The textual form of an IPv6 address: an IPv4-mapped address as
/// `::ffff:a.b.c.d`; else the segments in hexadecimal, the first longest run
/// of two or more zero segments written `::`.
pub open spec fn v6_text(segments: Seq<u16>) -> Seq<char> {
    let (start, len) = choose|start: int, len: int|
        longest_zero_run(segments, segments.len() as int, start, len);
    if zero_run(segments, 0, 5) && segments[5] == 0xffff {
        "::ffff:"@ + v4_text(
            seq![
                (segments[6] / 256) as u8,
                (segments[6] % 256) as u8,
                (segments[7] / 256) as u8,
                (segments[7] % 256) as u8,
            ],
        )
    } else if len > 1 {
        groups_text(segments.take(start)) + "::"@ + groups_text(segments.skip(start + len))
    } else {
        groups_text(segments)
    }
}

/// Appends the digits of `n` in base `base`.
fn append_number(out: &mut String, n: u16, base: u16)
    requires
        2 <= base <= 16,
    ensures
        final(out)@ == old(out)@ + digits(n as nat, base as nat),
    decreases n,
{
    if n >= base {
        assert(n / base < n) by (nonlinear_arith)
            requires
                2 <= base <= n,
        ;
        append_number(out, n / base, base);
    }
    let ghost before = out@;
    out.append(digit(n % base));
    assert(n < base ==> n % base == n) by (nonlinear_arith);
    assert(out@ == before.push(digit_char((n % base) as int)));
    assert(n >= base ==> before == old(out)@ + digits(n as nat / base as nat, base as nat));
}

/// The digit with value `d`.
fn digit(d: u16) -> (r: &'static str)
    requires
        d < 16,
    ensures
        r@ == seq![digit_char(d as int)],
{
    proof {
        reveal_strlit("0");
        reveal_strlit("1");
        reveal_strlit("2");
        reveal_strlit("3");
        reveal_strlit("4");
        reveal_strlit("5");
        reveal_strlit("6");
        reveal_strlit("7");
        reveal_strlit("8");
        reveal_strlit("9");
        reveal_strlit("a");
        reveal_strlit("b");
        reveal_strlit("c");
        reveal_strlit("d");
        reveal_strlit("e");
        reveal_strlit("f");
    }
    match d {
        0 => "0",
        1 => "1",
        2 => "2",
        3 => "3",
        4 => "4",
        5 => "5",
        6 => "6",
        7 => "7",
        8 => "8",
        9 => "9",
        10 => "a",
        11 => "b",
        12 => "c",
        13 => "d",
        14 => "e",
        _ => "f",
    }
}

/// Appends the segments from `from` up to `to`, in hexadecimal, with colons
/// between them.
fn append_groups(out: &mut String, segments: &[u16; 8], from: usize, to: usize)
    requires
        from <= to <= 8,
    ensures
        final(out)@ == old(out)@ + groups_text(segments@.subrange(from as int, to as int)),
{
    let ghost texts = segments@.subrange(from as int, to as int).map_values(
        |segment: u16| digits(segment as nat, 16),
    );
    let ghost start = out@;
    for i in from..to
        invariant
            from <= to <= 8,
            texts == segments@.subrange(from as int, to as int).map_values(
                |segment: u16| digits(segment as nat, 16),
            ),
            out@ == start + joined(texts.take(i - from), ":"@),
    {
        if i > from {
            out.append(":");
        }
        append_number(out, segments[i], 16);
        assert(texts.take(i + 1 - from).drop_last() == texts.take(i - from));
    }
    assert(texts.take(to - from) == texts);
}

impl Ipv4Addr {
    /// The dotted decimal form.
    pub fn to_text(&self) -> (r: String)
        ensures
            r@ == v4_text(self.octets@),
    {
        let mut out = String::new();
        let ghost texts = self.octets@.map_values(|octet: u8| digits(octet as nat, 10));
        for i in 0usize..4
            invariant
                texts == self.octets@.map_values(|octet: u8| digits(octet as nat, 10)),
                out@ == joined(texts.take(i as int), "."@),
        {
            if i > 0 {
                out.append(".");
            }
            append_number(&mut out, self.octets[i] as u16, 10);
            assert(texts.take(i + 1).drop_last() == texts.take(i as int));
        }
        assert(texts.take(4) == texts);
        out
    }
}

/// There is at most one first longest run of zeros.
pub proof fn lemma_longest_zero_run_unique(segments: Seq<u16>, n: int, s: int, l: int, t: int, m: int)
    requires
        longest_zero_run(segments, n, s, l),
        longest_zero_run(segments, n, t, m),
    ensures
        s == t,
        l == m,
{
}

impl Ipv6Addr {
    /// The first longest run of zero segments, as its start and its length.
    fn zeros(&self) -> (r: (usize, usize))
        ensures
            longest_zero_run(self.segments@, 8, r.0 as int, r.1 as int),
    {
        let mut longest: (usize, usize) = (0, 0);
        let mut len: usize = 0;
        for i in 0usize..8
            invariant
                longest_zero_run(self.segments@, i as int, longest.0 as int, longest.1 as int),
                len <= i,
                zero_run(self.segments@, i - len, len as int),
                len < i ==> self.segments@[i - len - 1] != 0,
        {
            if self.segments[i] == 0 {
                let ghost before = len;
                len += 1;
                if len > longest.1 {
                    longest = (i + 1 - len, len);
                }
                assert forall|s: int, l: int| #[trigger]
                    zero_run(self.segments@, s, l) && s + l <= i + 1 implies l < longest.1 || (l
                    == longest.1 && longest.0 <= s) by {
                    if s + l == i + 1 {
                        assert(l <= len) by {
                            if l > len {
                                assert(self.segments@[i + 1 - len - 1] == 0);
                            }
                        }
                    }
                }
            } else {
                len = 0;
                assert forall|s: int, l: int| #[trigger]
                    zero_run(self.segments@, s, l) && s + l <= i + 1 implies l < longest.1 || (l
                    == longest.1 && longest.0 <= s) by {
                    if s + l == i + 1 && l > 0 {
                        assert(self.segments@[i as int] == 0);
                    }
                }
            }
        }
        longest
    }

    /// The textual form, as `v6_text` describes it.
    pub fn to_text(&self) -> (r: String)
        ensures
            r@ == v6_text(self.segments@),
    {
        let (start, len) = self.zeros();
        proof {
            let (s, l) = choose|s: int, l: int| longest_zero_run(self.segments@, 8, s, l);
            lemma_longest_zero_run_unique(self.segments@, 8, s, l, start as int, len as int);
        }
        if self.starts_with_zeros(5) && self.segments[5] == 0xffff {
            let mut out = "::ffff:".to_string();
            let v4 = self.embedded();
            out.append(v4.to_text().as_str());
            out
        } else if len > 1 {
            let mut out = String::new();
            append_groups(&mut out, &self.segments, 0, start);
            out.append("::");
            append_groups(&mut out, &self.segments, start + len, 8);
            out
        } else {
            let mut out = String::new();
            append_groups(&mut out, &self.segments, 0, 8);
            assert(self.segments@.subrange(0, 8) == self.segments@);
            out
        }
    }
}

impl IpAddr {
    /// The textual form of the address.
    pub open spec fn text(self) -> Seq<char> {
        match self {
            IpAddr::V4(v4) => v4_text(v4.octets@),
            IpAddr::V6(v6) => v6_text(v6.segments@),
        }
    }

    /// The textual form of the address.
    pub fn to_text(&self) -> (r: String)
        ensures
            r@ == self.text(),
    {
        match self {
            IpAddr::V4(v4) => v4.to_text(),
            IpAddr::V6(v6) => v6.to_text(),
        }
    }
}

} // verus!
