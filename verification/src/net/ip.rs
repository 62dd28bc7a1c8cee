//! IPv4 and IPv6 addresses and the classes they fall into.

use vstd::prelude::*;

verus! {

/// A value that stands for one IP address.
pub trait ToIpAddr {
    /// The address, of either family.
    fn to_ip_addr(&self) -> IpAddr;
}

/// An IPv4 address: four octets, the most significant first.
#[derive(Copy, PartialEq, Eq, Clone, Hash, Debug)]
pub struct Ipv4Addr {
    octets: [u8; 4],
}

/// An IPv6 address: eight segments of 16 bits, the most significant first.
#[derive(Copy, PartialEq, Eq, Clone, Hash, Debug)]
pub struct Ipv6Addr {
    segments: [u16; 8],
}

/// How far an IPv6 multicast address reaches.
#[derive(Copy, PartialEq, Eq, Clone, Hash, Debug, Structural)]
pub enum Ipv6MulticastScope {
    InterfaceLocal,
    LinkLocal,
    RealmLocal,
    AdminLocal,
    SiteLocal,
    OrganizationLocal,
    Global,
}

/// An IP address of either family.
#[derive(Copy, PartialEq, Eq, Clone, Hash, Debug)]
pub enum IpAddr {
    V4(Ipv4Addr),
    V6(Ipv6Addr),
}

impl IpAddr {
    /// The IPv4 address `a.b.c.d`.
    pub fn new_v4(a: u8, b: u8, c: u8, d: u8) -> (ip: IpAddr)
        ensures
            ip matches IpAddr::V4(v4) && v4.octets()@ == seq![a, b, c, d],
    {
        Ipv4Addr::new(a, b, c, d).to_ip_addr()
    }

    /// The IPv6 address `a:b:c:d:e:f:g:h`.
    pub fn new_v6(a: u16, b: u16, c: u16, d: u16, e: u16, f: u16, g: u16, h: u16) -> (ip: IpAddr)
        ensures
            ip matches IpAddr::V6(v6) && v6.segments()@ == seq![a, b, c, d, e, f, g, h],
    {
        Ipv6Addr::new(a, b, c, d, e, f, g, h).to_ip_addr()
    }
}

impl ToIpAddr for IpAddr {
    fn to_ip_addr(&self) -> (ip: IpAddr)
        ensures
            ip == *self,
    {
        *self
    }
}

/// The 16-bit segment whose high byte is `hi` and whose low byte is `lo`.
pub open spec fn segment_of(hi: u8, lo: u8) -> u16 {
    (hi * 256 + lo) as u16
}

/// Joins two bytes into a 16-bit segment.
fn join_bytes(hi: u8, lo: u8) -> (seg: u16)
    ensures
        seg == segment_of(hi, lo),
{
    let seg = ((hi as u16) << 8) | (lo as u16);
    proof {
        assert((((hi as u16) << 8) | (lo as u16)) == (hi as u16) * 256 + (lo as u16))
            by (bit_vector);
    }
    seg
}

/// The high and the low byte of a 16-bit segment.
fn split_segment(seg: u16) -> (bytes: (u8, u8))
    ensures
        bytes.0 == seg / 256,
        bytes.1 == seg % 256,
{
    let hi = seg >> 8;
    let lo = seg & 0xff;
    proof {
        assert((seg >> 8) == seg / 256 && (seg >> 8) < 256) by (bit_vector);
        assert((seg & 0xff) == seg % 256 && (seg & 0xff) < 256) by (bit_vector);
    }
    (hi as u8, lo as u8)
}

impl Ipv4Addr {
    /// The four octets.
    pub closed spec fn spec_octets(&self) -> &[u8; 4] {
        &self.octets
    }

    /// The address `a.b.c.d`.
    pub fn new(a: u8, b: u8, c: u8, d: u8) -> (ip: Ipv4Addr)
        ensures
            ip.octets()@ == seq![a, b, c, d],
    {
        let ip = Ipv4Addr { octets: [a, b, c, d] };
        ip
    }

    /// The four octets.
    #[verifier::when_used_as_spec(spec_octets)]
    pub fn octets(&self) -> (o: &[u8; 4])
        ensures
            o == self.octets(),
    {
        &self.octets
    }

    /// Whether this is the unspecified address `0.0.0.0`.
    pub fn is_unspecified(&self) -> (b: bool)
        ensures
            b == (self.octets()@ == seq![0u8, 0u8, 0u8, 0u8]),
    {
        proof {
            assert(self.octets@ =~= seq![
                self.octets@[0],
                self.octets@[1],
                self.octets@[2],
                self.octets@[3],
            ]);
        }
        self.octets[0] == 0 && self.octets[1] == 0 && self.octets[2] == 0 && self.octets[3] == 0
    }

    /// Whether this is a loopback address, one of `127.0.0.0/8`.
    pub fn is_loopback(&self) -> (b: bool)
        ensures
            b == (self.octets()[0] == 127),
    {
        self.octets[0] == 127
    }

    /// Whether this is a private address: one of `10.0.0.0/8`,
    /// `172.16.0.0/12` and `192.168.0.0/16`.
    pub fn is_private(&self) -> (b: bool)
        ensures
            b == (self.octets()[0] == 10 || (self.octets()[0] == 172 && 16 <= self.octets()[1]
                <= 31) || (self.octets()[0] == 192 && self.octets()[1] == 168)),
    {
        let a = self.octets[0];
        let b = self.octets[1];
        a == 10 || (a == 172 && b >= 16 && b <= 31) || (a == 192 && b == 168)
    }

    /// Whether this is a link-local address, one of `169.254.0.0/16`.
    pub fn is_link_local(&self) -> (b: bool)
        ensures
            b == (self.octets()[0] == 169 && self.octets()[1] == 254),
    {
        self.octets[0] == 169 && self.octets[1] == 254
    }

    /// Whether this address appears to be globally routable: it is neither
    /// private nor loopback nor link-local.
    pub fn is_global(&self) -> (b: bool)
        ensures
            b == !(self.octets()[0] == 10 || (self.octets()[0] == 172 && 16 <= self.octets()[1]
                <= 31) || (self.octets()[0] == 192 && self.octets()[1] == 168)
                || self.octets()[0] == 127 || (self.octets()[0] == 169 && self.octets()[1]
                == 254)),
    {
        !self.is_private() && !self.is_loopback() && !self.is_link_local()
    }

    /// Whether this is a multicast address: its first octet is between 224
    /// and 239.
    pub fn is_multicast(&self) -> (b: bool)
        ensures
            b == (224 <= self.octets()[0] <= 239),
    {
        self.octets[0] >= 224 && self.octets[0] <= 239
    }

    /// The IPv4-compatible IPv6 address `::a.b.c.d`.
    pub fn to_ipv6_compatible(&self) -> (ip: Ipv6Addr)
        ensures
            ip.segments()@ == seq![
                0u16,
                0u16,
                0u16,
                0u16,
                0u16,
                0u16,
                segment_of(self.octets()[0], self.octets()[1]),
                segment_of(self.octets()[2], self.octets()[3]),
            ],
    {
        Ipv6Addr::new(
            0,
            0,
            0,
            0,
            0,
            0,
            join_bytes(self.octets[0], self.octets[1]),
            join_bytes(self.octets[2], self.octets[3]),
        )
    }

    /// The IPv4-mapped IPv6 address `::ffff:a.b.c.d`.
    pub fn to_ipv6_mapped(&self) -> (ip: Ipv6Addr)
        ensures
            ip.segments()@ == seq![
                0u16,
                0u16,
                0u16,
                0u16,
                0u16,
                0xffffu16,
                segment_of(self.octets()[0], self.octets()[1]),
                segment_of(self.octets()[2], self.octets()[3]),
            ],
    {
        Ipv6Addr::new(
            0,
            0,
            0,
            0,
            0,
            0xffff,
            join_bytes(self.octets[0], self.octets[1]),
            join_bytes(self.octets[2], self.octets[3]),
        )
    }
}

impl ToIpAddr for Ipv4Addr {
    fn to_ip_addr(&self) -> (ip: IpAddr)
        ensures
            ip == IpAddr::V4(*self),
    {
        IpAddr::V4(*self)
    }
}

impl Ipv6Addr {
    /// The eight segments.
    pub closed spec fn spec_segments(&self) -> &[u16; 8] {
        &self.segments
    }

    /// The scope of a multicast address whose first segment is `first`, if
    /// its low four bits name one.
    pub open spec fn scope_of(first: u16) -> Option<Ipv6MulticastScope> {
        if first < 0xff00 {
            None
        } else if first % 16 == 1 {
            Some(Ipv6MulticastScope::InterfaceLocal)
        } else if first % 16 == 2 {
            Some(Ipv6MulticastScope::LinkLocal)
        } else if first % 16 == 3 {
            Some(Ipv6MulticastScope::RealmLocal)
        } else if first % 16 == 4 {
            Some(Ipv6MulticastScope::AdminLocal)
        } else if first % 16 == 5 {
            Some(Ipv6MulticastScope::SiteLocal)
        } else if first % 16 == 8 {
            Some(Ipv6MulticastScope::OrganizationLocal)
        } else if first % 16 == 14 {
            Some(Ipv6MulticastScope::Global)
        } else {
            None
        }
    }

    /// Whether an address with these segments is a routable unicast
    /// address: not the loopback address, and outside the unique local range
    /// `fc00::/7`, the link-local and site-local ranges `fe80::/9` and the
    /// multicast range `ff00::/8`.
    pub open spec fn unicast_global(segments: Seq<u16>) -> bool {
        &&& segments[0] < 0xfc00 || 0xfe00 <= segments[0] <= 0xfe7f
        &&& segments != seq![0u16, 0u16, 0u16, 0u16, 0u16, 0u16, 0u16, 1u16]
    }

    /// The address `a:b:c:d:e:f:g:h`.
    pub fn new(a: u16, b: u16, c: u16, d: u16, e: u16, f: u16, g: u16, h: u16) -> (ip: Ipv6Addr)
        ensures
            ip.segments()@ == seq![a, b, c, d, e, f, g, h],
    {
        let ip = Ipv6Addr { segments: [a, b, c, d, e, f, g, h] };
        ip
    }

    /// The eight segments.
    #[verifier::when_used_as_spec(spec_segments)]
    pub fn segments(&self) -> (s: &[u16; 8])
        ensures
            s == self.segments(),
    {
        &self.segments
    }

    /// Whether the first seven segments are zero and the last is `last`.
    fn is_zeros_then(&self, last: u16) -> (b: bool)
        ensures
            b == (self.segments()@ == seq![0u16, 0u16, 0u16, 0u16, 0u16, 0u16, 0u16, last]),
    {
        proof {
            assert(self.segments@ =~= seq![
                self.segments@[0],
                self.segments@[1],
                self.segments@[2],
                self.segments@[3],
                self.segments@[4],
                self.segments@[5],
                self.segments@[6],
                self.segments@[7],
            ]);
        }
        self.segments[0] == 0 && self.segments[1] == 0 && self.segments[2] == 0
            && self.segments[3] == 0 && self.segments[4] == 0 && self.segments[5] == 0
            && self.segments[6] == 0 && self.segments[7] == last
    }

    /// Whether this is the unspecified address `::`.
    pub fn is_unspecified(&self) -> (b: bool)
        ensures
            b == (self.segments()@ == seq![0u16, 0u16, 0u16, 0u16, 0u16, 0u16, 0u16, 0u16]),
    {
        self.is_zeros_then(0)
    }

    /// Whether this is the loopback address `::1`.
    pub fn is_loopback(&self) -> (b: bool)
        ensures
            b == (self.segments()@ == seq![0u16, 0u16, 0u16, 0u16, 0u16, 0u16, 0u16, 1u16]),
    {
        self.is_zeros_then(1)
    }

    /// Whether this address appears to be globally routable: a multicast
    /// address of global scope, or a routable unicast address.
    pub fn is_global(&self) -> (b: bool)
        ensures
            b == (if self.segments()[0] >= 0xff00 {
                self.segments()[0] % 16 == 14
            } else {
                Self::unicast_global(self.segments()@)
            }),
    {
        match self.multicast_scope() {
            Some(Ipv6MulticastScope::Global) => true,
            None => self.is_unicast_global(),
            _ => false,
        }
    }

    /// Whether this is a unique local address, one of `fc00::/7`.
    pub fn is_unique_local(&self) -> (b: bool)
        ensures
            b == (0xfc00 <= self.segments()[0] <= 0xfdff),
    {
        let first = self.segments[0];
        proof {
            assert(((first & 0xfe00) == 0xfc00) == (0xfc00 <= first && first <= 0xfdff))
                by (bit_vector);
        }
        (first & 0xfe00) == 0xfc00
    }

    /// Whether this is a unicast link-local address, one of `fe80::/10`.
    pub fn is_unicast_link_local(&self) -> (b: bool)
        ensures
            b == (0xfe80 <= self.segments()[0] <= 0xfebf),
    {
        let first = self.segments[0];
        proof {
            assert(((first & 0xffc0) == 0xfe80) == (0xfe80 <= first && first <= 0xfebf))
                by (bit_vector);
        }
        (first & 0xffc0) == 0xfe80
    }

    /// Whether this is a unicast site-local address, one of `fec0::/10`.
    pub fn is_unicast_site_local(&self) -> (b: bool)
        ensures
            b == (0xfec0 <= self.segments()[0] <= 0xfeff),
    {
        let first = self.segments[0];
        proof {
            assert(((first & 0xffc0) == 0xfec0) == (0xfec0 <= first && first <= 0xfeff))
                by (bit_vector);
        }
        (first & 0xffc0) == 0xfec0
    }

    /// Whether this is a routable unicast address: not multicast, not the
    /// loopback address, and not link-local, site-local or unique local.
    pub fn is_unicast_global(&self) -> (b: bool)
        ensures
            b == Self::unicast_global(self.segments()@),
    {
        !self.is_multicast() && !self.is_loopback() && !self.is_unicast_link_local()
            && !self.is_unicast_site_local() && !self.is_unique_local()
    }

    /// The scope of this address if it is a multicast address with a scope
    /// that is known.
    pub fn multicast_scope(&self) -> (scope: Option<Ipv6MulticastScope>)
        ensures
            scope == Self::scope_of(self.segments()[0]),
    {
        if self.is_multicast() {
            let first = self.segments[0];
            let low = first & 0x000f;
            proof {
                assert((first & 0x000f) == first % 16) by (bit_vector);
            }
            if low == 1 {
                Some(Ipv6MulticastScope::InterfaceLocal)
            } else if low == 2 {
                Some(Ipv6MulticastScope::LinkLocal)
            } else if low == 3 {
                Some(Ipv6MulticastScope::RealmLocal)
            } else if low == 4 {
                Some(Ipv6MulticastScope::AdminLocal)
            } else if low == 5 {
                Some(Ipv6MulticastScope::SiteLocal)
            } else if low == 8 {
                Some(Ipv6MulticastScope::OrganizationLocal)
            } else if low == 14 {
                Some(Ipv6MulticastScope::Global)
            } else {
                None
            }
        } else {
            None
        }
    }

    /// Whether this is a multicast address, one of `ff00::/8`.
    pub fn is_multicast(&self) -> (b: bool)
        ensures
            b == (self.segments()[0] >= 0xff00),
    {
        let first = self.segments[0];
        proof {
            assert(((first & 0xff00) == 0xff00) == (first >= 0xff00)) by (bit_vector);
        }
        (first & 0xff00) == 0xff00
    }

    /// The IPv4 address that this address embeds, if it is IPv4-compatible
    /// (`::a.b.c.d`) or IPv4-mapped (`::ffff:a.b.c.d`).
    pub fn to_ipv4(&self) -> (ip: Option<Ipv4Addr>)
        ensures
            ip is Some <==> (forall|i: int| 0 <= i < 5 ==> self.segments()[i] == 0) && (
            self.segments()[5] == 0 || self.segments()[5] == 0xffff),
            ip matches Some(v4) ==> v4.octets()@ == seq![
                (self.segments()[6] / 256) as u8,
                (self.segments()[6] % 256) as u8,
                (self.segments()[7] / 256) as u8,
                (self.segments()[7] % 256) as u8,
            ],
    {
        let s = &self.segments;
        if s[0] == 0 && s[1] == 0 && s[2] == 0 && s[3] == 0 && s[4] == 0 && (s[5] == 0 || s[5]
            == 0xffff) {
            let (a, b) = split_segment(s[6]);
            let (c, d) = split_segment(s[7]);
            Some(Ipv4Addr::new(a, b, c, d))
        } else {
            None
        }
    }
}

impl ToIpAddr for Ipv6Addr {
    fn to_ip_addr(&self) -> (ip: IpAddr)
        ensures
            ip == IpAddr::V6(*self),
    {
        IpAddr::V6(*self)
    }
}

/// A segment made of two bytes splits into those two bytes again, so that
/// an IPv4 address embedded in an IPv6 address comes back unchanged.
pub proof fn law_segment_round_trip(hi: u8, lo: u8)
    ensures
        segment_of(hi, lo) / 256 == hi,
        segment_of(hi, lo) % 256 == lo,
{
}

} // verus!
