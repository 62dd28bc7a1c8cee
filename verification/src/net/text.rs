//! Addresses in writing: dotted decimal for IPv4, colon-separated
//! hexadecimal with the longest run of zeros left out for IPv6.

use super::addr::SocketAddr;
use super::ip::{IpAddr, Ipv4Addr, Ipv6Addr};
use vstd::prelude::*;
use vstd::string::StringExecFns;

verus! {

/// The digit for `d`, in lower case.
pub open spec fn digit_char(d: nat) -> char
    recommends
        d < 16,
{
    seq!['0', '1', '2', '3', '4', '5', '6', '7', '8', '9', 'a', 'b', 'c', 'd', 'e', 'f'][d as int]
}

/// `n` in decimal, without leading zeros.
pub open spec fn decimal(n: nat) -> Seq<char>
    decreases n,
{
    if n < 10 {
        seq![digit_char(n)]
    } else {
        decimal(n / 10) + seq![digit_char(n % 10)]
    }
}

/// `n` in hexadecimal, in lower case and without leading zeros.
pub open spec fn hexadecimal(n: nat) -> Seq<char>
    decreases n,
{
    if n < 16 {
        seq![digit_char(n)]
    } else {
        hexadecimal(n / 16) + seq![digit_char(n % 16)]
    }
}

/// The four octets in decimal, with dots between them.
pub open spec fn ipv4_text(octets: Seq<u8>) -> Seq<char>
    recommends
        octets.len() == 4,
{
    decimal(octets[0] as nat) + seq!['.'] + decimal(octets[1] as nat) + seq!['.']
        + decimal(octets[2] as nat) + seq!['.'] + decimal(octets[3] as nat)
}

/// The segments in hexadecimal, with colons between them.
pub open spec fn hex_join(segments: Seq<u16>) -> Seq<char>
    decreases segments.len(),
{
    if segments.len() == 0 {
        Seq::empty()
    } else if segments.len() == 1 {
        hexadecimal(segments[0] as nat)
    } else {
        hex_join(segments.drop_last()) + seq![':'] + hexadecimal(segments.last() as nat)
    }
}

/// The `len` segments from index `at` on are all zero.
pub open spec fn all_zero(segments: Seq<u16>, at: int, len: int) -> bool {
    &&& 0 <= at
    &&& 0 <= len
    &&& at + len <= segments.len()
    &&& forall|k: int| at <= k < at + len ==> segments[k] == 0
}

/// The segments from `at` on are a run of `len` zeros, no run of zeros is
/// longer, and none of the same length starts earlier. Without any zero the
/// run is the empty one at index 0.
pub open spec fn is_longest_zero_run(segments: Seq<u16>, at: int, len: int) -> bool {
    &&& all_zero(segments, at, len)
    &&& forall|a: int, l: int| #[trigger]
        all_zero(segments, a, l) ==> l <= len && (l == len && l > 0 ==> at <= a)
    &&& (len == 0 ==> at == 0)
}

/// Where the first of the longest runs of zeros starts, and how long it is.
pub open spec fn longest_zero_run(segments: Seq<u16>) -> (int, int) {
    choose|run: (int, int)| is_longest_zero_run(segments, run.0, run.1)
}

/// There is only one first longest run of zeros: a run that is one is the
/// one that `longest_zero_run` names.
pub proof fn law_longest_zero_run_is_unique(segments: Seq<u16>, at: int, len: int)
    requires
        is_longest_zero_run(segments, at, len),
    ensures
        longest_zero_run(segments) == (at, len),
{
    let run = longest_zero_run(segments);
    assert(is_longest_zero_run(segments, (at, len).0, (at, len).1));
}

/// The IPv4 address that the last two segments of an IPv6 address embed,
/// in dotted decimal.
pub open spec fn embedded_text(g: u16, h: u16) -> Seq<char> {
    ipv4_text(seq![(g / 256) as u8, (g % 256) as u8, (h / 256) as u8, (h % 256) as u8])
}

/// The eight segments in writing.
///
/// The unspecified address is `::` and the loopback address `::1`. An
/// address that embeds an IPv4 address shows it in dotted decimal, after
/// `::` or `::ffff:`. In any other address the first of the longest runs of
/// two or more zero segments is left out and marked by `::`.
pub open spec fn ipv6_text(s: Seq<u16>) -> Seq<char>
    recommends
        s.len() == 8,
{
    if all_zero(s, 0, 6) {
        if s[6] == 0 && s[7] == 0 {
            seq![':', ':']
        } else if s[6] == 0 && s[7] == 1 {
            seq![':', ':', '1']
        } else {
            seq![':', ':'] + embedded_text(s[6], s[7])
        }
    } else if all_zero(s, 0, 5) && s[5] == 0xffff {
        seq![':', ':', 'f', 'f', 'f', 'f', ':'] + embedded_text(s[6], s[7])
    } else {
        let (at, len) = longest_zero_run(s);
        if len > 1 {
            hex_join(s.take(at)) + seq![':', ':'] + hex_join(s.skip(at + len))
        } else {
            hex_join(s)
        }
    }
}

/// An IP address of either family in writing.
pub open spec fn ip_text(ip: IpAddr) -> Seq<char> {
    match ip {
        IpAddr::V4(v4) => ipv4_text(v4.octets()@),
        IpAddr::V6(v6) => ipv6_text(v6.segments()@),
    }
}

/// A socket address in writing: the address and the port with a colon
/// between them, an IPv6 address in square brackets.
pub open spec fn socket_text(addr: SocketAddr) -> Seq<char> {
    match addr.ip {
        IpAddr::V4(_) => ip_text(addr.ip) + seq![':'] + decimal(addr.port as nat),
        IpAddr::V6(_) => seq!['['] + ip_text(addr.ip) + seq![']', ':'] + decimal(addr.port as nat),
    }
}

/// The digit for `d` as a string.
fn digit_str(d: u32) -> (s: &'static str)
    requires
        d < 16,
    ensures
        s@ == seq![digit_char(d as nat)],
{
    proof {
        reveal_strlit("0");
        reveal_strlit("1");
        reveal_strlit("2");
        reveal_strlit("3");
        reveal_strlit("4");
        reveal_strlit("5");
        reveal_strlit("6");
        reveal_strlit("7");
        reveal_strlit("8");
        reveal_strlit("9");
        reveal_strlit("a");
        reveal_strlit("b");
        reveal_strlit("c");
        reveal_strlit("d");
        reveal_strlit("e");
        reveal_strlit("f");
    }
    let s = if d == 0 {
        "0"
    } else if d == 1 {
        "1"
    } else if d == 2 {
        "2"
    } else if d == 3 {
        "3"
    } else if d == 4 {
        "4"
    } else if d == 5 {
        "5"
    } else if d == 6 {
        "6"
    } else if d == 7 {
        "7"
    } else if d == 8 {
        "8"
    } else if d == 9 {
        "9"
    } else if d == 10 {
        "a"
    } else if d == 11 {
        "b"
    } else if d == 12 {
        "c"
    } else if d == 13 {
        "d"
    } else if d == 14 {
        "e"
    } else {
        "f"
    };
    s
}

/// Appends `n` in decimal to `out`.
fn push_decimal(out: &mut String, n: u32)
    ensures
        final(out)@ == old(out)@ + decimal(n as nat),
    decreases n,
{
    if n >= 10 {
        push_decimal(out, n / 10);
    }
    out.append(digit_str(n % 10));
}

/// Appends `n` in hexadecimal to `out`.
fn push_hex(out: &mut String, n: u32)
    ensures
        final(out)@ == old(out)@ + hexadecimal(n as nat),
    decreases n,
{
    if n >= 16 {
        push_hex(out, n / 16);
    }
    out.append(digit_str(n % 16));
}

/// Appends the four octets in dotted decimal to `out`.
fn push_ipv4(out: &mut String, a: u8, b: u8, c: u8, d: u8)
    ensures
        final(out)@ == old(out)@ + ipv4_text(seq![a, b, c, d]),
{
    proof {
        reveal_strlit(".");
    }
    push_decimal(out, a as u32);
    out.append(".");
    push_decimal(out, b as u32);
    out.append(".");
    push_decimal(out, c as u32);
    out.append(".");
    push_decimal(out, d as u32);
}

/// Appends the segments from index `from` up to index `to` to `out`, in
/// hexadecimal with colons between them.
fn push_segments(out: &mut String, segments: &[u16; 8], from: usize, to: usize)
    requires
        from <= to <= 8,
    ensures
        final(out)@ == old(out)@ + hex_join(segments@.subrange(from as int, to as int)),
{
    let mut i = from;
    while i < to
        invariant
            from <= i <= to <= 8,
            segments@.len() == 8,
            out@ == old(out)@ + hex_join(segments@.subrange(from as int, i as int)),
        decreases to - i,
    {
        if i > from {
            out.append(":");
        }
        push_hex(out, segments[i] as u32);
        proof {
            reveal_strlit(":");
            let longer = segments@.subrange(from as int, i + 1);
            assert(longer.drop_last() =~= segments@.subrange(from as int, i as int));
        }
        i += 1;
    }
}

/// Finds the first of the longest runs of zero segments.
pub fn find_zero_slice(segments: &[u16; 8]) -> (run: (usize, usize))
    ensures
        is_longest_zero_run(segments@, run.0 as int, run.1 as int),
{
    let mut longest_span_len: usize = 0;
    let mut longest_span_at: usize = 0;
    let mut cur_span_len: usize = 0;
    let mut cur_span_at: usize = 0;
    let mut i: usize = 0;
    while i < 8
        invariant
            i <= 8,
            segments@.len() == 8,
            cur_span_len <= i,
            cur_span_len > 0 ==> cur_span_at + cur_span_len == i,
            cur_span_len == 0 ==> cur_span_at == 0,
            forall|k: int| i - cur_span_len <= k < i ==> segments@[k] == 0,
            cur_span_len < i ==> segments@[i - cur_span_len - 1] != 0,
            cur_span_len <= longest_span_len,
            all_zero(segments@, longest_span_at as int, longest_span_len as int),
            longest_span_at + longest_span_len <= i,
            longest_span_len == 0 ==> longest_span_at == 0,
            forall|a: int, l: int| #[trigger]
                all_zero(segments@, a, l) && a + l <= i ==> l <= longest_span_len && (l
                    == longest_span_len && l > 0 ==> longest_span_at <= a),
        decreases 8 - i,
    {
        if segments[i] == 0 {
            if cur_span_len == 0 {
                cur_span_at = i;
            }
            cur_span_len += 1;
            if cur_span_len > longest_span_len {
                longest_span_len = cur_span_len;
                longest_span_at = cur_span_at;
            }
        } else {
            cur_span_len = 0;
            cur_span_at = 0;
        }
        i += 1;
    }
    (longest_span_at, longest_span_len)
}

impl Ipv4Addr {
    /// The address in dotted decimal.
    pub fn to_string(&self) -> (text: String)
        ensures
            text@ == ipv4_text(self.octets()@),
    {
        let o = self.octets();
        let mut text = String::new();
        push_ipv4(&mut text, o[0], o[1], o[2], o[3]);
        text
    }
}

/// The high and the low byte of a segment.
fn bytes_of(seg: u16) -> (bytes: (u8, u8))
    ensures
        bytes.0 == seg / 256,
        bytes.1 == seg % 256,
{
    ((seg / 256) as u8, (seg % 256) as u8)
}

impl Ipv6Addr {
    /// The address in writing.
    pub fn to_string(&self) -> (text: String)
        ensures
            text@ == ipv6_text(self.segments()@),
    {
        let s = self.segments();
        let mut text = String::new();
        proof {
            reveal_strlit("::");
            reveal_strlit("::1");
            reveal_strlit("::ffff:");
        }
        let five = s[0] == 0 && s[1] == 0 && s[2] == 0 && s[3] == 0 && s[4] == 0;
        if five && s[5] == 0 {
            if s[6] == 0 && s[7] == 0 {
                text.append("::");
            } else if s[6] == 0 && s[7] == 1 {
                text.append("::1");
            } else {
                let (a, b) = bytes_of(s[6]);
                let (c, d) = bytes_of(s[7]);
                text.append("::");
                push_ipv4(&mut text, a, b, c, d);
            }
        } else if five && s[5] == 0xffff {
            let (a, b) = bytes_of(s[6]);
            let (c, d) = bytes_of(s[7]);
            text.append("::ffff:");
            push_ipv4(&mut text, a, b, c, d);
        } else {
            let (zeros_at, zeros_len) = find_zero_slice(s);
            if zeros_len > 1 {
                push_segments(&mut text, s, 0, zeros_at);
                text.append("::");
                push_segments(&mut text, s, zeros_at + zeros_len, 8);
            } else {
                push_segments(&mut text, s, 0, 8);
                proof {
                    assert(s@.subrange(0, 8) =~= s@);
                }
            }
        }
        text
    }
}

impl IpAddr {
    /// The address in writing.
    pub fn to_string(&self) -> (text: String)
        ensures
            text@ == ip_text(*self),
    {
        match self {
            IpAddr::V4(v4) => v4.to_string(),
            IpAddr::V6(v6) => v6.to_string(),
        }
    }
}

impl SocketAddr {
    /// The address and the port in writing.
    pub fn to_string(&self) -> (text: String)
        ensures
            text@ == socket_text(*self),
    {
        proof {
            reveal_strlit(":");
            reveal_strlit("[");
            reveal_strlit("]:");
        }
        let mut text = String::new();
        match self.ip {
            IpAddr::V4(_) => {
                text.append(self.ip.to_string().as_str());
                text.append(":");
                push_decimal(&mut text, self.port as u32);
            },
            IpAddr::V6(_) => {
                text.append("[");
                text.append(self.ip.to_string().as_str());
                text.append("]:");
                push_decimal(&mut text, self.port as u32);
            },
        }
        text
    }
}

} // verus!
