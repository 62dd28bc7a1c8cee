//! Socket addresses: an IP address and a port.

use super::ip::IpAddr;
use crate::io::{Error, ErrorKind, Result};
use vstd::prelude::*;

verus! {

/// An IP address with a port.
#[derive(Copy, PartialEq, Eq, Clone, Hash, Debug)]
pub struct SocketAddr {
    pub ip: IpAddr,
    pub port: u16,
}

/// A list of socket addresses, as the specifications see it. Code that is
/// not verified names the type by this alias where it implements
/// `ToSocketAddrs`.
pub type Addrs = Seq<SocketAddr>;

/// A value that stands for one or more socket addresses.
pub trait ToSocketAddrs {
    /// The socket addresses that this value stands for, where the value
    /// alone settles them. A name that has to be looked up settles none.
    spec fn stands_for(&self) -> Option<Seq<SocketAddr>>;

    /// The socket addresses that this value stands for. Where the value
    /// alone settles them, they are returned; else finding them may fail.
    fn to_socket_addrs(&self) -> (r: Result<Vec<SocketAddr>>)
        ensures
            self.stands_for() matches Some(addrs) ==> (r matches Ok(found) && found@ == addrs),
    ;
}

impl ToSocketAddrs for SocketAddr {
    open spec fn stands_for(&self) -> Option<Seq<SocketAddr>> {
        Some(seq![*self])
    }

    /// The address itself.
    fn to_socket_addrs(&self) -> (r: Result<Vec<SocketAddr>>)
        ensures
            r matches Ok(addrs) && addrs@ == seq![*self],
    {
        let mut addrs = Vec::new();
        addrs.push(*self);
        Ok(addrs)
    }
}

impl ToSocketAddrs for (IpAddr, u16) {
    open spec fn stands_for(&self) -> Option<Seq<SocketAddr>> {
        Some(seq![(SocketAddr { ip: self.0, port: self.1 })])
    }

    /// The address with the port.
    fn to_socket_addrs(&self) -> (r: Result<Vec<SocketAddr>>)
        ensures
            r matches Ok(addrs) && addrs@ == seq![(SocketAddr { ip: self.0, port: self.1 })],
    {
        let (ip, port) = *self;
        let mut addrs = Vec::new();
        addrs.push(SocketAddr { ip, port });
        Ok(addrs)
    }
}

/// What a name lookup that found `found` comes to for the port `port`: each
/// address found, with that port; or the first failure among `found`.
pub open spec fn with_port(found: Seq<Result<SocketAddr>>, port: u16) -> Result<Seq<SocketAddr>>
    decreases found.len(),
{
    if found.len() == 0 {
        Ok(Seq::empty())
    } else {
        match found[0] {
            Err(e) => Err(e),
            Ok(a) => match with_port(found.skip(1), port) {
                Err(e) => Err(e),
                Ok(rest) => Ok(seq![(SocketAddr { ip: a.ip, port })] + rest),
            },
        }
    }
}

/// Turns the outcome of a name lookup into socket addresses for the port
/// `p`: every address found gets that port, and the first failure of the
/// lookup is the failure of the whole.
pub fn resolve_socket_addr(found: Vec<Result<SocketAddr>>, p: u16) -> (r: Result<Vec<SocketAddr>>)
    ensures
        match r {
            Ok(addrs) => with_port(found@, p) == Ok::<Seq<SocketAddr>, Error>(addrs@),
            Err(e) => with_port(found@, p) == Err::<Seq<SocketAddr>, Error>(e),
        },
{
    let ghost all = found@;
    let mut left = found;
    let mut addrs: Vec<SocketAddr> = Vec::new();
    while left.len() > 0
        invariant
            all == found@,
            addrs@.len() + left@.len() == all.len(),
            left@ == all.skip(addrs@.len() as int),
            with_port(all, p) == match with_port(left@, p) {
                Ok(rest) => Ok::<Seq<SocketAddr>, Error>(addrs@ + rest),
                Err(e) => Err::<Seq<SocketAddr>, Error>(e),
            },
        decreases left@.len(),
    {
        let ghost done = addrs@;
        match left.remove(0) {
            Ok(a) => {
                addrs.push(SocketAddr { ip: a.ip, port: p });
                proof {
                    match with_port(left@, p) {
                        Ok(rest) => {
                            assert(done + (seq![(SocketAddr { ip: a.ip, port: p })] + rest)
                                =~= addrs@ + rest);
                        },
                        Err(e) => {},
                    }
                }
            },
            Err(e) => {
                return Err(e);
            },
        }
    }
    Ok(addrs)
}

/// The address that a datagram goes to when it is sent to a value that
/// stands for `addrs`: the first of them. With no address there is nowhere to
/// send to.
pub fn first_addr(addrs: &Vec<SocketAddr>) -> (r: Result<SocketAddr>)
    ensures
        r == if addrs@.len() > 0 {
            Ok::<SocketAddr, Error>(addrs@[0])
        } else {
            Err::<SocketAddr, Error>(
                Error {
                    kind: ErrorKind::InvalidInput,
                    desc: "no addresses to send data to",
                    detail: None,
                },
            )
        },
{
    if addrs.len() > 0 {
        Ok(addrs[0])
    } else {
        Err(Error::new(ErrorKind::InvalidInput, "no addresses to send data to", None))
    }
}

/// The byte `:`, which stands between a host and a port.
pub const COLON: u8 = 58;

/// The index of the last `b` in `s`, or -1 where there is none.
pub open spec fn find_last(s: Seq<u8>, b: u8) -> int
    decreases s.len(),
{
    if s.len() == 0 {
        -1
    } else if s.last() == b {
        s.len() - 1
    } else {
        find_last(s.drop_last(), b)
    }
}

/// The number that the decimal digits `digits` write; digits are the bytes
/// `0` to `9`.
pub open spec fn digits_value(digits: Seq<u8>) -> nat
    decreases digits.len(),
{
    if digits.len() == 0 {
        0
    } else {
        digits_value(digits.drop_last()) * 10 + (digits.last() - 48) as nat
    }
}

/// All of `digits` are decimal digits.
pub open spec fn all_digits(digits: Seq<u8>) -> bool {
    forall|i: int| 0 <= i < digits.len() ==> 48 <= #[trigger] digits[i] <= 57
}

/// The port that `text` writes: one or more decimal digits, with a `+` in
/// front of them or without, for a number that fits 16 bits.
pub open spec fn port_value(text: Seq<u8>) -> Option<u16> {
    if text.len() > 0 && text[0] == 43 {
        digits_port(text.skip(1))
    } else {
        digits_port(text)
    }
}

/// The port that the decimal digits `digits` write, if they write one.
pub open spec fn digits_port(digits: Seq<u8>) -> Option<u16> {
    if digits.len() > 0 && all_digits(digits) && digits_value(digits) <= u16::MAX {
        Some(digits_value(digits) as u16)
    } else {
        None
    }
}

/// More digits never make a number smaller.
proof fn lemma_digits_grow(digits: Seq<u8>, n: int)
    requires
        all_digits(digits),
        0 <= n <= digits.len(),
    ensures
        digits_value(digits.take(n)) <= digits_value(digits),
    decreases digits.len() - n,
{
    if n < digits.len() {
        lemma_digits_grow(digits, n + 1);
        assert(digits.take(n + 1).drop_last() =~= digits.take(n));
    } else {
        assert(digits.take(n) =~= digits);
    }
}

/// Reads a port number.
pub fn parse_port(text: &[u8]) -> (port: Option<u16>)
    ensures
        port == port_value(text@),
{
    let n = text.len();
    let start: usize = if n > 0 && text[0] == 43 {
        1
    } else {
        0
    };
    let digits = vstd::slice::slice_subrange(text, start, n);
    proof {
        assert(digits@ =~= if start == 1 {
            text@.skip(1)
        } else {
            text@
        });
    }
    let m = digits.len();
    if m == 0 {
        return None;
    }
    let mut value: u32 = 0;
    let mut i: usize = 0;
    while i < m
        invariant
            m == digits@.len(),
            m > 0,
            port_value(text@) == digits_port(digits@),
            i <= m,
            value <= u16::MAX,
            all_digits(digits@.take(i as int)),
            value == digits_value(digits@.take(i as int)),
        decreases m - i,
    {
        let c = digits[i];
        if c < 48 || c > 57 {
            return None;
        }
        let next = value * 10 + (c - 48) as u32;
        proof {
            assert(digits@.take(i + 1).drop_last() =~= digits@.take(i as int));
        }
        if next > 65535 {
            proof {
                if all_digits(digits@) {
                    lemma_digits_grow(digits@, i + 1);
                }
            }
            return None;
        }
        value = next;
        i += 1;
    }
    proof {
        assert(digits@.take(m as int) =~= digits@);
    }
    Some(value as u16)
}

/// What a host with a port in writing, such as `localhost:12345`, splits
/// into: the host in front of the last colon and the port behind it. Text
/// without a colon is no socket address, and what stands behind the colon
/// must be a port.
pub open spec fn host_and_port(text: Seq<u8>) -> Result<(Seq<u8>, u16)> {
    let at = find_last(text, COLON);
    if at < 0 {
        Err(Error { kind: ErrorKind::InvalidInput, desc: "invalid socket address", detail: None })
    } else {
        match port_value(text.skip(at + 1)) {
            Some(port) => Ok((text.take(at), port)),
            None => Err(
                Error { kind: ErrorKind::InvalidInput, desc: "invalid port value", detail: None },
            ),
        }
    }
}

/// The index of the last `b` in `s`, if there is one.
pub fn rposition(s: &[u8], b: u8) -> (at: Option<usize>)
    ensures
        match at {
            Some(k) => k == find_last(s@, b) && k < s@.len(),
            None => find_last(s@, b) == -1,
        },
{
    let mut k = s.len();
    proof {
        assert(s@.take(k as int) =~= s@);
    }
    while k > 0
        invariant
            k <= s@.len(),
            find_last(s@, b) == find_last(s@.take(k as int), b),
        decreases k,
    {
        k -= 1;
        if s[k] == b {
            return Some(k);
        }
        proof {
            assert(s@.take(k + 1).drop_last() =~= s@.take(k as int));
        }
    }
    None
}

/// Splits a host with a port in writing into the host and the port.
pub fn split_host_port(text: &[u8]) -> (r: Result<(Vec<u8>, u16)>)
    ensures
        match r {
            Ok(pair) => host_and_port(text@) == Ok::<(Seq<u8>, u16), Error>((pair.0@, pair.1)),
            Err(e) => host_and_port(text@) == Err::<(Seq<u8>, u16), Error>(e),
        },
{
    let at = match rposition(text, COLON) {
        Some(at) => at,
        None => {
            return Err(Error::new(ErrorKind::InvalidInput, "invalid socket address", None));
        },
    };
    let n = text.len();
    let tail = vstd::slice::slice_subrange(text, at + 1, n);
    match parse_port(tail) {
        Some(port) => {
            let host = vstd::slice::slice_to_vec(vstd::slice::slice_subrange(text, 0, at));
            Ok((host, port))
        },
        None => Err(Error::new(ErrorKind::InvalidInput, "invalid port value", None)),
    }
}

impl<'a, T: ToSocketAddrs + ?Sized> ToSocketAddrs for &'a T {
    /// The addresses of the value behind the reference.
    fn to_socket_addrs(&self) -> (r: Result<Vec<SocketAddr>>) {
        (**self).to_socket_addrs()
    }

    /// A reference stands for what the value behind it stands for.
    open spec fn stands_for(&self) -> Option<Seq<SocketAddr>> {
        (**self).stands_for()
    }
}

} // verus!
