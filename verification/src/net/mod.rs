//! Network addresses as plain values.

use crate::io::{Error, ErrorKind, Result};
use vstd::prelude::*;

pub mod addr;
pub mod ip;
pub mod text;

pub use self::addr::{Addrs, SocketAddr, ToSocketAddrs};
pub use self::ip::{IpAddr, Ipv4Addr, Ipv6Addr, Ipv6MulticastScope, ToIpAddr};

verus! {

/// Which half of a connection to shut down.
#[derive(Copy, Clone, PartialEq, Eq, Debug, Structural)]
pub enum Shutdown {
    Read,
    Write,
    Both,
}

} // verus!

verus! {

/// `f` can fail on `addr`.
pub open spec fn can_fail_on<F, T>(f: F, addr: SocketAddr) -> bool where
    F: Fn(&SocketAddr) -> Result<T>,
 {
    exists|e: Error| call_ensures(f, (&addr,), Err::<T, Error>(e))
}

/// Tries `f` on each of `addrs` in turn and returns the first success. With
/// no success the last failure is returned, and with no address at all an
/// error of kind `InvalidInput`.
pub fn each_addr<F, T>(addrs: &Vec<SocketAddr>, f: F) -> (r: Result<T>) where
    F: Fn(&SocketAddr) -> Result<T>,

    requires
        forall|i: int| 0 <= i < addrs@.len() ==> call_requires(f, (&#[trigger] addrs@[i],)),
    ensures
        match r {
            Ok(v) => exists|i: int|
                {
                    &&& 0 <= i < addrs@.len()
                    &&& call_ensures(f, (&#[trigger] addrs@[i],), Ok::<T, Error>(v))
                    &&& forall|j: int| 0 <= j < i ==> can_fail_on(f, #[trigger] addrs@[j])
                },
            Err(e) => if addrs@.len() == 0 {
                e == (Error {
                    kind: ErrorKind::InvalidInput,
                    desc: "could not resolve to any addresses",
                    detail: None,
                })
            } else {
                &&& call_ensures(f, (&addrs@[addrs@.len() - 1],), Err::<T, Error>(e))
                &&& forall|j: int| 0 <= j < addrs@.len() ==> can_fail_on(f, #[trigger] addrs@[j])
            },
        },
{
    let mut last_err: Option<Error> = None;
    let n = addrs.len();
    let mut i: usize = 0;
    while i < n
        invariant
            n == addrs@.len(),
            i <= n,
            forall|k: int| 0 <= k < addrs@.len() ==> call_requires(f, (&#[trigger] addrs@[k],)),
            forall|j: int| 0 <= j < i ==> can_fail_on(f, #[trigger] addrs@[j]),
            i == 0 ==> last_err is None,
            i > 0 ==> last_err is Some && call_ensures(
                f,
                (&addrs@[i - 1],),
                Err::<T, Error>(last_err->0),
            ),
        decreases n - i,
    {
        match f(&addrs[i]) {
            Ok(v) => {
                return Ok(v);
            },
            Err(e) => {
                last_err = Some(e);
            },
        }
        i += 1;
    }
    match last_err {
        Some(e) => Err(e),
        None => Err(
            Error::new(ErrorKind::InvalidInput, "could not resolve to any addresses", None),
        ),
    }
}

} // verus!
