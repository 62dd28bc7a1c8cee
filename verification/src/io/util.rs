//! Copying between streams, and the three simplest streams.

use super::{Error, ErrorKind, Read, Result, Stream, Write, WriteExt, DEFAULT_BUF_SIZE};
use vstd::prelude::*;

verus! {

/// What `copy` has counted once `len` more bytes went across: the new count,
/// or a refusal where it does not fit a `u64`.
pub fn count_on(written: u64, len: usize) -> (r: Result<u64>)
    ensures
        r == if written + len <= u64::MAX {
            Ok::<u64, Error>((written + len) as u64)
        } else {
            Err::<u64, Error>(
                Error {
                    kind: ErrorKind::Other,
                    desc: "number of bytes copied exceeds the range of the count",
                    detail: None,
                },
            )
        },
{
    match written.checked_add(len as u64) {
        Some(total) => Ok(total),
        None => Err(
            Error::new(
                ErrorKind::Other,
                "number of bytes copied exceeds the range of the count",
                None,
            ),
        ),
    }
}

/// Copies all that `r` has left into `w` and returns how many bytes that
/// were.
///
/// Reads into one intermediate buffer of `DEFAULT_BUF_SIZE` bytes and writes
/// out what each read delivered, until a read reports the end of the stream.
/// The first failure of a read or of a write ends the call with that error;
/// how much was copied until then is not reported. So does a count that
/// leaves the range of `u64`.
pub fn copy<R: Read, W: Write>(r: &mut R, w: &mut W) -> (res: Result<u64>)
    ensures
        res matches Ok(total) ==> {
            &&& (*old(r)).pending() is Finite
            &&& total == (*old(r)).pending().remaining()
            &&& (*old(w)).took((*old(r)).pending()->Finite_0, &*final(w))
            &&& (*final(r)).pending().at_end()
        },
        ({
            &&& (*old(r)).unfailing()
            &&& (*old(w)).has_room((*old(r)).pending().remaining())
            &&& (*old(r)).pending() is Finite
            &&& (*old(r)).pending().remaining() <= u64::MAX
        }) ==> res is Ok && (*final(r)).unfailing(),
{
    let ghost mut gone = Seq::<u8>::empty();
    let mut buf = [0u8; DEFAULT_BUF_SIZE];
    let mut written: u64 = 0;
    proof {
        (*r).pending().lemma_yields_nothing();
        (*w).took_nothing();
    }
    loop
        invariant
            buf@.len() == DEFAULT_BUF_SIZE,
            written == gone.len(),
            (*old(r)).pending().yields(gone, (*r).pending()),
            (*old(w)).took(gone, &*w),
            (*old(r)).unfailing() ==> (*r).unfailing(),
            (*old(r)).pending() is Finite && (*old(w)).has_room((*old(r)).pending().remaining())
                ==> (*w).has_room((*r).pending().remaining()),
        decreases u64::MAX - written,
    {
        let ghost before = (*r).pending();
        let ghost sunk = *w;
        let len = match r.read(&mut buf) {
            Ok(len) => len,
            Err(e) => {
                return Err(e);
            },
        };
        if len == 0 {
            proof {
                let all = (*old(r)).pending();
                assert(all->Finite_0 =~= gone);
            }
            return Ok(written);
        }
        let chunk = vstd::slice::slice_subrange(&buf, 0, len);
        proof {
            (*old(r)).pending().lemma_yields_joined(gone, before, chunk@, (*r).pending());
            if (*w).has_room(before.remaining()) && before is Finite {
                (*w).room_for_less(before.remaining(), chunk@.len());
            }
        }
        match w.write_all(chunk) {
            Ok(()) => {},
            Err(e) => {
                return Err(e);
            },
        }
        proof {
            (*old(w)).took_both(gone, &sunk, chunk@, &*w);
            if sunk.has_room(before.remaining()) && before is Finite {
                sunk.room_left(chunk@, &*w, (*r).pending().remaining());
            }
            gone = gone + chunk@;
        }
        written = match count_on(written, len) {
            Ok(total) => total,
            Err(e) => {
                return Err(e);
            },
        };
    }
}

/// A source that is always at its end.
pub struct Empty {
    _priv: (),
}

/// A source that is always at its end.
pub fn empty() -> (e: Empty)
    ensures
        e.pending().at_end(),
{
    Empty { _priv: () }
}

impl Read for Empty {
    open spec fn pending(&self) -> Stream {
        Stream::empty()
    }

    open spec fn unfailing(&self) -> bool {
        true
    }

    open spec fn delivers(&self, cap: nat) -> Option<nat> {
        Some(0)
    }

    /// Reads nothing.
    fn read(&mut self, buf: &mut [u8]) -> (r: Result<usize>)
        ensures
            r == Ok::<usize, Error>(0),
            final(buf)@ == old(buf)@,
    {
        proof {
            (*self).pending().lemma_yields_nothing();
            assert(buf@.take(0) =~= Seq::<u8>::empty());
        }
        Ok(0)
    }
}

/// A source that yields one byte forever.
pub struct Repeat {
    byte: u8,
}

/// A source that yields `byte` forever.
pub fn repeat(byte: u8) -> (r: Repeat)
    ensures
        r.byte() == byte,
{
    Repeat { byte }
}

impl Repeat {
    /// The byte that is repeated.
    pub closed spec fn byte(&self) -> u8 {
        self.byte
    }
}

impl Read for Repeat {
    open spec fn pending(&self) -> Stream {
        Stream::repeating(self.byte())
    }

    open spec fn unfailing(&self) -> bool {
        true
    }

    open spec fn delivers(&self, cap: nat) -> Option<nat> {
        Some(cap)
    }

    /// Fills the whole of `buf` with the byte.
    fn read(&mut self, buf: &mut [u8]) -> (r: Result<usize>)
        ensures
            r matches Ok(n) && n == old(buf)@.len(),
            final(buf)@ == Seq::new(old(buf)@.len(), |i: int| old(self).byte()),
            *final(self) == *old(self),
    {
        let n = buf.len();
        let mut i: usize = 0;
        while i < n
            invariant
                n == buf@.len(),
                i <= n,
                *self == *old(self),
                forall|j: int| 0 <= j < i ==> buf@[j] == self.byte,
            decreases n - i,
        {
            buf[i] = self.byte;
            i += 1;
        }
        proof {
            let b = self.byte;
            assert(buf@.take(n as int) =~= (*self).pending().prefix(n as nat));
            assert((|i: nat| (|j: nat| b)(i + n as nat)) =~= (|j: nat| b));
        }
        Ok(n)
    }
}

/// A sink that takes everything and keeps nothing.
pub struct Sink {
    _priv: (),
}

/// A sink that takes everything and keeps nothing.
pub fn sink() -> (s: Sink) {
    Sink { _priv: () }
}

impl Write for Sink {
    open spec fn took(&self, data: Seq<u8>, after: &Self) -> bool {
        true
    }

    open spec fn has_room(&self, n: nat) -> bool {
        true
    }

    proof fn room_for_less(&self, n: nat, m: nat) {
    }

    proof fn room_left(&self, data: Seq<u8>, after: &Self, m: nat) {
    }

    proof fn took_nothing(&self) {
    }

    proof fn took_both(&self, first: Seq<u8>, mid: &Self, second: Seq<u8>, after: &Self) {
    }

    /// Takes all of `buf`.
    fn write(&mut self, buf: &[u8]) -> (r: Result<usize>)
        ensures
            r matches Ok(n) && n == buf@.len(),
    {
        Ok(buf.len())
    }
}

} // verus!
