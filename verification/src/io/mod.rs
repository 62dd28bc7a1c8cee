//! Byte sources, byte sinks and the adaptors between them.
//!
//! A source is described by the bytes it has yet to yield, its
//! [`Stream`]; a sink by a relation between its state before and after it
//! took some bytes. Every adaptor states its own behaviour over those two
//! models, so that compositions can be reasoned about without looking inside.

use vstd::prelude::*;

pub mod adaptors;
pub mod decode;
pub mod error;
pub mod impls;
pub mod laws;
pub mod mem;
pub mod prelude;
pub mod stream;
pub mod util;

pub use self::adaptors::{Broadcast, ByRef, Chain, Take, Tee};
pub use self::decode::{Bytes, Chars, CharsError};
pub use self::error::{Error, ErrorKind, Result};
pub use self::mem::Cursor;
pub use self::stream::{Data, Length, Stream};
pub use self::util::{copy, empty, repeat, sink, Empty, Repeat, Sink};

verus! {

/// The size of the intermediate buffer used when draining or copying a source.
pub const DEFAULT_BUF_SIZE: usize = 65536;

/// What one call of `read` may do. `before` and `after` are what the source had
/// yet to yield, `cap` is the length of the buffer handed in and `filled` the
/// buffer's contents after the call.
///
/// A successful read into a buffer with room delivers the next `n` bytes of
/// the source into the start of the buffer and moves the source past them;
/// it delivers none only when the source is at its end. Nothing is said of
/// the buffer beyond the first `n` bytes, of a read into an empty buffer, or
/// of the source after a failure.
pub open spec fn read_step(
    before: Stream,
    after: Stream,
    cap: nat,
    filled: Seq<u8>,
    r: Result<usize>,
) -> bool {
    match r {
        Ok(n) => n <= cap && (cap > 0 ==> {
            &&& before.yields(filled.take(n as int), after)
            &&& (n == 0 ==> before.at_end())
        }),
        Err(_) => true,
    }
}

/// A byte-oriented source.
pub trait Read {
    /// The bytes this source has yet to yield.
    spec fn pending(&self) -> Stream;

    /// No read from this source fails, now or later.
    spec fn unfailing(&self) -> bool;

    /// How many bytes the next read delivers into a buffer of `cap` bytes,
    /// where that is certain.
    spec fn delivers(&self, cap: nat) -> Option<nat>;

    /// Pulls some bytes from this source into `buf` and returns how many.
    ///
    /// A result of `Ok(0)` for a buffer with room means the end of the stream.
    fn read(&mut self, buf: &mut [u8]) -> (r: Result<usize>)
        ensures
            final(buf)@.len() == old(buf)@.len(),
            read_step(
                (*old(self)).pending(),
                (*final(self)).pending(),
                old(buf)@.len(),
                final(buf)@,
                r,
            ),
            (*old(self)).unfailing() ==> r is Ok && (*final(self)).unfailing(),
            (*old(self)).delivers(old(buf)@.len()) matches Some(n) ==> (r matches Ok(k) && k == n),
    ;
}

/// A byte-oriented sink.
pub trait Write {
    /// This sink, having taken exactly `data` in one or more writes, can be
    /// in the state `after`.
    spec fn took(&self, data: Seq<u8>, after: &Self) -> bool;

    /// This sink will take `n` more bytes in full: every write succeeds and
    /// takes its whole buffer, as long as the buffers together hold no more
    /// than `n` bytes.
    spec fn has_room(&self, n: nat) -> bool;

    /// A sink that is left alone has taken nothing.
    proof fn took_nothing(&self)
        ensures
            self.took(Seq::empty(), self),
    ;

    /// Taking `first` and then `second` is taking the two joined.
    proof fn took_both(&self, first: Seq<u8>, mid: &Self, second: Seq<u8>, after: &Self)
        requires
            self.took(first, mid),
            mid.took(second, after),
        ensures
            self.took(first + second, after),
    ;

    /// A sink with room for some bytes has room for fewer.
    proof fn room_for_less(&self, n: nat, m: nat)
        requires
            self.has_room(n),
            m <= n,
        ensures
            self.has_room(m),
    ;

    /// What a sink takes comes off its room.
    proof fn room_left(&self, data: Seq<u8>, after: &Self, m: nat)
        requires
            self.took(data, after),
            self.has_room(data.len() + m),
        ensures
            after.has_room(m),
    ;

    /// Makes one attempt to write `buf` and returns how many of its leading
    /// bytes the sink took. Fewer than all is no error.
    fn write(&mut self, buf: &[u8]) -> (r: Result<usize>)
        ensures
            r matches Ok(n) ==> n <= buf@.len() && (*old(self)).took(
                buf@.take(n as int),
                &*final(self),
            ),
            (*old(self)).has_room(buf@.len()) ==> (r matches Ok(n) && n == buf@.len()),
    ;

    /// Makes sure that what was written has reached its destination. A sink
    /// without a buffer of its own has nothing to do.
    fn flush(&mut self) -> (r: Result<()>)
        ensures
            r is Ok ==> (*old(self)).took(Seq::empty(), &*final(self)),
            (*old(self)).has_room(0) ==> r is Ok,
    {
        proof {
            self.took_nothing();
        }
        Ok(())
    }
}

/// A request to move a stream's position.
#[derive(Copy, PartialEq, Eq, Clone, Debug, Structural)]
pub enum SeekPos {
    /// The given number of bytes from the start.
    FromStart(u64),
    /// The stream's length plus the given number of bytes.
    FromEnd(i64),
    /// The current position plus the given number of bytes.
    FromCur(i64),
}

/// The position a seek asks for, on a stream of `extent` bytes that stands at
/// `offset`. It may be negative or beyond any stored byte.
pub open spec fn seek_target(offset: u64, extent: nat, pos: SeekPos) -> int {
    match pos {
        SeekPos::FromStart(n) => n as int,
        SeekPos::FromEnd(n) => extent + n,
        SeekPos::FromCur(n) => offset + n,
    }
}

/// A stream with a position that can be moved.
pub trait Seek {
    /// The current position.
    spec fn offset(&self) -> u64;

    /// The length of the stream.
    spec fn extent(&self) -> nat;

    /// Moves to the position that `pos` asks for and returns it. A position
    /// before the start is refused; one past the end is legal and leaves the
    /// stream's contents alone.
    fn seek(&mut self, pos: SeekPos) -> (r: Result<u64>)
        ensures
            r matches Ok(p) ==> {
                &&& p == seek_target((*old(self)).offset(), (*old(self)).extent(), pos)
                &&& (*final(self)).offset() == p
                &&& (*final(self)).extent() == (*old(self)).extent()
            },
            seek_target((*old(self)).offset(), (*old(self)).extent(), pos) < 0 ==> {
                r matches Err(e) && e.kind == ErrorKind::InvalidInput
            },
    ;
}

/// A source with a buffer of its own, which can be looked at before it is
/// consumed.
pub trait BufferedRead: Read {
    /// The bytes held ready: what `fill_buf` showed last, less what has been
    /// consumed since.
    spec fn buffered(&self) -> Seq<u8>;

    /// The bytes held ready are the next bytes of the source.
    proof fn buffered_is_pending(&self)
        ensures
            (*self).pending().has(self.buffered().len()),
            (*self).pending().prefix(self.buffered().len()) == self.buffered(),
    ;

    /// Shows the bytes held ready, without consuming them. An empty slice
    /// means the end of the stream.
    fn fill_buf(&mut self) -> (r: Result<&[u8]>)
        ensures
            (*final(self)).pending() == (*old(self)).pending(),
            r matches Ok(s) ==> {
                &&& s@ == (*final(self)).buffered()
                &&& (s@.len() == 0 ==> (*old(self)).pending().at_end())
            },
            (*old(self)).unfailing() ==> r is Ok && (*final(self)).unfailing(),
    ;

    /// Marks the first `amt` of the bytes held ready as consumed.
    fn consume(&mut self, amt: usize)
        requires
            amt <= (*old(self)).buffered().len(),
        ensures
            (*final(self)).buffered() == (*old(self)).buffered().skip(amt as int),
            (*final(self)).pending() == (*old(self)).pending().skip(amt as nat),
            (*final(self)).unfailing() == (*old(self)).unfailing(),
    ;
}

/// What `write_all` makes of one write: a write that took nothing while bytes
/// were left is the end of the sink, every other outcome stands.
pub fn check_progress(r: Result<usize>) -> (p: Result<usize>)
    ensures
        p == match r {
            Ok(n) => if n == 0 {
                Err::<usize, Error>(
                    Error {
                        kind: ErrorKind::EndOfFile,
                        desc: "failed to write whole buffer: eof reached",
                        detail: None,
                    },
                )
            } else {
                Ok::<usize, Error>(n)
            },
            Err(e) => Err::<usize, Error>(e),
        },
{
    match r {
        Ok(n) => if n == 0 {
            Err(Error::new(ErrorKind::EndOfFile, "failed to write whole buffer: eof reached", None))
        } else {
            Ok(n)
        },
        Err(e) => Err(e),
    }
}

/// Methods that every source has.
pub trait ReadExt: Read + Sized {
    /// Reads all that is left of this source and appends it to `buf`.
    ///
    /// Reads through an intermediate buffer of `DEFAULT_BUF_SIZE` bytes until
    /// a read reports the end of the stream; `buf` then holds what it held
    /// before, followed by everything the source had left. A failed read
    /// ends the call at once, and what was appended until then stays in
    /// `buf`.
    fn read_to_end(&mut self, buf: &mut Vec<u8>) -> (r: Result<()>)
        ensures
            final(buf)@.len() >= old(buf)@.len(),
            final(buf)@.take(old(buf)@.len() as int) == old(buf)@,
            (*old(self)).pending().has((final(buf)@.len() - old(buf)@.len()) as nat),
            (*old(self)).pending().prefix((final(buf)@.len() - old(buf)@.len()) as nat)
                == final(buf)@.skip(old(buf)@.len() as int),
            r is Ok ==> {
                &&& (*old(self)).pending() == Stream::Finite(
                    final(buf)@.skip(old(buf)@.len() as int),
                )
                &&& (*final(self)).pending().at_end()
            },
            (*old(self)).unfailing() ==> r is Ok && (*final(self)).unfailing(),
    {
        let ghost start = buf@;
        let mut chunk = [0u8; DEFAULT_BUF_SIZE];
        let mut total = buf.len();
        proof {
            (*self).pending().lemma_yields_nothing();
            assert(buf@.skip(start.len() as int) =~= Seq::<u8>::empty());
        }
        loop
            invariant
                chunk@.len() == DEFAULT_BUF_SIZE,
                buf@.len() >= start.len(),
                total == buf@.len(),
                buf@.take(start.len() as int) == start,
                start == old(buf)@,
                (*old(self)).pending().yields(buf@.skip(start.len() as int), (*self).pending()),
                (*old(self)).unfailing() ==> (*self).unfailing(),
            decreases usize::MAX - total,
        {
            let ghost before = (*self).pending();
            let ghost held = buf@;
            let n = match self.read(&mut chunk) {
                Ok(n) => n,
                Err(e) => {
                    return Err(e);
                },
            };
            if n == 0 {
                proof {
                    let tail = buf@.skip(start.len() as int);
                    let all = (*old(self)).pending();
                    assert(all->Finite_0 =~= tail);
                }
                return Ok(());
            }
            let got = vstd::slice::slice_subrange(&chunk, 0, n);
            buf.extend_from_slice(got);
            total = buf.len();
            proof {
                assert(buf@.skip(start.len() as int) =~= held.skip(start.len() as int)
                    + chunk@.take(n as int));
                (*old(self)).pending().lemma_yields_joined(
                    held.skip(start.len() as int),
                    before,
                    chunk@.take(n as int),
                    (*self).pending(),
                );
            }
        }
    }

    /// A borrowed handle that is itself a source.
    fn by_ref(&mut self) -> (b: ByRef<'_, Self>)
        ensures
            *b.inner == *old(self),
            *final(b.inner) == *final(self),
    {
        ByRef { inner: self }
    }

    /// The bytes of this source, one at a time.
    fn bytes(self) -> (b: Bytes<Self>)
        ensures
            b.inner() == self,
    {
        Bytes::new(self)
    }

    /// The characters that the bytes of this source encode in UTF-8, one at a
    /// time.
    fn chars(self) -> (c: Chars<Self>)
        ensures
            c.inner() == self,
    {
        Chars::new(self)
    }

    /// This source followed, once it has ended, by `next`.
    fn chain<R: Read>(self, next: R) -> (c: Chain<Self, R>)
        ensures
            c.first() == self,
            c.second() == next,
            !c.done_first(),
    {
        Chain::new(self, next)
    }

    /// This source cut off after `limit` bytes.
    fn take(self, limit: u64) -> (t: Take<Self>)
        ensures
            t.inner() == self,
            t.limit() == limit,
    {
        Take::new(self, limit)
    }

    /// This source with all that is read from it written to `out` as well.
    fn tee<W: Write>(self, out: W) -> (t: Tee<Self, W>)
        ensures
            t.reader() == self,
            t.writer() == out,
    {
        Tee::new(self, out)
    }
}

impl<T: Read> ReadExt for T {

}

/// Methods that every sink has.
pub trait WriteExt: Write + Sized {
    /// Writes all of `buf`, calling `write` on what is left until nothing is.
    ///
    /// Fails with the first error that a write returns, and with an error of
    /// kind `EndOfFile` when a write takes nothing while bytes are left.
    fn write_all(&mut self, buf: &[u8]) -> (r: Result<()>)
        ensures
            r is Ok ==> (*old(self)).took(buf@, &*final(self)),
            (*old(self)).has_room(buf@.len()) ==> r is Ok,
    {
        let mut done: usize = 0;
        proof {
            self.took_nothing();
            assert(buf@.take(0) =~= Seq::<u8>::empty());
        }
        while done < buf.len()
            invariant
                done <= buf@.len(),
                (*old(self)).took(buf@.take(done as int), &*self),
                (*old(self)).has_room(buf@.len()) ==> (*self).has_room((buf@.len() - done) as nat),
            decreases buf@.len() - done,
        {
            let ghost mid = *self;
            let rest = vstd::slice::slice_subrange(buf, done, buf.len());
            let n = match check_progress(self.write(rest)) {
                Ok(n) => n,
                Err(e) => {
                    return Err(e);
                },
            };
            proof {
                if (*old(self)).has_room(buf@.len()) {
                    mid.room_left(rest@.take(n as int), &*self, (rest@.len() - n) as nat);
                }
                (*old(self)).took_both(buf@.take(done as int), &mid, rest@.take(n as int), &*self);
                assert(buf@.take(done as int) + rest@.take(n as int) =~= buf@.take(done + n));
            }
            done += n;
        }
        proof {
            assert(buf@.take(done as int) =~= buf@);
        }
        Ok(())
    }

    /// A borrowed handle that is itself a sink.
    fn by_ref(&mut self) -> (b: ByRef<'_, Self>)
        ensures
            *b.inner == *old(self),
            *final(b.inner) == *final(self),
    {
        ByRef { inner: self }
    }

    /// A sink that writes to this sink and to `other`.
    fn broadcast<W: Write>(self, other: W) -> (b: Broadcast<Self, W>)
        ensures
            b.first() == self,
            b.second() == other,
    {
        Broadcast::new(self, other)
    }
}

impl<T: Write> WriteExt for T {

}

} // verus!
