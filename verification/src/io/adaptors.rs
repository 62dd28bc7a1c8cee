//! Sources and sinks built from other sources and sinks.

use super::impls::least;
use super::{Error, Read, Result, Seek, SeekPos, Stream, Write, WriteExt};
use vstd::prelude::*;

verus! {

/// A borrowed source, sink or seekable stream that stands for the one it
/// borrows.
pub struct ByRef<'a, T> {
    pub inner: &'a mut T,
}

impl<'a, R: Read> Read for ByRef<'a, R> {
    open spec fn pending(&self) -> Stream {
        (*self.inner).pending()
    }

    open spec fn unfailing(&self) -> bool {
        (*self.inner).unfailing()
    }

    open spec fn delivers(&self, cap: nat) -> Option<nat> {
        (*self.inner).delivers(cap)
    }

    fn read(&mut self, buf: &mut [u8]) -> (r: Result<usize>) {
        self.inner.read(buf)
    }
}

impl<'a, W: Write> Write for ByRef<'a, W> {
    open spec fn took(&self, data: Seq<u8>, after: &Self) -> bool {
        (*self.inner).took(data, &*after.inner)
    }

    open spec fn has_room(&self, n: nat) -> bool {
        (*self.inner).has_room(n)
    }

    proof fn room_for_less(&self, n: nat, m: nat) {
        (*self.inner).room_for_less(n, m);
    }

    proof fn room_left(&self, data: Seq<u8>, after: &Self, m: nat) {
        (*self.inner).room_left(data, &*after.inner, m);
    }

    proof fn took_nothing(&self) {
        (*self.inner).took_nothing();
    }

    proof fn took_both(&self, first: Seq<u8>, mid: &Self, second: Seq<u8>, after: &Self) {
        (*self.inner).took_both(first, &*mid.inner, second, &*after.inner);
    }

    fn write(&mut self, buf: &[u8]) -> (r: Result<usize>) {
        self.inner.write(buf)
    }

    fn flush(&mut self) -> (r: Result<()>) {
        self.inner.flush()
    }
}

impl<'a, S: Seek> Seek for ByRef<'a, S> {
    open spec fn offset(&self) -> u64 {
        (*self.inner).offset()
    }

    open spec fn extent(&self) -> nat {
        (*self.inner).extent()
    }

    fn seek(&mut self, pos: SeekPos) -> (r: Result<u64>) {
        self.inner.seek(pos)
    }
}

/// A source cut off after a quota of bytes.
pub struct Take<T> {
    inner: T,
    limit: u64,
}

impl<T> Take<T> {
    /// The source that is cut off.
    pub closed spec fn inner(&self) -> T {
        self.inner
    }

    /// The bytes that may still be read.
    pub closed spec fn limit(&self) -> u64 {
        self.limit
    }

    /// Cuts `inner` off after `limit` bytes.
    pub(crate) fn new(inner: T, limit: u64) -> (t: Take<T>)
        ensures
            t.inner() == inner,
            t.limit() == limit,
    {
        Take { inner, limit }
    }
}

impl<T: Read> Read for Take<T> {
    open spec fn pending(&self) -> Stream {
        self.inner().pending().capped(self.limit() as nat)
    }

    open spec fn unfailing(&self) -> bool {
        self.inner().unfailing()
    }

    /// What the inner source delivers into as much of the buffer as the
    /// quota allows.
    open spec fn delivers(&self, cap: nat) -> Option<nat> {
        if self.limit() == 0 {
            Some(0)
        } else {
            self.inner().delivers(least(cap, self.limit() as nat))
        }
    }

    /// Has the inner source read into the start of `buf`, as far as the
    /// quota allows, and takes what was read off the quota. The rest of `buf`
    /// is left alone. With no quota left the inner source is not asked.
    fn read(&mut self, buf: &mut [u8]) -> (r: Result<usize>)
        ensures
            r matches Ok(n) ==> n <= old(self).limit() && final(self).limit() == old(self).limit()
                - n,
            r is Err ==> final(self).limit() == old(self).limit(),
            old(self).limit() <= old(buf)@.len() ==> final(buf)@.skip(old(self).limit() as int)
                == old(buf)@.skip(old(self).limit() as int),
            old(self).limit() == 0 ==> {
                &&& r == Ok::<usize, Error>(0)
                &&& final(self).inner() == old(self).inner()
                &&& final(buf)@ == old(buf)@
            },
    {
        proof {
            (*self).pending().lemma_yields_nothing();
            assert(buf@.take(0) =~= Seq::<u8>::empty());
        }
        if self.limit == 0 {
            return Ok(0);
        }
        let max: usize = if (buf.len() as u64) < self.limit {
            buf.len()
        } else {
            self.limit as usize
        };
        let ghost before = self.inner.pending();
        let (head, _tail) = buf.split_at_mut(max);
        let n = match self.inner.read(head) {
            Ok(n) => n,
            Err(e) => {
                return Err(e);
            },
        };
        proof {
            assert(buf@.take(n as int) =~= head@.take(n as int));
            if max > 0 {
                before.lemma_capped_prefix(self.limit as nat, n as nat);
            }
        }
        self.limit = self.limit - n as u64;
        Ok(n)
    }
}

/// Two sources, one after the other.
pub struct Chain<T, U> {
    first: T,
    second: U,
    done_first: bool,
}

impl<T, U> Chain<T, U> {
    /// The source that is read first.
    pub closed spec fn first(&self) -> T {
        self.first
    }

    /// The source that is read once the first has ended.
    pub closed spec fn second(&self) -> U {
        self.second
    }

    /// The first source has reported its end; it is not asked again.
    pub closed spec fn done_first(&self) -> bool {
        self.done_first
    }

    /// Puts `second` behind `first`.
    pub(crate) fn new(first: T, second: U) -> (c: Chain<T, U>)
        ensures
            c.first() == first,
            c.second() == second,
            !c.done_first(),
    {
        Chain { first, second, done_first: false }
    }
}

impl<T: Read, U: Read> Read for Chain<T, U> {
    open spec fn pending(&self) -> Stream {
        if self.done_first() {
            self.second().pending()
        } else {
            self.first().pending().chain(self.second().pending())
        }
    }

    open spec fn unfailing(&self) -> bool {
        self.first().unfailing() && self.second().unfailing()
    }

    /// What the first source delivers, and what the second delivers when
    /// the first delivers nothing or has done so before.
    open spec fn delivers(&self, cap: nat) -> Option<nat> {
        if self.done_first() {
            self.second().delivers(cap)
        } else {
            match self.first().delivers(cap) {
                Some(n) => if n > 0 {
                    Some(n)
                } else {
                    self.second().delivers(cap)
                },
                None => None,
            }
        }
    }

    /// Reads from the first source until a read from it delivers nothing,
    /// and from the second from then on, starting in the same call. The
    /// first source is never asked again, and the second is not asked before.
    /// A read into an empty buffer delivers nothing and so ends the first
    /// source like any other, whatever that source had left.
    fn read(&mut self, buf: &mut [u8]) -> (r: Result<usize>)
        ensures
            old(self).done_first() ==> {
                &&& final(self).done_first()
                &&& final(self).first() == old(self).first()
            },
            !final(self).done_first() ==> final(self).second() == old(self).second(),
            !old(self).done_first() && final(self).done_first() && old(buf)@.len() > 0 ==> old(
                self,
            ).first().pending().at_end(),
    {
        if !self.done_first {
            let ghost a = self.first.pending();
            let ghost b = self.second.pending();
            let n = match self.first.read(buf) {
                Ok(n) => n,
                Err(e) => {
                    return Err(e);
                },
            };
            if n != 0 {
                proof {
                    a.lemma_chain_prefix(b, n as nat);
                }
                return Ok(n);
            }
            self.done_first = true;
            proof {
                if buf@.len() > 0 {
                    a.lemma_chain_ended(b);
                }
            }
        }
        self.second.read(buf)
    }
}

/// A source that copies all that is read from it to a sink.
pub struct Tee<R, W> {
    reader: R,
    writer: W,
}

impl<R, W> Tee<R, W> {
    /// The source that is read.
    pub closed spec fn reader(&self) -> R {
        self.reader
    }

    /// The sink that gets a copy.
    pub closed spec fn writer(&self) -> W {
        self.writer
    }

    /// Joins `reader` and `writer`.
    pub(crate) fn new(reader: R, writer: W) -> (t: Tee<R, W>)
        ensures
            t.reader() == reader,
            t.writer() == writer,
    {
        Tee { reader, writer }
    }
}

impl<R: Read, W: Write> Read for Tee<R, W> {
    open spec fn pending(&self) -> Stream {
        self.reader().pending()
    }

    open spec fn unfailing(&self) -> bool {
        &&& self.reader().unfailing()
        &&& forall|n: nat| #[trigger] self.writer().has_room(n)
    }

    /// What the source delivers, provided the sink has room for it.
    open spec fn delivers(&self, cap: nat) -> Option<nat> {
        match self.reader().delivers(cap) {
            Some(n) => if self.writer().has_room(n) {
                Some(n)
            } else {
                None
            },
            None => None,
        }
    }

    /// Reads from the source and writes all that was read to the sink.
    ///
    /// When that write fails the read fails with its error, although the
    /// bytes have left the source: they are in `buf`, but the caller is not
    /// told how many.
    fn read(&mut self, buf: &mut [u8]) -> (r: Result<usize>)
        ensures
            r matches Ok(n) ==> old(self).writer().took(
                final(buf)@.take(n as int),
                &final(self).writer(),
            ),
    {
        let n = match self.reader.read(buf) {
            Ok(n) => n,
            Err(e) => {
                return Err(e);
            },
        };
        let ghost sink = self.writer;
        let read = vstd::slice::slice_subrange(buf, 0, n);
        let r = self.writer.write_all(read);
        proof {
            if (*old(self)).unfailing() {
                assert forall|m: nat| #[trigger] self.writer.has_room(m) by {
                    assert(old(self).writer().has_room(read@.len() + m));
                    sink.room_left(read@, &self.writer, m);
                }
            }
        }
        match r {
            Ok(()) => Ok(n),
            Err(e) => Err(e),
        }
    }
}

/// The outcome of two steps that were both taken: the failure of the first,
/// else that of the second, else success.
pub fn first_failure(a: Result<()>, b: Result<()>) -> (r: Result<()>)
    ensures
        r == match a {
            Ok(_) => b,
            Err(e) => Err::<(), Error>(e),
        },
{
    match a {
        Ok(()) => b,
        Err(e) => Err(e),
    }
}

/// A sink that writes to two sinks.
pub struct Broadcast<T, U> {
    first: T,
    second: U,
}

impl<T, U> Broadcast<T, U> {
    /// The sink that is written first and decides how much is taken.
    pub closed spec fn first(&self) -> T {
        self.first
    }

    /// The sink that gets what the first one took.
    pub closed spec fn second(&self) -> U {
        self.second
    }

    /// Joins `first` and `second`.
    pub(crate) fn new(first: T, second: U) -> (b: Broadcast<T, U>)
        ensures
            b.first() == first,
            b.second() == second,
    {
        Broadcast { first, second }
    }
}

impl<T: Write, U: Write> Write for Broadcast<T, U> {
    open spec fn took(&self, data: Seq<u8>, after: &Self) -> bool {
        self.first().took(data, &after.first()) && self.second().took(data, &after.second())
    }

    open spec fn has_room(&self, n: nat) -> bool {
        self.first().has_room(n) && self.second().has_room(n)
    }

    proof fn room_for_less(&self, n: nat, m: nat) {
        self.first().room_for_less(n, m);
        self.second().room_for_less(n, m);
    }

    proof fn room_left(&self, data: Seq<u8>, after: &Self, m: nat) {
        self.first().room_left(data, &after.first(), m);
        self.second().room_left(data, &after.second(), m);
    }

    proof fn took_nothing(&self) {
        self.first().took_nothing();
        self.second().took_nothing();
    }

    proof fn took_both(&self, first: Seq<u8>, mid: &Self, second: Seq<u8>, after: &Self) {
        self.first().took_both(first, &mid.first(), second, &after.first());
        self.second().took_both(first, &mid.second(), second, &after.second());
    }

    /// Writes to the first sink, then writes all that it took to the second:
    /// the second never gets more than the first has taken.
    fn write(&mut self, buf: &[u8]) -> (r: Result<usize>) {
        let n = match self.first.write(buf) {
            Ok(n) => n,
            Err(e) => {
                return Err(e);
            },
        };
        let taken = vstd::slice::slice_subrange(buf, 0, n);
        let r2 = self.second.write_all(taken);
        match r2 {
            Ok(()) => Ok(n),
            Err(e) => Err(e),
        }
    }

    /// Flushes the first sink, then the second, and reports the first
    /// failure of the two.
    fn flush(&mut self) -> (r: Result<()>) {
        let a = self.first.flush();
        let b = self.second.flush();
        first_failure(a, b)
    }
}

} // verus!
