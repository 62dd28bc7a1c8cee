//! An in-memory stream with a position.

use super::impls::{copy_memory, least, min_len, overwrite};
use super::{
    seek_target, BufferedRead, Error, ErrorKind, Read, Result, Seek, SeekPos, Stream, Write,
};
use vstd::prelude::*;

verus! {

/// A position over an in-memory store of bytes: a slice, a mutable slice or
/// a vector. The position may stand anywhere, also past the end of the store.
pub struct Cursor<T> {
    pos: u64,
    inner: T,
}

impl<T> Cursor<T> {
    /// The current position.
    pub closed spec fn spec_position(&self) -> u64 {
        self.pos
    }

    /// The store.
    pub closed spec fn spec_get_ref(&self) -> &T {
        &self.inner
    }

    /// A cursor at position 0 of `inner`.
    pub fn new(inner: T) -> (c: Cursor<T>)
        ensures
            c.position() == 0,
            *c.get_ref() == inner,
    {
        Cursor { pos: 0, inner }
    }

    /// Gives the store back.
    pub fn into_inner(self) -> (inner: T)
        ensures
            inner == *self.get_ref(),
    {
        self.inner
    }

    /// The store.
    #[verifier::when_used_as_spec(spec_get_ref)]
    pub fn get_ref(&self) -> (inner: &T)
        ensures
            inner == self.get_ref(),
    {
        &self.inner
    }

    /// The store, for changes. The position stays where it is, whatever is
    /// done to the store.
    pub fn get_mut(&mut self) -> (inner: &mut T)
        ensures
            *inner == *old(self).get_ref(),
            *final(self).get_ref() == *final(inner),
            final(self).position() == old(self).position(),
    {
        &mut self.inner
    }

    /// The current position.
    #[verifier::when_used_as_spec(spec_position)]
    pub fn position(&self) -> (pos: u64)
        ensures
            pos == self.position(),
    {
        self.pos
    }

    /// Moves to `pos`.
    pub fn set_position(&mut self, pos: u64)
        ensures
            final(self).position() == pos,
            *final(self).get_ref() == *old(self).get_ref(),
    {
        self.pos = pos;
    }
}

/// The bytes of `store` from `pos` on: none when `pos` is at or past the end.
pub open spec fn tail_from(store: Seq<u8>, pos: u64) -> Seq<u8> {
    if pos <= store.len() {
        store.skip(pos as int)
    } else {
        Seq::empty()
    }
}

/// What a growable store holds after `data` was written at `pos`: the store
/// is first padded with zeros up to `pos`, then `data` replaces what stands
/// from `pos` on and runs on past the end as far as it needs.
pub open spec fn overlay(store: Seq<u8>, pos: int, data: Seq<u8>) -> Seq<u8>
    recommends
        0 <= pos,
{
    Seq::new(
        if store.len() >= pos + data.len() {
            store.len()
        } else {
            (pos + data.len()) as nat
        },
        |i: int|
            if pos <= i < pos + data.len() {
                data[i - pos]
            } else if i < store.len() {
                store[i]
            } else {
                0u8
            },
    )
}

/// The outcome of a seek on a stream of `extent` bytes that stands at
/// `offset`: the position asked for, or a refusal when that position is
/// negative or too large for a `u64`.
pub open spec fn seek_outcome(offset: u64, extent: nat, style: SeekPos) -> Result<u64> {
    let target = seek_target(offset, extent, style);
    if target < 0 {
        Err(
            Error {
                kind: ErrorKind::InvalidInput,
                desc: "invalid seek to a negative position",
                detail: None,
            },
        )
    } else if target > u64::MAX {
        Err(
            Error {
                kind: ErrorKind::InvalidInput,
                desc: "invalid seek to an overflowing position",
                detail: None,
            },
        )
    } else {
        Ok(target as u64)
    }
}

/// Computes where a seek leads, on a stream of `extent` bytes that stands at
/// `offset`.
pub fn seek_from(offset: u64, extent: usize, style: SeekPos) -> (r: Result<u64>)
    ensures
        r == seek_outcome(offset, extent as nat, style),
{
    let (base, delta): (u64, i64) = match style {
        SeekPos::FromStart(n) => {
            return Ok(n);
        },
        SeekPos::FromEnd(n) => (extent as u64, n),
        SeekPos::FromCur(n) => (offset, n),
    };
    match base.checked_add_signed(delta) {
        Some(target) => Ok(target),
        None => if delta < 0 {
            Err(Error::new(ErrorKind::InvalidInput, "invalid seek to a negative position", None))
        } else {
            Err(
                Error::new(
                    ErrorKind::InvalidInput,
                    "invalid seek to an overflowing position",
                    None,
                ),
            )
        },
    }
}

/// Copies into `buf` what `store` holds from `pos` on, as far as `buf` has
/// room, and returns how many bytes that were.
pub fn read_at(store: &[u8], pos: u64, buf: &mut [u8]) -> (n: usize)
    ensures
        n == least(old(buf)@.len(), tail_from(store@, pos).len()),
        final(buf)@ == overwrite(old(buf)@, 0, tail_from(store@, pos).take(n as int)),
{
    if pos > store.len() as u64 {
        return 0;
    }
    let rest = vstd::slice::slice_subrange(store, pos as usize, store.len());
    let n = min_len(buf.len(), rest.len());
    let head = vstd::slice::slice_subrange(rest, 0, n);
    copy_memory(buf, 0, head);
    n
}

/// What `store` holds from `pos` on, as a slice.
pub fn slice_from(store: &[u8], pos: u64) -> (rest: &[u8])
    ensures
        rest@ == tail_from(store@, pos),
{
    let len = store.len();
    if pos < len as u64 {
        let rest = vstd::slice::slice_subrange(store, pos as usize, len);
        rest
    } else {
        let rest = vstd::slice::slice_subrange(store, len, len);
        rest
    }
}

/// `read` advances past what it delivered.
proof fn lemma_tail_yields(store: Seq<u8>, pos: u64, n: nat, filled: Seq<u8>)
    requires
        n <= tail_from(store, pos).len(),
        n <= filled.len(),
        filled.take(n as int) == tail_from(store, pos).take(n as int),
    ensures
        pos + n <= u64::MAX ==> Stream::Finite(tail_from(store, pos)).yields(
            filled.take(n as int),
            Stream::Finite(tail_from(store, (pos + n) as u64)),
        ),
{
    if pos + n <= u64::MAX {
        assert(tail_from(store, pos).skip(n as int) =~= tail_from(store, (pos + n) as u64));
    }
}

impl<'a> Seek for Cursor<&'a [u8]> {
    open spec fn offset(&self) -> u64 {
        self.position()
    }

    open spec fn extent(&self) -> nat {
        self.get_ref()@.len()
    }

    /// Moves to the position asked for, unless it is negative or too large.
    fn seek(&mut self, style: SeekPos) -> (r: Result<u64>)
        ensures
            r == seek_outcome(old(self).position(), old(self).get_ref()@.len(), style),
            final(self).position() == (if r is Ok {
                r.unwrap()
            } else {
                old(self).position()
            }),
            *final(self).get_ref() == *old(self).get_ref(),
    {
        match seek_from(self.pos, self.inner.len(), style) {
            Ok(pos) => {
                self.pos = pos;
                Ok(pos)
            },
            Err(e) => Err(e),
        }
    }
}

impl<'a> Read for Cursor<&'a [u8]> {
    open spec fn pending(&self) -> Stream {
        Stream::Finite(tail_from(self.get_ref()@, self.position()))
    }

    open spec fn unfailing(&self) -> bool {
        true
    }

    open spec fn delivers(&self, cap: nat) -> Option<nat> {
        Some(least(cap, tail_from(self.get_ref()@, self.position()).len()))
    }

    /// Copies what the store holds from the position on, as far as `buf` has
    /// room, and moves the position past it. Past the end there is nothing
    /// to read.
    fn read(&mut self, buf: &mut [u8]) -> (r: Result<usize>)
        ensures
            r matches Ok(n) && n == least(
                old(buf)@.len(),
                tail_from(old(self).get_ref()@, old(self).position()).len(),
            ),
            final(buf)@ == overwrite(
                old(buf)@,
                0,
                tail_from(old(self).get_ref()@, old(self).position()).take(r.unwrap() as int),
            ),
            final(self).position() == old(self).position() + r.unwrap(),
            *final(self).get_ref() == *old(self).get_ref(),
    {
        let n = read_at(self.inner, self.pos, buf);
        let len = self.inner.len();
        proof {
            assert(buf@.take(n as int) =~= tail_from(self.inner@, self.pos).take(n as int));
            lemma_tail_yields(self.inner@, self.pos, n as nat, buf@);
        }
        self.pos = self.pos + n as u64;
        Ok(n)
    }
}

impl<'a> BufferedRead for Cursor<&'a [u8]> {
    open spec fn buffered(&self) -> Seq<u8> {
        tail_from(self.get_ref()@, self.position())
    }

    proof fn buffered_is_pending(&self) {
    }

    /// Shows what the store holds from the position on.
    fn fill_buf(&mut self) -> (r: Result<&[u8]>)
        ensures
            r matches Ok(s) && s@ == tail_from(old(self).get_ref()@, old(self).position()),
            *final(self) == *old(self),
    {
        Ok(slice_from(self.inner, self.pos))
    }

    /// Moves the position on by `amt`.
    fn consume(&mut self, amt: usize)
        ensures
            final(self).position() == old(self).position() + amt,
            *final(self).get_ref() == *old(self).get_ref(),
    {
        let len = self.inner.len();
        proof {
            assert(tail_from(self.inner@, self.pos).skip(amt as int) =~= tail_from(
                self.inner@,
                (self.pos + amt) as u64,
            ));
        }
        self.pos = self.pos + amt as u64;
    }
}

impl<'a> Seek for Cursor<&'a mut [u8]> {
    open spec fn offset(&self) -> u64 {
        self.position()
    }

    open spec fn extent(&self) -> nat {
        self.get_ref()@.len()
    }

    /// Moves to the position asked for, unless it is negative or too large.
    fn seek(&mut self, style: SeekPos) -> (r: Result<u64>)
        ensures
            r == seek_outcome(old(self).position(), old(self).get_ref()@.len(), style),
            final(self).position() == (if r is Ok {
                r.unwrap()
            } else {
                old(self).position()
            }),
            *final(self).get_ref() == *old(self).get_ref(),
    {
        match seek_from(self.pos, self.inner.len(), style) {
            Ok(pos) => {
                self.pos = pos;
                Ok(pos)
            },
            Err(e) => Err(e),
        }
    }
}

impl<'a> Read for Cursor<&'a mut [u8]> {
    open spec fn pending(&self) -> Stream {
        Stream::Finite(tail_from(self.get_ref()@, self.position()))
    }

    open spec fn unfailing(&self) -> bool {
        true
    }

    open spec fn delivers(&self, cap: nat) -> Option<nat> {
        Some(least(cap, tail_from(self.get_ref()@, self.position()).len()))
    }

    /// Copies what the store holds from the position on, as far as `buf` has
    /// room, and moves the position past it. Past the end there is nothing
    /// to read.
    fn read(&mut self, buf: &mut [u8]) -> (r: Result<usize>)
        ensures
            r matches Ok(n) && n == least(
                old(buf)@.len(),
                tail_from(old(self).get_ref()@, old(self).position()).len(),
            ),
            final(buf)@ == overwrite(
                old(buf)@,
                0,
                tail_from(old(self).get_ref()@, old(self).position()).take(r.unwrap() as int),
            ),
            final(self).position() == old(self).position() + r.unwrap(),
            *final(self).get_ref() == *old(self).get_ref(),
    {
        let n = read_at(&*self.inner, self.pos, buf);
        let len = self.inner.len();
        proof {
            assert(buf@.take(n as int) =~= tail_from(self.inner@, self.pos).take(n as int));
            lemma_tail_yields(self.inner@, self.pos, n as nat, buf@);
        }
        self.pos = self.pos + n as u64;
        Ok(n)
    }
}

impl<'a> BufferedRead for Cursor<&'a mut [u8]> {
    open spec fn buffered(&self) -> Seq<u8> {
        tail_from(self.get_ref()@, self.position())
    }

    proof fn buffered_is_pending(&self) {
    }

    /// Shows what the store holds from the position on.
    fn fill_buf(&mut self) -> (r: Result<&[u8]>)
        ensures
            r matches Ok(s) && s@ == tail_from(old(self).get_ref()@, old(self).position()),
            *final(self) == *old(self),
    {
        Ok(slice_from(&*self.inner, self.pos))
    }

    /// Moves the position on by `amt`.
    fn consume(&mut self, amt: usize)
        ensures
            final(self).position() == old(self).position() + amt,
            *final(self).get_ref() == *old(self).get_ref(),
    {
        let len = self.inner.len();
        proof {
            assert(tail_from(self.inner@, self.pos).skip(amt as int) =~= tail_from(
                self.inner@,
                (self.pos + amt) as u64,
            ));
        }
        self.pos = self.pos + amt as u64;
    }
}


impl<'a> Write for Cursor<&'a mut [u8]> {
    /// The bytes taken stand in the store from the old position on, and the
    /// position has moved past them. The store never grows.
    open spec fn took(&self, data: Seq<u8>, after: &Self) -> bool {
        &&& data.len() <= tail_from(self.get_ref()@, self.position()).len()
        &&& after.position() == self.position() + data.len()
        &&& after.get_ref()@ == overwrite(self.get_ref()@, self.position() as int, data)
    }

    /// The store has room for what fits between the position and its end.
    open spec fn has_room(&self, n: nat) -> bool {
        n <= tail_from(self.get_ref()@, self.position()).len()
    }

    proof fn room_for_less(&self, n: nat, m: nat) {
    }

    proof fn room_left(&self, data: Seq<u8>, after: &Self, m: nat) {
    }

    proof fn took_nothing(&self) {
        assert(self.get_ref()@ =~= overwrite(
            self.get_ref()@,
            self.position() as int,
            Seq::<u8>::empty(),
        ));
    }

    proof fn took_both(&self, first: Seq<u8>, mid: &Self, second: Seq<u8>, after: &Self) {
        let s = self.get_ref()@;
        let p = self.position() as int;
        assert(overwrite(overwrite(s, p, first), p + first.len(), second) =~= overwrite(
            s,
            p,
            first + second,
        ));
    }

    /// Writes into the store from the position on, as far as the store has
    /// room, and moves the position past what was written. With the position
    /// at or past the end there is no room, which is no error.
    fn write(&mut self, data: &[u8]) -> (r: Result<usize>)
        ensures
            r matches Ok(n) && n == least(
                data@.len(),
                tail_from(old(self).get_ref()@, old(self).position()).len(),
            ),
            final(self).position() == old(self).position() + r.unwrap(),
            final(self).get_ref()@ == overwrite(
                old(self).get_ref()@,
                old(self).position() as int,
                data@.take(r.unwrap() as int),
            ),
    {
        let len = self.inner.len();
        if self.pos >= len as u64 {
            proof {
                (*self).took_nothing();
                assert(data@.take(0) =~= Seq::<u8>::empty());
            }
            return Ok(0);
        }
        let at = self.pos as usize;
        let amt = min_len(data.len(), len - at);
        let head = vstd::slice::slice_subrange(data, 0, amt);
        copy_memory(self.inner, at, head);
        self.pos = self.pos + amt as u64;
        Ok(amt)
    }
}
impl Seek for Cursor<Vec<u8>> {
    open spec fn offset(&self) -> u64 {
        self.position()
    }

    open spec fn extent(&self) -> nat {
        self.get_ref()@.len()
    }

    /// Moves to the position asked for, unless it is negative or too large.
    fn seek(&mut self, style: SeekPos) -> (r: Result<u64>)
        ensures
            r == seek_outcome(old(self).position(), old(self).get_ref()@.len(), style),
            final(self).position() == (if r is Ok {
                r.unwrap()
            } else {
                old(self).position()
            }),
            *final(self).get_ref() == *old(self).get_ref(),
    {
        match seek_from(self.pos, self.inner.len(), style) {
            Ok(pos) => {
                self.pos = pos;
                Ok(pos)
            },
            Err(e) => Err(e),
        }
    }
}

impl Read for Cursor<Vec<u8>> {
    open spec fn pending(&self) -> Stream {
        Stream::Finite(tail_from(self.get_ref()@, self.position()))
    }

    open spec fn unfailing(&self) -> bool {
        true
    }

    open spec fn delivers(&self, cap: nat) -> Option<nat> {
        Some(least(cap, tail_from(self.get_ref()@, self.position()).len()))
    }

    /// Copies what the store holds from the position on, as far as `buf` has
    /// room, and moves the position past it. Past the end there is nothing
    /// to read.
    fn read(&mut self, buf: &mut [u8]) -> (r: Result<usize>)
        ensures
            r matches Ok(n) && n == least(
                old(buf)@.len(),
                tail_from(old(self).get_ref()@, old(self).position()).len(),
            ),
            final(buf)@ == overwrite(
                old(buf)@,
                0,
                tail_from(old(self).get_ref()@, old(self).position()).take(r.unwrap() as int),
            ),
            final(self).position() == old(self).position() + r.unwrap(),
            *final(self).get_ref() == *old(self).get_ref(),
    {
        let n = read_at(self.inner.as_slice(), self.pos, buf);
        let len = self.inner.len();
        proof {
            assert(buf@.take(n as int) =~= tail_from(self.inner@, self.pos).take(n as int));
            lemma_tail_yields(self.inner@, self.pos, n as nat, buf@);
        }
        self.pos = self.pos + n as u64;
        Ok(n)
    }
}

impl BufferedRead for Cursor<Vec<u8>> {
    open spec fn buffered(&self) -> Seq<u8> {
        tail_from(self.get_ref()@, self.position())
    }

    proof fn buffered_is_pending(&self) {
    }

    /// Shows what the store holds from the position on.
    fn fill_buf(&mut self) -> (r: Result<&[u8]>)
        ensures
            r matches Ok(s) && s@ == tail_from(old(self).get_ref()@, old(self).position()),
            *final(self) == *old(self),
    {
        Ok(slice_from(self.inner.as_slice(), self.pos))
    }

    /// Moves the position on by `amt`.
    fn consume(&mut self, amt: usize)
        ensures
            final(self).position() == old(self).position() + amt,
            *final(self).get_ref() == *old(self).get_ref(),
    {
        let len = self.inner.len();
        proof {
            assert(tail_from(self.inner@, self.pos).skip(amt as int) =~= tail_from(
                self.inner@,
                (self.pos + amt) as u64,
            ));
        }
        self.pos = self.pos + amt as u64;
    }
}


impl Write for Cursor<Vec<u8>> {
    /// The position has moved past the bytes taken, and the store holds them
    /// from the old position on, grown as far as that needed. Where nothing
    /// was taken the store may also have been left as it was.
    open spec fn took(&self, data: Seq<u8>, after: &Self) -> bool {
        &&& after.position() == self.position() + data.len()
        &&& (after.get_ref()@ == overlay(self.get_ref()@, self.position() as int, data) || (
        data.len() == 0 && after.get_ref()@ == self.get_ref()@))
    }

    /// The store grows as it must; all that is needed is a position that
    /// can be an index into a vector.
    open spec fn has_room(&self, n: nat) -> bool {
        self.position() <= usize::MAX
    }

    proof fn room_for_less(&self, n: nat, m: nat) {
    }

    proof fn room_left(&self, data: Seq<u8>, after: &Self, m: nat) {
        let len = after.get_ref().len();
    }

    proof fn took_nothing(&self) {
    }

    proof fn took_both(&self, first: Seq<u8>, mid: &Self, second: Seq<u8>, after: &Self) {
        let s = self.get_ref()@;
        let p = self.position() as int;
        assert(overlay(overlay(s, p, first), p + first.len(), second) =~= overlay(
            s,
            p,
            first + second,
        ));
    }

    /// Writes all of `data` at the position and moves the position past it.
    ///
    /// A position past the end first has the gap filled with zeros. What
    /// the store holds from the position on is overwritten, and what of
    /// `data` is left after that is appended. The write fails only where the
    /// position is no index that a vector can have.
    fn write(&mut self, data: &[u8]) -> (r: Result<usize>)
        ensures
            old(self).position() <= usize::MAX ==> {
                &&& (r matches Ok(n) && n == data@.len())
                &&& final(self).position() == old(self).position() + data@.len()
                &&& final(self).get_ref()@ == overlay(
                    old(self).get_ref()@,
                    old(self).position() as int,
                    data@,
                )
            },
            old(self).position() > usize::MAX ==> {
                &&& r == Err::<usize, Error>(
                    Error {
                        kind: ErrorKind::InvalidInput,
                        desc: "cursor position exceeds maximum possible vector length",
                        detail: None,
                    },
                )
                &&& *final(self) == *old(self)
            },
    {
        let pos = self.pos;
        if pos > usize::MAX as u64 {
            return Err(
                Error::new(
                    ErrorKind::InvalidInput,
                    "cursor position exceeds maximum possible vector length",
                    None,
                ),
            );
        }
        let at = pos as usize;
        let len = self.inner.len();
        if at == len {
            self.inner.extend_from_slice(data);
        } else {
            if at > len {
                self.inner.resize(at, 0);
            }
            let len = self.inner.len();
            let cut = min_len(len - at, data.len());
            let left = vstd::slice::slice_subrange(data, 0, cut);
            let right = vstd::slice::slice_subrange(data, cut, data.len());
            if cut > 0 {
                copy_memory(self.inner.as_mut_slice(), at, left);
            }
            if right.len() > 0 {
                self.inner.extend_from_slice(right);
            }
        }
        let total = self.inner.len();
        proof {
            assert(self.inner@ =~= overlay(old(self).inner@, pos as int, data@));
            assert(data@.take(data@.len() as int) =~= data@);
        }
        self.pos = pos + data.len() as u64;
        Ok(data.len())
    }
}
} // verus!
