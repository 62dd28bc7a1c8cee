//! Sources and sinks that std's own types make: borrowed streams, byte
//! slices and byte vectors.

use super::{BufferedRead, Error, Read, Result, Seek, SeekPos, Stream, Write};
use vstd::prelude::*;

verus! {

/// `core::mem::take` on a mutable slice: hands out the slice that stood
/// behind `place`, which is all that is claimed here, and leaves an empty one
/// there.
#[verifier::external_body]
fn take_slice<'a>(place: &mut &'a mut [u8]) -> (whole: &'a mut [u8])
    ensures
        whole == *old(place),
{
    core::mem::take(place)
}

impl<'a, R: Read> Read for &'a mut R {
    open spec fn pending(&self) -> Stream {
        (**self).pending()
    }

    open spec fn unfailing(&self) -> bool {
        (**self).unfailing()
    }

    open spec fn delivers(&self, cap: nat) -> Option<nat> {
        (**self).delivers(cap)
    }

    fn read(&mut self, buf: &mut [u8]) -> (r: Result<usize>) {
        (**self).read(buf)
    }
}

impl<'a, W: Write> Write for &'a mut W {
    open spec fn took(&self, data: Seq<u8>, after: &Self) -> bool {
        (**self).took(data, &**after)
    }

    open spec fn has_room(&self, n: nat) -> bool {
        (**self).has_room(n)
    }

    proof fn room_for_less(&self, n: nat, m: nat) {
        let w: &W = &**self;
        w.room_for_less(n, m);
    }

    proof fn room_left(&self, data: Seq<u8>, after: &Self, m: nat) {
        let w: &W = &**self;
        w.room_left(data, &**after, m);
    }

    proof fn took_nothing(&self) {
        let w: &W = &**self;
        w.took_nothing();
        assert(self.took(Seq::empty(), self));
    }

    proof fn took_both(&self, first: Seq<u8>, mid: &Self, second: Seq<u8>, after: &Self) {
        let w: &W = &**self;
        w.took_both(first, &**mid, second, &**after);
    }

    fn write(&mut self, buf: &[u8]) -> (r: Result<usize>) {
        (**self).write(buf)
    }

    fn flush(&mut self) -> (r: Result<()>) {
        (**self).flush()
    }
}

impl<'a, S: Seek> Seek for &'a mut S {
    open spec fn offset(&self) -> u64 {
        (**self).offset()
    }

    open spec fn extent(&self) -> nat {
        (**self).extent()
    }

    fn seek(&mut self, pos: SeekPos) -> (r: Result<u64>) {
        (**self).seek(pos)
    }
}

/// `s` with the bytes from index `at` on replaced by `data`.
pub open spec fn overwrite(s: Seq<u8>, at: int, data: Seq<u8>) -> Seq<u8>
    recommends
        0 <= at,
        at + data.len() <= s.len(),
{
    Seq::new(
        s.len(),
        |i: int|
            if at <= i < at + data.len() {
                data[i - at]
            } else {
                s[i]
            },
    )
}

/// The smaller of two lengths.
pub open spec fn least(a: nat, b: nat) -> nat {
    if a <= b {
        a
    } else {
        b
    }
}

/// The smaller of two lengths.
pub fn min_len(a: usize, b: usize) -> (m: usize)
    ensures
        m == least(a as nat, b as nat),
{
    if a <= b {
        a
    } else {
        b
    }
}

/// Copies `src` into `dst`, from index `at` of `dst` on.
pub fn copy_memory(dst: &mut [u8], at: usize, src: &[u8])
    requires
        at + src@.len() <= old(dst)@.len(),
    ensures
        final(dst)@ == overwrite(old(dst)@, at as int, src@),
{
    let n = src.len();
    let room = dst.len();
    let mut i: usize = 0;
    while i < n
        invariant
            n == src@.len(),
            i <= n,
            room == dst@.len(),
            at + n <= room,
            dst@ == overwrite(old(dst)@, at as int, src@.take(i as int)),
        decreases n - i,
    {
        dst[at + i] = src[i];
        i += 1;
    }
}

impl<'a> Read for &'a [u8] {
    open spec fn pending(&self) -> Stream {
        Stream::Finite((**self)@)
    }

    open spec fn unfailing(&self) -> bool {
        true
    }

    open spec fn delivers(&self, cap: nat) -> Option<nat> {
        Some(least(cap, (**self)@.len()))
    }

    /// Copies as many of the slice's leading bytes as `buf` has room for, and
    /// leaves the rest of the slice.
    fn read(&mut self, buf: &mut [u8]) -> (r: Result<usize>)
        ensures
            r matches Ok(n) && n == least(old(buf)@.len(), (**old(self))@.len()),
            final(buf)@ == overwrite(
                old(buf)@,
                0,
                (**old(self))@.take(r.unwrap() as int),
            ),
            (**final(self))@ == (**old(self))@.skip(r.unwrap() as int),
    {
        let amt = min_len(buf.len(), self.len());
        let head = vstd::slice::slice_subrange(*self, 0, amt);
        copy_memory(buf, 0, head);
        let rest = vstd::slice::slice_subrange(*self, amt, self.len());
        *self = rest;
        proof {
            assert(buf@.take(amt as int) =~= (**old(self))@.take(amt as int));
        }
        Ok(amt)
    }
}

impl<'a> BufferedRead for &'a [u8] {
    open spec fn buffered(&self) -> Seq<u8> {
        (**self)@
    }

    proof fn buffered_is_pending(&self) {
    }

    fn fill_buf(&mut self) -> (r: Result<&[u8]>)
        ensures
            r matches Ok(s) && s@ == (**old(self))@,
            (**final(self))@ == (**old(self))@,
    {
        Ok(*self)
    }

    fn consume(&mut self, amt: usize) {
        let rest = vstd::slice::slice_subrange(*self, amt, self.len());
        *self = rest;
    }
}

impl<'a> Write for &'a mut [u8] {
    /// The slice shrinks from the front by what it took.
    open spec fn took(&self, data: Seq<u8>, after: &Self) -> bool {
        data.len() <= (**self)@.len() && (**after)@ == (**self)@.skip(data.len() as int)
    }

    /// The slice has room for as many bytes as it is long.
    open spec fn has_room(&self, n: nat) -> bool {
        n <= (**self)@.len()
    }

    proof fn room_for_less(&self, n: nat, m: nat) {
    }

    proof fn room_left(&self, data: Seq<u8>, after: &Self, m: nat) {
    }

    proof fn took_nothing(&self) {
        assert((**self)@.skip(0) =~= (**self)@);
    }

    proof fn took_both(&self, first: Seq<u8>, mid: &Self, second: Seq<u8>, after: &Self) {
        assert((**self)@.skip(first.len() as int).skip(second.len() as int) =~= (**self)@.skip(
            (first + second).len() as int,
        ));
    }

    /// Copies as many of the leading bytes of `buf` as the slice has room
    /// for into the start of the slice, and leaves the rest of the slice. In
    /// the end the memory behind the slice holds those bytes, followed by
    /// what the rest of the slice comes to hold.
    fn write(&mut self, buf: &[u8]) -> (r: Result<usize>)
        ensures
            r matches Ok(n) && n == least(buf@.len(), (**old(self))@.len()),
            (**final(self))@ == (**old(self))@.skip(r.unwrap() as int),
            (*final(*old(self)))@ == buf@.take(r.unwrap() as int) + (*final(*final(self)))@,
    {
        let amt = min_len(buf.len(), self.len());
        let whole = take_slice(self);
        let (head, tail) = whole.split_at_mut(amt);
        let taken = vstd::slice::slice_subrange(buf, 0, amt);
        copy_memory(head, 0, taken);
        *self = tail;
        Ok(amt)
    }
}

impl Write for Vec<u8> {
    /// The vector grows at its end by what it took.
    open spec fn took(&self, data: Seq<u8>, after: &Self) -> bool {
        after@ == self@ + data
    }

    open spec fn has_room(&self, n: nat) -> bool {
        true
    }

    proof fn room_for_less(&self, n: nat, m: nat) {
    }

    proof fn room_left(&self, data: Seq<u8>, after: &Self, m: nat) {
    }

    proof fn took_nothing(&self) {
    }

    proof fn took_both(&self, first: Seq<u8>, mid: &Self, second: Seq<u8>, after: &Self) {
        assert(self@ + first + second =~= self@ + (first + second));
    }

    /// Appends all of `buf`.
    fn write(&mut self, buf: &[u8]) -> (r: Result<usize>)
        ensures
            r matches Ok(n) && n == buf@.len(),
            final(self)@ == old(self)@ + buf@,
    {
        self.extend_from_slice(buf);
        proof {
            assert(self@ =~= old(self)@ + buf@);
            assert(buf@.take(buf@.len() as int) =~= buf@);
        }
        Ok(buf.len())
    }
}

} // verus!
