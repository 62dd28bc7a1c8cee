//! Lazy decoders: a source as a sequence of bytes or of characters.

use super::{Error, Read, Result, Stream};
use vstd::prelude::*;
use vstd::string::StrSliceExecFns;
use vstd::utf8::{decode_utf8, valid_utf8};

verus! {

/// The bytes of a source, one at a time.
pub struct Bytes<R> {
    inner: R,
}

/// What one read into a buffer of one byte means for the sequence of bytes:
/// its end when nothing was read, the byte `byte` that was read, or the error.
pub fn byte_item(r: Result<usize>, byte: u8) -> (item: Option<Result<u8>>)
    ensures
        item == match r {
            Ok(n) => if n == 0 {
                None
            } else {
                Some(Ok::<u8, Error>(byte))
            },
            Err(e) => Some(Err::<u8, Error>(e)),
        },
{
    match r {
        Ok(n) => if n == 0 {
            None
        } else {
            Some(Ok(byte))
        },
        Err(e) => Some(Err(e)),
    }
}

impl<R> Bytes<R> {
    /// The source that is read.
    pub closed spec fn inner(&self) -> R {
        self.inner
    }

    /// Wraps `inner`.
    pub(crate) fn new(inner: R) -> (b: Bytes<R>)
        ensures
            b.inner() == inner,
    {
        Bytes { inner }
    }
}

impl<R: Read> Bytes<R> {
    /// Reads the next byte of the source: `None` at the end of the stream,
    /// else the byte, or the error of the read that failed.
    pub fn next(&mut self) -> (item: Option<Result<u8>>)
        ensures
            match item {
                None => old(self).inner().pending().at_end() && final(self).inner().pending()
                    == old(self).inner().pending(),
                Some(Ok(b)) => old(self).inner().pending().yields(
                    seq![b],
                    final(self).inner().pending(),
                ),
                Some(Err(_)) => true,
            },
            old(self).inner().unfailing() ==> {
                &&& !(item matches Some(Err(_)))
                &&& final(self).inner().unfailing()
            },
    {
        let mut buf = [0u8; 1];
        let r = self.inner.read(&mut buf);
        proof {
            old(self).inner.pending().lemma_skip_none();
            assert(buf@.take(1) =~= seq![buf@[0]]);
        }
        byte_item(r, buf[0])
    }
}

/// The characters a source encodes, one at a time.
pub struct Chars<R> {
    inner: R,
}

/// Why a character could not be produced.
#[derive(PartialEq, Clone, Debug)]
pub enum CharsError {
    /// The bytes read are not well-formed UTF-8.
    NotUtf8,
    /// Reading the bytes failed.
    Other(Error),
}

impl CharsError {
    /// What went wrong, in a few words.
    pub fn description(&self) -> (text: &str)
        ensures
            text == match *self {
                CharsError::NotUtf8 => "invalid utf8 encoding",
                CharsError::Other(e) => e.desc,
            },
    {
        match self {
            CharsError::NotUtf8 => "invalid utf8 encoding",
            CharsError::Other(e) => e.description(),
        }
    }
}

/// The number of bytes that a UTF-8 sequence starting with `first` has: 1 to
/// 4, or 0 where no sequence starts with that byte.
pub open spec fn utf8_width(first: u8) -> nat {
    if first <= 0x7F {
        1
    } else if first <= 0xC1 {
        0
    } else if first <= 0xDF {
        2
    } else if first <= 0xEF {
        3
    } else if first <= 0xF4 {
        4
    } else {
        0
    }
}

/// The number of bytes that a UTF-8 sequence starting with `first` has.
pub fn utf8_char_width(first: u8) -> (width: usize)
    ensures
        width == utf8_width(first),
{
    if first <= 0x7F {
        1
    } else if first <= 0xC1 {
        0
    } else if first <= 0xDF {
        2
    } else if first <= 0xEF {
        3
    } else if first <= 0xF4 {
        4
    } else {
        0
    }
}

/// `core::str::from_utf8`: the bytes as a string slice if, and only if, they
/// are well-formed UTF-8; the slice then holds the characters that the bytes
/// encode.
#[verifier::external_body]
fn str_from_utf8(bytes: &[u8]) -> (s: Option<&str>)
    ensures
        s is Some <==> valid_utf8(bytes@),
        s matches Some(text) ==> text@ == decode_utf8(bytes@),
{
    core::str::from_utf8(bytes).ok()
}

/// The character that the bytes of one whole UTF-8 sequence encode, if they
/// are well-formed.
pub fn decode_sequence(bytes: &[u8]) -> (r: core::result::Result<char, CharsError>)
    requires
        bytes@.len() > 0,
    ensures
        r == sequence_value(bytes@),
{
    match str_from_utf8(bytes) {
        Some(text) => Ok(text.get_char(0)),
        None => Err(CharsError::NotUtf8),
    }
}

/// The character that `bytes` encode, where they are well-formed UTF-8.
pub open spec fn sequence_value(bytes: Seq<u8>) -> core::result::Result<char, CharsError> {
    if valid_utf8(bytes) {
        Ok(decode_utf8(bytes)[0])
    } else {
        Err(CharsError::NotUtf8)
    }
}

/// What decoding the next character of `s` gives, and how many bytes of `s`
/// that uses up.
///
/// The first byte says how long the sequence is. A byte that starts no
/// sequence, a sequence that the end of the stream cuts short and a sequence
/// that is not well-formed are each a `NotUtf8`.
pub open spec fn decode_next(s: Stream) -> (Option<core::result::Result<char, CharsError>>, nat) {
    if s.at_end() {
        (None, 0)
    } else {
        let first = s.prefix(1)[0];
        let width = utf8_width(first);
        if width == 1 {
            (Some(Ok(first as char)), 1)
        } else if width == 0 {
            (Some(Err(CharsError::NotUtf8)), 1)
        } else if !s.has(width) {
            (Some(Err(CharsError::NotUtf8)), s.remaining())
        } else {
            (Some(sequence_value(s.prefix(width))), width)
        }
    }
}

impl<R> Chars<R> {
    /// The source that is read.
    pub closed spec fn inner(&self) -> R {
        self.inner
    }

    /// Wraps `inner`.
    pub(crate) fn new(inner: R) -> (c: Chars<R>)
        ensures
            c.inner() == inner,
    {
        Chars { inner }
    }
}

impl<R: Read> Chars<R> {
    /// Decodes the next character of the source: `None` at the end of the
    /// stream, else the character or the reason why there is none.
    ///
    /// Reads one byte for the length of the sequence and then the rest of
    /// the sequence, in as many reads as the source needs. Unless a read
    /// fails, the result is what `decode_next` gives for the bytes the source
    /// had left, and the source has moved past the bytes that were used.
    pub fn next(&mut self) -> (item: Option<core::result::Result<char, CharsError>>)
        ensures
            item matches Some(Err(CharsError::Other(_))) || {
                &&& item == decode_next(old(self).inner().pending()).0
                &&& final(self).inner().pending() == old(self).inner().pending().skip(
                    decode_next(old(self).inner().pending()).1,
                )
            },
            old(self).inner().unfailing() ==> !(item matches Some(Err(CharsError::Other(_))))
                && final(self).inner().unfailing(),
    {
        let ghost all = self.inner.pending();
        let mut buf = [0u8; 4];
        let (slot, _rest) = buf.split_at_mut(1);
        match self.inner.read(slot) {
            Ok(n) => {
                if n == 0 {
                    return None;
                }
            },
            Err(e) => {
                return Some(Err(CharsError::Other(e)));
            },
        }
        proof {
            assert(buf@.take(1) =~= slot@.take(1));
        }
        let first = buf[0];
        let width = utf8_char_width(first);
        if width == 1 {
            return Some(Ok(first as char));
        }
        if width == 0 {
            return Some(Err(CharsError::NotUtf8));
        }
        let mut start: usize = 1;
        while start < width
            invariant
                1 <= start <= width <= 4,
                buf@.len() == 4,
                buf@[0] == first,
                all == old(self).inner().pending(),
                !all.at_end(),
                all.prefix(1)[0] == first,
                width == utf8_width(first),
                all.yields(buf@.take(start as int), self.inner.pending()),
                old(self).inner().unfailing() ==> self.inner.unfailing(),
            decreases width - start,
        {
            let ghost got = buf@.take(start as int);
            let ghost mid = self.inner.pending();
            let (_head, rest) = buf.split_at_mut(start);
            let (slot, _tail) = rest.split_at_mut(width - start);
            let n = match self.inner.read(slot) {
                Ok(n) => n,
                Err(e) => {
                    return Some(Err(CharsError::Other(e)));
                },
            };
            proof {
                assert(buf@.take(start + n) =~= got + slot@.take(n as int));
                all.lemma_yields_joined(got, mid, slot@.take(n as int), self.inner.pending());
            }
            if n == 0 {
                return Some(Err(CharsError::NotUtf8));
            }
            start = start + n;
        }
        let whole = vstd::slice::slice_subrange(&buf, 0, width);
        Some(decode_sequence(whole))
    }
}

} // verus!
