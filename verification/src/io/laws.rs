//! Laws that relate several operations of this module. Each is proved from
//! the specifications that the operations' own contracts use.

use super::impls::least;
use super::mem::{overlay, seek_outcome, Cursor};
use super::{Broadcast, Chain, ErrorKind, Read, Repeat, SeekPos, Stream, Take, Write};
use vstd::prelude::*;

verus! {

/// A write to a growable store at its very end appends: the store then holds
/// what it held, followed by the bytes written.
pub proof fn law_write_at_end_appends(store: Seq<u8>, data: Seq<u8>)
    ensures
        overlay(store, store.len() as int, data) == store + data,
{
}

/// A growable cursor that stands at the end of its store and takes `data`
/// holds the old store followed by `data`, and stands at the new end. A
/// cursor over an empty store, at position 0, ends up holding just `data`.
pub proof fn law_cursor_at_end_appends(
    before: Cursor<Vec<u8>>,
    data: Seq<u8>,
    after: Cursor<Vec<u8>>,
)
    requires
        before.position() == before.get_ref()@.len(),
        before.took(data, &after),
    ensures
        after.get_ref()@ == before.get_ref()@ + data,
        after.position() == before.get_ref()@.len() + data.len(),
        after.position() == after.get_ref()@.len(),
{
    law_write_at_end_appends(before.get_ref()@, data);
}

/// A growable cursor over an empty store that has taken `data`, as the
/// target of a copy does, holds exactly `data`.
pub proof fn law_empty_cursor_holds_what_it_took(
    before: Cursor<Vec<u8>>,
    data: Seq<u8>,
    after: Cursor<Vec<u8>>,
)
    requires
        before.position() == 0,
        before.get_ref()@.len() == 0,
        before.took(data, &after),
    ensures
        after.get_ref()@ == data,
        after.position() == data.len(),
{
    law_cursor_at_end_appends(before, data, after);
}

/// A seek to `gap` bytes past the end of a growable store, followed by a
/// write of `data`, leaves the store as it was up to its old end, then `gap`
/// zeros, then `data`.
pub proof fn law_write_past_end_pads(offset: u64, store: Seq<u8>, gap: i64, data: Seq<u8>)
    requires
        gap > 0,
        store.len() + gap <= u64::MAX,
    ensures
        seek_outcome(offset, store.len(), SeekPos::FromEnd(gap)) == Ok::<u64, super::Error>(
            (store.len() + gap) as u64,
        ),
        ({
            let out = overlay(store, store.len() + gap, data);
            &&& out.len() == store.len() + gap + data.len()
            &&& out.take(store.len() as int) == store
            &&& forall|i: int| store.len() <= i < store.len() + gap ==> out[i] == 0
            &&& out.skip(store.len() + gap) == data
        }),
{
    let out = overlay(store, store.len() + gap, data);
}

/// A seek relative to the end succeeds exactly when it does not lead before
/// the start; one byte before the start of an empty stream is refused as
/// invalid input.
pub proof fn law_seek_from_end(offset: u64, extent: nat, n: i64)
    requires
        extent <= i64::MAX,
    ensures
        seek_outcome(offset, extent, SeekPos::FromEnd(n)) is Ok <==> n >= -extent,
        n >= -extent ==> seek_outcome(offset, extent, SeekPos::FromEnd(n)) == Ok::<
            u64,
            super::Error,
        >((extent + n) as u64),
        seek_outcome(offset, 0, SeekPos::FromEnd(-1i64)) matches Err(e) && e.kind
            == ErrorKind::InvalidInput,
{
}

/// Whatever is read from a bounded source, in however many reads, is no
/// more than its quota.
pub proof fn law_take_within_quota<T: Read>(t: Take<T>, data: Seq<u8>, after: Stream)
    requires
        t.pending().yields(data, after),
    ensures
        data.len() <= t.limit(),
{
    t.inner().pending().lemma_capped_length(t.limit() as nat);
}

/// A bounded source over an endless repetition of one byte yields exactly
/// its quota of that byte: what is read from it until its end, in however
/// many reads, is the byte `limit` times.
pub proof fn law_take_of_repeat(t: Take<Repeat>, data: Seq<u8>, after: Stream)
    requires
        t.pending().yields(data, after),
        after.at_end(),
    ensures
        t.pending() == Stream::Finite(Seq::new(t.limit() as nat, |i: int| t.inner().byte())),
        data == Seq::new(t.limit() as nat, |i: int| t.inner().byte()),
{
    let byte = t.inner().byte();
    let whole = Seq::new(t.limit() as nat, |i: int| byte);
    assert(t.inner().pending().prefix(t.limit() as nat) =~= whole);
}

/// A read from a bounded source over an endless repetition of one byte
/// delivers as many bytes as the buffer has room for, but no more than the
/// quota.
pub proof fn law_take_of_repeat_delivers(t: Take<Repeat>, cap: nat)
    ensures
        t.delivers(cap) == Some(least(cap, t.limit() as nat)),
{
}

/// A chain of two finite sources has left what the first has left, followed
/// by what the second has left; what is read from it until its end, in
/// however many reads, is the one followed by the other.
pub proof fn law_chain_joins<T: Read, U: Read>(
    c: Chain<T, U>,
    a: Seq<u8>,
    b: Seq<u8>,
    data: Seq<u8>,
    after: Stream,
)
    requires
        !c.done_first(),
        c.first().pending() == Stream::Finite(a),
        c.second().pending() == Stream::Finite(b),
        c.pending().yields(data, after),
        after.at_end(),
    ensures
        c.pending() == Stream::Finite(a + b),
        data == a + b,
{
}

/// Two growable cursors that hold the same and stand at the same place still
/// do so after a broadcast has written to both: some bytes, or none while
/// the cursors stand within their stores.
pub proof fn law_broadcast_keeps_cursors_alike(
    before: Broadcast<Cursor<Vec<u8>>, Cursor<Vec<u8>>>,
    data: Seq<u8>,
    after: Broadcast<Cursor<Vec<u8>>, Cursor<Vec<u8>>>,
)
    requires
        before.first().get_ref()@ == before.second().get_ref()@,
        before.first().position() == before.second().position(),
        before.took(data, &after),
        data.len() > 0 || before.first().position() <= before.first().get_ref()@.len(),
    ensures
        after.first().get_ref()@ == after.second().get_ref()@,
        after.first().position() == after.second().position(),
{
    let store = before.first().get_ref()@;
    if data.len() == 0 {
    }
}

} // verus!
