//! A buffer that packs records into frames of bounded size.
//!
//! The writer does no I/O itself: each call that closes a frame hands the
//! frame's bytes back, and the caller sends them to its sink in that order.
use crate::event::Event;
use crate::frame::{
    concat, decode_frames, encode_frame, frame_of, frames_of, lemma_concat_push,
    lemma_decode_frames_of, lemma_le_round_trip, le_value,
};
use vstd::arithmetic::div_mod::{lemma_fundamental_div_mod, lemma_mod_pos_bound};
use crate::record::{BinaryBid, UnsupportedVariant};
use vstd::prelude::*;

verus! {

/// Why a record could not be buffered.
#[derive(Clone, Copy, Debug, PartialEq, Eq, Structural)]
pub enum WriteError {
    /// Only bid events have a binary record.
    UnsupportedVariant,
    /// The record is not smaller than the buffer, so no frame can hold it.
    RecordTooLarge,
}

/// A record of `rec` bytes joins the pending ones without a flush exactly when
/// the total stays strictly below the capacity.
pub open spec fn accepts(capacity: nat, pending: Seq<u8>, rec: Seq<u8>) -> bool {
    pending.len() + rec.len() < capacity
}

/// The pending bytes after writing `rec`: appended, or alone after a flush.
pub open spec fn pending_after_write(capacity: nat, pending: Seq<u8>, rec: Seq<u8>) -> Seq<u8> {
    if accepts(capacity, pending, rec) {
        pending + rec
    } else {
        rec
    }
}

/// The pending bytes and the payloads flushed, in order, after writing each of
/// `recs` in turn, starting from `pending`.
pub open spec fn write_all(capacity: nat, pending: Seq<u8>, recs: Seq<Seq<u8>>) -> (Seq<
    u8,
>, Seq<Seq<u8>>)
    decreases recs.len(),
{
    if recs.len() == 0 {
        (pending, Seq::empty())
    } else {
        let (p, flushed) = write_all(capacity, pending, recs.drop_last());
        let rec = recs.last();
        if accepts(capacity, p, rec) {
            (p + rec, flushed)
        } else {
            (rec, flushed.push(p))
        }
    }
}

/// The payloads that a flush sends: the pending bytes, if there are any.
pub open spec fn flushed_payloads(pending: Seq<u8>) -> Seq<Seq<u8>> {
    if pending.len() == 0 {
        Seq::empty()
    } else {
        seq![pending]
    }
}

/// A fixed-capacity buffer of record bytes and the cursor that marks how many
/// of them are in use.
pub struct BinaryWriter {
    buffer: Vec<u8>,
    current: usize,
}

impl BinaryWriter {
    pub closed spec fn wf(&self) -> bool {
        self.current <= self.buffer@.len()
    }

    /// The capacity chosen at construction.
    pub closed spec fn capacity(&self) -> nat {
        self.buffer@.len()
    }

    /// The record bytes written since the last flush.
    pub closed spec fn pending(&self) -> Seq<u8> {
        self.buffer@.subrange(0, self.current as int)
    }

    /// What writing `rec` did: `r` and the new state `post` follow from the old
    /// state `pre` as `pending_after_write` says, with the frame of the old
    /// pending bytes handed back when they were flushed.
    pub open spec fn write_outcome(
        pre: BinaryWriter,
        post: BinaryWriter,
        rec: Seq<u8>,
        r: Result<Option<Vec<u8>>, WriteError>,
    ) -> bool {
        &&& post.wf()
        &&& post.capacity() == pre.capacity()
        &&& if rec.len() < pre.capacity() {
            &&& post.pending() == pending_after_write(pre.capacity(), pre.pending(), rec)
            &&& match r {
                Ok(None) => accepts(pre.capacity(), pre.pending(), rec),
                Ok(Some(f)) => !accepts(pre.capacity(), pre.pending(), rec) && f@ == frame_of(
                    pre.pending(),
                ),
                Err(_) => false,
            }
        } else {
            &&& post.pending() == pre.pending()
            &&& r == Err::<Option<Vec<u8>>, WriteError>(WriteError::RecordTooLarge)
        }
    }

    /// What a flush did: the buffer `post` is empty, and `r` is the frame of the
    /// pending bytes of `pre`, or `None` when there were none.
    pub open spec fn flush_outcome(pre: BinaryWriter, post: BinaryWriter, r: Option<Vec<u8>>) -> bool {
        &&& post.wf()
        &&& post.capacity() == pre.capacity()
        &&& post.pending() == Seq::<u8>::empty()
        &&& match r {
            None => pre.pending().len() == 0,
            Some(f) => pre.pending().len() > 0 && f@ == frame_of(pre.pending()),
        }
    }

    /// An empty writer whose buffer holds `buffer_size` bytes.
    pub fn new(buffer_size: u64) -> (r: Self)
        requires
            buffer_size <= usize::MAX,
        ensures
            r.wf(),
            r.capacity() == buffer_size,
            r.pending() == Seq::<u8>::empty(),
    {
        let r = BinaryWriter { buffer: vec![0u8; buffer_size as usize], current: 0 };
        assert(r.pending() =~= Seq::<u8>::empty());
        r
    }

    /// Ends the current frame. With bytes pending, returns their frame and
    /// empties the buffer; with none, does nothing and returns `None`.
    pub fn flush(&mut self) -> (r: Option<Vec<u8>>)
        requires
            old(self).wf(),
        ensures
            BinaryWriter::flush_outcome(*old(self), *final(self), r),
    {
        if self.current == 0 {
            assert(self.pending() =~= Seq::<u8>::empty());
            return None;
        }
        let f = encode_frame(&self.buffer, self.current);
        self.current = 0;
        assert(self.pending() =~= Seq::<u8>::empty());
        Some(f)
    }

    /// Buffers the bytes of one record. When they do not fit beside the pending
    /// bytes, those are flushed first and their frame is returned. A record not
    /// smaller than the capacity is refused.
    pub fn write_bytes(&mut self, record: &[u8]) -> (r: Result<Option<Vec<u8>>, WriteError>)
        requires
            old(self).wf(),
        ensures
            BinaryWriter::write_outcome(*old(self), *final(self), record@, r),
    {
        let len = record.len();
        if len >= self.buffer.len() {
            return Err(WriteError::RecordTooLarge);
        }
        let mut frame: Option<Vec<u8>> = None;
        if self.current >= self.buffer.len() - len {
            frame = self.flush();
            assert(self.pending().len() == 0);
        }
        let ghost before = self.pending();
        let start = self.current;
        let cap = self.buffer.len();
        let mut i: usize = 0;
        while i < len
            invariant
                self.wf(),
                start + len < cap == self.buffer@.len(),
                self.current == start,
                i <= len == record@.len(),
                self.buffer@.subrange(0, start as int) == before,
                self.buffer@.subrange(start as int, start + i) == record@.subrange(0, i as int),
            decreases len - i,
        {
            let ghost prev = self.buffer@;
            self.buffer[start + i] = record[i];
            assert(self.buffer@.subrange(0, start as int) =~= prev.subrange(0, start as int));
            assert(self.buffer@.subrange(start as int, start + i + 1) =~= prev.subrange(
                start as int,
                start + i,
            ).push(record@[i as int]));
            i += 1;
            assert(record@.subrange(0, i as int) =~= record@.subrange(0, i - 1).push(
                record@[i - 1],
            ));
        }
        assert(self.buffer@.subrange(0, start + len) =~= self.buffer@.subrange(0, start as int)
            + self.buffer@.subrange(start as int, start + len));
        assert(record@.subrange(0, len as int) =~= record@);
        self.current = start + len;
        assert(self.pending() =~= before + record@);
        Ok(frame)
    }

    /// Buffers the record of a bid, as `write_bytes` does with its bytes.
    pub fn write_buffer(&mut self, bid: &BinaryBid) -> (r: Result<Option<Vec<u8>>, WriteError>)
        requires
            old(self).wf(),
        ensures
            exists|rec: Seq<u8>|
                bid.is_image(rec) && BinaryWriter::write_outcome(
                    *old(self),
                    *final(self),
                    rec,
                    r,
                ),
    {
        let bytes = bid.to_bytes();
        let r = self.write_bytes(bytes.as_slice());
        assert(bid.is_image(bytes@));
        r
    }

    /// The binary path for one event: a bid is buffered as `write_buffer` does;
    /// any other event is refused and changes nothing.
    pub fn write_event(&mut self, event: &Event) -> (r: Result<Option<Vec<u8>>, WriteError>)
        requires
            old(self).wf(),
        ensures
            match event {
                Event::Bid(b) => exists|rec: Seq<u8>|
                    BinaryBid::of_bid(*b).is_image(rec) && BinaryWriter::write_outcome(
                        *old(self),
                        *final(self),
                        rec,
                        r,
                    ),
                _ => r == Err::<Option<Vec<u8>>, WriteError>(WriteError::UnsupportedVariant)
                    && *final(self) == *old(self),
            },
    {
        match BinaryBid::try_from_event(event) {
            Ok(bid) => self.write_buffer(&bid),
            Err(UnsupportedVariant) => Err(WriteError::UnsupportedVariant),
        }
    }
}

/// One write follows the model: when the writer holds what `write_all` leaves
/// after `recs`, writing `rec` leaves what it leaves after `recs` then `rec`,
/// and the frame returned, if any, carries the payload that this adds to the
/// flushed ones.
pub proof fn lemma_write_follows_model(
    pre: BinaryWriter,
    post: BinaryWriter,
    rec: Seq<u8>,
    r: Result<Option<Vec<u8>>, WriteError>,
    recs: Seq<Seq<u8>>,
)
    requires
        pre.pending() == write_all(pre.capacity(), Seq::empty(), recs).0,
        BinaryWriter::write_outcome(pre, post, rec, r),
        rec.len() < pre.capacity(),
    ensures
        ({
            let (pending_before, flushed_before) = write_all(pre.capacity(), Seq::empty(), recs);
            let (pending_after, flushed_after) = write_all(pre.capacity(), Seq::empty(), recs.push(rec));
            &&& post.pending() == pending_after
            &&& match r {
                Ok(None) => flushed_after == flushed_before,
                Ok(Some(f)) => flushed_after == flushed_before.push(pending_before) && f@ == frame_of(pending_before),
                Err(_) => false,
            }
        }),
{
    assert(recs.push(rec).drop_last() =~= recs);
}

/// The bytes sent for `recs` by a writer of the given capacity: each record
/// written in order from an empty buffer, then one flush.
pub open spec fn stream_for(capacity: nat, recs: Seq<Seq<u8>>) -> Seq<u8> {
    let (p, flushed) = write_all(capacity, Seq::empty(), recs);
    frames_of(flushed + flushed_payloads(p))
}

proof fn lemma_write_all(capacity: nat, pending: Seq<u8>, recs: Seq<Seq<u8>>)
    requires
        pending.len() <= capacity,
        forall|i: int| 0 <= i < recs.len() ==> (#[trigger] recs[i]).len() < capacity,
    ensures
        ({
            let (p, flushed) = write_all(capacity, pending, recs);
            &&& concat(flushed) + p == pending + concat(recs)
            &&& p.len() <= capacity
            &&& forall|i: int| 0 <= i < flushed.len() ==> (#[trigger] flushed[i]).len() <= capacity
        }),
    decreases recs.len(),
{
    if recs.len() == 0 {
        assert(pending + concat(recs) =~= pending);
        assert(concat(Seq::<Seq<u8>>::empty()) + pending =~= pending);
    } else {
        let init = recs.drop_last();
        let rec = recs.last();
        assert forall|i: int| 0 <= i < init.len() implies (#[trigger] init[i]).len() < capacity by {
            assert(init[i] == recs[i]);
        }
        lemma_write_all(capacity, pending, init);
        let (p, flushed) = write_all(capacity, pending, init);
        assert(init.push(rec) =~= recs);
        lemma_concat_push(init, rec);
        assert(pending + concat(recs) =~= (pending + concat(init)) + rec);
        if accepts(capacity, p, rec) {
            assert(concat(flushed) + (p + rec) =~= (concat(flushed) + p) + rec);
        } else {
            lemma_concat_push(flushed, p);
            assert(concat(flushed.push(p)) + rec =~= (concat(flushed) + p) + rec);
            let fl2 = flushed.push(p);
            assert forall|i: int| 0 <= i < fl2.len() implies (#[trigger] fl2[i]).len() <= capacity by {
                if i < flushed.len() {
                    assert(fl2[i] == flushed[i]);
                }
            }
        }
    }
}

/// Round trip: whatever records are written (each smaller than the
/// capacity), decoding the frames sent, with the closing flush, gives back
/// all their bytes in the order written.
pub proof fn law_round_trip(capacity: nat, recs: Seq<Seq<u8>>)
    requires
        capacity <= u64::MAX,
        forall|i: int| 0 <= i < recs.len() ==> (#[trigger] recs[i]).len() < capacity,
    ensures
        decode_frames(stream_for(capacity, recs)) == concat(recs),
{
    lemma_write_all(capacity, Seq::empty(), recs);
    let (p, flushed) = write_all(capacity, Seq::empty(), recs);
    let all = flushed + flushed_payloads(p);
    assert forall|i: int| 0 <= i < all.len() implies (#[trigger] all[i]).len() <= u64::MAX by {
        if i < flushed.len() {
            assert(all[i] == flushed[i]);
        }
    }
    lemma_decode_frames_of(all);
    if p.len() == 0 {
        assert(all =~= flushed);
        assert(concat(flushed) + p =~= concat(flushed));
    } else {
        assert(all =~= flushed.push(p));
        lemma_concat_push(flushed, p);
    }
    assert(Seq::<u8>::empty() + concat(recs) =~= concat(recs));
}

proof fn lemma_below_threshold(capacity: nat, size: nat, recs: Seq<Seq<u8>>)
    requires
        0 < size < capacity,
        forall|i: int| 0 <= i < recs.len() ==> (#[trigger] recs[i]).len() == size,
        recs.len() <= (capacity - 1) / size as int,
    ensures
        write_all(capacity, Seq::empty(), recs).1.len() == 0,
        write_all(capacity, Seq::empty(), recs).0 == concat(recs),
        concat(recs).len() == recs.len() * size,
    decreases recs.len(),
{
    if recs.len() > 0 {
        let init = recs.drop_last();
        let rec = recs.last();
        assert forall|i: int| 0 <= i < init.len() implies (#[trigger] init[i]).len() == size by {
            assert(init[i] == recs[i]);
        }
        lemma_below_threshold(capacity, size, init);
        assert(init.push(rec) =~= recs);
        lemma_concat_push(init, rec);
        let q = (capacity - 1) / size as int;
        let k = recs.len() as int;
        lemma_fundamental_div_mod(capacity - 1, size as int);
        lemma_mod_pos_bound(capacity - 1, size as int);
        assert(k * size <= q * size) by (nonlinear_arith)
            requires
                k <= q,
                size > 0,
        ;
        assert((k - 1) * size + size == k * size) by (nonlinear_arith);
    }
}

/// Flush threshold: with records of `size` bytes, the first
/// `(capacity - 1) / size` writes into an empty buffer flush nothing, and the
/// next one flushes exactly once, the bytes written before it, and leaves its
/// own record alone in the buffer.
pub proof fn law_flush_threshold(capacity: nat, size: nat, recs: Seq<Seq<u8>>)
    requires
        0 < size < capacity,
        forall|i: int| 0 <= i < recs.len() ==> (#[trigger] recs[i]).len() == size,
    ensures
        recs.len() <= (capacity - 1) / size as int ==> write_all(
            capacity,
            Seq::empty(),
            recs,
        ).1.len() == 0,
        recs.len() == (capacity - 1) / size as int + 1 ==> write_all(capacity, Seq::empty(), recs)
            == (recs.last(), seq![concat(recs.drop_last())]),
{
    let q = (capacity - 1) / size as int;
    if recs.len() <= q {
        lemma_below_threshold(capacity, size, recs);
    } else if recs.len() == q + 1 {
        let init = recs.drop_last();
        assert forall|i: int| 0 <= i < init.len() implies (#[trigger] init[i]).len() == size by {
            assert(init[i] == recs[i]);
        }
        lemma_below_threshold(capacity, size, init);
        lemma_fundamental_div_mod(capacity - 1, size as int);
        lemma_mod_pos_bound(capacity - 1, size as int);
        assert(q * size + size == (q + 1) * size) by (nonlinear_arith);
        assert(Seq::<Seq<u8>>::empty().push(concat(init)) =~= seq![concat(init)]);
    }
}

/// Idempotent flush: right after a flush, a second flush sends nothing and
/// changes nothing.
pub proof fn law_flush_idempotent(
    pre: BinaryWriter,
    mid: BinaryWriter,
    post: BinaryWriter,
    r1: Option<Vec<u8>>,
    r2: Option<Vec<u8>>,
)
    requires
        BinaryWriter::flush_outcome(pre, mid, r1),
        BinaryWriter::flush_outcome(mid, post, r2),
    ensures
        r2 is None,
        post.pending() == mid.pending(),
        post.capacity() == mid.capacity(),
{
}

/// Length header: the header of a frame reads as the number of payload bytes
/// that follow it.
pub proof fn law_length_header(payload: Seq<u8>)
    requires
        payload.len() <= u64::MAX,
    ensures
        frame_of(payload).len() == 8 + payload.len(),
        le_value(frame_of(payload)) == payload.len(),
        frame_of(payload).subrange(8, frame_of(payload).len() as int) == payload,
{
    lemma_le_round_trip(payload.len() as u64);
    let f = frame_of(payload);
    assert(f.subrange(8, f.len() as int) =~= payload);
    assert(le_value(f) == le_value(f.subrange(0, 8)));
    assert(f.subrange(0, 8) =~= crate::frame::le_bytes(payload.len() as u64));
}

} // verus!
