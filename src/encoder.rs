use vstd::prelude::*;
use vstd::slice::slice_to_vec;
use vstd::bytes::spec_u64_to_le_bytes;
use crate::model::{blob_area, lemma_area_prefix, all_deferred, inline_frame, EncoderModel, INLINE_LIMIT, FRAME_LEN, INLINE_TAG};
use crate::scalar::Serializable;
use crate::sink::write_all_to;

verus! {

/// The encoder of one serialization session. It owns its sink, writes
/// scalars and blob frames to it as they come, and holds the payloads of
/// long blobs back until `flush_blobs` writes them as the blob area.
pub struct SerializerState<W> {
    writer: W,
    blobs: Vec<Vec<u8>>,
    blobs_total_len: u64,
    finalized: bool,
    written: Ghost<Seq<u8>>,
}

impl<W> View for SerializerState<W> {
    type V = EncoderModel;

    /// `written` holds the bytes that the sink accepted, in order.
    closed spec fn view(&self) -> EncoderModel {
        EncoderModel {
            written: self.written@,
            pending: self.blobs@.map_values(|b: Vec<u8>| b@),
            finalized: self.finalized,
        }
    }
}

impl<W> SerializerState<W> {
    /// The running length of the blob area matches the deferred blobs, and
    /// every deferred blob is one that took the reference path.
    pub closed spec fn inv(&self) -> bool {
        &&& self.blobs_total_len == self@.area_len()
        &&& all_deferred(self@.pending)
    }

    /// A fresh encoder around `writer`.
    pub fn new(writer: W) -> (r: Self)
        ensures
            r.inv(),
            r@ == EncoderModel::fresh(),
    {
        let r = SerializerState {
            writer,
            blobs: Vec::new(),
            blobs_total_len: 0,
            finalized: false,
            written: Ghost(Seq::empty()),
        };
        assert(r@.pending =~= Seq::<Seq<u8>>::empty());
        r
    }

    /// Gives the sink back, ending the session.
    pub fn into_inner(self) -> W {
        self.writer
    }

    /// The length of the blob area so far.
    pub fn blob_area_length(&self) -> (r: u64)
        requires
            self.inv(),
        ensures
            r == self@.area_len(),
    {
        self.blobs_total_len
    }

    /// Whether `flush_blobs` has been called.
    pub fn is_finalized(&self) -> (r: bool)
        ensures
            r == self@.finalized,
    {
        self.finalized
    }
}

impl<W: std::io::Write> SerializerState<W> {
    /// Writes `blob` to the sink verbatim, with no framing.
    pub fn add_fixed_blob(&mut self, blob: &[u8]) -> (r: Result<(), std::io::Error>)
        requires
            old(self).inv(),
            !old(self)@.finalized,
        ensures
            final(self).inv(),
            r is Ok ==> final(self)@ == old(self)@.with_fixed(blob@),
            r is Err ==> final(self)@ == old(self)@,
    {
        let r = write_all_to(&mut self.writer, blob);
        if r.is_ok() {
            self.written = Ghost(self.written@ + blob@);
        }
        r
    }

    /// Encodes `blob` as a 16-byte frame. A blob shorter than 16 bytes is
    /// framed inline: its length tagged with the high bit, its bytes, then
    /// zeros. A longer one is appended to the blob area, and the frame is its
    /// offset there and its length, each a `u64`.
    ///
    /// On a sink failure the blob stays deferred and the frame may be cut
    /// short: the session is then lost.
    pub fn add_var_blob(&mut self, blob: &[u8]) -> (r: Result<(), std::io::Error>)
        requires
            old(self).inv(),
            !old(self)@.finalized,
            old(self)@.var_fits(blob@.len()),
        ensures
            final(self).inv(),
            r is Ok ==> final(self)@ == old(self)@.with_var(blob@),
            r is Err ==> old(self)@.stopped_toward(final(self)@, old(self)@.with_var(blob@)),
    {
        let current_len: usize = blob.len();
        if current_len < INLINE_LIMIT {
            let mut buf: Vec<u8> = Vec::with_capacity(FRAME_LEN);
            buf.push((current_len as u8) | INLINE_TAG);
            let mut i: usize = 0;
            while i < current_len
                invariant
                    i <= current_len,
                    current_len == blob@.len(),
                    buf@ == seq![(current_len as u8) | INLINE_TAG] + blob@.take(i as int),
                decreases current_len - i,
            {
                buf.push(blob[i]);
                assert(blob@.take(i + 1) =~= blob@.take(i as int).push(blob@[i as int]));
                i += 1;
            }
            assert(blob@.take(current_len as int) =~= blob@);
            while buf.len() < FRAME_LEN
                invariant
                    current_len < INLINE_LIMIT,
                    current_len == blob@.len(),
                    1 + current_len <= buf.len() <= FRAME_LEN,
                    buf@ == seq![(current_len as u8) | INLINE_TAG] + blob@
                        + Seq::new((buf.len() - 1 - current_len) as nat, |_i: int| 0u8),
                decreases FRAME_LEN - buf.len(),
            {
                let ghost zeros = Seq::new((buf.len() - 1 - current_len) as nat, |_i: int| 0u8);
                buf.push(0u8);
                assert(zeros.push(0u8) =~= Seq::new((buf.len() - 1 - current_len) as nat, |_i: int| 0u8));
            }
            assert(buf@ =~= inline_frame(blob@));
            self.add_fixed_blob(buf.as_slice())
        } else {
            let ghost start = self@;
            let current_pos: u64 = self.blobs_total_len;
            let current_len: u64 = current_len as u64;
            self.blobs_total_len = current_pos + current_len;
            self.blobs.push(slice_to_vec(blob));
            proof {
                let pending = start.pending.push(blob@);
                assert(self@.pending =~= pending);
                assert(pending.drop_last() =~= start.pending);
                assert(self.inv());
            }
            let ghost mid = self@;
            let r = current_pos.write_serialized(self);
            if r.is_err() {
                return r;
            }
            let r = current_len.write_serialized(self);
            assert(start.with_var(blob@).written =~= mid.written + spec_u64_to_le_bytes(current_pos) + spec_u64_to_le_bytes(current_len));
            r
        }
    }

    /// Ends the session: writes the blob area's length as a `u64`, then every
    /// deferred blob in the order it was added. No blob may be added after,
    /// nor may it be called twice.
    pub fn flush_blobs(&mut self) -> (r: Result<(), std::io::Error>)
        requires
            old(self).inv(),
            !old(self)@.finalized,
        ensures
            final(self).inv(),
            r is Ok ==> final(self)@ == old(self)@.flushed(),
            r is Err ==> old(self)@.stopped_toward(final(self)@, old(self)@.flushed()),
    {
        let ghost start = self@;
        let total: u64 = self.blobs_total_len;
        assert(start.trailer() == spec_u64_to_le_bytes(total) + blob_area(start.pending));
        let r = total.write_serialized(self);
        self.finalized = true;
        if r.is_err() {
            return r;
        }
        let n: usize = self.blobs.len();
        let mut i: usize = 0;
        while i < n
            invariant
                self.inv(),
                self.finalized,
                n == self.blobs@.len(),
                0 <= i <= n,
                self@.pending == start.pending,
                start == old(self)@,
                start.flushed().written == start.written + (spec_u64_to_le_bytes(total)
                    + blob_area(start.pending)),
                self@.written == start.written + spec_u64_to_le_bytes(total)
                    + blob_area(start.pending.take(i as int)),
            decreases n - i,
        {
            let r = write_all_to(&mut self.writer, self.blobs[i].as_slice());
            if r.is_err() {
                proof {
                    let head = start.written + spec_u64_to_le_bytes(total);
                    let part = blob_area(start.pending.take(i as int));
                    let whole = blob_area(start.pending);
                    lemma_area_prefix(start.pending, i as int);
                    assert(head + whole =~= start.flushed().written);
                    assert((head + whole).subrange(0, (head + part).len() as int) =~= head + part);
                    assert((head + part).subrange(0, start.written.len() as int) =~= start.written);
                }
                return r;
            }
            self.written = Ghost(self.written@ + self.blobs@[i as int]@);
            proof {
                assert(start.pending.take(i + 1).drop_last() =~= start.pending.take(i as int));
            }
            i += 1;
        }
        assert(start.pending.take(n as int) =~= start.pending);
        assert(self@.written =~= start.flushed().written);
        Ok(())
    }
}

} // verus!
