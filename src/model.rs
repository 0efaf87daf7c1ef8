use vstd::prelude::*;
use vstd::bytes::{spec_u64_to_le_bytes, spec_u64_from_le_bytes, lemma_auto_spec_u64_to_from_le_bytes};

verus! {

/// Blobs shorter than this are framed inline; longer ones are deferred.
pub const INLINE_LIMIT: usize = 16;

/// Every blob frame, inline or reference, takes this many bytes.
pub const FRAME_LEN: usize = 16;

/// The tag bit set in the first byte of every inline frame.
pub const INLINE_TAG: u8 = 0x80;

/// The concatenation of the deferred blobs, in the order they were added.
pub open spec fn blob_area(pending: Seq<Seq<u8>>) -> Seq<u8>
    decreases pending.len(),
{
    if pending.len() == 0 {
        Seq::empty()
    } else {
        blob_area(pending.drop_last()) + pending.last()
    }
}

/// The blob area of the first `k` deferred blobs is a prefix of the whole.
pub proof fn lemma_area_prefix(pending: Seq<Seq<u8>>, k: int)
    requires
        0 <= k <= pending.len(),
    ensures
        blob_area(pending.take(k)).is_prefix_of(blob_area(pending)),
    decreases pending.len() - k,
{
    if k < pending.len() {
        lemma_area_prefix(pending, k + 1);
        assert(pending.take(k + 1).drop_last() =~= pending.take(k));
    } else {
        assert(pending.take(k) =~= pending);
    }
}

/// Where the `k`-th deferred blob starts inside the blob area.
pub open spec fn blob_offset(pending: Seq<Seq<u8>>, k: int) -> nat {
    blob_area(pending.take(k)).len()
}

/// Every deferred blob took the reference path, so none is short.
pub open spec fn all_deferred(pending: Seq<Seq<u8>>) -> bool {
    forall|k: int| 0 <= k < pending.len() ==> #[trigger] pending[k].len() >= INLINE_LIMIT
}

/// The 16-byte inline frame of a short blob: the tagged length, the bytes,
/// then zeros.
pub open spec fn inline_frame(b: Seq<u8>) -> Seq<u8> {
    seq![(b.len() as u8) | INLINE_TAG] + b + Seq::new((15 - b.len()) as nat, |_i: int| 0u8)
}

/// The 16-byte reference frame of a deferred blob: its offset in the blob
/// area, then its length, each as a little-endian `u64`.
pub open spec fn reference_frame(offset: u64, len: u64) -> Seq<u8> {
    spec_u64_to_le_bytes(offset) + spec_u64_to_le_bytes(len)
}

/// What an encoder has done so far: the bytes it handed to its sink, the
/// blobs it holds back for the blob area, and whether it was finalized.
pub struct EncoderModel {
    pub written: Seq<u8>,
    pub pending: Seq<Seq<u8>>,
    pub finalized: bool,
}

impl EncoderModel {
    /// The model of a new encoder.
    pub open spec fn fresh() -> EncoderModel {
        EncoderModel { written: Seq::empty(), pending: Seq::empty(), finalized: false }
    }

    /// The length of the blob area so far.
    pub open spec fn area_len(self) -> nat {
        blob_area(self.pending).len()
    }

    /// A blob of `len` bytes can be added without the blob area's length
    /// leaving `u64`.
    pub open spec fn var_fits(self, len: nat) -> bool {
        len < INLINE_LIMIT || self.area_len() + len <= u64::MAX
    }

    /// After writing `b` verbatim.
    pub open spec fn with_fixed(self, b: Seq<u8>) -> EncoderModel {
        EncoderModel { written: self.written + b, ..self }
    }

    /// The frame that `add_var_blob` writes for `b` in this state.
    pub open spec fn var_frame(self, b: Seq<u8>) -> Seq<u8> {
        if b.len() < INLINE_LIMIT {
            inline_frame(b)
        } else {
            reference_frame(self.area_len() as u64, b.len() as u64)
        }
    }

    /// After adding `b` with `add_var_blob`.
    pub open spec fn with_var(self, b: Seq<u8>) -> EncoderModel {
        EncoderModel {
            written: self.written + self.var_frame(b),
            pending: if b.len() < INLINE_LIMIT {
                self.pending
            } else {
                self.pending.push(b)
            },
            ..self
        }
    }

    /// The trailer: the blob area's length, then the blob area.
    pub open spec fn trailer(self) -> Seq<u8> {
        spec_u64_to_le_bytes(self.area_len() as u64) + blob_area(self.pending)
    }

    /// After `flush_blobs`.
    pub open spec fn flushed(self) -> EncoderModel {
        EncoderModel { written: self.written + self.trailer(), finalized: true, ..self }
    }

    /// The state an operation leaves behind when the sink fails part way,
    /// starting from `self` on its way to `target`: its own state changes are
    /// kept, and the bytes handed to the sink lie between the two.
    pub open spec fn stopped_toward(self, now: EncoderModel, target: EncoderModel) -> bool {
        &&& now.pending == target.pending
        &&& now.finalized == target.finalized
        &&& self.written.is_prefix_of(now.written)
        &&& now.written.is_prefix_of(target.written)
    }
}

/// Adding one more deferred blob extends the blob area by exactly its bytes.
pub proof fn lemma_area_step(pending: Seq<Seq<u8>>, k: int)
    requires
        0 <= k < pending.len(),
    ensures
        blob_area(pending.take(k + 1)) == blob_area(pending.take(k)) + pending[k],
        blob_offset(pending, k + 1) == blob_offset(pending, k) + pending[k].len(),
{
    assert(pending.take(k + 1).drop_last() =~= pending.take(k));
}

/// Each deferred blob sits in the blob area at its offset.
pub proof fn lemma_blob_at_offset(pending: Seq<Seq<u8>>, k: int)
    requires
        0 <= k < pending.len(),
    ensures
        blob_offset(pending, k) + pending[k].len() <= blob_area(pending).len(),
        blob_area(pending).subrange(
            blob_offset(pending, k) as int,
            (blob_offset(pending, k) + pending[k].len()) as int,
        ) == pending[k],
{
    lemma_area_step(pending, k);
    lemma_area_prefix(pending, k + 1);
    let head = blob_area(pending.take(k));
    let whole = blob_area(pending);
    assert(whole.subrange(0, (head.len() + pending[k].len()) as int) =~= head + pending[k]);
    let pre = whole.subrange(0, (head.len() + pending[k].len()) as int);
    assert forall|i: int| 0 <= i < pending[k].len() implies whole[head.len() + i] == pending[k][i] by {
        assert(pre[head.len() + i] == whole[head.len() + i]);
        assert((head + pending[k])[head.len() + i] == pending[k][i]);
    }
    assert(whole.subrange(head.len() as int, (head.len() + pending[k].len()) as int) =~= pending[k]);
}

/// Offsets never decrease along the deferred blobs.
pub proof fn lemma_offset_monotone(pending: Seq<Seq<u8>>, i: int, j: int)
    requires
        0 <= i <= j <= pending.len(),
    ensures
        blob_offset(pending, i) <= blob_offset(pending, j),
{
    lemma_area_prefix(pending.take(j), i);
    assert(pending.take(j).take(i) =~= pending.take(i));
}

/// The deferred blobs lie in the blob area in the order they were added,
/// at strictly increasing offsets, and none overlaps the next.
pub proof fn lemma_offsets_ordered(pending: Seq<Seq<u8>>, i: int, j: int)
    requires
        all_deferred(pending),
        0 <= i < j < pending.len(),
    ensures
        blob_offset(pending, i) < blob_offset(pending, j),
        blob_offset(pending, i) + pending[i].len() <= blob_offset(pending, j),
        blob_area(pending).subrange(
            blob_offset(pending, i) as int,
            (blob_offset(pending, i) + pending[i].len()) as int,
        ) == pending[i],
        blob_area(pending).subrange(
            blob_offset(pending, j) as int,
            (blob_offset(pending, j) + pending[j].len()) as int,
        ) == pending[j],
{
    assert(pending[i].len() >= INLINE_LIMIT);
    lemma_area_step(pending, i);
    lemma_offset_monotone(pending, i + 1, j);
    lemma_blob_at_offset(pending, i);
    lemma_blob_at_offset(pending, j);
}

/// A blob shorter than 16 bytes is written as one 16-byte frame whose first
/// byte carries the tag bit and, in its low seven bits, the length, and
/// whose next bytes are the blob itself; nothing is deferred.
pub proof fn lemma_short_blob_frame(m: EncoderModel, b: Seq<u8>)
    requires
        b.len() < INLINE_LIMIT,
    ensures
        ({
            let w = m.written.len() as int;
            let out = m.with_var(b).written;
            &&& out.len() == w + FRAME_LEN
            &&& out.subrange(0, w) == m.written
            &&& out[w] & 0x7f == b.len()
            &&& out[w] & INLINE_TAG == INLINE_TAG
            &&& out.subrange(w + 1, w + 1 + b.len()) == b
            &&& m.with_var(b).pending == m.pending
        }),
{
    let w = m.written.len() as int;
    let out = m.with_var(b).written;
    let n = b.len() as u8;
    assert(n & 0x7f == n && (n | 0x80) & 0x7f == n && (n | 0x80) & 0x80 == 0x80) by (bit_vector)
        requires
            n < 16,
    ;
    assert(out[w] == n | INLINE_TAG);
    assert(out.subrange(0, w) =~= m.written);
    assert(out.subrange(w + 1, w + 1 + b.len()) =~= b);
}

/// A blob of 16 bytes or more is written as a 16-byte frame that holds an
/// offset and a length; in the trailer of any later state (more blobs added
/// after it), the blob-area bytes at that offset, for that length, are the
/// blob itself.
pub proof fn lemma_long_blob_resolves(m: EncoderModel, b: Seq<u8>, later: EncoderModel)
    requires
        b.len() >= INLINE_LIMIT,
        m.var_fits(b.len()),
        m.with_var(b).pending.is_prefix_of(later.pending),
    ensures
        ({
            let w = m.written.len() as int;
            let out = m.with_var(b).written;
            let offset = spec_u64_from_le_bytes(out.subrange(w, w + 8));
            let len = spec_u64_from_le_bytes(out.subrange(w + 8, w + 16));
            &&& out.len() == w + FRAME_LEN
            &&& out.subrange(0, w) == m.written
            &&& len == b.len()
            &&& offset == blob_offset(later.pending, m.pending.len() as int)
            &&& offset + len <= later.area_len()
            &&& later.trailer().subrange(8 + offset, 8 + offset + len) == b
        }),
{
    lemma_auto_spec_u64_to_from_le_bytes();
    let w = m.written.len() as int;
    let m1 = m.with_var(b);
    let out = m1.written;
    let k = m.pending.len() as int;
    let off = m.area_len() as u64;
    assert(out.subrange(0, w) =~= m.written);
    assert(out.subrange(w, w + 8) =~= spec_u64_to_le_bytes(off));
    assert(out.subrange(w + 8, w + 16) =~= spec_u64_to_le_bytes(b.len() as u64));
    assert(later.pending.take(k) =~= m.pending);
    assert(later.pending[k] == b) by {
        assert(m1.pending[k] == b);
        assert(later.pending.subrange(0, m1.pending.len() as int)[k] == m1.pending[k]);
    }
    lemma_blob_at_offset(later.pending, k);
    let area = blob_area(later.pending);
    let len_bytes = spec_u64_to_le_bytes(later.area_len() as u64);
    assert(later.trailer().subrange(8 + off, 8 + off + b.len()) =~= area.subrange(
        off as int,
        off + b.len(),
    ));
}

/// Adds each blob of `bs` in turn with `add_var_blob`.
pub open spec fn with_var_all(m: EncoderModel, bs: Seq<Seq<u8>>) -> EncoderModel
    decreases bs.len(),
{
    if bs.len() == 0 {
        m
    } else {
        with_var_all(m, bs.drop_last()).with_var(bs.last())
    }
}

/// The total length of the blobs of `bs` that take the reference path.
pub open spec fn deferred_len(bs: Seq<Seq<u8>>) -> nat
    decreases bs.len(),
{
    if bs.len() == 0 {
        0
    } else {
        deferred_len(bs.drop_last()) + if bs.last().len() < INLINE_LIMIT {
            0
        } else {
            bs.last().len()
        }
    }
}

/// After any run of `add_var_blob`, the blob area has grown by the lengths
/// of exactly those blobs that took the reference path.
pub proof fn lemma_area_counts_deferred(m: EncoderModel, bs: Seq<Seq<u8>>)
    ensures
        with_var_all(m, bs).area_len() == m.area_len() + deferred_len(bs),
    decreases bs.len(),
{
    if bs.len() > 0 {
        lemma_area_counts_deferred(m, bs.drop_last());
        let prev = with_var_all(m, bs.drop_last());
        assert(prev.pending.push(bs.last()).drop_last() =~= prev.pending);
    }
}

} // verus!
