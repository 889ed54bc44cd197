//! Sizing and placement policies of the GPU buffers that vertex, index and
//! uniform data are streamed into. The buffers themselves are created by the
//! caller, which follows the sizes and counts decided here.

use vstd::prelude::*;
use std::collections::VecDeque;

verus! {

/// The copy alignment of GPU buffers, in bytes.
pub const COPY_BUFFER_ALIGNMENT: u64 = 4;

/// `x` rounded up with the mask of `a`: `(x + a - 1) & !(a - 1)`, the least
/// multiple of `a` not below `x` when `a` is a power of two.
pub open spec fn mask_up(x: u64, a: u64) -> u64 {
    ((x + a - 1) as u64) & !((a - 1) as u64)
}

/// For a power of two `a`, rounding with the mask gives the least multiple
/// of `a` not below `x`: its bits below `a` are clear, and it lies in
/// `x .. x + a`.
pub proof fn lemma_mask_up_pow2(x: u64, k: u64)
    requires
        k < 64,
        x + (1u64 << k) <= u64::MAX,
    ensures
        mask_up(x, 1u64 << k) & (((1u64 << k) - 1) as u64) == 0,
        x <= mask_up(x, 1u64 << k),
        mask_up(x, 1u64 << k) < x + (1u64 << k),
{
    let a: u64 = 1u64 << k;
    assert(a >= 1) by (bit_vector)
        requires
            a == 1u64 << k,
            k < 64,
    ;
    let y: u64 = (x + a - 1) as u64;
    let m: u64 = (a - 1) as u64;
    assert((y & !m) & m == 0) by (bit_vector);
    assert((y & !m) <= y) by (bit_vector);
    assert(y - m <= (y & !m)) by (bit_vector)
        requires
            a == 1u64 << k,
            k < 64,
            m == a - 1,
    ;
}

/// Copies staged between two recalls do not overlap and each starts at a
/// multiple of the alignment: with a power-of-two alignment `a`, the offset
/// after a copy of `len` bytes from `offset` (where the next copy starts)
/// is a multiple of `a` at or past the copy's end. After a recall the first
/// copy starts at 0.
pub proof fn lemma_copies_disjoint_aligned(offset: u64, len: u64, k: u64)
    requires
        k < 64,
        len > 0,
        offset + len + (1u64 << k) <= u64::MAX,
    ensures
        offset + len <= mask_up((offset + len) as u64, 1u64 << k),
        mask_up((offset + len) as u64, 1u64 << k) % (1u64 << k) == 0,
{
    let e: u64 = (offset + len) as u64;
    lemma_mask_up_pow2(e, k);
    let y: u64 = mask_up(e, 1u64 << k);
    vstd::arithmetic::power2::lemma_pow2_pos(k as nat);
    vstd::bits::lemma_u64_pow2_no_overflow(k as nat);
    vstd::bits::lemma_u64_shl_is_mul(1u64, k);
    vstd::bits::lemma_u64_low_bits_mask_is_mod(y, k as nat);
    assert(vstd::bits::low_bits_mask(k as nat) == (1u64 << k) - 1);
}

/// The ranges that copies of lengths `lens`, staged in order from offset
/// `start` with alignment `a`, are given: each starts where the one before
/// left the offset, rounded up with the alignment's mask.
pub open spec fn copy_ranges(start: u64, lens: Seq<u64>, a: u64) -> Seq<(int, int)>
    decreases lens.len(),
{
    if lens.len() == 0 {
        Seq::empty()
    } else {
        let end = start + lens[0];
        seq![(start as int, end)] + copy_ranges(mask_up(end as u64, a), lens.skip(1), a)
    }
}

/// Every copy of lengths `lens` from `start` is non-empty and fits, with
/// room for the rounding, below the largest offset.
pub open spec fn copies_fit(start: u64, lens: Seq<u64>, a: u64) -> bool
    decreases lens.len(),
{
    lens.len() == 0 || (lens[0] > 0 && start + lens[0] + a <= u64::MAX && copies_fit(
        mask_up((start + lens[0]) as u64, a),
        lens.skip(1),
        a,
    ))
}

/// Copies staged between two recalls do not overlap, come in increasing
/// order and each starts at a multiple of the alignment: for any lengths
/// that fit, from an aligned offset (0 after a recall) and with a
/// power-of-two alignment.
pub proof fn lemma_copy_ranges(start: u64, lens: Seq<u64>, k: u64)
    requires
        k < 64,
        start % (1u64 << k) == 0,
        copies_fit(start, lens, 1u64 << k),
    ensures
        ({
            let r = copy_ranges(start, lens, 1u64 << k);
            &&& r.len() == lens.len()
            &&& forall|i: int|
                0 <= i < r.len() ==> (#[trigger] r[i]).0 % (1u64 << k) as int == 0 && r[i].0 < r[i].1
                    && start <= r[i].0
            &&& forall|i: int, j: int| 0 <= i < j < r.len() ==> (#[trigger] r[i]).1 <= (#[trigger] r[j]).0
        }),
    decreases lens.len(),
{
    let a: u64 = 1u64 << k;
    if lens.len() > 0 {
        let end: u64 = (start + lens[0]) as u64;
        lemma_copies_disjoint_aligned(start, lens[0], k);
        let next = mask_up(end, a);
        lemma_copy_ranges(next, lens.skip(1), k);
        let r = copy_ranges(start, lens, a);
        let rest = copy_ranges(next, lens.skip(1), a);
        assert(r =~= seq![(start as int, end as int)] + rest);
        assert forall|i: int| 0 <= i < r.len() implies (#[trigger] r[i]).0 % (1u64 << k) as int == 0
            && r[i].0 < r[i].1 && start <= r[i].0 by {
            if i > 0 {
                assert(r[i] == rest[i - 1]);
            }
        }
        assert forall|i: int, j: int| 0 <= i < j < r.len() implies (#[trigger] r[i]).1 <= (#[trigger] r[j]).0 by {
            assert(r[j] == rest[j - 1]);
            if i > 0 {
                assert(r[i] == rest[i - 1]);
            }
        }
    }
}

/// The largest element of a non-empty sequence.
pub open spec fn seq_max(s: Seq<u64>) -> u64
    decreases s.len(),
{
    if s.len() <= 1 {
        s[0]
    } else {
        let m = seq_max(s.drop_last());
        if m >= s.last() {
            m
        } else {
            s.last()
        }
    }
}

/// A buffer that grows to fit the largest request, remembering the sizes of
/// the last requests.
#[derive(Debug)]
pub struct GpuMainBuffer {
    size: u64,
    label: Option<&'static str>,
    recent_usage_size: VecDeque<u64>,
    tick: u64,
}

impl GpuMainBuffer {
    /// The size of the buffer.
    pub closed spec fn size_view(&self) -> u64 {
        self.size
    }

    /// The sizes of the last requests, oldest first.
    pub closed spec fn recent(&self) -> Seq<u64> {
        self.recent_usage_size@
    }

    /// The number of requests so far.
    pub closed spec fn ticks(&self) -> u64 {
        self.tick
    }

    /// The label the buffer was made with.
    pub closed spec fn label_view(&self) -> Option<&'static str> {
        self.label
    }

    /// A buffer of 2 MiB.
    pub fn new(label: Option<&'static str>) -> (r: Self)
        ensures
            r.size_view() == 2097152,
            r.recent() == seq![2097152u64],
            r.ticks() == 0,
            r.label_view() == label,
    {
        let size: u64 = 1024 * 1024 * 2;
        let mut recent_usage_size = VecDeque::new();
        recent_usage_size.push_back(size);
        proof {
            assert(recent_usage_size@ =~= seq![2097152u64]);
        }
        GpuMainBuffer { size, label, recent_usage_size, tick: 0 }
    }

    /// The size of the buffer.
    pub fn size(&self) -> (r: u64)
        ensures
            r == self.size_view(),
    {
        self.size
    }

    /// The label the buffer was made with.
    pub fn label(&self) -> (r: Option<&'static str>)
        ensures
            r == self.label_view(),
    {
        self.label
    }

    /// Makes the buffer hold `size` bytes. A larger request grows the buffer
    /// to exactly that size and forgets the earlier requests; others are
    /// remembered (the last 101 of them). Every 500th request, if all
    /// remembered requests are below half the size, the buffer is reported
    /// as oversized. Returns whether the buffer grew or is oversized.
    pub fn make_sure(&mut self, size: u64) -> (r: bool)
        requires
            old(self).ticks() < u64::MAX,
            old(self).recent().len() >= 1,
        ensures
            final(self).ticks() == old(self).ticks() + 1,
            final(self).recent().len() >= 1,
            final(self).label_view() == old(self).label_view(),
            if old(self).size_view() < size {
                &&& r
                &&& final(self).size_view() == size
                &&& final(self).recent() == seq![size]
            } else {
                let kept = if old(self).recent().len() > 100 {
                    old(self).recent().drop_first()
                } else {
                    old(self).recent()
                };
                &&& final(self).size_view() == old(self).size_view()
                &&& final(self).recent() == kept.push(size)
                &&& r == (final(self).ticks() % 500 == 0 && seq_max(final(self).recent())
                    < old(self).size_view() / 2)
            },
    {
        self.tick = self.tick + 1;
        if self.size < size {
            self.size = size;
            self.recent_usage_size.truncate(0);
            self.recent_usage_size.push_back(size);
            proof {
                assert(self.recent_usage_size@ =~= seq![size]);
            }
            return true;
        }
        if self.recent_usage_size.len() > 100 {
            let _ = self.recent_usage_size.pop_front();
        }
        self.recent_usage_size.push_back(size);
        if self.tick % 500 == 0 {
            let max_val = deque_max(&self.recent_usage_size);
            if max_val < self.size / 2 {
                return true;
            }
        }
        false
    }
}

/// The largest element of a non-empty deque.
fn deque_max(d: &VecDeque<u64>) -> (r: u64)
    requires
        d@.len() >= 1,
    ensures
        r == seq_max(d@),
{
    let mut m = d[0];
    let mut i: usize = 1;
    proof {
        assert(d@.subrange(0, 1) =~= seq![d@[0]]);
    }
    while i < d.len()
        invariant
            1 <= i <= d@.len(),
            m == seq_max(d@.subrange(0, i as int)),
        decreases d@.len() - i,
    {
        proof {
            assert(d@.subrange(0, i + 1).drop_last() =~= d@.subrange(0, i as int));
        }
        if d[i] > m {
            m = d[i];
        }
        i = i + 1;
    }
    proof {
        assert(d@.subrange(0, d@.len() as int) =~= d@);
    }
    m
}

/// A byte range of a buffer.
#[derive(Debug, Clone, Copy, PartialEq, Eq, Structural)]
pub struct ByteRange {
    pub start: u64,
    pub end: u64,
}

/// A buffer filled through a staging belt, each copy placed after the last
/// at the next aligned offset.
#[derive(Debug)]
pub struct GpuInputMainBuffer {
    buffer: GpuMainBuffer,
    chunk_size: u64,
    alignment: u64,
    offset: u64,
}

impl GpuInputMainBuffer {
    pub closed spec fn offset_view(&self) -> u64 {
        self.offset
    }

    pub closed spec fn alignment_view(&self) -> u64 {
        self.alignment
    }

    pub closed spec fn sizing(&self) -> GpuMainBuffer {
        self.buffer
    }

    /// A buffer filled from offset 0 with the copy alignment, staged in
    /// chunks of 4 MiB.
    pub fn new(label: Option<&'static str>) -> (r: Self)
        ensures
            r.offset_view() == 0,
            r.alignment_view() == COPY_BUFFER_ALIGNMENT,
            r.sizing().size_view() == 2097152,
            r.sizing().recent() == seq![2097152u64],
            r.sizing().ticks() == 0,
    {
        GpuInputMainBuffer {
            buffer: GpuMainBuffer::new(label),
            chunk_size: 1024 * 1024 * 4,
            alignment: COPY_BUFFER_ALIGNMENT,
            offset: 0,
        }
    }

    pub fn set_alignment(&mut self, a: u64)
        ensures
            final(self).alignment_view() == a,
            final(self).offset_view() == old(self).offset_view(),
            final(self).sizing() == old(self).sizing(),
    {
        self.alignment = a;
    }

    /// Starts filling from offset 0 again.
    pub fn recall(&mut self)
        ensures
            final(self).offset_view() == 0,
            final(self).alignment_view() == old(self).alignment_view(),
            final(self).sizing() == old(self).sizing(),
    {
        self.offset = 0;
    }

    /// Makes the buffer hold `bytes` more after the current offset (see
    /// [`GpuMainBuffer::make_sure`]).
    pub fn make_sure(&mut self, bytes: u64) -> (r: bool)
        requires
            old(self).offset_view() + bytes <= u64::MAX,
            old(self).sizing().ticks() < u64::MAX,
            old(self).sizing().recent().len() >= 1,
        ensures
            final(self).offset_view() == old(self).offset_view(),
            final(self).alignment_view() == old(self).alignment_view(),
            final(self).sizing().ticks() == old(self).sizing().ticks() + 1,
            final(self).sizing().recent().len() >= 1,
            old(self).sizing().size_view() < bytes + old(self).offset_view() ==> r
                && final(self).sizing().size_view() == bytes + old(self).offset_view(),
            old(self).sizing().size_view() >= bytes + old(self).offset_view()
                ==> final(self).sizing().size_view() == old(self).sizing().size_view(),
    {
        self.buffer.make_sure(bytes + self.offset)
    }

    /// Places a copy of `len` bytes at the current offset and moves the
    /// offset past it, rounded up with the alignment's mask.
    pub fn copy_stage(&mut self, len: u64) -> (r: ByteRange)
        requires
            len > 0,
            old(self).alignment_view() >= 1,
            old(self).offset_view() + len + old(self).alignment_view() <= u64::MAX,
        ensures
            r == (ByteRange { start: old(self).offset_view(), end: (old(self).offset_view() + len) as u64 }),
            final(self).offset_view() == mask_up(r.end, old(self).alignment_view()),
            final(self).alignment_view() == old(self).alignment_view(),
            final(self).sizing() == old(self).sizing(),
    {
        let start = self.offset;
        let end = self.offset + len;
        self.offset = (end + self.alignment - 1) & !(self.alignment - 1);
        ByteRange { start, end }
    }

    pub fn main_size(&self) -> (r: u64)
        ensures
            r == self.sizing().size_view(),
    {
        self.buffer.size()
    }
}

/// Where a copy of uniform data went: which buffer, which bytes.
#[derive(Debug, Clone, Copy, PartialEq, Eq, Structural)]
pub struct BufferPosition {
    pub index: u64,
    pub range: ByteRange,
}

/// Uniform data spread over buffers of the largest uniform binding size,
/// each copy at an offset aligned with the device's uniform alignment.
#[derive(Debug)]
pub struct GpuInputUniformBuffers {
    buffer_count: u64,
    label: Option<&'static str>,
    index: u64,
    offset: u64,
    size: u64,
    alignment: u64,
}

impl GpuInputUniformBuffers {
    pub closed spec fn count(&self) -> u64 {
        self.buffer_count
    }

    pub closed spec fn index_view(&self) -> u64 {
        self.index
    }

    pub closed spec fn offset_view(&self) -> u64 {
        self.offset
    }

    pub closed spec fn size_view(&self) -> u64 {
        self.size
    }

    pub closed spec fn alignment_view(&self) -> u64 {
        self.alignment
    }

    /// No buffers yet; each will hold `size` bytes, copies aligned to
    /// `alignment`.
    pub fn new(label: Option<&'static str>, size: u64, alignment: u64) -> (r: Self)
        ensures
            r.count() == 0,
            r.index_view() == 0,
            r.offset_view() == 0,
            r.size_view() == size,
            r.alignment_view() == alignment,
    {
        GpuInputUniformBuffers { buffer_count: 0, label, index: 0, offset: 0, size, alignment }
    }

    /// Starts filling from the first buffer again.
    pub fn recall(&mut self)
        ensures
            final(self).index_view() == 0,
            final(self).offset_view() == 0,
            final(self).count() == old(self).count(),
            final(self).size_view() == old(self).size_view(),
            final(self).alignment_view() == old(self).alignment_view(),
    {
        self.index = 0;
        self.offset = 0;
    }

    /// The number of buffers.
    pub fn buffers(&self) -> (r: u64)
        ensures
            r == self.count(),
    {
        self.buffer_count
    }

    /// Makes room for `n` more elements of `single_bytes` bytes each: the
    /// element size is rounded up with the alignment's mask, and buffers
    /// are added until there are `(n + e + 1) / e` past the current one, `e`
    /// being the elements a buffer holds. Returns whether any was added.
    pub fn make_sure(&mut self, n: u64, single_bytes: u64) -> (r: bool)
        requires
            old(self).alignment_view() >= 1,
            single_bytes + old(self).alignment_view() <= u64::MAX,
            mask_up(single_bytes, old(self).alignment_view()) > 0,
            old(self).size_view() / mask_up(single_bytes, old(self).alignment_view()) > 0,
            ({
                let e = (old(self).size_view() / mask_up(single_bytes, old(self).alignment_view())) as int;
                &&& n + e + 1 <= u64::MAX
                &&& (n + e + 1) / e + old(self).index_view() <= u64::MAX
            }),
        ensures
            ({
                let e = (old(self).size_view() / mask_up(single_bytes, old(self).alignment_view())) as int;
                let total = (n + e + 1) / e + old(self).index_view();
                &&& final(self).count() == if old(self).count() < total {
                    total
                } else {
                    old(self).count() as int
                }
                &&& r == (old(self).count() < total)
            }),
            final(self).index_view() == old(self).index_view(),
            final(self).offset_view() == old(self).offset_view(),
            final(self).size_view() == old(self).size_view(),
            final(self).alignment_view() == old(self).alignment_view(),
    {
        let single = (single_bytes + self.alignment - 1) & !(self.alignment - 1);
        let elements = self.size / single;
        let total = (n + elements + 1) / elements + self.index;
        let mut any_changes = false;
        while self.buffer_count < total
            invariant
                self.buffer_count <= total || !any_changes,
                any_changes == (old(self).count() < self.buffer_count),
                old(self).count() <= self.buffer_count,
                old(self).count() >= total ==> self.buffer_count == old(self).count(),
                self.index == old(self).index_view(),
                self.offset == old(self).offset_view(),
                self.size == old(self).size_view(),
                self.alignment == old(self).alignment_view(),
            decreases total - self.buffer_count,
        {
            self.buffer_count = self.buffer_count + 1;
            any_changes = true;
        }
        any_changes
    }

    /// Places `len` bytes of uniform data: in the current buffer if they fit
    /// after the offset, else at the start of the next buffer; the offset
    /// then moves past them, rounded up with the alignment's mask.
    pub fn copy_stage(&mut self, len: u64) -> (r: BufferPosition)
        requires
            len > 0,
            old(self).alignment_view() >= 1,
            old(self).offset_view() <= old(self).size_view(),
            ({
                let next = old(self).size_view() - old(self).offset_view() < len;
                let index = if next { old(self).index_view() + 1 } else { old(self).index_view() as int };
                let start = if next { 0 } else { old(self).offset_view() as int };
                &&& index < old(self).count()
                &&& start + len + old(self).alignment_view() <= u64::MAX
            }),
        ensures
            ({
                let next = old(self).size_view() - old(self).offset_view() < len;
                let index = if next { old(self).index_view() + 1 } else { old(self).index_view() as int };
                let start = if next { 0 } else { old(self).offset_view() as int };
                &&& r.index == index
                &&& r.range == (ByteRange { start: start as u64, end: (start + len) as u64 })
                &&& final(self).index_view() == index
                &&& final(self).offset_view() == mask_up((start + len) as u64, old(self).alignment_view())
            }),
            final(self).count() == old(self).count(),
            final(self).size_view() == old(self).size_view(),
            final(self).alignment_view() == old(self).alignment_view(),
    {
        let rest = self.size - self.offset;
        if rest < len {
            self.index = self.index + 1;
            self.offset = 0;
        }
        let start = self.offset;
        let end = self.offset + len;
        self.offset = (end + self.alignment - 1) & !(self.alignment - 1);
        BufferPosition { index: self.index, range: ByteRange { start, end } }
    }
}

} // verus!
