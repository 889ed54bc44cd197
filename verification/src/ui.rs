//! Packing of user interface meshes into vertex and index buffers of fixed
//! sizes, reused from frame to frame.

use vstd::prelude::*;

verus! {

/// Vertices a vertex buffer holds.
pub const DEFAULT_VERTEX_BUFFER_SIZE: usize = 1048576;

/// Indices an index buffer holds.
pub const DEFAULT_INDEX_BUFFER_SIZE: usize = 524288;

/// Where one span of a mesh was written: the buffers, the first index and
/// the byte offset of the first vertex, and the number of indices.
#[derive(Debug, Clone, Copy, PartialEq, Eq, Structural)]
pub struct BufferItem {
    pub index_buffer: usize,
    pub vertex_buffer: usize,
    pub base_index: u32,
    pub base_vertex: u32,
    pub index_count: u32,
}

/// One span to write: the indices `index_start..index_end` (rebased to the
/// span's first vertex) go to the index buffer at `index_byte_offset`, the
/// vertices `vertex_start..vertex_end` to the vertex buffer at
/// `vertex_byte_offset`.
#[derive(Debug, Clone, Copy, PartialEq, Eq, Structural)]
pub struct SpanWrite {
    pub item: BufferItem,
    pub index_start: usize,
    pub index_end: usize,
    pub vertex_start: usize,
    pub vertex_end: usize,
    pub index_byte_offset: u64,
    pub vertex_byte_offset: u64,
}

/// A triangle spans more vertices than a vertex buffer can take.
#[derive(Debug, Clone, Copy, PartialEq, Eq, Structural)]
pub struct SpanTooLarge;

/// `x + 4` with its two low bits cleared: the room a span of `x` takes.
pub open spec fn padded(x: int) -> int {
    (((x + 4) as usize) & !3usize) as int
}

pub proof fn lemma_padded(x: usize)
    requires
        x <= 1048576,
    ensures
        x < padded(x as int) <= x + 4,
{
    let y: usize = (x + 4) as usize;
    assert((y & !3usize) <= y && (y & !3usize) + 3 >= y) by (bit_vector);
}

pub open spec fn min_u32(a: u32, b: u32) -> u32 {
    if a <= b {
        a
    } else {
        b
    }
}

pub open spec fn max_u32(a: u32, b: u32) -> u32 {
    if a >= b {
        a
    } else {
        b
    }
}

/// Grows a span of triangles from `cur` while its vertex range (`mn` to
/// `mx`) stays below `vrem` vertices and its indices below `irem - 4`.
/// Returns where the span ends and its vertex range.
pub open spec fn greedy(ind: Seq<u32>, start: int, cur: int, mn: u32, mx: u32, vrem: int, irem: int) -> (
    int,
    u32,
    u32,
)
    decreases ind.len() - cur,
{
    if cur < 0 || cur + 3 > ind.len() {
        (cur, mn, mx)
    } else {
        let nmn = min_u32(min_u32(min_u32(mn, ind[cur]), ind[cur + 1]), ind[cur + 2]);
        let nmx = max_u32(max_u32(max_u32(mx, ind[cur]), ind[cur + 1]), ind[cur + 2]);
        if nmx - nmn + 1 < vrem && cur - start + 4 < irem {
            greedy(ind, start, cur + 3, nmn, nmx, vrem, irem)
        } else {
            (cur, mn, mx)
        }
    }
}

/// `ind` with the indices `s..e` lowered by `mn`.
pub open spec fn rebase(ind: Seq<u32>, s: int, e: int, mn: u32) -> Seq<u32> {
    Seq::new(ind.len(), |i: int| if s <= i < e { (ind[i] - mn) as u32 } else { ind[i] })
}

/// The state of packing: the used counts of the vertex and index buffers,
/// the current buffer of each, the indices, how far they are packed, and
/// the spans written so far.
pub struct PackState {
    pub vbuf: Seq<usize>,
    pub voff: int,
    pub ibuf: Seq<usize>,
    pub ioff: int,
    pub ind: Seq<u32>,
    pub cursor: int,
    pub out: Seq<SpanWrite>,
}

/// Packing the indices from `st.cursor` on, with vertices of `vsize`
/// bytes, into vertex buffers of `vcap` vertices and index buffers of `icap`
/// indices; `None` where a triangle does not fit an emptied buffer.
pub open spec fn pack(st: PackState, vsize: u32, vcap: usize, icap: usize) -> Option<PackState>
    decreases st.ind.len() - st.cursor,
{
    if st.cursor < 0 || st.cursor >= st.ind.len() {
        Some(st)
    } else {
        let ib = if st.ioff >= st.ibuf.len() { st.ibuf.push(0) } else { st.ibuf };
        let vb = if st.voff >= st.vbuf.len() { st.vbuf.push(0) } else { st.vbuf };
        let iused = ib[st.ioff];
        let vused = vb[st.voff];
        let irem = icap - iused;
        let vrem = vcap - vused;
        let first = st.ind[st.cursor];
        let (c2, mn, mx) = greedy(st.ind, st.cursor, st.cursor, first, first, vrem, irem);
        if c2 <= st.cursor || c2 > st.ind.len() {
            None
        } else {
            let vcount = mx - mn + 1;
            let icount = c2 - st.cursor;
            let vadd = padded(vcount);
            let iadd = padded(icount);
            let span = SpanWrite {
                item: BufferItem {
                    index_buffer: st.ioff as usize,
                    vertex_buffer: st.voff as usize,
                    base_index: iused as u32,
                    base_vertex: (vused * vsize) as u32,
                    index_count: icount as u32,
                },
                index_start: st.cursor as usize,
                index_end: c2 as usize,
                vertex_start: mn as usize,
                vertex_end: (mx + 1) as usize,
                index_byte_offset: (iused * 4) as u64,
                vertex_byte_offset: (vused * vsize) as u64,
            };
            pack(
                PackState {
                    vbuf: vb.update(st.voff, (vused + vadd) as usize),
                    voff: if vrem < vadd + 4 { st.voff + 1 } else { st.voff },
                    ibuf: ib.update(st.ioff, (iused + iadd) as usize),
                    ioff: if irem < iadd + 3 { st.ioff + 1 } else { st.ioff },
                    ind: rebase(st.ind, st.cursor, c2, mn),
                    cursor: c2,
                    out: st.out.push(span),
                },
                vsize,
                vcap,
                icap,
            )
        }
    }
}

/// Spans that tile the indices `from..to`: each starts where the one
/// before it ends, the first at `from`, the last ending at `to`; each holds
/// whole triangles, at least one, and counts its indices.
pub open spec fn spans_tile(out: Seq<SpanWrite>, from: int, to: int) -> bool {
    &&& out.len() == 0 ==> from == to
    &&& out.len() > 0 ==> out[0].index_start == from && out.last().index_end == to
    &&& forall|j: int| 1 <= j < out.len() ==> (#[trigger] out[j]).index_start == out[j - 1].index_end
    &&& forall|j: int|
        0 <= j < out.len() ==> {
            &&& from <= (#[trigger] out[j]).index_start < out[j].index_end <= to
            &&& (out[j].index_end - out[j].index_start) % 3 == 0
            &&& out[j].item.index_count == out[j].index_end - out[j].index_start
        }
}

/// A span's indices, `before` packing, lowered by the least of them, its
/// first vertex, give those `after` packing.
pub open spec fn span_rebased(sp: SpanWrite, before: Seq<u32>, after: Seq<u32>) -> bool {
    &&& exists|k: int| sp.index_start <= k < sp.index_end && before[k] == sp.vertex_start
    &&& forall|i: int|
        #![trigger before[i]]
        #![trigger after[i]]
        sp.index_start <= i < sp.index_end ==> before[i] >= sp.vertex_start && after[i] == before[i]
            - sp.vertex_start
}

/// Each span is rebased (see [`span_rebased`]).
pub open spec fn spans_rebased(out: Seq<SpanWrite>, before: Seq<u32>, after: Seq<u32>) -> bool {
    forall|j: int| 0 <= j < out.len() ==> span_rebased(#[trigger] out[j], before, after)
}

/// Growing a span keeps whole triangles within the indices, and its least
/// vertex is one of its indices and no greater than any.
proof fn lemma_greedy(ind: Seq<u32>, start: int, cur: int, mn: u32, mx: u32, vrem: int, irem: int)
    requires
        0 <= start <= cur <= ind.len(),
        start < ind.len(),
        (cur - start) % 3 == 0,
        cur > start ==> cur - start < irem,
        forall|i: int| start <= i < cur ==> mn <= #[trigger] ind[i],
        exists|k: int| start <= k < ind.len() && (k < cur || k == start) && ind[k] == mn,
    ensures
        ({
            let (c, m, _x) = greedy(ind, start, cur, mn, mx, vrem, irem);
            &&& cur <= c <= ind.len()
            &&& (c - start) % 3 == 0
            &&& c > start ==> c - start < irem
            &&& forall|i: int| start <= i < c ==> m <= #[trigger] ind[i]
            &&& exists|k: int| start <= k < ind.len() && (k < c || k == start) && ind[k] == m
        }),
    decreases ind.len() - cur,
{
    if cur + 3 <= ind.len() {
        let nmn = min_u32(min_u32(min_u32(mn, ind[cur]), ind[cur + 1]), ind[cur + 2]);
        let nmx = max_u32(max_u32(max_u32(mx, ind[cur]), ind[cur + 1]), ind[cur + 2]);
        if nmx - nmn + 1 < vrem && cur - start + 4 < irem {
            let k0 = choose|k: int| start <= k < ind.len() && (k < cur || k == start) && ind[k] == mn;
            let k1 = if nmn == mn {
                k0
            } else if nmn == ind[cur] {
                cur
            } else if nmn == ind[cur + 1] {
                cur + 1
            } else {
                cur + 2
            };
            assert(start <= k1 < ind.len() && (k1 < cur + 3 || k1 == start) && ind[k1] == nmn);
            lemma_greedy(ind, start, cur + 3, nmn, nmx, vrem, irem);
        }
    }
}

/// A span before spans that tile the rest tiles the whole.
proof fn lemma_tile_cons(span: SpanWrite, rest: Seq<SpanWrite>, from: int, mid: int, to: int)
    requires
        span.index_start == from,
        span.index_end == mid,
        from < mid <= to,
        (mid - from) % 3 == 0,
        span.item.index_count == mid - from,
        spans_tile(rest, mid, to),
    ensures
        spans_tile(seq![span] + rest, from, to),
{
    let all = seq![span] + rest;
    assert forall|j: int| 1 <= j < all.len() implies (#[trigger] all[j]).index_start == all[j - 1].index_end by {
        if j == 1 {
            assert(all[1] == rest[0]);
        } else {
            assert(all[j] == rest[j - 1] && all[j - 1] == rest[j - 2]);
        }
    }
    assert forall|j: int| 0 <= j < all.len() implies {
        &&& from <= (#[trigger] all[j]).index_start < all[j].index_end <= to
        &&& (all[j].index_end - all[j].index_start) % 3 == 0
        &&& all[j].item.index_count == all[j].index_end - all[j].index_start
    } by {
        if j > 0 {
            assert(all[j] == rest[j - 1]);
        }
    }
    if rest.len() > 0 {
        assert(all.last() == rest.last());
    }
}

/// A span rebased from `before` to `after`, before spans rebased from `mid`
/// (which agrees with `before` where they lie) to `after`, gives spans all
/// rebased from `before` to `after`.
proof fn lemma_rebased_cons(
    span: SpanWrite,
    rest: Seq<SpanWrite>,
    before: Seq<u32>,
    mid: Seq<u32>,
    after: Seq<u32>,
    m: int,
    to: int,
    k: int,
)
    requires
        span.index_start <= k < span.index_end,
        before[k] == span.vertex_start,
        forall|i: int|
            #![trigger before[i]]
            #![trigger after[i]]
            span.index_start <= i < span.index_end ==> before[i] >= span.vertex_start && after[i] == before[i]
                - span.vertex_start,
        spans_tile(rest, m, to),
        spans_rebased(rest, mid, after),
        forall|i: int| m <= i < to ==> #[trigger] mid[i] == before[i],
    ensures
        spans_rebased(seq![span] + rest, before, after),
{
    let all = seq![span] + rest;
    assert forall|j: int| 0 <= j < all.len() implies span_rebased(#[trigger] all[j], before, after) by {
        if j == 0 {
            assert(all[0] == span);
            assert(span.index_start <= k < span.index_end && before[k] == span.vertex_start);
            assert(span_rebased(span, before, after));
        } else {
            let r = rest[j - 1];
            assert(all[j] == r);
            assert(m <= r.index_start && r.index_end <= to);
            assert(span_rebased(r, mid, after));
            let k2 = choose|k2: int| r.index_start <= k2 < r.index_end && mid[k2] == r.vertex_start;
            assert(mid[k2] == before[k2]);
            assert(r.index_start <= k2 < r.index_end && before[k2] == r.vertex_start);
            assert forall|i: int|
                #![trigger before[i]]
                #![trigger after[i]]
                r.index_start <= i < r.index_end implies before[i] >= r.vertex_start && after[i] == before[i]
                    - r.vertex_start by {
                assert(m <= i < to);
                assert(mid[i] == before[i]);
                assert(after[i] == mid[i] - r.vertex_start);
            }
            assert(span_rebased(r, before, after));
        }
    }
}

/// The first span that packing from `st` grows: its end and vertex range.
pub open spec fn pack_greedy(st: PackState, vcap: usize, icap: usize) -> (int, u32, u32) {
    let ib = if st.ioff >= st.ibuf.len() { st.ibuf.push(0) } else { st.ibuf };
    let vb = if st.voff >= st.vbuf.len() { st.vbuf.push(0) } else { st.vbuf };
    let first = st.ind[st.cursor];
    greedy(st.ind, st.cursor, st.cursor, first, first, vcap - vb[st.voff], icap - ib[st.ioff])
}

/// The state packing goes on from after writing its first span.
#[verifier::opaque]
pub open spec fn pack_next(st: PackState, vsize: u32, vcap: usize, icap: usize) -> PackState {
    let ib = if st.ioff >= st.ibuf.len() { st.ibuf.push(0) } else { st.ibuf };
    let vb = if st.voff >= st.vbuf.len() { st.vbuf.push(0) } else { st.vbuf };
    let iused = ib[st.ioff];
    let vused = vb[st.voff];
    let irem = icap - iused;
    let vrem = vcap - vused;
    let (c2, mn, mx) = pack_greedy(st, vcap, icap);
    let vcount = mx - mn + 1;
    let icount = c2 - st.cursor;
    let vadd = padded(vcount);
    let iadd = padded(icount);
    let span = SpanWrite {
        item: BufferItem {
            index_buffer: st.ioff as usize,
            vertex_buffer: st.voff as usize,
            base_index: iused as u32,
            base_vertex: (vused * vsize) as u32,
            index_count: icount as u32,
        },
        index_start: st.cursor as usize,
        index_end: c2 as usize,
        vertex_start: mn as usize,
        vertex_end: (mx + 1) as usize,
        index_byte_offset: (iused * 4) as u64,
        vertex_byte_offset: (vused * vsize) as u64,
    };
    PackState {
        vbuf: vb.update(st.voff, (vused + vadd) as usize),
        voff: if vrem < vadd + 4 { st.voff + 1 } else { st.voff },
        ibuf: ib.update(st.ioff, (iused + iadd) as usize),
        ioff: if irem < iadd + 3 { st.ioff + 1 } else { st.ioff },
        ind: rebase(st.ind, st.cursor, c2, mn),
        cursor: c2,
        out: st.out.push(span),
    }
}

/// Packing from `st`, when indices remain and a first span grows, writes
/// that span and goes on from [`pack_next`].
proof fn lemma_pack_unfold(st: PackState, vsize: u32, vcap: usize, icap: usize)
    requires
        0 <= st.cursor < st.ind.len(),
        pack_greedy(st, vcap, icap).0 > st.cursor,
        pack_greedy(st, vcap, icap).0 <= st.ind.len(),
    ensures
        pack(st, vsize, vcap, icap) == pack(pack_next(st, vsize, vcap, icap), vsize, vcap, icap),
{
    reveal(pack_next);
}

/// What writing the first span does: it spans the indices from the cursor
/// to the end of the grown span, starts at the least vertex, and the
/// indices it covers are rebased.
proof fn lemma_pack_next(st: PackState, vsize: u32, vcap: usize, icap: usize)
    ensures
        ({
            let (c2, mn, _mx) = pack_greedy(st, vcap, icap);
            let st2 = pack_next(st, vsize, vcap, icap);
            &&& st2.out.len() == st.out.len() + 1
            &&& st2.out == st.out.push(st2.out.last())
            &&& st2.out.last().index_start == st.cursor as usize
            &&& st2.out.last().index_end == c2 as usize
            &&& st2.out.last().vertex_start == mn as usize
            &&& st2.out.last().item.index_count == (c2 - st.cursor) as u32
            &&& st2.cursor == c2
            &&& st2.ind == rebase(st.ind, st.cursor, c2, mn)
        }),
{
    reveal(pack_next);
}

/// Packing tiles the indices from the cursor on with spans, in order, each
/// rebased to its least vertex, and leaves the earlier indices and spans as
/// they were.
pub proof fn lemma_pack_spans(st: PackState, vsize: u32, vcap: usize, icap: usize)
    requires
        0 <= st.cursor <= st.ind.len(),
        st.ind.len() <= usize::MAX,
        st.cursor % 3 == 0,
        st.ind.len() % 3 == 0,
        icap <= DEFAULT_INDEX_BUFFER_SIZE,
        pack(st, vsize, vcap, icap) is Some,
    ensures
        ({
            let f = pack(st, vsize, vcap, icap)->0;
            let n = st.out.len() as int;
            &&& f.ind.len() == st.ind.len()
            &&& f.out.len() >= n
            &&& f.out.subrange(0, n) == st.out
            &&& spans_tile(f.out.skip(n), st.cursor, st.ind.len() as int)
            &&& spans_rebased(f.out.skip(n), st.ind, f.ind)
            &&& forall|i: int| 0 <= i < st.cursor ==> #[trigger] f.ind[i] == st.ind[i]
        }),
    decreases st.ind.len() - st.cursor,
{
    let f = pack(st, vsize, vcap, icap)->0;
    let n = st.out.len() as int;
    if st.cursor >= st.ind.len() {
        assert(f == st);
        assert(f.out.subrange(0, n) =~= st.out);
        assert(f.out.skip(n) =~= Seq::<SpanWrite>::empty());
    } else {
        let ib = if st.ioff >= st.ibuf.len() { st.ibuf.push(0) } else { st.ibuf };
        let vb = if st.voff >= st.vbuf.len() { st.vbuf.push(0) } else { st.vbuf };
        let first = st.ind[st.cursor];
        lemma_greedy(st.ind, st.cursor, st.cursor, first, first, vcap - vb[st.voff], icap - ib[st.ioff]);
        let (c2, mn, mx) = pack_greedy(st, vcap, icap);
        if c2 <= st.cursor {
            assert(pack(st, vsize, vcap, icap) is None);
        }
        lemma_pack_unfold(st, vsize, vcap, icap);
        lemma_pack_next(st, vsize, vcap, icap);
        let st2 = pack_next(st, vsize, vcap, icap);
        lemma_pack_spans(st2, vsize, vcap, icap);
        let k = choose|k: int| st.cursor <= k < st.ind.len() && (k < c2 || k == st.cursor) && st.ind[k] == mn;
        lemma_spans_step(st, st2, f, c2, mn, k);
    }
}

/// One step of [`lemma_pack_spans`]: the first span written, then what
/// packing from the next state gives.
proof fn lemma_spans_step(st: PackState, st2: PackState, f: PackState, c2: int, mn: u32, k: int)
    requires
        0 <= st.cursor < c2 <= st.ind.len(),
        st.ind.len() <= usize::MAX,
        (c2 - st.cursor) % 3 == 0,
        c2 - st.cursor < 524288,
        forall|i: int| st.cursor <= i < c2 ==> mn <= #[trigger] st.ind[i],
        st.cursor <= k < c2,
        st.ind[k] == mn,
        st2.out.len() == st.out.len() + 1,
        st2.out == st.out.push(st2.out.last()),
        st2.out.last().index_start == st.cursor as usize,
        st2.out.last().index_end == c2 as usize,
        st2.out.last().vertex_start == mn as usize,
        st2.out.last().item.index_count == (c2 - st.cursor) as u32,
        st2.cursor == c2,
        st2.ind == rebase(st.ind, st.cursor, c2, mn),
        f.ind.len() == st2.ind.len(),
        f.out.len() >= st2.out.len(),
        f.out.subrange(0, st2.out.len() as int) == st2.out,
        spans_tile(f.out.skip(st2.out.len() as int), c2, st.ind.len() as int),
        spans_rebased(f.out.skip(st2.out.len() as int), st2.ind, f.ind),
        forall|i: int| 0 <= i < c2 ==> #[trigger] f.ind[i] == st2.ind[i],
    ensures
        ({
            let n = st.out.len() as int;
            &&& f.ind.len() == st.ind.len()
            &&& f.out.len() >= n
            &&& f.out.subrange(0, n) == st.out
            &&& spans_tile(f.out.skip(n), st.cursor, st.ind.len() as int)
            &&& spans_rebased(f.out.skip(n), st.ind, f.ind)
            &&& forall|i: int| 0 <= i < st.cursor ==> #[trigger] f.ind[i] == st.ind[i]
        }),
{
    let n = st.out.len() as int;
    let span = st2.out.last();
    lemma_out_prefix(st.out, st2.out, f.out);
    let rest = f.out.skip(n + 1);
    let all = f.out.skip(n);
    assert(all =~= seq![span] + rest);
    lemma_tile_cons(span, rest, st.cursor, c2, st.ind.len() as int);
    lemma_first_span_rebased(st.ind, st2.ind, f.ind, st.cursor, c2, mn);
    lemma_rebased_cons(span, rest, st.ind, st2.ind, f.ind, c2, st.ind.len() as int, k);
}

/// Spans appended one at a time keep the earlier ones in front.
proof fn lemma_out_prefix(a: Seq<SpanWrite>, b: Seq<SpanWrite>, f: Seq<SpanWrite>)
    requires
        b.len() == a.len() + 1,
        b == a.push(b.last()),
        f.len() >= b.len(),
        f.subrange(0, b.len() as int) == b,
    ensures
        f.subrange(0, a.len() as int) == a,
        f[a.len() as int] == b.last(),
        f.skip(a.len() as int) =~= seq![b.last()] + f.skip(b.len() as int),
{
    let n = a.len() as int;
    assert(f.subrange(0, n) =~= a) by {
        assert forall|i: int| 0 <= i < n implies f.subrange(0, n)[i] == a[i] by {
            assert(f.subrange(0, n + 1)[i] == b[i]);
        }
    }
    assert(f.subrange(0, n + 1)[n] == b[n]);
}

/// The indices of the first span are rebased to its least vertex, and the
/// others are untouched.
proof fn lemma_first_span_rebased(before: Seq<u32>, mid: Seq<u32>, after: Seq<u32>, s: int, e: int, mn: u32)
    requires
        0 <= s < e <= before.len(),
        forall|i: int| s <= i < e ==> mn <= #[trigger] before[i],
        mid == rebase(before, s, e, mn),
        after.len() == mid.len(),
        forall|i: int| 0 <= i < e ==> #[trigger] after[i] == mid[i],
    ensures
        forall|i: int|
            #![trigger before[i]]
            #![trigger after[i]]
            s <= i < e ==> before[i] >= mn && after[i] == before[i] - mn,
        forall|i: int| e <= i < before.len() ==> #[trigger] mid[i] == before[i],
        forall|i: int| 0 <= i < s ==> #[trigger] after[i] == before[i],
{
    assert forall|i: int|
        #![trigger before[i]]
        #![trigger after[i]]
        s <= i < e implies before[i] >= mn && after[i] == before[i] - mn by {
        assert(after[i] == mid[i]);
    }
    assert forall|i: int| 0 <= i < s implies #[trigger] after[i] == before[i] by {
        assert(after[i] == mid[i]);
    }
}

/// Vertex and index buffers of fixed sizes, filled span by span and reused
/// from frame to frame; the caller holds the buffers, one per used count.
#[derive(Debug)]
pub struct BufferCache {
    vertex_buffers: Vec<usize>,
    vertex_offset: usize,
    index_buffers: Vec<usize>,
    index_offset: usize,
    vertex_capacity: usize,
    index_capacity: usize,
}

impl BufferCache {
    /// The packing state, with no indices.
    pub closed spec fn state(&self) -> (Seq<usize>, int, Seq<usize>, int) {
        (self.vertex_buffers@, self.vertex_offset as int, self.index_buffers@, self.index_offset as int)
    }

    /// The vertices a vertex buffer holds and the indices an index buffer
    /// holds.
    pub closed spec fn capacities(&self) -> (usize, usize) {
        (self.vertex_capacity, self.index_capacity)
    }

    /// The invariant: the capacities are at most the default ones, the
    /// current buffers exist or are next to be created, and no buffer from
    /// the current one on is overfull.
    pub closed spec fn wf(&self) -> bool {
        &&& self.vertex_capacity <= DEFAULT_VERTEX_BUFFER_SIZE
        &&& self.index_capacity <= DEFAULT_INDEX_BUFFER_SIZE
        &&& self.vertex_offset <= self.vertex_buffers@.len()
        &&& self.index_offset <= self.index_buffers@.len()
        &&& forall|i: int| self.vertex_offset <= i < self.vertex_buffers@.len() ==> #[trigger] self.vertex_buffers@[i]
            <= self.vertex_capacity
        &&& forall|i: int| self.index_offset <= i < self.index_buffers@.len() ==> #[trigger] self.index_buffers@[i]
            <= self.index_capacity
    }

    /// No buffers yet, of the default capacities.
    pub fn new() -> (r: Self)
        ensures
            r.wf(),
            r.state() == (Seq::<usize>::empty(), 0int, Seq::<usize>::empty(), 0int),
            r.capacities() == (DEFAULT_VERTEX_BUFFER_SIZE, DEFAULT_INDEX_BUFFER_SIZE),
    {
        Self::with_capacity(DEFAULT_VERTEX_BUFFER_SIZE, DEFAULT_INDEX_BUFFER_SIZE)
    }

    /// No buffers yet; vertex buffers will hold `vertex_capacity` vertices
    /// and index buffers `index_capacity` indices.
    pub fn with_capacity(vertex_capacity: usize, index_capacity: usize) -> (r: Self)
        requires
            vertex_capacity <= DEFAULT_VERTEX_BUFFER_SIZE,
            index_capacity <= DEFAULT_INDEX_BUFFER_SIZE,
        ensures
            r.wf(),
            r.state() == (Seq::<usize>::empty(), 0int, Seq::<usize>::empty(), 0int),
            r.capacities() == (vertex_capacity, index_capacity),
    {
        let r = BufferCache {
            vertex_buffers: Vec::new(),
            vertex_offset: 0,
            index_buffers: Vec::new(),
            index_offset: 0,
            vertex_capacity,
            index_capacity,
        };
        proof {
            assert(r.state().0 =~= Seq::<usize>::empty());
            assert(r.state().2 =~= Seq::<usize>::empty());
        }
        r
    }

    /// Starts a frame: all buffers empty, filled from the first.
    pub fn reset(&mut self)
        requires
            old(self).wf(),
        ensures
            final(self).wf(),
            final(self).state().0 == Seq::new(old(self).state().0.len(), |i: int| 0usize),
            final(self).state().2 == Seq::new(old(self).state().2.len(), |i: int| 0usize),
            final(self).state().1 == 0,
            final(self).state().3 == 0,
            final(self).capacities() == old(self).capacities(),
    {
        self.vertex_offset = 0;
        self.index_offset = 0;
        let mut i: usize = 0;
        while i < self.vertex_buffers.len()
            invariant
                i <= self.vertex_buffers@.len(),
                self.vertex_buffers@.len() == old(self).vertex_buffers@.len(),
                forall|j: int| 0 <= j < i ==> self.vertex_buffers@[j] == 0,
                self.index_buffers@ == old(self).index_buffers@,
                self.vertex_offset == 0,
                self.index_offset == 0,
                self.vertex_capacity == old(self).vertex_capacity,
                self.index_capacity == old(self).index_capacity,
                old(self).wf(),
            decreases self.vertex_buffers@.len() - i,
        {
            self.vertex_buffers.set(i, 0);
            i = i + 1;
        }
        let mut i: usize = 0;
        while i < self.index_buffers.len()
            invariant
                i <= self.index_buffers@.len(),
                self.index_buffers@.len() == old(self).index_buffers@.len(),
                forall|j: int| 0 <= j < i ==> self.index_buffers@[j] == 0,
                self.vertex_buffers@.len() == old(self).vertex_buffers@.len(),
                forall|j: int| 0 <= j < self.vertex_buffers@.len() ==> self.vertex_buffers@[j] == 0,
                self.vertex_offset == 0,
                self.index_offset == 0,
                self.vertex_capacity == old(self).vertex_capacity,
                self.index_capacity == old(self).index_capacity,
                old(self).wf(),
            decreases self.index_buffers@.len() - i,
        {
            self.index_buffers.set(i, 0);
            i = i + 1;
        }
        proof {
            assert(self.vertex_buffers@ =~= Seq::new(old(self).vertex_buffers@.len(), |i: int| 0usize));
            assert(self.index_buffers@ =~= Seq::new(old(self).index_buffers@.len(), |i: int| 0usize));
        }
    }

    /// The number of vertex buffers and of index buffers.
    pub fn buffer_counts(&self) -> (r: (usize, usize))
        ensures
            r == (self.state().0.len() as usize, self.state().2.len() as usize),
    {
        (self.vertex_buffers.len(), self.index_buffers.len())
    }

    /// The packing state of this cache with indices `ind`, none packed.
    pub open spec fn start(&self, ind: Seq<u32>) -> PackState {
        PackState {
            vbuf: self.state().0,
            voff: self.state().1,
            ibuf: self.state().2,
            ioff: self.state().3,
            ind: ind,
            cursor: 0,
            out: Seq::empty(),
        }
    }

    /// Packs the triangles `indices` (of vertices `0..vertex_count`, each
    /// `vertex_size` bytes) into the buffers, span by span: a span grows by
    /// whole triangles while its vertex range and index count fit the
    /// current buffers; its indices are rebased to its first vertex. A
    /// buffer moves on when less than a span's room remains. Refused when a
    /// triangle does not fit (see [`pack`]).
    pub fn add(&mut self, indices: &mut Vec<u32>, vertex_count: usize, vertex_size: u32) -> (r: Result<
        Vec<SpanWrite>,
        SpanTooLarge,
    >)
        requires
            old(self).wf(),
            old(indices)@.len() % 3 == 0,
            forall|i: int| 0 <= i < old(indices)@.len() ==> #[trigger] old(indices)@[i] < vertex_count,
            vertex_count <= u32::MAX,
            vertex_size < 4096,
        ensures
            match pack(
                old(self).start(old(indices)@),
                vertex_size,
                old(self).capacities().0,
                old(self).capacities().1,
            ) {
                Some(st) => {
                    &&& r matches Ok(spans)
                    &&& spans@ == st.out
                    &&& final(indices)@ == st.ind
                    &&& final(self).state() == (st.vbuf, st.voff, st.ibuf, st.ioff)
                    &&& final(self).wf()
                    &&& spans_tile(st.out, 0, old(indices)@.len() as int)
                    &&& spans_rebased(st.out, old(indices)@, st.ind)
                },
                None => r is Err,
            },
            final(self).wf(),
            final(self).capacities() == old(self).capacities(),
    {
        let ghost st0 = self.start(indices@);
        let ghost ind0 = indices@;
        let vcap = self.vertex_capacity;
        let icap = self.index_capacity;
        let n = indices.len();
        let mut out: Vec<SpanWrite> = Vec::new();
        let mut cursor: usize = 0;
        proof {
            assert(out@ =~= Seq::<SpanWrite>::empty());
        }
        while cursor < n
            invariant
                st0 == old(self).start(old(indices)@),
                n == indices@.len(),
                n == ind0.len(),
                n % 3 == 0,
                cursor <= n,
                cursor % 3 == 0,
                vertex_count <= u32::MAX,
                vertex_size < 4096,
                self.wf(),
                forall|i: int| cursor <= i < n ==> #[trigger] indices@[i] == ind0[i],
                forall|i: int| 0 <= i < n ==> #[trigger] ind0[i] < vertex_count,
                pack(st0, vertex_size, vcap, icap) == pack(
                    PackState {
                        vbuf: self.state().0,
                        voff: self.state().1,
                        ibuf: self.state().2,
                        ioff: self.state().3,
                        ind: indices@,
                        cursor: cursor as int,
                        out: out@,
                    },
                    vertex_size,
                    vcap,
                    icap,
                ),
                self.capacities() == old(self).capacities(),
                vcap == self.vertex_capacity,
                icap == self.index_capacity,
            decreases n - cursor,
        {
            let ghost st = PackState {
                vbuf: self.state().0,
                voff: self.state().1,
                ibuf: self.state().2,
                ioff: self.state().3,
                ind: indices@,
                cursor: cursor as int,
                out: out@,
            };
            if self.index_offset >= self.index_buffers.len() {
                self.index_buffers.push(0);
            }
            if self.vertex_offset >= self.vertex_buffers.len() {
                self.vertex_buffers.push(0);
            }
            let ghost ib = self.index_buffers@;
            let ghost vb = self.vertex_buffers@;
            proof {
                assert(ib == if st.ioff >= st.ibuf.len() { st.ibuf.push(0) } else { st.ibuf });
                assert(vb == if st.voff >= st.vbuf.len() { st.vbuf.push(0) } else { st.vbuf });
            }
            let _il = self.index_buffers.len();
            let _vl = self.vertex_buffers.len();
            let io = self.index_offset;
            let vo = self.vertex_offset;
            let iused = self.index_buffers[io];
            let vused = self.vertex_buffers[vo];
            let iremain = icap - iused;
            let vremain = vcap - vused;
            let span_start = cursor;
            let first = indices[cursor];
            let mut mn = first;
            let mut mx = first;
            let mut cur = cursor;
            while cur < n
                invariant
                    n == indices@.len(),
                    n % 3 == 0,
                    span_start <= cur <= n,
                    cur % 3 == 0,
                    span_start < n,
                    mn <= first <= mx,
                    mx < vertex_count,
                    vertex_count <= u32::MAX,
                    vremain <= DEFAULT_VERTEX_BUFFER_SIZE,
                    iremain <= DEFAULT_INDEX_BUFFER_SIZE,
                    forall|i: int| span_start <= i < n ==> #[trigger] indices@[i] == ind0[i],
                    forall|i: int| 0 <= i < n ==> #[trigger] ind0[i] < vertex_count,
                    forall|i: int| span_start <= i < cur ==> mn <= #[trigger] indices@[i] <= mx,
                    cur > span_start ==> mx - mn + 1 < vremain && cur - span_start < iremain,
                    greedy(indices@, span_start as int, span_start as int, first, first, vremain as int, iremain as int)
                        == greedy(indices@, span_start as int, cur as int, mn, mx, vremain as int, iremain as int),
                ensures
                    span_start <= cur <= n,
                    cur % 3 == 0,
                    mn <= first <= mx,
                    mx < vertex_count,
                    forall|i: int| span_start <= i < cur ==> mn <= #[trigger] indices@[i] <= mx,
                    cur > span_start ==> mx - mn + 1 < vremain && cur - span_start < iremain,
                    greedy(indices@, span_start as int, span_start as int, first, first, vremain as int, iremain as int)
                        == (cur as int, mn, mx),
                decreases n - cur,
            {
                let a = indices[cur];
                let b = indices[cur + 1];
                let c = indices[cur + 2];
                let mut nmn = mn;
                if a < nmn {
                    nmn = a;
                }
                if b < nmn {
                    nmn = b;
                }
                if c < nmn {
                    nmn = c;
                }
                let mut nmx = mx;
                if a > nmx {
                    nmx = a;
                }
                if b > nmx {
                    nmx = b;
                }
                if c > nmx {
                    nmx = c;
                }
                if nmx - nmn + 1 < vremain as u32 && cur - span_start + 4 < iremain {
                    mn = nmn;
                    mx = nmx;
                    cur = cur + 3;
                } else {
                    break;
                }
            }
            if cur <= span_start {
                proof {
                    assert(pack(st, vertex_size, vcap, icap) is None);
                }
                return Err(SpanTooLarge);
            }
            let vcount: usize = (mx - mn + 1) as usize;
            let icount: usize = cur - span_start;
            proof {
                lemma_padded(vcount);
                lemma_padded(icount);
            }
            let vadd: usize = (vcount + 4) & !3usize;
            let iadd: usize = (icount + 4) & !3usize;
            let ghost ind1 = indices@;
            let mut k = span_start;
            while k < cur
                invariant
                    span_start <= k <= cur <= n,
                    n == indices@.len(),
                    ind1.len() == n,
                    forall|i: int| span_start <= i < cur ==> mn <= #[trigger] ind1[i],
                    forall|i: int| 0 <= i < n ==> #[trigger] indices@[i] == if span_start <= i < k {
                        (ind1[i] - mn) as u32
                    } else {
                        ind1[i]
                    },
                decreases cur - k,
            {
                let v = indices[k];
                indices.set(k, v - mn);
                k = k + 1;
            }
            proof {
                assert(indices@ =~= rebase(ind1, span_start as int, cur as int, mn));
                assert(vused * vertex_size <= u32::MAX) by (nonlinear_arith)
                    requires
                        vused <= 1048576,
                        vertex_size < 4096,
                ;
            }
            let span = SpanWrite {
                item: BufferItem {
                    index_buffer: io,
                    vertex_buffer: vo,
                    base_index: iused as u32,
                    base_vertex: (vused as u32) * vertex_size,
                    index_count: icount as u32,
                },
                index_start: span_start,
                index_end: cur,
                vertex_start: mn as usize,
                vertex_end: (mx as usize) + 1,
                index_byte_offset: (iused as u64) * 4,
                vertex_byte_offset: (vused as u64) * (vertex_size as u64),
            };
            out.push(span);
            self.index_buffers.set(io, iused + iadd);
            self.vertex_buffers.set(vo, vused + vadd);
            if iremain < iadd + 3 {
                self.index_offset = io + 1;
            }
            if vremain < vadd + 4 {
                self.vertex_offset = vo + 1;
            }
            proof {
                assert(pack(st, vertex_size, vcap, icap) == pack(
                    PackState {
                        vbuf: self.state().0,
                        voff: self.state().1,
                        ibuf: self.state().2,
                        ioff: self.state().3,
                        ind: indices@,
                        cursor: cur as int,
                        out: out@,
                    },
                    vertex_size,
                    vcap,
                    icap,
                ));
            }
            cursor = cur;
        }
        proof {
            assert(pack(st0, vertex_size, vcap, icap) == Some(
                PackState {
                    vbuf: self.state().0,
                    voff: self.state().1,
                    ibuf: self.state().2,
                    ioff: self.state().3,
                    ind: indices@,
                    cursor: cursor as int,
                    out: out@,
                },
            ));
            lemma_pack_spans(st0, vertex_size, vcap, icap);
            assert(out@.skip(0) =~= out@);
        }
        Ok(out)
    }
}

/// Vertices a vertex buffer of the frame-by-frame renderer holds.
pub const DYN_VERTEX_BUFFER_SIZE: usize = 262144;

/// Indices an index buffer of the frame-by-frame renderer holds.
pub const DYN_INDEX_BUFFER_SIZE: usize = 65536;

/// A rectangle of pixels: its corner and its size.
#[derive(Debug, Clone, Copy, PartialEq, Eq, Structural)]
pub struct Rect {
    pub x: u32,
    pub y: u32,
    pub width: u32,
    pub height: u32,
}

/// A texture of the interface: its own font texture, or one of the user's.
#[derive(Debug, Clone, Copy, PartialEq, Eq, Structural)]
pub enum TextureId {
    Egui,
    User(u64),
}

/// One draw of the interface: the span's buffers, first index, first
/// vertex byte and index count, clipped to `rect`, with texture
/// `texture_id`.
#[derive(Debug, Clone, Copy, PartialEq, Eq, Structural)]
pub struct RenderStage {
    pub vertex_buffer: usize,
    pub index_buffer: usize,
    pub rect: Rect,
    pub count_idx: u32,
    pub base_vertex: u32,
    pub base_index: u32,
    pub texture_id: TextureId,
}

/// The draw of a span clipped to `rect` with texture `texture_id`.
pub open spec fn stage_of(span: SpanWrite, rect: Rect, texture_id: TextureId) -> RenderStage {
    RenderStage {
        vertex_buffer: span.item.vertex_buffer,
        index_buffer: span.item.index_buffer,
        rect,
        count_idx: span.item.index_count,
        base_vertex: span.item.base_vertex,
        base_index: span.item.base_index,
        texture_id,
    }
}

/// The draws of the interface in a frame, over buffers of the
/// frame-by-frame renderer's sizes.
#[derive(Debug)]
pub struct DynRenderState {
    cache: BufferCache,
    pub stages: Vec<RenderStage>,
}

impl DynRenderState {
    pub closed spec fn stages(&self) -> Seq<RenderStage> {
        self.stages@
    }

    /// The packing state of the buffers.
    pub closed spec fn state(&self) -> (Seq<usize>, int, Seq<usize>, int) {
        self.cache.state()
    }

    pub closed spec fn wf(&self) -> bool {
        &&& self.cache.wf()
        &&& self.cache.capacities() == (DYN_VERTEX_BUFFER_SIZE, DYN_INDEX_BUFFER_SIZE)
    }

    /// No draws and no buffers.
    pub fn new() -> (r: Self)
        ensures
            r.wf(),
            r.stages() == Seq::<RenderStage>::empty(),
            r.state() == (Seq::<usize>::empty(), 0int, Seq::<usize>::empty(), 0int),
    {
        DynRenderState {
            cache: BufferCache::with_capacity(DYN_VERTEX_BUFFER_SIZE, DYN_INDEX_BUFFER_SIZE),
            stages: Vec::new(),
        }
    }

    /// Starts a frame: no draws, all buffers empty and filled from the first.
    pub fn new_frame(&mut self)
        requires
            old(self).wf(),
        ensures
            final(self).wf(),
            final(self).stages() == Seq::<RenderStage>::empty(),
            final(self).state().0 == Seq::new(old(self).state().0.len(), |i: int| 0usize),
            final(self).state().2 == Seq::new(old(self).state().2.len(), |i: int| 0usize),
            final(self).state().1 == 0,
            final(self).state().3 == 0,
    {
        self.stages.clear();
        self.cache.reset();
    }

    /// Packs a mesh (indices `indices` of vertices `0..vertex_count`, each
    /// `vertex_size` bytes) into the buffers and adds a draw for each span,
    /// clipped to `rect` with texture `texture_id`. Refused when a triangle
    /// does not fit an emptied buffer.
    pub fn commit(
        &mut self,
        indices: &mut Vec<u32>,
        vertex_count: usize,
        vertex_size: u32,
        rect: Rect,
        texture_id: TextureId,
    ) -> (r: Result<Vec<SpanWrite>, SpanTooLarge>)
        requires
            old(self).wf(),
            old(indices)@.len() % 3 == 0,
            forall|i: int| 0 <= i < old(indices)@.len() ==> #[trigger] old(indices)@[i] < vertex_count,
            vertex_count <= u32::MAX,
            vertex_size < 4096,
        ensures
            final(self).wf(),
            match pack(
                PackState {
                    vbuf: old(self).state().0,
                    voff: old(self).state().1,
                    ibuf: old(self).state().2,
                    ioff: old(self).state().3,
                    ind: old(indices)@,
                    cursor: 0,
                    out: Seq::empty(),
                },
                vertex_size,
                DYN_VERTEX_BUFFER_SIZE,
                DYN_INDEX_BUFFER_SIZE,
            ) {
                Some(st) => {
                    &&& r matches Ok(spans)
                    &&& spans@ == st.out
                    &&& final(indices)@ == st.ind
                    &&& final(self).state() == (st.vbuf, st.voff, st.ibuf, st.ioff)
                    &&& final(self).stages() == old(self).stages() + st.out.map_values(
                        |sp: SpanWrite| stage_of(sp, rect, texture_id),
                    )
                    &&& spans_tile(st.out, 0, old(indices)@.len() as int)
                    &&& spans_rebased(st.out, old(indices)@, st.ind)
                },
                None => r is Err,
            },
    {
        let r = self.cache.add(indices, vertex_count, vertex_size);
        if let Ok(spans) = &r {
            let ghost before = self.stages@;
            let ghost cache_after = self.cache;
            let mut i: usize = 0;
            while i < spans.len()
                invariant
                    i <= spans@.len(),
                    self.cache == cache_after,
                    self.stages@ == before + spans@.take(i as int).map_values(
                        |sp: SpanWrite| stage_of(sp, rect, texture_id),
                    ),
                decreases spans@.len() - i,
            {
                let sp = spans[i];
                self.stages.push(
                    RenderStage {
                        vertex_buffer: sp.item.vertex_buffer,
                        index_buffer: sp.item.index_buffer,
                        rect,
                        count_idx: sp.item.index_count,
                        base_vertex: sp.item.base_vertex,
                        base_index: sp.item.base_index,
                        texture_id,
                    },
                );
                proof {
                    assert(spans@.take(i + 1).map_values(|sp: SpanWrite| stage_of(sp, rect, texture_id))
                        =~= spans@.take(i as int).map_values(
                        |sp: SpanWrite| stage_of(sp, rect, texture_id),
                    ).push(stage_of(sp, rect, texture_id)));
                }
                i = i + 1;
            }
            proof {
                assert(spans@.take(i as int) =~= spans@);
            }
        }
        r
    }
}

} // verus!
