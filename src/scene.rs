use crate::buffer_structs::{FrameInfo, ObjectOffsets};
use vstd::prelude::*;

verus! {

/// Each instance names a frame that exists.
pub open spec fn frame_indices_valid(frame_info: Seq<FrameInfo>, frame_indices: Seq<i32>) -> bool {
    forall|i: int|
        0 <= i < frame_indices.len() ==> 0 <= #[trigger] frame_indices[i] < frame_info.len()
}

/// The clip sizes of the instances' frames, in instance order.
pub open spec fn clip_sizes(frame_info: Seq<FrameInfo>, frame_indices: Seq<i32>) -> Seq<int> {
    Seq::new(frame_indices.len(), |i: int| frame_info[frame_indices[i] as int].clip_size as int)
}

/// The shard counts of the instances' frames, in instance order.
pub open spec fn shard_sizes(frame_info: Seq<FrameInfo>, frame_indices: Seq<i32>) -> Seq<int> {
    Seq::new(frame_indices.len(), |i: int| frame_info[frame_indices[i] as int].shard_size as int)
}

/// The segment counts of the instances' frames, in instance order.
pub open spec fn segment_sizes(frame_info: Seq<FrameInfo>, frame_indices: Seq<i32>) -> Seq<int> {
    Seq::new(
        frame_indices.len(),
        |i: int| frame_info[frame_indices[i] as int].segment_size as int,
    )
}

/// The shard-vertex counts of the instances' frames (six per shard), in instance order.
pub open spec fn shard_vertex_sizes(frame_info: Seq<FrameInfo>, frame_indices: Seq<i32>) -> Seq<
    int,
> {
    Seq::new(
        frame_indices.len(),
        |i: int| 6 * frame_info[frame_indices[i] as int].shard_size as int,
    )
}

/// The sum of the first `n` entries of `s`.
pub open spec fn prefix_sum(s: Seq<int>, n: int) -> int
    decreases n,
{
    if n <= 0 {
        0
    } else {
        prefix_sum(s, n - 1) + s[n - 1]
    }
}

/// The sum of all entries of `s`.
pub open spec fn total(s: Seq<int>) -> int {
    prefix_sum(s, s.len() as int)
}

/// Every entry of `s` is non-negative.
pub open spec fn non_negative(s: Seq<int>) -> bool {
    forall|i: int| 0 <= i < s.len() ==> s[i] >= 0
}

/// Position `p` lies in the region of entry `i`.
pub open spec fn in_region(s: Seq<int>, i: int, p: int) -> bool {
    prefix_sum(s, i) <= p < prefix_sum(s, i) + s[i]
}

/// Position `p` lies in the region of some entry.
pub open spec fn covered(s: Seq<int>, p: int) -> bool {
    exists|i: int| 0 <= i < s.len() && #[trigger] in_region(s, i, p)
}

/// The regions `[prefix_sum(s, i), prefix_sum(s, i) + s[i])` start at 0, follow one another
/// with no gap, never overlap, and together cover `[0, total(s))` exactly.
pub open spec fn is_partition(s: Seq<int>) -> bool {
    &&& prefix_sum(s, 0) == 0
    &&& forall|i: int|
        0 <= i < s.len() ==> #[trigger] prefix_sum(s, i + 1) == prefix_sum(s, i) + s[i]
    &&& forall|i: int, j: int|
        0 <= i < j < s.len() ==> #[trigger] prefix_sum(s, i) + s[i] <= #[trigger] prefix_sum(
            s,
            j,
        )
    &&& forall|p: int| 0 <= p < total(s) ==> #[trigger] covered(s, p)
}

/// Everything that the descriptors and the draw of a frame must fit: every instance
/// names a frame, there are no more instances than work groups can count, the clip
/// offsets fit in `u32`, the segment offsets in `i32`, and the shard-vertex count in `u32`.
pub open spec fn frame_admissible(frame_info: Seq<FrameInfo>, frame_indices: Seq<i32>) -> bool {
    &&& frame_indices_valid(frame_info, frame_indices)
    &&& frame_indices.len() <= u32::MAX
    &&& total(clip_sizes(frame_info, frame_indices)) <= u32::MAX
    &&& 6 * total(shard_sizes(frame_info, frame_indices)) <= u32::MAX
    &&& total(segment_sizes(frame_info, frame_indices)) <= i32::MAX
}

/// The offsets of instance `i`: running sums of the sizes of the instances before it.
pub open spec fn offsets_at(
    frame_info: Seq<FrameInfo>,
    frame_indices: Seq<i32>,
    i: int,
) -> ObjectOffsets {
    ObjectOffsets {
        frame_index: frame_indices[i],
        clip_offset: prefix_sum(clip_sizes(frame_info, frame_indices), i) as u32,
        shard_offset: prefix_sum(shard_sizes(frame_info, frame_indices), i) as i32,
        segment_offset: prefix_sum(segment_sizes(frame_info, frame_indices), i) as i32,
    }
}

/// The element counts that one frame asks of the dynamic buffers.
#[derive(Copy, Clone, Debug, PartialEq, Eq, Structural)]
pub struct FrameDemand {
    /// Live instances: one descriptor each.
    pub instances: u64,
    /// Shards over all instances.
    pub shards: u64,
    /// Segments over all instances.
    pub segments: u64,
    /// Six vertices per shard over all instances.
    pub shard_vertices: u64,
}

/// The demand that a frame with these instances makes.
pub open spec fn demand_of(frame_info: Seq<FrameInfo>, frame_indices: Seq<i32>) -> FrameDemand {
    FrameDemand {
        instances: frame_indices.len() as u64,
        shards: total(shard_sizes(frame_info, frame_indices)) as u64,
        segments: total(segment_sizes(frame_info, frame_indices)) as u64,
        shard_vertices: (6 * total(shard_sizes(frame_info, frame_indices))) as u64,
    }
}

/// Prefix sums of non-negative entries grow with their length.
pub proof fn lemma_prefix_monotone(s: Seq<int>, i: int, j: int)
    requires
        non_negative(s),
        0 <= i <= j <= s.len(),
    ensures
        prefix_sum(s, i) <= prefix_sum(s, j),
        prefix_sum(s, i) >= 0,
    decreases j,
{
    if i < j {
        lemma_prefix_monotone(s, i, j - 1);
    } else if i > 0 {
        lemma_prefix_monotone(s, i - 1, j - 1);
    }
}

/// Prefix sums of entries scaled by a factor are the scaled prefix sums.
pub proof fn lemma_prefix_scaled(s: Seq<int>, t: Seq<int>, k: int, n: int)
    requires
        s.len() == t.len(),
        0 <= n <= s.len(),
        forall|i: int| 0 <= i < s.len() ==> t[i] == k * s[i],
    ensures
        prefix_sum(t, n) == k * prefix_sum(s, n),
    decreases n,
{
    if n > 0 {
        lemma_prefix_scaled(s, t, k, n - 1);
        assert(k * prefix_sum(s, n - 1) + k * s[n - 1] == k * (prefix_sum(s, n - 1) + s[n - 1]))
            by (nonlinear_arith);
    }
}

/// Prefix sums of non-negative sizes partition `[0, total)` into one region per entry.
pub proof fn lemma_prefix_partition(s: Seq<int>)
    requires
        non_negative(s),
    ensures
        is_partition(s),
{
    assert forall|i: int, j: int| 0 <= i < j < s.len() implies #[trigger] prefix_sum(s, i) + s[i]
        <= #[trigger] prefix_sum(s, j) by {
        lemma_prefix_monotone(s, i + 1, j);
    }
    assert forall|p: int| 0 <= p < total(s) implies #[trigger] covered(s, p) by {
        lemma_prefix_cover(s, s.len() as int, p);
    }
}

proof fn lemma_prefix_cover(s: Seq<int>, n: int, p: int)
    requires
        non_negative(s),
        0 <= n <= s.len(),
        0 <= p < prefix_sum(s, n),
    ensures
        exists|i: int| 0 <= i < n && #[trigger] in_region(s, i, p),
    decreases n,
{
    if n > 0 {
        lemma_prefix_monotone(s, 0, n - 1);
        if p >= prefix_sum(s, n - 1) {
            assert(in_region(s, n - 1, p));
        } else {
            lemma_prefix_cover(s, n - 1, p);
        }
    }
}

/// The offsets written into the instance descriptors partition the clip space, the shard
/// space, the segment buffer and the shard-vertex buffer into disjoint, contiguous,
/// gap-free regions, one per instance and each exactly the size of its frame, for any
/// number of instances and any frame sizes.
pub proof fn lemma_offsets_partition(frame_info: Seq<FrameInfo>, frame_indices: Seq<i32>)
    ensures
        is_partition(clip_sizes(frame_info, frame_indices)),
        is_partition(shard_sizes(frame_info, frame_indices)),
        is_partition(segment_sizes(frame_info, frame_indices)),
        is_partition(shard_vertex_sizes(frame_info, frame_indices)),
        forall|i: int|
            0 <= i <= frame_indices.len() ==> #[trigger] prefix_sum(
                shard_vertex_sizes(frame_info, frame_indices),
                i,
            ) == 6 * prefix_sum(shard_sizes(frame_info, frame_indices), i),
{
    let shards = shard_sizes(frame_info, frame_indices);
    let vertices = shard_vertex_sizes(frame_info, frame_indices);
    lemma_prefix_partition(clip_sizes(frame_info, frame_indices));
    lemma_prefix_partition(shards);
    lemma_prefix_partition(segment_sizes(frame_info, frame_indices));
    lemma_prefix_partition(vertices);
    assert forall|i: int| 0 <= i <= frame_indices.len() implies #[trigger] prefix_sum(
        vertices,
        i,
    ) == 6 * prefix_sum(shards, i) by {
        lemma_prefix_scaled(shards, vertices, 6, i);
    }
}

/// Totals the demand that a frame makes of the dynamic buffers, or `None` when the frame is
/// not admissible (an instance names no frame, or a total does not fit its field).
pub fn frame_demand(frame_info: &Vec<FrameInfo>, frame_indices: &Vec<i32>) -> (r: Option<
    FrameDemand,
>)
    ensures
        r.is_some() == frame_admissible(frame_info@, frame_indices@),
        r.is_some() ==> r.unwrap() == demand_of(frame_info@, frame_indices@),
{
    let ghost fi = frame_info@;
    let ghost idx = frame_indices@;
    let n = frame_indices.len();
    if n > u32::MAX as usize {
        return None;
    }
    let mut clips: u64 = 0;
    let mut shards: u64 = 0;
    let mut segments: u64 = 0;
    let mut i: usize = 0;
    while i < n
        invariant
            n == idx.len(),
            n <= u32::MAX,
            fi == frame_info@,
            idx == frame_indices@,
            i <= n,
            forall|k: int| 0 <= k < i ==> 0 <= #[trigger] idx[k] < fi.len(),
            clips == prefix_sum(clip_sizes(fi, idx), i as int),
            shards == prefix_sum(shard_sizes(fi, idx), i as int),
            segments == prefix_sum(segment_sizes(fi, idx), i as int),
            clips <= u32::MAX,
            6 * shards <= u32::MAX,
            segments <= i32::MAX,
        decreases n - i,
    {
        let f = frame_indices[i];
        if f < 0 || f as usize >= frame_info.len() {
            return None;
        }
        let info = frame_info[f as usize];
        clips = clips + info.clip_size as u64;
        shards = shards + info.shard_size as u64;
        segments = segments + info.segment_size as u64;
        i = i + 1;
        if clips > u32::MAX as u64 || shards > (u32::MAX / 6) as u64 || segments > i32::MAX as u64 {
            proof {
                lemma_prefix_monotone(clip_sizes(fi, idx), i as int, n as int);
                lemma_prefix_monotone(shard_sizes(fi, idx), i as int, n as int);
                lemma_prefix_monotone(segment_sizes(fi, idx), i as int, n as int);
            }
            return None;
        }
    }
    Some(FrameDemand { instances: n as u64, shards, segments, shard_vertices: shards * 6 })
}

/// Lays out the instance descriptors of a frame: instance `i` keeps its frame index and
/// starts where the regions of instances `0..i` end.
pub fn frame_offsets(frame_info: &Vec<FrameInfo>, frame_indices: &Vec<i32>) -> (r: Vec<
    ObjectOffsets,
>)
    requires
        frame_admissible(frame_info@, frame_indices@),
    ensures
        r.len() == frame_indices.len(),
        forall|i: int|
            0 <= i < r.len() ==> #[trigger] r[i] == offsets_at(frame_info@, frame_indices@, i),
{
    let ghost fi = frame_info@;
    let ghost idx = frame_indices@;
    let n = frame_indices.len();
    let mut out: Vec<ObjectOffsets> = Vec::new();
    let mut clip_offset: u32 = 0;
    let mut shard_offset: i32 = 0;
    let mut segment_offset: i32 = 0;
    let mut i: usize = 0;
    while i < n
        invariant
            n == idx.len(),
            fi == frame_info@,
            idx == frame_indices@,
            frame_admissible(fi, idx),
            i <= n,
            out.len() == i,
            forall|k: int| 0 <= k < i ==> #[trigger] out[k] == offsets_at(fi, idx, k),
            clip_offset == prefix_sum(clip_sizes(fi, idx), i as int),
            shard_offset == prefix_sum(shard_sizes(fi, idx), i as int),
            segment_offset == prefix_sum(segment_sizes(fi, idx), i as int),
        decreases n - i,
    {
        let f = frame_indices[i];
        let info = frame_info[f as usize];
        out.push(ObjectOffsets { frame_index: f, clip_offset, shard_offset, segment_offset });
        proof {
            assert(clip_sizes(fi, idx)[i as int] == info.clip_size as int);
            assert(shard_sizes(fi, idx)[i as int] == info.shard_size as int);
            assert(segment_sizes(fi, idx)[i as int] == info.segment_size as int);
            assert(prefix_sum(clip_sizes(fi, idx), i + 1) == clip_offset + info.clip_size);
            assert(prefix_sum(shard_sizes(fi, idx), i + 1) == shard_offset + info.shard_size);
            assert(prefix_sum(segment_sizes(fi, idx), i + 1) == segment_offset
                + info.segment_size);
            lemma_prefix_monotone(clip_sizes(fi, idx), i + 1, n as int);
            lemma_prefix_monotone(shard_sizes(fi, idx), i + 1, n as int);
            lemma_prefix_monotone(segment_sizes(fi, idx), i + 1, n as int);
            lemma_prefix_monotone(shard_sizes(fi, idx), i as int, n as int);
            lemma_prefix_monotone(segment_sizes(fi, idx), i as int, n as int);
        }
        clip_offset = clip_offset + info.clip_size;
        shard_offset = shard_offset + info.shard_size as i32;
        segment_offset = segment_offset + info.segment_size as i32;
        i = i + 1;
    }
    out
}

} // verus!
