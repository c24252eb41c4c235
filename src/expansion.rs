use crate::buffer_structs::FrameInfo;
use crate::model::{frame_info_of, ModelLayout, SimpleLoader};
use crate::scene::{frame_admissible, prefix_sum, segment_sizes, shard_sizes};
use vstd::prelude::*;

verus! {

/// One element of the segment expansion buffer: a copy of a model segment, tagged with the
/// instance it was expanded for. Its vertex indices still refer to the model's vertices.
#[derive(Copy, Clone, Debug)]
pub struct ExpandedSegment {
    pub instance: u32,
    pub idx: [i32; 4],
}

/// One element of the shard-vertex expansion buffer: corner `corner` (of six, two
/// triangles) of model shard `shard`, drawn for instance `instance`. The shard's bounding
/// box, color and clip depth are read from that model shard unchanged; the instance's
/// transform places it.
#[derive(Copy, Clone, Debug, PartialEq, Eq, Structural)]
pub struct ShardVertexSource {
    pub instance: u32,
    pub shard: u32,
    pub corner: u32,
}

/// The contents of both expansion buffers for one frame.
#[derive(Clone, Debug)]
pub struct Expansion {
    pub segments: Vec<ExpandedSegment>,
    pub shard_vertices: Vec<ShardVertexSource>,
}

/// The region that instance `i`, drawing frame `f`, writes into the segment buffer.
pub open spec fn instance_segments(model: ModelLayout, i: int, f: int) -> Seq<ExpandedSegment> {
    let frame = model.frames[f];
    let start = frame.segment_range[0] as int;
    Seq::new(
        (frame.segment_range[1] - frame.segment_range[0]) as nat,
        |k: int| ExpandedSegment { instance: i as u32, idx: model.segments[start + k].idx },
    )
}

/// The region that instance `i`, drawing frame `f`, writes into the shard-vertex buffer:
/// six corners for each of the frame's shards, shard by shard.
pub open spec fn instance_shard_vertices(model: ModelLayout, i: int, f: int) -> Seq<
    ShardVertexSource,
> {
    let frame = model.frames[f];
    let start = frame.shard_range[0] as int;
    Seq::new(
        (6 * (frame.shard_range[1] - frame.shard_range[0])) as nat,
        |p: int|
            ShardVertexSource {
                instance: i as u32,
                shard: (start + p / 6) as u32,
                corner: (p % 6) as u32,
            },
    )
}

/// The segment buffer for instances drawing `frame_indices`: their regions one after another.
pub open spec fn expanded_segments(model: ModelLayout, frame_indices: Seq<i32>) -> Seq<
    ExpandedSegment,
>
    decreases frame_indices.len(),
{
    if frame_indices.len() == 0 {
        seq![]
    } else {
        let n = frame_indices.len() - 1;
        expanded_segments(model, frame_indices.drop_last()) + instance_segments(
            model,
            n,
            frame_indices[n] as int,
        )
    }
}

/// The shard-vertex buffer for instances drawing `frame_indices`: their regions one after
/// another.
pub open spec fn expanded_shard_vertices(model: ModelLayout, frame_indices: Seq<i32>) -> Seq<
    ShardVertexSource,
>
    decreases frame_indices.len(),
{
    if frame_indices.len() == 0 {
        seq![]
    } else {
        let n = frame_indices.len() - 1;
        expanded_shard_vertices(model, frame_indices.drop_last()) + instance_shard_vertices(
            model,
            n,
            frame_indices[n] as int,
        )
    }
}

/// Prefix sums only read the entries before them.
proof fn lemma_prefix_of_take(s: Seq<int>, m: int, n: int)
    requires
        0 <= n <= m <= s.len(),
    ensures
        prefix_sum(s.take(m), n) == prefix_sum(s, n),
    decreases n,
{
    if n > 0 {
        lemma_prefix_of_take(s, m, n - 1);
    }
}

/// Each instance's regions start at its offsets: the expanded buffers hold, at the
/// instance's segment offset and at six times its shard offset, exactly the instance's
/// own regions.
pub proof fn lemma_expansion_placement(
    model: ModelLayout,
    frame_indices: Seq<i32>,
    i: int,
)
    requires
        model.frames_wf(),
        forall|k: int|
            0 <= k < frame_indices.len() ==> 0 <= #[trigger] frame_indices[k]
                < model.frames.len(),
        0 <= i < frame_indices.len(),
    ensures
        ({
            let fi = model.frame_infos();
            let seg_at = prefix_sum(segment_sizes(fi, frame_indices), i);
            let sv_at = 6 * prefix_sum(shard_sizes(fi, frame_indices), i);
            let own_seg = instance_segments(model, i, frame_indices[i] as int);
            let own_sv = instance_shard_vertices(model, i, frame_indices[i] as int);
            &&& seg_at + own_seg.len() <= expanded_segments(model, frame_indices).len()
            &&& sv_at + own_sv.len() <= expanded_shard_vertices(model, frame_indices).len()
            &&& forall|k: int|
                0 <= k < own_seg.len() ==> #[trigger] expanded_segments(model, frame_indices)[seg_at
                    + k] == own_seg[k]
            &&& forall|p: int|
                0 <= p < own_sv.len() ==> #[trigger] expanded_shard_vertices(
                    model,
                    frame_indices,
                )[sv_at + p] == own_sv[p]
        }),
    decreases frame_indices.len(),
{
    let fi = model.frame_infos();
    let n = frame_indices.len() - 1;
    let prev = frame_indices.drop_last();
    lemma_expansion_lengths(model, frame_indices);
    lemma_expansion_lengths(model, prev);
    let segs = segment_sizes(fi, frame_indices);
    let shs = shard_sizes(fi, frame_indices);
    assert(segment_sizes(fi, prev) =~= segs.take(n));
    assert(shard_sizes(fi, prev) =~= shs.take(n));
    lemma_prefix_of_take(segs, n, i);
    lemma_prefix_of_take(shs, n, i);
    lemma_prefix_of_take(segs, n, n);
    lemma_prefix_of_take(shs, n, n);
    let all_seg = expanded_segments(model, frame_indices);
    let all_sv = expanded_shard_vertices(model, frame_indices);
    let prev_seg = expanded_segments(model, prev);
    let prev_sv = expanded_shard_vertices(model, prev);
    assert(all_seg == prev_seg + instance_segments(model, n, frame_indices[n] as int));
    assert(all_sv == prev_sv + instance_shard_vertices(model, n, frame_indices[n] as int));
    let seg_at = prefix_sum(segs, i);
    let sv_at = 6 * prefix_sum(shs, i);
    let own_seg = instance_segments(model, i, frame_indices[i] as int);
    let own_sv = instance_shard_vertices(model, i, frame_indices[i] as int);
    crate::scene::lemma_prefix_monotone(segs, i, n);
    crate::scene::lemma_prefix_monotone(shs, i, n);
    if i < n {
        lemma_expansion_placement(model, prev, i);
        assert(prev[i] == frame_indices[i]);
        assert forall|k: int| 0 <= k < own_seg.len() implies #[trigger] all_seg[seg_at + k]
            == own_seg[k] by {
            assert(prev_seg[seg_at + k] == own_seg[k]);
        }
        assert forall|p: int| 0 <= p < own_sv.len() implies #[trigger] all_sv[sv_at + p]
            == own_sv[p] by {
            assert(prev_sv[sv_at + p] == own_sv[p]);
        }
    } else {
        assert(seg_at == prev_seg.len());
        assert(sv_at == prev_sv.len());
        assert forall|k: int| 0 <= k < own_seg.len() implies #[trigger] all_seg[seg_at + k]
            == own_seg[k] by {}
        assert forall|p: int| 0 <= p < own_sv.len() implies #[trigger] all_sv[sv_at + p]
            == own_sv[p] by {}
    }
}

/// The expanded buffers are exactly as long as the totals of the instances' frames.
pub proof fn lemma_expansion_lengths(model: ModelLayout, frame_indices: Seq<i32>)
    requires
        model.frames_wf(),
        forall|k: int|
            0 <= k < frame_indices.len() ==> 0 <= #[trigger] frame_indices[k]
                < model.frames.len(),
    ensures
        expanded_segments(model, frame_indices).len() == prefix_sum(
            segment_sizes(model.frame_infos(), frame_indices),
            frame_indices.len() as int,
        ),
        expanded_shard_vertices(model, frame_indices).len() == 6 * prefix_sum(
            shard_sizes(model.frame_infos(), frame_indices),
            frame_indices.len() as int,
        ),
    decreases frame_indices.len(),
{
    if frame_indices.len() > 0 {
        let fi = model.frame_infos();
        let n = frame_indices.len() - 1;
        let prev = frame_indices.drop_last();
        lemma_expansion_lengths(model, prev);
        let segs = segment_sizes(fi, frame_indices);
        let shs = shard_sizes(fi, frame_indices);
        assert(segment_sizes(fi, prev) =~= segs.take(n));
        assert(shard_sizes(fi, prev) =~= shs.take(n));
        lemma_prefix_of_take(segs, n, n);
        lemma_prefix_of_take(shs, n, n);
        let f = frame_indices[n] as int;
        assert(fi[f] == frame_info_of(model.frames[f], model.shards@));
    }
}

/// Expanding one frame for a single instance copies each of the frame's shards, in order,
/// into six consecutive shard vertices that name that very shard (so its bounding box,
/// color and clip depth reach the raster stage unchanged), and copies each of the frame's
/// segments unchanged.
pub proof fn lemma_single_instance_round_trip(model: ModelLayout, f: i32)
    requires
        model.frames_wf(),
        0 <= f < model.frames.len(),
    ensures
        ({
            let frame = model.frames[f as int];
            let sv = expanded_shard_vertices(model, seq![f]);
            let segs = expanded_segments(model, seq![f]);
            &&& sv.len() == 6 * (frame.shard_range[1] - frame.shard_range[0])
            &&& forall|k: int, c: int|
                0 <= k < frame.shard_range[1] - frame.shard_range[0] && 0 <= c < 6
                    ==> #[trigger] sv[6 * k + c] == (ShardVertexSource {
                    instance: 0,
                    shard: (frame.shard_range[0] + k) as u32,
                    corner: c as u32,
                })
            &&& segs.len() == frame.segment_range[1] - frame.segment_range[0]
            &&& forall|k: int|
                0 <= k < segs.len() ==> (#[trigger] segs[k]).idx == model.segments[frame.segment_range[0]
                    + k].idx && segs[k].instance == 0
        }),
{
    let one = seq![f];
    let none = one.drop_last();
    assert(none =~= Seq::<i32>::empty());
    assert(expanded_shard_vertices(model, none) =~= Seq::<ShardVertexSource>::empty());
    assert(expanded_segments(model, none) =~= Seq::<ExpandedSegment>::empty());
    assert(one[0] == f);
    assert(expanded_shard_vertices(model, one) =~= instance_shard_vertices(model, 0, f as int));
    assert(expanded_segments(model, one) =~= instance_segments(model, 0, f as int));
    let frame = model.frames[f as int];
    let sv = expanded_shard_vertices(model, one);
    assert forall|k: int, c: int|
        0 <= k < frame.shard_range[1] - frame.shard_range[0] && 0 <= c < 6 implies #[trigger] sv[6
        * k + c] == (ShardVertexSource {
        instance: 0,
        shard: (frame.shard_range[0] + k) as u32,
        corner: c as u32,
    }) by {
        assert((6 * k + c) / 6 == k && (6 * k + c) % 6 == c) by (nonlinear_arith)
            requires
                0 <= c < 6,
        ;
    }
}

/// A host-side model of what the expansion stage writes on the device: builds, as two
/// vectors, the contents that the segment and shard-vertex expansion buffers receive.
/// Instance by instance, it holds a copy of each of its frame's segments and six corners
/// for each of its frame's shards. Each instance lands at its offsets, in a region of its
/// own. Nothing is written to a device.
pub fn expand_scene(loader: &SimpleLoader, frame_indices: &Vec<i32>) -> (r: Expansion)
    requires
        loader.wf(),
        frame_admissible(loader.frame_info_view(), frame_indices@),
    ensures
        r.segments@ == expanded_segments(loader.model_view(), frame_indices@),
        r.shard_vertices@ == expanded_shard_vertices(loader.model_view(), frame_indices@),
{
    let model = loader.model();
    let ghost m = loader.model_view();
    let ghost idx = frame_indices@;
    let mut segments: Vec<ExpandedSegment> = Vec::new();
    let mut shard_vertices: Vec<ShardVertexSource> = Vec::new();
    let n = frame_indices.len();
    let mut i: usize = 0;
    while i < n
        invariant
            *model == m,
            m.frames_wf(),
            idx == frame_indices@,
            n == idx.len(),
            n <= u32::MAX,
            i <= n,
            forall|k: int| 0 <= k < n ==> 0 <= #[trigger] idx[k] < m.frames.len(),
            segments@ == expanded_segments(m, idx.take(i as int)),
            shard_vertices@ == expanded_shard_vertices(m, idx.take(i as int)),
        decreases n - i,
    {
        let f = frame_indices[i] as usize;
        let frame = model.frames[f];
        proof {
            assert(idx.take(i + 1).drop_last() =~= idx.take(i as int));
            assert(idx.take(i + 1)[i as int] == idx[i as int]);
        }
        let ghost before_seg = segments@;
        let seg_start = frame.segment_range[0];
        let seg_end = frame.segment_range[1];
        let mut s: i32 = seg_start;
        while s < seg_end
            invariant
                *model == m,
                m.frames_wf(),
                frame == m.frames[f as int],
                0 <= seg_start <= s <= seg_end <= m.segments.len(),
                seg_start == frame.segment_range[0],
                seg_end == frame.segment_range[1],
                i < n <= u32::MAX,
                segments@ =~= before_seg + instance_segments(m, i as int, f as int).take(
                    (s - seg_start) as int,
                ),
            decreases seg_end - s,
        {
            segments.push(ExpandedSegment { instance: i as u32, idx: model.segments[s as usize].idx });
            s = s + 1;
        }
        assert(instance_segments(m, i as int, f as int).take((seg_end - seg_start) as int)
            =~= instance_segments(m, i as int, f as int));
        let ghost before_sv = shard_vertices@;
        let shard_start = frame.shard_range[0];
        let shard_end = frame.shard_range[1];
        let mut t: i32 = shard_start;
        while t < shard_end
            invariant
                *model == m,
                m.frames_wf(),
                frame == m.frames[f as int],
                0 <= shard_start <= t <= shard_end <= m.shards.len(),
                shard_start == frame.shard_range[0],
                shard_end == frame.shard_range[1],
                i < n <= u32::MAX,
                shard_vertices@ =~= before_sv + instance_shard_vertices(m, i as int, f as int).take(
                    6 * (t - shard_start),
                ),
            decreases shard_end - t,
        {
            let mut c: u32 = 0;
            while c < 6
                invariant
                    0 <= shard_start <= t < shard_end,
                    shard_start == frame.shard_range[0],
                    shard_end == frame.shard_range[1],
                    frame == m.frames[f as int],
                    i < n <= u32::MAX,
                    c <= 6,
                    shard_vertices@ =~= before_sv + instance_shard_vertices(
                        m,
                        i as int,
                        f as int,
                    ).take(6 * (t - shard_start) + c),
                decreases 6 - c,
            {
                proof {
                    let p = 6 * (t - shard_start) + c;
                    assert(p / 6 == t - shard_start && p % 6 == c) by (nonlinear_arith)
                        requires
                            p == 6 * (t - shard_start) + c,
                            0 <= c < 6,
                    ;
                }
                shard_vertices.push(ShardVertexSource { instance: i as u32, shard: t as u32, corner: c });
                c = c + 1;
            }
            t = t + 1;
        }
        assert(instance_shard_vertices(m, i as int, f as int).take(6 * (shard_end - shard_start))
            =~= instance_shard_vertices(m, i as int, f as int));
        i = i + 1;
    }
    assert(idx.take(n as int) =~= idx);
    Expansion { segments, shard_vertices }
}

} // verus!
