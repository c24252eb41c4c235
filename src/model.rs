use crate::buffer_structs::{FrameInfo, ModelFrame, ModelSegment};
use crate::scene::{lemma_prefix_monotone, prefix_sum, total};
use vstd::prelude::*;

verus! {

/// What the sizing logic reads of a shard: its half-open segment range and its clip depth.
/// The shard's bounding box and color travel beside it to the device untouched.
#[derive(Copy, Clone, Debug)]
pub struct ShardLayout {
    pub segment_range: [i32; 2],
    pub clip_depth: u32,
}

/// The integer structure of a model: how many vertices it has, its segments, its shards
/// and its frames. Vertex positions are kept by whoever uploads the model.
#[derive(Clone, Debug)]
pub struct ModelLayout {
    pub vertex_count: usize,
    pub segments: Vec<ModelSegment>,
    pub shards: Vec<ShardLayout>,
    pub frames: Vec<ModelFrame>,
}

/// A half-open range `[r[0], r[1])` that lies inside `0..len`.
pub open spec fn range_within(r: [i32; 2], len: int) -> bool {
    0 <= r[0] <= r[1] <= len
}

/// The deepest clip depth among `shards[lo..hi]`, or 0 when the range is empty.
pub open spec fn max_clip_depth(shards: Seq<ShardLayout>, lo: int, hi: int) -> nat
    decreases hi - lo,
{
    if hi <= lo {
        0
    } else {
        let rest = max_clip_depth(shards, lo, hi - 1);
        let d = shards[hi - 1].clip_depth as nat;
        if d > rest {
            d
        } else {
            rest
        }
    }
}

/// The sizes of a frame: one clip layer more than its deepest shard (none when it has no
/// shards), its number of shards and its number of segments.
pub open spec fn frame_info_of(frame: ModelFrame, shards: Seq<ShardLayout>) -> FrameInfo {
    let lo = frame.shard_range[0] as int;
    let hi = frame.shard_range[1] as int;
    FrameInfo {
        clip_size: if lo == hi {
            0
        } else {
            (max_clip_depth(shards, lo, hi) + 1) as u32
        },
        shard_size: (hi - lo) as u32,
        segment_size: (frame.segment_range[1] - frame.segment_range[0]) as u32,
    }
}

impl ModelLayout {
    /// The frames' ranges lie inside the shard and segment arrays, and every shard that a
    /// frame holds has a clip depth that leaves room for one more layer.
    pub open spec fn frames_wf(&self) -> bool {
        &&& forall|i: int|
            0 <= i < self.frames.len() ==> range_within(
                (#[trigger] self.frames[i]).shard_range,
                self.shards.len() as int,
            ) && range_within(self.frames[i].segment_range, self.segments.len() as int)
        &&& forall|i: int, s: int|
            #![trigger self.frames[i], self.shards[s]]
            0 <= i < self.frames.len() && self.frames[i].shard_range[0] <= s
                < self.frames[i].shard_range[1] ==> self.shards[s].clip_depth < u32::MAX
    }

    /// Every range of the model is well placed: segments reference existing vertices,
    /// shards reference existing segments, and each frame's segment range covers the
    /// segments of its shards.
    pub open spec fn wf(&self) -> bool {
        &&& self.frames_wf()
        &&& forall|i: int, k: int|
            0 <= i < self.segments.len() && 0 <= k < 4 ==> -1 <= #[trigger] self.segments[i].idx[k]
                < self.vertex_count
        &&& forall|i: int|
            0 <= i < self.shards.len() ==> range_within(
                #[trigger] self.shards[i].segment_range,
                self.segments.len() as int,
            )
        &&& forall|i: int, s: int|
            0 <= i < self.frames.len() && self.frames[i].shard_range[0] <= s
                < self.frames[i].shard_range[1] ==> self.frames[i].segment_range[0]
                <= #[trigger] self.shards[s].segment_range[0] && self.shards[s].segment_range[1]
                <= #[trigger] self.frames[i].segment_range[1]
    }

    /// The sizes of every frame, in frame order.
    pub open spec fn frame_infos(&self) -> Seq<FrameInfo> {
        Seq::new(self.frames.len() as nat, |i: int| frame_info_of(self.frames[i], self.shards@))
    }
}

impl ModelLayout {
    /// Tells whether the frames' ranges lie inside the shard and segment arrays and every
    /// clip depth leaves room for one more layer, as loading requires.
    pub fn frames_are_wf(&self) -> (r: bool)
        ensures
            r == self.frames_wf(),
    {
        let mut i: usize = 0;
        while i < self.frames.len()
            invariant
                i <= self.frames.len(),
                forall|k: int|
                    0 <= k < i ==> range_within(
                        (#[trigger] self.frames[k]).shard_range,
                        self.shards.len() as int,
                    ) && range_within(self.frames[k].segment_range, self.segments.len() as int),
            decreases self.frames.len() - i,
        {
            let f = &self.frames[i];
            if !(0 <= f.shard_range[0] && f.shard_range[0] <= f.shard_range[1]
                && f.shard_range[1] as usize <= self.shards.len() && 0 <= f.segment_range[0]
                && f.segment_range[0] <= f.segment_range[1] && f.segment_range[1] as usize
                <= self.segments.len()) {
                assert(!range_within(self.frames[i as int].shard_range, self.shards.len() as int)
                    || !range_within(self.frames[i as int].segment_range, self.segments.len() as int));
                return false;
            }
            i = i + 1;
        }
        let mut j: usize = 0;
        while j < self.frames.len()
            invariant
                j <= self.frames.len(),
                forall|k: int| 0 <= k < self.frames.len() ==> range_within(
                    (#[trigger] self.frames[k]).shard_range,
                    self.shards.len() as int,
                ) && range_within(self.frames[k].segment_range, self.segments.len() as int),
                forall|k: int, t: int|
                    #![trigger self.frames[k], self.shards[t]]
                    0 <= k < j && self.frames[k].shard_range[0] <= t < self.frames[k].shard_range[1]
                        ==> self.shards[t].clip_depth < u32::MAX,
            decreases self.frames.len() - j,
        {
            let lo = self.frames[j].shard_range[0];
            let hi = self.frames[j].shard_range[1];
            let mut t: i32 = lo;
            while t < hi
                invariant
                    j < self.frames.len(),
                    lo == self.frames[j as int].shard_range[0],
                    hi == self.frames[j as int].shard_range[1],
                    range_within(self.frames[j as int].shard_range, self.shards.len() as int),
                    lo <= t <= hi,
                    forall|u: int| lo <= u < t ==> #[trigger] self.shards[u].clip_depth < u32::MAX,
                decreases hi - t,
            {
                if self.shards[t as usize].clip_depth == u32::MAX {
                    assert(self.frames[j as int].shard_range[0] <= t < self.frames[j as int].shard_range[1]);
                    assert(self.shards[t as int].clip_depth == u32::MAX);
                    return false;
                }
                t = t + 1;
            }
            assert forall|k: int, u: int|
                #![trigger self.frames[k], self.shards[u]]
                0 <= k < j + 1 && self.frames[k].shard_range[0] <= u < self.frames[k].shard_range[1]
                    implies self.shards[u].clip_depth < u32::MAX by {
                if k == j {
                    assert(self.shards[u].clip_depth < u32::MAX);
                }
            }
            j = j + 1;
        }
        true
    }
}

/// Derives the sizes of one frame of a model.
pub fn frame_info_for(frame: &ModelFrame, shards: &Vec<ShardLayout>, segment_count: usize) -> (r:
    FrameInfo)
    requires
        range_within(frame.shard_range, shards.len() as int),
        range_within(frame.segment_range, segment_count as int),
        forall|s: int|
            frame.shard_range[0] <= s < frame.shard_range[1] ==> #[trigger] shards[s].clip_depth
                < u32::MAX,
    ensures
        r == frame_info_of(*frame, shards@),
{
    let lo = frame.shard_range[0];
    let hi = frame.shard_range[1];
    let segment_size = (frame.segment_range[1] - frame.segment_range[0]) as u32;
    if lo == hi {
        return FrameInfo { clip_size: 0, shard_size: 0, segment_size };
    }
    let mut deepest: u32 = 0;
    let mut i: i32 = lo;
    while i < hi
        invariant
            lo <= i <= hi,
            0 <= lo,
            hi <= shards.len(),
            deepest == max_clip_depth(shards@, lo as int, i as int),
            deepest < u32::MAX,
            lo == frame.shard_range[0],
            hi == frame.shard_range[1],
            forall|s: int|
                frame.shard_range[0] <= s < frame.shard_range[1] ==> #[trigger] shards[s].clip_depth
                    < u32::MAX,
        decreases hi - i,
    {
        let d = shards[i as usize].clip_depth;
        if d > deepest {
            deepest = d;
        }
        i = i + 1;
    }
    FrameInfo { clip_size: deepest + 1, shard_size: (hi - lo) as u32, segment_size }
}

/// A model together with the sizes of its frames, derived once when it is loaded.
#[derive(Debug)]
pub struct SimpleLoader {
    model: ModelLayout,
    frame_info: Vec<FrameInfo>,
}

impl SimpleLoader {
    /// The model that was loaded.
    pub closed spec fn model_view(&self) -> ModelLayout {
        self.model
    }

    /// The sizes of the model's frames.
    pub closed spec fn frame_info_view(&self) -> Seq<FrameInfo> {
        self.frame_info@
    }

    /// The model's frames are well placed and their sizes were derived from them.
    pub open spec fn wf(&self) -> bool {
        self.model_view().frames_wf() && self.frame_info_view() == self.model_view().frame_infos()
    }

    /// Loads a model and derives the sizes of each of its frames.
    pub fn new(model: ModelLayout) -> (r: SimpleLoader)
        requires
            model.frames_wf(),
        ensures
            r.wf(),
            r.model_view() == model,
            r.frame_info_view() == model.frame_infos(),
    {
        let mut frame_info: Vec<FrameInfo> = Vec::new();
        let n = model.frames.len();
        let mut i: usize = 0;
        while i < n
            invariant
                i <= n,
                n == model.frames.len(),
                model.frames_wf(),
                frame_info.len() == i,
                forall|k: int|
                    0 <= k < i ==> #[trigger] frame_info[k] == frame_info_of(
                        model.frames[k],
                        model.shards@,
                    ),
            decreases n - i,
        {
            let info = frame_info_for(&model.frames[i], &model.shards, model.segments.len());
            frame_info.push(info);
            i = i + 1;
        }
        assert(frame_info@ =~= model.frame_infos());
        SimpleLoader { model, frame_info }
    }

    /// The sizes of the model's frames, indexed by frame.
    pub fn frame_info(&self) -> (r: &Vec<FrameInfo>)
        ensures
            r@ == self.frame_info_view(),
    {
        &self.frame_info
    }

    /// The loaded model.
    pub fn model(&self) -> (r: &ModelLayout)
        ensures
            *r == self.model_view(),
    {
        &self.model
    }
}

/// Segment `j` of a closed outline of `n` segments whose first segment is segment `base`.
/// The outline owns the `2 * n` vertices from `2 * base` on: `n` control vertices, then `n`
/// corners. Segment `j` runs from the corner before it to corner `j` around control vertex `j`.
pub open spec fn outline_segment_ok(seg: ModelSegment, n: int, base: int, j: int) -> bool {
    let corner = 2 * base + n;
    &&& seg.idx[0] == corner + if j == 0 {
        n - 1
    } else {
        j - 1
    }
    &&& seg.idx[1] == corner + j
    &&& seg.idx[2] == 2 * base + j
    &&& seg.idx[3] == -1
}

/// Every shard's segments form its closed outline.
pub open spec fn outlines_ok(shards: Seq<ShardLayout>, segments: Seq<ModelSegment>) -> bool {
    forall|t: int, k: int|
        #![trigger shards[t], segments[k]]
        0 <= t < shards.len() && shards[t].segment_range[0] <= k < shards[t].segment_range[1]
            ==> outline_segment_ok(
            segments[k],
            shards[t].segment_range[1] - shards[t].segment_range[0],
            shards[t].segment_range[0] as int,
            k - shards[t].segment_range[0],
        )
}

/// The segment counts of one frame's shards.
pub open spec fn row_counts(row: Seq<u32>) -> Seq<int> {
    Seq::new(row.len(), |i: int| row[i] as int)
}

/// The number of segments of each frame of a generated model.
pub open spec fn frame_segment_counts(shape: Seq<Seq<u32>>) -> Seq<int> {
    Seq::new(shape.len(), |f: int| total(row_counts(shape[f])))
}

/// The number of shards of each frame of a generated model.
pub open spec fn frame_shard_counts(shape: Seq<Seq<u32>>) -> Seq<int> {
    Seq::new(shape.len(), |f: int| shape[f].len() as int)
}

/// Where shard `s` of frame `f` stands among all shards.
pub open spec fn shard_slot(shape: Seq<Seq<u32>>, f: int, s: int) -> int {
    prefix_sum(frame_shard_counts(shape), f) + s
}

/// Where the segments of shard `s` of frame `f` start.
pub open spec fn shard_segment_start(shape: Seq<Seq<u32>>, f: int, s: int) -> int {
    prefix_sum(frame_segment_counts(shape), f) + prefix_sum(row_counts(shape[f]), s)
}

/// Shard `s` of frame `f` has clip depth `s` and the segments that its count gives it.
pub open spec fn shard_placed(shape: Seq<Seq<u32>>, shard: ShardLayout, f: int, s: int) -> bool {
    &&& shard.clip_depth == s
    &&& shard.segment_range[0] == shard_segment_start(shape, f, s)
    &&& shard.segment_range[1] == shard_segment_start(shape, f, s) + shape[f][s]
}

/// Frame `f` holds its shards and their segments, after those of the frames before it.
pub open spec fn frame_placed(shape: Seq<Seq<u32>>, frame: ModelFrame, f: int) -> bool {
    &&& frame.shard_range[0] == prefix_sum(frame_shard_counts(shape), f)
    &&& frame.shard_range[1] == prefix_sum(frame_shard_counts(shape), f + 1)
    &&& frame.segment_range[0] == prefix_sum(frame_segment_counts(shape), f)
    &&& frame.segment_range[1] == prefix_sum(frame_segment_counts(shape), f + 1)
}

/// The rows of a shape as sequences.
pub open spec fn shape_view(shape: Seq<Vec<u32>>) -> Seq<Seq<u32>> {
    Seq::new(shape.len(), |f: int| shape[f]@)
}

proof fn lemma_frame_counts_non_negative(shape: Seq<Seq<u32>>)
    ensures
        crate::scene::non_negative(frame_segment_counts(shape)),
        crate::scene::non_negative(frame_shard_counts(shape)),
{
    assert forall|f: int| 0 <= f < shape.len() implies frame_segment_counts(shape)[f] >= 0 by {
        lemma_prefix_monotone(row_counts(shape[f]), 0, shape[f].len() as int);
    }
}

proof fn lemma_outlines_push_segment(
    shards: Seq<ShardLayout>,
    segments: Seq<ModelSegment>,
    x: ModelSegment,
)
    requires
        outlines_ok(shards, segments),
        forall|t: int|
            0 <= t < shards.len() ==> 0 <= (#[trigger] shards[t]).segment_range[0]
                && shards[t].segment_range[1] <= segments.len(),
    ensures
        outlines_ok(shards, segments.push(x)),
{
    assert forall|t: int, k: int|
        #![trigger shards[t], segments.push(x)[k]]
        0 <= t < shards.len() && shards[t].segment_range[0] <= k < shards[t].segment_range[1]
            implies outline_segment_ok(
        segments.push(x)[k],
        shards[t].segment_range[1] - shards[t].segment_range[0],
        shards[t].segment_range[0] as int,
        k - shards[t].segment_range[0],
    ) by {
        assert(segments.push(x)[k] == segments[k]);
    }
}

proof fn lemma_outlines_push_shard(
    shards: Seq<ShardLayout>,
    segments: Seq<ModelSegment>,
    x: ShardLayout,
)
    requires
        outlines_ok(shards, segments),
        forall|k: int|
            x.segment_range[0] <= k < x.segment_range[1] ==> outline_segment_ok(
                #[trigger] segments[k],
                x.segment_range[1] - x.segment_range[0],
                x.segment_range[0] as int,
                k - x.segment_range[0],
            ),
    ensures
        outlines_ok(shards.push(x), segments),
{
    let ys = shards.push(x);
    assert forall|t: int, k: int|
        #![trigger ys[t], segments[k]]
        0 <= t < ys.len() && ys[t].segment_range[0] <= k < ys[t].segment_range[1]
            implies outline_segment_ok(
        segments[k],
        ys[t].segment_range[1] - ys[t].segment_range[0],
        ys[t].segment_range[0] as int,
        k - ys[t].segment_range[0],
    ) by {
        if t < shards.len() {
            assert(ys[t] == shards[t]);
        }
    }
}

/// Builds the structure of a generated test model from its shape: frame `f` has
/// `shape[f].len()` shards, and its shard `s` has clip depth `s` and `shape[f][s]` segments
/// forming a closed outline over `2 * shape[f][s]` vertices of its own. Frames, shards,
/// segments and vertices are laid out in order, each after the ones before it.
pub fn make_load_test_layout(shape: &Vec<Vec<u32>>) -> (r: ModelLayout)
    requires
        2 * total(frame_segment_counts(shape_view(shape@))) <= i32::MAX,
        total(frame_shard_counts(shape_view(shape@))) <= i32::MAX,
    ensures
        r.wf(),
        r.frames.len() == shape.len(),
        r.shards.len() == total(frame_shard_counts(shape_view(shape@))),
        r.segments.len() == total(frame_segment_counts(shape_view(shape@))),
        r.vertex_count == 2 * r.segments.len(),
        forall|f: int| 0 <= f < r.frames.len() ==> frame_placed(shape_view(shape@), #[trigger] r.frames[f], f),
        forall|f: int, s: int|
            0 <= f < shape.len() && 0 <= s < shape[f].len() ==> shard_placed(
                shape_view(shape@),
                r.shards[#[trigger] shard_slot(shape_view(shape@), f, s)],
                f,
                s,
            ),
        outlines_ok(r.shards@, r.segments@),
{
    let ghost sh = shape_view(shape@);
    let ghost fsc = frame_shard_counts(sh);
    let ghost fseg = frame_segment_counts(sh);
    proof {
        lemma_frame_counts_non_negative(sh);
    }
    let mut vertex_count: usize = 0;
    let mut segments: Vec<ModelSegment> = Vec::new();
    let mut shards: Vec<ShardLayout> = Vec::new();
    let mut frames: Vec<ModelFrame> = Vec::new();
    let nf = shape.len();
    let mut f: usize = 0;
    while f < nf
        invariant
            sh == shape_view(shape@),
            fsc == frame_shard_counts(sh),
            fseg == frame_segment_counts(sh),
            crate::scene::non_negative(fsc),
            crate::scene::non_negative(fseg),
            nf == shape.len(),
            2 * total(fseg) <= i32::MAX,
            total(fsc) <= i32::MAX,
            f <= nf,
            frames.len() == f,
            shards.len() == prefix_sum(fsc, f as int),
            segments.len() == prefix_sum(fseg, f as int),
            vertex_count == 2 * segments.len(),
            forall|g: int| 0 <= g < f ==> frame_placed(sh, #[trigger] frames[g], g),
            forall|g: int, s: int|
                0 <= g < f && 0 <= s < sh[g].len() ==> shard_placed(
                    sh,
                    shards[#[trigger] shard_slot(sh, g, s)],
                    g,
                    s,
                ),
            forall|t: int|
                0 <= t < shards.len() ==> 0 <= (#[trigger] shards[t]).segment_range[0]
                    <= shards[t].segment_range[1] <= segments.len() && shards[t].clip_depth
                    < shards.len(),
            forall|k: int, m: int|
                0 <= k < segments.len() && 0 <= m < 4 ==> -1 <= #[trigger] segments[k].idx[m]
                    < vertex_count,
            outlines_ok(shards@, segments@),
        decreases nf - f,
    {
        proof {
            lemma_prefix_monotone(fsc, f + 1, nf as int);
            lemma_prefix_monotone(fseg, f + 1, nf as int);
            lemma_prefix_monotone(fsc, f as int, f + 1);
            lemma_prefix_monotone(fseg, f as int, f + 1);
        }
        let frame_segment_offset = segments.len() as i32;
        let frame_shard_offset = shards.len() as i32;
        let row = &shape[f];
        let ghost rc = row_counts(row@);
        assert(sh[f as int] == row@);
        let ns = row.len();
        let mut s: usize = 0;
        while s < ns
            invariant
                sh == shape_view(shape@),
                fsc == frame_shard_counts(sh),
                fseg == frame_segment_counts(sh),
                crate::scene::non_negative(fsc),
                crate::scene::non_negative(fseg),
                sh[f as int] == row@,
                rc == row_counts(row@),
                ns == row.len(),
                f < nf,
                nf == shape.len(),
                prefix_sum(fsc, f as int) + ns <= total(fsc) <= i32::MAX,
                prefix_sum(fseg, f as int) + total(rc) <= total(fseg),
                2 * total(fseg) <= i32::MAX,
                fsc[f as int] == ns,
                fseg[f as int] == total(rc),
                frame_shard_offset == prefix_sum(fsc, f as int),
                frame_segment_offset == prefix_sum(fseg, f as int),
                s <= ns,
                frames.len() == f,
                shards.len() == prefix_sum(fsc, f as int) + s,
                segments.len() == prefix_sum(fseg, f as int) + prefix_sum(rc, s as int),
                vertex_count == 2 * segments.len(),
                forall|g: int| 0 <= g < f ==> frame_placed(sh, #[trigger] frames[g], g),
                forall|g: int, t: int|
                    (0 <= g < f && 0 <= t < sh[g].len()) || (g == f && 0 <= t < s)
                        ==> shard_placed(sh, shards[#[trigger] shard_slot(sh, g, t)], g, t),
                forall|t: int|
                    0 <= t < shards.len() ==> 0 <= (#[trigger] shards[t]).segment_range[0]
                        <= shards[t].segment_range[1] <= segments.len() && shards[t].clip_depth
                        < shards.len(),
                forall|k: int, m: int|
                    0 <= k < segments.len() && 0 <= m < 4 ==> -1 <= #[trigger] segments[k].idx[m]
                        < vertex_count,
                outlines_ok(shards@, segments@),
            decreases ns - s,
        {
            proof {
                lemma_prefix_monotone(rc, s + 1, ns as int);
                lemma_prefix_monotone(rc, s as int, s + 1);
            }
            let n = row[s];
            let shard_segment_offset = segments.len() as i32;
            let ghost base = shard_segment_offset as int;
            if n > 0 {
                let vertex_offset = vertex_count as i32;
                let corner_offset = vertex_offset + n as i32;
                vertex_count = vertex_count + 2 * n as usize;
                let mut j: u32 = 0;
                while j < n
                    invariant
                        0 < n,
                        base == shard_segment_offset,
                        0 <= base,
                        vertex_offset == 2 * base,
                        corner_offset == 2 * base + n,
                        2 * (base + n) <= i32::MAX,
                        vertex_count == 2 * (base + n),
                        j <= n,
                        segments.len() == base + j,
                        forall|t: int|
                            0 <= t < shards.len() ==> 0 <= (#[trigger] shards[t]).segment_range[0]
                                <= shards[t].segment_range[1] <= base && shards[t].clip_depth
                                < shards.len(),
                        forall|k: int, m: int|
                            0 <= k < segments.len() && 0 <= m < 4 ==> -1
                                <= #[trigger] segments[k].idx[m] < vertex_count,
                        forall|k: int|
                            base <= k < segments.len() ==> outline_segment_ok(
                                #[trigger] segments[k],
                                n as int,
                                base,
                                k - base,
                            ),
                        outlines_ok(shards@, segments@),
                    decreases n - j,
                {
                    let first = if j == 0 {
                        corner_offset + n as i32 - 1
                    } else {
                        corner_offset + j as i32 - 1
                    };
                    let seg = ModelSegment {
                        idx: [first, corner_offset + j as i32, vertex_offset + j as i32, -1],
                    };
                    proof {
                        lemma_outlines_push_segment(shards@, segments@, seg);
                        assert(seg.idx[0] == first && seg.idx[1] == corner_offset + j
                            && seg.idx[2] == vertex_offset + j && seg.idx[3] == -1);
                        assert(outline_segment_ok(seg, n as int, base, j as int));
                    }
                    let ghost before = segments@;
                    segments.push(seg);
                    proof {
                        assert(segments@ == before.push(seg));
                        assert forall|k: int, m: int|
                            0 <= k < segments.len() && 0 <= m < 4 implies -1
                            <= #[trigger] segments[k].idx[m] < vertex_count by {
                            if k < before.len() {
                                assert(segments[k] == before[k]);
                            } else {
                                assert(segments[k] == seg);
                                assert(m == 0 || m == 1 || m == 2 || m == 3);
                            }
                        }
                        assert forall|k: int| base <= k < segments.len() implies outline_segment_ok(
                            #[trigger] segments[k],
                            n as int,
                            base,
                            k - base,
                        ) by {
                            if k < before.len() {
                                assert(segments[k] == before[k]);
                            }
                        }
                    }
                    j = j + 1;
                }
            }
            let shard = ShardLayout {
                segment_range: [shard_segment_offset, segments.len() as i32],
                clip_depth: s as u32,
            };
            proof {
                lemma_outlines_push_shard(shards@, segments@, shard);
                assert(shard_placed(sh, shard, f as int, s as int));
            }
            let ghost before = shards@;
            shards.push(shard);
            proof {
                assert(shards@ == before.push(shard));
                lemma_prefix_monotone(fsc, 0, f as int);
                assert(shard_slot(sh, f as int, s as int) == before.len());
                assert forall|g: int, t: int|
                    (0 <= g < f && 0 <= t < sh[g].len()) || (g == f && 0 <= t < s + 1)
                        implies shard_placed(sh, shards[#[trigger] shard_slot(sh, g, t)], g, t) by {
                    if g < f {
                        lemma_prefix_monotone(fsc, g + 1, f as int);
                        lemma_prefix_monotone(fsc, g, g + 1);
                        assert(prefix_sum(fsc, g + 1) == prefix_sum(fsc, g) + fsc[g]);
                        assert(fsc[g] == sh[g].len());
                        assert(shard_slot(sh, g, t) < before.len());
                        assert(shards[shard_slot(sh, g, t)] == before[shard_slot(sh, g, t)]);
                    } else if t < s {
                        assert(shards[shard_slot(sh, g, t)] == before[shard_slot(sh, g, t)]);
                    }
                }
                assert forall|t: int|
                    0 <= t < shards.len() implies 0 <= (#[trigger] shards[t]).segment_range[0]
                    <= shards[t].segment_range[1] <= segments.len() && shards[t].clip_depth
                    < shards.len() by {
                    if t < before.len() {
                        assert(shards[t] == before[t]);
                    }
                }
            }
            s = s + 1;
        }
        assert(rc =~= row_counts(sh[f as int]));
        let frame = ModelFrame {
            shard_range: [frame_shard_offset, shards.len() as i32],
            segment_range: [frame_segment_offset, segments.len() as i32],
        };
        frames.push(frame);
        f = f + 1;
    }
    let r = ModelLayout { vertex_count, segments, shards, frames };
    proof {
        assert(frames@.len() == nf);
        assert forall|i: int| 0 <= i < r.frames.len() implies range_within(
            (#[trigger] r.frames[i]).shard_range,
            r.shards.len() as int,
        ) && range_within(r.frames[i].segment_range, r.segments.len() as int) by {
            lemma_prefix_monotone(fsc, i, i + 1);
            lemma_prefix_monotone(fsc, i + 1, nf as int);
            lemma_prefix_monotone(fseg, i, i + 1);
            lemma_prefix_monotone(fseg, i + 1, nf as int);
        }
        assert forall|i: int, g: int|
            0 <= i < r.frames.len() && r.frames[i].shard_range[0] <= g
                < r.frames[i].shard_range[1] implies r.frames[i].segment_range[0]
            <= #[trigger] r.shards[g].segment_range[0] && r.shards[g].segment_range[1]
            <= #[trigger] r.frames[i].segment_range[1] by {
            let t = g - prefix_sum(fsc, i);
            let rc = row_counts(sh[i]);
            assert(frame_placed(sh, r.frames[i], i));
            assert(g == shard_slot(sh, i, t));
            assert(shard_placed(sh, r.shards[shard_slot(sh, i, t)], i, t));
            lemma_prefix_monotone(rc, 0, t);
            lemma_prefix_monotone(rc, t + 1, sh[i].len() as int);
        }
    }
    r
}

} // verus!
