use crate::buffer_structs::{FrameInfo, ObjectOffsets};
use crate::capacity::{
    doublings, grow_capacity, grown_capacity, lemma_grown_bounds, lemma_growth_is_doubling,
};
use vstd::arithmetic::power2::pow2;
use crate::scene::{
    demand_of, frame_admissible, frame_demand, frame_offsets, offsets_at, shard_sizes,
    segment_sizes, total,
};
use vstd::prelude::*;

verus! {

/// The element capacities of the three dynamically sized buffers: instance descriptors,
/// expanded segments and expanded shard vertices.
#[derive(Copy, Clone, Debug, PartialEq, Eq, Structural)]
pub struct FrameCapacities {
    pub objects: u64,
    pub segments: u64,
    pub shard_vertices: u64,
}

/// What one frame must do with the device, decided before anything is recorded.
#[derive(Clone, Debug)]
pub struct FramePlan {
    /// The instance-descriptor buffer must be destroyed and recreated.
    pub resize_objects: bool,
    /// The segment expansion buffer must be destroyed and recreated.
    pub resize_segments: bool,
    /// The shard-vertex expansion buffer must be destroyed and recreated.
    pub resize_shard_vertices: bool,
    /// The binding group over the instance-descriptor buffer must be rebuilt.
    pub rebuild_scene_group: bool,
    /// The binding groups over the two expansion buffers must be rebuilt.
    pub rebuild_frame_groups: bool,
    /// The capacities that the buffers have for this frame.
    pub capacities: FrameCapacities,
    /// One descriptor per live instance, in instance order.
    pub objects: Vec<ObjectOffsets>,
    /// Work groups of the expansion dispatch: one per live instance.
    pub workgroups: u32,
    /// Vertices of the draw: six per shard over all instances.
    pub vertex_count: u32,
}

impl FrameCapacities {
    /// Every capacity is positive, so that doubling can reach any demand.
    pub open spec fn wf(&self) -> bool {
        self.objects >= 1 && self.segments >= 1 && self.shard_vertices >= 1
    }

    /// The capacities after a frame with these instances has been planned.
    pub open spec fn after_frame(self, frame_info: Seq<FrameInfo>, frame_indices: Seq<i32>) -> Self {
        let d = demand_of(frame_info, frame_indices);
        FrameCapacities {
            objects: grown_capacity(self.objects as nat, d.instances as nat) as u64,
            segments: grown_capacity(self.segments as nat, d.segments as nat) as u64,
            shard_vertices: grown_capacity(
                self.shard_vertices as nat,
                d.shard_vertices as nat,
            ) as u64,
        }
    }

    /// A frame with these instances outgrows at least one buffer.
    pub open spec fn needs_resize(self, frame_info: Seq<FrameInfo>, frame_indices: Seq<i32>) -> bool {
        let d = demand_of(frame_info, frame_indices);
        d.instances > self.objects || d.segments > self.segments || d.shard_vertices
            > self.shard_vertices
    }

    /// Every buffer starts with room for one element.
    pub fn new() -> (r: FrameCapacities)
        ensures
            r.objects == 1,
            r.segments == 1,
            r.shard_vertices == 1,
            r.wf(),
    {
        FrameCapacities { objects: 1, segments: 1, shard_vertices: 1 }
    }

    /// Plans one frame: totals its demand, grows each buffer that it outgrows by doubling,
    /// marks the binding groups over grown buffers for rebuilding, and lays out the
    /// instance descriptors. Returns `None`, and changes nothing, when the frame is not
    /// admissible (an instance names no frame, or a total does not fit its field).
    pub fn plan_frame(&mut self, frame_info: &Vec<FrameInfo>, frame_indices: &Vec<i32>) -> (r:
        Option<FramePlan>)
        requires
            old(self).wf(),
        ensures
            r.is_some() == frame_admissible(frame_info@, frame_indices@),
            r.is_none() ==> *final(self) == *old(self),
            r.is_some() ==> ({
                let p = r.unwrap();
                let d = demand_of(frame_info@, frame_indices@);
                &&& *final(self) == old(self).after_frame(frame_info@, frame_indices@)
                &&& final(self).wf()
                &&& p.capacities == *final(self)
                &&& p.resize_objects == (d.instances > old(self).objects)
                &&& p.resize_segments == (d.segments > old(self).segments)
                &&& p.resize_shard_vertices == (d.shard_vertices > old(self).shard_vertices)
                &&& p.rebuild_scene_group == p.resize_objects
                &&& p.rebuild_frame_groups == (p.resize_segments || p.resize_shard_vertices)
                &&& (p.rebuild_scene_group || p.rebuild_frame_groups) == (p.resize_objects
                    || p.resize_segments || p.resize_shard_vertices)
                &&& (p.resize_objects || p.resize_segments || p.resize_shard_vertices)
                    == old(self).needs_resize(frame_info@, frame_indices@)
                &&& final(self).objects >= old(self).objects
                &&& final(self).segments >= old(self).segments
                &&& final(self).shard_vertices >= old(self).shard_vertices
                &&& final(self).objects >= d.instances
                &&& final(self).segments >= d.segments
                &&& final(self).shard_vertices >= d.shard_vertices
                &&& p.objects.len() == frame_indices.len()
                &&& forall|i: int|
                    0 <= i < p.objects.len() ==> #[trigger] p.objects[i] == offsets_at(
                        frame_info@,
                        frame_indices@,
                        i,
                    )
                &&& p.workgroups == frame_indices.len()
                &&& p.vertex_count == d.shard_vertices
            }),
    {
        let demand = match frame_demand(frame_info, frame_indices) {
            Some(d) => d,
            None => {
                return None;
            },
        };
        proof {
            lemma_demand_fits(frame_info@, frame_indices@);
            lemma_grown_bounds(self.objects as nat, demand.instances as nat);
            lemma_grown_bounds(self.segments as nat, demand.segments as nat);
            lemma_grown_bounds(self.shard_vertices as nat, demand.shard_vertices as nat);
        }
        let (objects, resize_objects) = grow_capacity(self.objects, demand.instances);
        let (segments, resize_segments) = grow_capacity(self.segments, demand.segments);
        let (shard_vertices, resize_shard_vertices) = grow_capacity(
            self.shard_vertices,
            demand.shard_vertices,
        );
        self.objects = objects;
        self.segments = segments;
        self.shard_vertices = shard_vertices;
        let offsets = frame_offsets(frame_info, frame_indices);
        Some(
            FramePlan {
                resize_objects,
                resize_segments,
                resize_shard_vertices,
                rebuild_scene_group: resize_objects,
                rebuild_frame_groups: resize_segments || resize_shard_vertices,
                capacities: *self,
                objects: offsets,
                workgroups: demand.instances as u32,
                vertex_count: demand.shard_vertices as u32,
            },
        )
    }
}

/// The pixel format of a target texture.
#[derive(Copy, Clone, Debug, PartialEq, Eq, Structural)]
pub enum TextureFormat {
    /// Depth with at least 24 bits of precision.
    Depth24Plus,
}

/// The uses a target texture is created for.
#[derive(Copy, Clone, Debug, PartialEq, Eq, Structural)]
pub struct TextureUsage {
    pub render_attachment: bool,
    pub texture_binding: bool,
}

/// What a two-dimensional target texture is created with.
#[derive(Copy, Clone, Debug)]
pub struct TextureSpec {
    pub label: &'static str,
    pub width: u32,
    pub height: u32,
    pub depth_or_array_layers: u32,
    pub mip_level_count: u32,
    pub sample_count: u32,
    pub format: TextureFormat,
    pub usage: TextureUsage,
}

/// The textures that the renderer draws into beside the surface: one depth buffer the
/// size of the target.
#[derive(Copy, Clone, Debug)]
pub struct RenderDongle();

impl RenderDongle {
    pub fn new() -> (r: RenderDongle) {
        RenderDongle()
    }

    /// How many target textures the renderer needs.
    pub fn num_textures(&self) -> (r: usize)
        ensures
            r == 1,
    {
        1
    }

    /// The depth buffer: one layer, one mip level and one sample per pixel, as large as
    /// the target, usable as a render attachment and as a bound texture.
    pub fn texture_desc(&self, _index: usize, width: u32, height: u32) -> (r: TextureSpec)
        ensures
            r.label@ == "Depth buffer"@,
            r.width == width,
            r.height == height,
            r.depth_or_array_layers == 1,
            r.mip_level_count == 1,
            r.sample_count == 1,
            r.format == TextureFormat::Depth24Plus,
            r.usage == (TextureUsage { render_attachment: true, texture_binding: true }),
    {
        TextureSpec {
            label: "Depth buffer",
            width,
            height,
            depth_or_array_layers: 1,
            mip_level_count: 1,
            sample_count: 1,
            format: TextureFormat::Depth24Plus,
            usage: TextureUsage { render_attachment: true, texture_binding: true },
        }
    }
}

/// Planning the same frame again, with the same instance count and the same frame
/// references, resizes no buffer and so rebuilds no binding group, and leaves the
/// capacities as they are.
pub proof fn lemma_rerun_is_stable(
    caps: FrameCapacities,
    frame_info: Seq<FrameInfo>,
    frame_indices: Seq<i32>,
)
    requires
        caps.wf(),
        frame_admissible(frame_info, frame_indices),
    ensures
        !caps.after_frame(frame_info, frame_indices).needs_resize(frame_info, frame_indices),
        caps.after_frame(frame_info, frame_indices).after_frame(frame_info, frame_indices)
            == caps.after_frame(frame_info, frame_indices),
{
    let d = demand_of(frame_info, frame_indices);
    lemma_demand_fits(frame_info, frame_indices);
    lemma_grown_bounds(caps.objects as nat, d.instances as nat);
    lemma_grown_bounds(caps.segments as nat, d.segments as nat);
    lemma_grown_bounds(caps.shard_vertices as nat, d.shard_vertices as nat);
    let next = caps.after_frame(frame_info, frame_indices);
    lemma_grown_bounds(next.objects as nat, d.instances as nat);
    lemma_grown_bounds(next.segments as nat, d.segments as nat);
    lemma_grown_bounds(next.shard_vertices as nat, d.shard_vertices as nat);
}

/// One planned frame keeps the capacities positive, never shrinks them, and leaves each
/// buffer large enough for the frame's demand.
pub proof fn lemma_after_frame_bounds(
    caps: FrameCapacities,
    frame_info: Seq<FrameInfo>,
    frame_indices: Seq<i32>,
)
    requires
        caps.wf(),
        frame_admissible(frame_info, frame_indices),
    ensures
        ({
            let next = caps.after_frame(frame_info, frame_indices);
            let d = demand_of(frame_info, frame_indices);
            &&& next.wf()
            &&& next.objects >= caps.objects && next.objects >= d.instances
            &&& next.segments >= caps.segments && next.segments >= d.segments
            &&& next.shard_vertices >= caps.shard_vertices && next.shard_vertices
                >= d.shard_vertices
        }),
{
    let d = demand_of(frame_info, frame_indices);
    lemma_demand_fits(frame_info, frame_indices);
    lemma_grown_bounds(caps.objects as nat, d.instances as nat);
    lemma_grown_bounds(caps.segments as nat, d.segments as nat);
    lemma_grown_bounds(caps.shard_vertices as nat, d.shard_vertices as nat);
}

/// Planning a frame grows each buffer geometrically: its new capacity is the old one
/// doubled the least number of times that holds the frame's demand for it (no doubling
/// when the demand already fits), never a jump straight to the demand.
pub proof fn lemma_plan_growth_is_doubling(
    caps: FrameCapacities,
    frame_info: Seq<FrameInfo>,
    frame_indices: Seq<i32>,
)
    requires
        caps.wf(),
        frame_admissible(frame_info, frame_indices),
    ensures
        ({
            let next = caps.after_frame(frame_info, frame_indices);
            let d = demand_of(frame_info, frame_indices);
            let ko = doublings(caps.objects as nat, d.instances as nat);
            let kg = doublings(caps.segments as nat, d.segments as nat);
            let kv = doublings(caps.shard_vertices as nat, d.shard_vertices as nat);
            &&& next.objects == caps.objects * pow2(ko)
            &&& next.objects >= d.instances
            &&& (ko > 0 ==> caps.objects * pow2((ko - 1) as nat) < d.instances)
            &&& (ko == 0 <==> d.instances <= caps.objects)
            &&& next.segments == caps.segments * pow2(kg)
            &&& next.segments >= d.segments
            &&& (kg > 0 ==> caps.segments * pow2((kg - 1) as nat) < d.segments)
            &&& (kg == 0 <==> d.segments <= caps.segments)
            &&& next.shard_vertices == caps.shard_vertices * pow2(kv)
            &&& next.shard_vertices >= d.shard_vertices
            &&& (kv > 0 ==> caps.shard_vertices * pow2((kv - 1) as nat) < d.shard_vertices)
            &&& (kv == 0 <==> d.shard_vertices <= caps.shard_vertices)
        }),
{
    let d = demand_of(frame_info, frame_indices);
    lemma_after_frame_bounds(caps, frame_info, frame_indices);
    lemma_demand_fits(frame_info, frame_indices);
    lemma_grown_bounds(caps.objects as nat, d.instances as nat);
    lemma_grown_bounds(caps.segments as nat, d.segments as nat);
    lemma_grown_bounds(caps.shard_vertices as nat, d.shard_vertices as nat);
    lemma_growth_is_doubling(caps.objects as nat, d.instances as nat);
    lemma_growth_is_doubling(caps.segments as nat, d.segments as nat);
    lemma_growth_is_doubling(caps.shard_vertices as nat, d.shard_vertices as nat);
}

/// The capacities after planning a sequence of frames in order, starting from `caps`.
/// Each frame is given by the frame indices of its instances.
pub open spec fn capacities_after_frames(
    caps: FrameCapacities,
    frame_info: Seq<FrameInfo>,
    frames: Seq<Seq<i32>>,
) -> FrameCapacities
    decreases frames.len(),
{
    if frames.len() == 0 {
        caps
    } else {
        capacities_after_frames(caps, frame_info, frames.drop_last()).after_frame(
            frame_info,
            frames.last(),
        )
    }
}

/// Over any sequence of planned frames, no capacity ever decreases from one frame to a
/// later one, and after each frame every buffer holds the largest demand that any frame
/// so far made of it.
pub proof fn lemma_frame_sequence(
    caps: FrameCapacities,
    frame_info: Seq<FrameInfo>,
    frames: Seq<Seq<i32>>,
)
    requires
        caps.wf(),
        forall|k: int| 0 <= k < frames.len() ==> frame_admissible(frame_info, #[trigger] frames[k]),
    ensures
        forall|i: int|
            0 <= i <= frames.len() ==> (#[trigger] capacities_after_frames(
                caps,
                frame_info,
                frames.take(i),
            )).wf(),
        forall|i: int, j: int|
            0 <= i <= j <= frames.len() ==> {
                let a = capacities_after_frames(caps, frame_info, #[trigger] frames.take(i));
                let b = capacities_after_frames(caps, frame_info, #[trigger] frames.take(j));
                a.objects <= b.objects && a.segments <= b.segments && a.shard_vertices
                    <= b.shard_vertices
            },
        forall|i: int, k: int|
            0 <= k < i <= frames.len() ==> {
                let c = capacities_after_frames(caps, frame_info, #[trigger] frames.take(i));
                let d = demand_of(frame_info, #[trigger] frames[k]);
                c.objects >= d.instances && c.segments >= d.segments && c.shard_vertices
                    >= d.shard_vertices
            },
    decreases frames.len(),
{
    let n = frames.len() as int;
    if n > 0 {
        let prev = frames.drop_last();
        assert forall|k: int| 0 <= k < prev.len() implies frame_admissible(
            frame_info,
            #[trigger] prev[k],
        ) by {
            assert(prev[k] == frames[k]);
        }
        lemma_frame_sequence(caps, frame_info, prev);
        assert(prev.take(prev.len() as int) =~= prev);
        assert forall|i: int| 0 <= i <= prev.len() implies #[trigger] frames.take(i) == prev.take(
            i,
        ) by {
            assert(frames.take(i) =~= prev.take(i));
        }
        assert(frames.take(n) =~= frames);
        let c = capacities_after_frames(caps, frame_info, prev);
        assert(c == capacities_after_frames(caps, frame_info, prev.take(prev.len() as int)));
        assert(frame_admissible(frame_info, frames[n - 1]));
        lemma_after_frame_bounds(c, frame_info, frames.last());
        let last = capacities_after_frames(caps, frame_info, frames);
        assert forall|i: int| 0 <= i <= n implies (#[trigger] capacities_after_frames(
            caps,
            frame_info,
            frames.take(i),
        )).wf() by {
            if i < n {
                assert(frames.take(i) == prev.take(i));
            }
        }
        assert forall|i: int, j: int| 0 <= i <= j <= n implies {
            let a = capacities_after_frames(caps, frame_info, #[trigger] frames.take(i));
            let b = capacities_after_frames(caps, frame_info, #[trigger] frames.take(j));
            a.objects <= b.objects && a.segments <= b.segments && a.shard_vertices
                <= b.shard_vertices
        } by {
            if i < n {
                assert(frames.take(i) == prev.take(i));
                let a = capacities_after_frames(caps, frame_info, prev.take(i));
                let p = capacities_after_frames(caps, frame_info, prev.take(prev.len() as int));
                assert(a.objects <= p.objects && a.segments <= p.segments && a.shard_vertices
                    <= p.shard_vertices);
                if j < n {
                    assert(frames.take(j) == prev.take(j));
                }
            }
        }
        assert forall|i: int, k: int| 0 <= k < i <= n implies {
            let c = capacities_after_frames(caps, frame_info, #[trigger] frames.take(i));
            let d = demand_of(frame_info, #[trigger] frames[k]);
            c.objects >= d.instances && c.segments >= d.segments && c.shard_vertices
                >= d.shard_vertices
        } by {
            if i < n {
                assert(frames.take(i) == prev.take(i));
                assert(prev[k] == frames[k]);
            } else if k < n - 1 {
                assert(prev[k] == frames[k]);
                let p = capacities_after_frames(caps, frame_info, prev.take(prev.len() as int));
                let d = demand_of(frame_info, prev[k]);
                assert(p.objects >= d.instances && p.segments >= d.segments && p.shard_vertices
                    >= d.shard_vertices);
            }
        }
    }
}

/// The totals of an admissible frame are what its demand holds, and stay far below the
/// largest demand that doubling can serve.
proof fn lemma_demand_fits(frame_info: Seq<FrameInfo>, frame_indices: Seq<i32>)
    requires
        frame_admissible(frame_info, frame_indices),
    ensures
        demand_of(frame_info, frame_indices).segments == total(
            segment_sizes(frame_info, frame_indices),
        ),
        demand_of(frame_info, frame_indices).shard_vertices == 6 * total(
            shard_sizes(frame_info, frame_indices),
        ),
        total(segment_sizes(frame_info, frame_indices)) >= 0,
        total(shard_sizes(frame_info, frame_indices)) >= 0,
{
    let seg = segment_sizes(frame_info, frame_indices);
    let sh = shard_sizes(frame_info, frame_indices);
    crate::scene::lemma_prefix_monotone(seg, 0, seg.len() as int);
    crate::scene::lemma_prefix_monotone(sh, 0, sh.len() as int);
}

} // verus!
