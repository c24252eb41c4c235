use crate::render::{
    buffer_layout_entry, create_bind_group_layout_entry_buffer, pad_to_copy_buffer_alignment, padded_size,
    BufferSpec, BufferUsage, LayoutEntry, LayoutEnum, StageMask, UsageClass,
};
use vstd::prelude::*;

verus! {

/// One boundary primitive of a model: up to three indices into the model's global
/// vertex array, and an unused fourth slot. Negative indices mark unused slots.
#[derive(Copy, Clone, Debug)]
pub struct ModelSegment {
    pub idx: [i32; 4],
}

/// One animation frame of a model: half-open ranges into the model's shards and segments.
#[derive(Copy, Clone, Debug)]
pub struct ModelFrame {
    pub shard_range: [i32; 2],
    pub segment_range: [i32; 2],
}

/// Sizes derived once per model frame: the number of clip layers its shards use
/// (one more than the deepest clip depth), its shard count and its segment count.
#[derive(Copy, Clone, Debug, PartialEq, Eq, Structural)]
pub struct FrameInfo {
    pub clip_size: u32,
    pub shard_size: u32,
    pub segment_size: u32,
}

/// The integer part of an instance descriptor: which frame the instance draws, and where
/// its regions start in the clip space and in the two expansion buffers.
#[derive(Copy, Clone, Debug, PartialEq, Eq, Structural)]
pub struct ObjectOffsets {
    pub frame_index: i32,
    pub clip_offset: u32,
    pub shard_offset: i32,
    pub segment_offset: i32,
}

impl Default for FrameInfo {
    /// A frame with no shards and no segments.
    fn default() -> (r: FrameInfo)
        ensures
            r.clip_size == 0,
            r.shard_size == 0,
            r.segment_size == 0,
    {
        FrameInfo { clip_size: 0, shard_size: 0, segment_size: 0 }
    }
}

/// Bytes of the world uniform: two 4x4 matrices of 32-bit floats, from world to clip
/// coordinates and from fragment to clip coordinates.
pub const UNIFORMS_SIZE: u64 = 128;

/// Bytes of a model shard: bounding box and color (four 32-bit floats each), its segment
/// range (two `i32`), its clip depth and one word of padding.
pub const MODEL_SHARD_SIZE: u64 = 48;

/// Bytes of a model frame: its shard range and its segment range, two `i32` each.
pub const MODEL_FRAME_SIZE: u64 = 16;

/// Bytes of an instance descriptor: a 4x4 matrix of 32-bit floats, the frame index and
/// the three offsets.
pub const FRAME_OBJECT_SIZE: u64 = 80;

/// The usage class and visibility of a storage slot that only the expansion stage reads.
pub open spec fn compute_read_entry(binding: u32, size: nat) -> LayoutEntry {
    LayoutEntry {
        binding,
        visibility: StageMask { vertex: false, fragment: false, compute: true },
        class: UsageClass::ReadOnlyStorage,
        min_binding_size: Some(size as u64),
    }
}

/// The uniform slots: the world (camera and viewport) transforms.
#[derive(Copy, Clone, Debug, PartialEq, Eq, Structural)]
pub enum UniformGroup {
    World,
}

impl LayoutEnum for UniformGroup {
    open spec fn spec_entries() -> Seq<Self> {
        seq![UniformGroup::World]
    }

    open spec fn spec_size(&self) -> nat {
        padded_size(UNIFORMS_SIZE as nat)
    }

    open spec fn spec_binding(&self) -> u32 {
        0
    }

    open spec fn spec_layout_entry(&self) -> LayoutEntry {
        LayoutEntry {
            binding: 0,
            visibility: StageMask { vertex: true, fragment: true, compute: true },
            class: UsageClass::Uniform,
            min_binding_size: Some(self.spec_size() as u64),
        }
    }

    open spec fn spec_label(&self) -> Seq<char> {
        "World uniform buffer"@
    }

    /// One uniform, whatever the count.
    open spec fn spec_buffer_size(&self, count: nat) -> nat {
        self.spec_size()
    }

    open spec fn spec_usage(&self) -> BufferUsage {
        BufferUsage { uniform: true, storage: false, copy_dst: true }
    }

    fn entries() -> (r: Vec<Self>) {
        let r = vec![UniformGroup::World];
        assert(r@ =~= Self::spec_entries());
        assert forall|t: Self| #[trigger] Self::spec_entries().contains(t) by {
            assert(Self::spec_entries()[0] == t);
        }
        r
    }

    fn size(&self) -> (r: u64) {
        match self {
            UniformGroup::World => pad_to_copy_buffer_alignment(UNIFORMS_SIZE),
        }
    }

    fn binding(&self) -> (r: u32) {
        match self {
            UniformGroup::World => 0,
        }
    }

    fn layout_entry(&self) -> (r: LayoutEntry) {
        match self {
            UniformGroup::World => buffer_layout_entry(
                self.binding(),
                self.size(),
                StageMask { vertex: true, fragment: true, compute: true },
                UsageClass::Uniform,
            ),
        }
    }

    fn buffer_descriptor(&self, _count: u64) -> (r: BufferSpec) {
        BufferSpec {
            label: match self {
                UniformGroup::World => "World uniform buffer",
            },
            size: self.size(),
            usage: BufferUsage { uniform: true, storage: false, copy_dst: true },
        }
    }
}

/// The static model slots, uploaded once and only read by the expansion stage.
#[derive(Copy, Clone, Debug, PartialEq, Eq, Structural)]
pub enum ModelGroup {
    Vertex,
    Segment,
    Shard,
    Frame,
}

impl LayoutEnum for ModelGroup {
    open spec fn spec_entries() -> Seq<Self> {
        seq![ModelGroup::Vertex, ModelGroup::Segment, ModelGroup::Shard, ModelGroup::Frame]
    }

    open spec fn spec_size(&self) -> nat {
        match self {
            ModelGroup::Vertex => 8,
            ModelGroup::Segment => 16,
            ModelGroup::Shard => MODEL_SHARD_SIZE as nat,
            ModelGroup::Frame => MODEL_FRAME_SIZE as nat,
        }
    }

    open spec fn spec_binding(&self) -> u32 {
        match self {
            ModelGroup::Vertex => 0,
            ModelGroup::Segment => 1,
            ModelGroup::Shard => 2,
            ModelGroup::Frame => 3,
        }
    }

    open spec fn spec_layout_entry(&self) -> LayoutEntry {
        compute_read_entry(self.spec_binding(), self.spec_size())
    }

    open spec fn spec_label(&self) -> Seq<char> {
        match self {
            ModelGroup::Vertex => "Model vertex buffer"@,
            ModelGroup::Segment => "Model segment buffer"@,
            ModelGroup::Shard => "Model shard buffer"@,
            ModelGroup::Frame => "Model frame buffer"@,
        }
    }

    open spec fn spec_buffer_size(&self, count: nat) -> nat {
        self.spec_size() * count
    }

    open spec fn spec_usage(&self) -> BufferUsage {
        BufferUsage { uniform: false, storage: true, copy_dst: true }
    }

    fn entries() -> (r: Vec<Self>) {
        let r = vec![ModelGroup::Vertex, ModelGroup::Segment, ModelGroup::Shard, ModelGroup::Frame];
        assert(r@ =~= Self::spec_entries());
        assert forall|t: Self| #[trigger] Self::spec_entries().contains(t) by {
            let i: int = match t {
                ModelGroup::Vertex => 0,
                ModelGroup::Segment => 1,
                ModelGroup::Shard => 2,
                ModelGroup::Frame => 3,
            };
            assert(Self::spec_entries()[i] == t);
        }
        r
    }

    fn size(&self) -> (r: u64) {
        match self {
            ModelGroup::Vertex => 8,
            ModelGroup::Segment => 16,
            ModelGroup::Shard => MODEL_SHARD_SIZE,
            ModelGroup::Frame => MODEL_FRAME_SIZE,
        }
    }

    fn binding(&self) -> (r: u32) {
        match self {
            ModelGroup::Vertex => 0,
            ModelGroup::Segment => 1,
            ModelGroup::Shard => 2,
            ModelGroup::Frame => 3,
        }
    }

    fn layout_entry(&self) -> (r: LayoutEntry) {
        buffer_layout_entry(
            self.binding(),
            self.size(),
            StageMask { vertex: false, fragment: false, compute: true },
            UsageClass::ReadOnlyStorage,
        )
    }

    fn buffer_descriptor(&self, count: u64) -> (r: BufferSpec) {
        BufferSpec {
            label: match self {
                ModelGroup::Vertex => "Model vertex buffer",
                ModelGroup::Segment => "Model segment buffer",
                ModelGroup::Shard => "Model shard buffer",
                ModelGroup::Frame => "Model frame buffer",
            },
            size: self.size() * count,
            usage: BufferUsage { uniform: false, storage: true, copy_dst: true },
        }
    }
}

/// The scene slots: one descriptor per live instance, rewritten every frame.
#[derive(Copy, Clone, Debug, PartialEq, Eq, Structural)]
pub enum SceneGroup {
    Object,
}

impl LayoutEnum for SceneGroup {
    open spec fn spec_entries() -> Seq<Self> {
        seq![SceneGroup::Object]
    }

    open spec fn spec_size(&self) -> nat {
        FRAME_OBJECT_SIZE as nat
    }

    open spec fn spec_binding(&self) -> u32 {
        0
    }

    open spec fn spec_layout_entry(&self) -> LayoutEntry {
        compute_read_entry(0, FRAME_OBJECT_SIZE as nat)
    }

    open spec fn spec_label(&self) -> Seq<char> {
        "Scene objects buffer"@
    }

    open spec fn spec_buffer_size(&self, count: nat) -> nat {
        self.spec_size() * count
    }

    open spec fn spec_usage(&self) -> BufferUsage {
        BufferUsage { uniform: false, storage: true, copy_dst: true }
    }

    fn entries() -> (r: Vec<Self>) {
        let r = vec![SceneGroup::Object];
        assert(r@ =~= Self::spec_entries());
        assert forall|t: Self| #[trigger] Self::spec_entries().contains(t) by {
            assert(Self::spec_entries()[0] == t);
        }
        r
    }

    fn size(&self) -> (r: u64) {
        match self {
            SceneGroup::Object => FRAME_OBJECT_SIZE,
        }
    }

    fn binding(&self) -> (r: u32) {
        match self {
            SceneGroup::Object => 0,
        }
    }

    fn layout_entry(&self) -> (r: LayoutEntry) {
        buffer_layout_entry(
            self.binding(),
            self.size(),
            StageMask { vertex: false, fragment: false, compute: true },
            UsageClass::ReadOnlyStorage,
        )
    }

    fn buffer_descriptor(&self, count: u64) -> (r: BufferSpec) {
        BufferSpec {
            label: "Scene objects buffer",
            size: self.size() * count,
            usage: BufferUsage { uniform: false, storage: true, copy_dst: true },
        }
    }
}

/// The expansion slots: per-instance copies of segments and six vertices per shard,
/// written by the expansion stage and read by the raster stage.
#[derive(Copy, Clone, Debug, PartialEq, Eq, Structural)]
pub enum FrameGroup {
    Segment,
    ShardVertex,
}

impl LayoutEnum for FrameGroup {
    open spec fn spec_entries() -> Seq<Self> {
        seq![FrameGroup::Segment, FrameGroup::ShardVertex]
    }

    open spec fn spec_size(&self) -> nat {
        match self {
            FrameGroup::Segment => 32,
            FrameGroup::ShardVertex => 48,
        }
    }

    open spec fn spec_binding(&self) -> u32 {
        match self {
            FrameGroup::Segment => 0,
            FrameGroup::ShardVertex => 1,
        }
    }

    open spec fn spec_layout_entry(&self) -> LayoutEntry {
        LayoutEntry {
            binding: self.spec_binding(),
            visibility: StageMask { vertex: false, fragment: false, compute: true },
            class: UsageClass::ReadWriteStorage,
            min_binding_size: Some(self.spec_size() as u64),
        }
    }

    open spec fn spec_label(&self) -> Seq<char> {
        match self {
            FrameGroup::Segment => "Frame segments buffer"@,
            FrameGroup::ShardVertex => "Frame shards vertex buffer"@,
        }
    }

    open spec fn spec_buffer_size(&self, count: nat) -> nat {
        self.spec_size() * count
    }

    /// Written only by the device, never by the host.
    open spec fn spec_usage(&self) -> BufferUsage {
        BufferUsage { uniform: false, storage: true, copy_dst: false }
    }

    fn entries() -> (r: Vec<Self>) {
        let r = vec![FrameGroup::Segment, FrameGroup::ShardVertex];
        assert(r@ =~= Self::spec_entries());
        assert forall|t: Self| #[trigger] Self::spec_entries().contains(t) by {
            let i: int = match t {
                FrameGroup::Segment => 0,
                FrameGroup::ShardVertex => 1,
            };
            assert(Self::spec_entries()[i] == t);
        }
        r
    }

    fn size(&self) -> (r: u64) {
        match self {
            FrameGroup::Segment => 32,
            FrameGroup::ShardVertex => 48,
        }
    }

    fn binding(&self) -> (r: u32) {
        match self {
            FrameGroup::Segment => 0,
            FrameGroup::ShardVertex => 1,
        }
    }

    fn layout_entry(&self) -> (r: LayoutEntry) {
        buffer_layout_entry(
            self.binding(),
            self.size(),
            StageMask { vertex: false, fragment: false, compute: true },
            UsageClass::ReadWriteStorage,
        )
    }

    fn buffer_descriptor(&self, count: u64) -> (r: BufferSpec) {
        BufferSpec {
            label: match self {
                FrameGroup::Segment => "Frame segments buffer",
                FrameGroup::ShardVertex => "Frame shards vertex buffer",
            },
            size: self.size() * count,
            usage: BufferUsage { uniform: false, storage: true, copy_dst: false },
        }
    }
}

impl FrameGroup {
    /// The layout through which the raster stage reads the expansion buffers: segments
    /// from fragments, shard vertices from vertices, both read only.
    pub fn read_layout_entries() -> (r: Vec<LayoutEntry>)
        ensures
            r@ == seq![
                LayoutEntry {
                    binding: 0,
                    visibility: StageMask { vertex: false, fragment: true, compute: false },
                    class: UsageClass::ReadOnlyStorage,
                    min_binding_size: Some(32),
                },
                LayoutEntry {
                    binding: 1,
                    visibility: StageMask { vertex: true, fragment: false, compute: false },
                    class: UsageClass::ReadOnlyStorage,
                    min_binding_size: Some(48),
                },
            ],
    {
        let r = vec![
            create_bind_group_layout_entry_buffer(
                &FrameGroup::Segment,
                StageMask { vertex: false, fragment: true, compute: false },
                UsageClass::ReadOnlyStorage,
            ),
            create_bind_group_layout_entry_buffer(
                &FrameGroup::ShardVertex,
                StageMask { vertex: true, fragment: false, compute: false },
                UsageClass::ReadOnlyStorage,
            ),
        ];
        assert(r@ =~= seq![
            LayoutEntry {
                binding: 0,
                visibility: StageMask { vertex: false, fragment: true, compute: false },
                class: UsageClass::ReadOnlyStorage,
                min_binding_size: Some(32),
            },
            LayoutEntry {
                binding: 1,
                visibility: StageMask { vertex: true, fragment: false, compute: false },
                class: UsageClass::ReadOnlyStorage,
                min_binding_size: Some(48),
            },
        ]);
        r
    }
}

} // verus!
