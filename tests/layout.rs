use fightish::buffer_structs::{
    FrameGroup, ModelFrame, ModelGroup, ModelSegment, SceneGroup, UniformGroup,
};
use fightish::render::{
    create_bind_group_layout_entry_buffer, layout_entries, pad_to_copy_buffer_alignment,
    BufferUsage, DeviceId, LayoutEntry, LayoutEnum, StageMask, UsageClass,
};

const COMPUTE: StageMask = StageMask { vertex: false, fragment: false, compute: true };

#[test]
fn padding_rounds_up_to_four_and_is_never_empty() {
    assert_eq!(pad_to_copy_buffer_alignment(0), 4);
    assert_eq!(pad_to_copy_buffer_alignment(1), 4);
    assert_eq!(pad_to_copy_buffer_alignment(4), 4);
    assert_eq!(pad_to_copy_buffer_alignment(5), 8);
    assert_eq!(pad_to_copy_buffer_alignment(127), 128);
    assert_eq!(pad_to_copy_buffer_alignment(128), 128);
    assert_eq!(pad_to_copy_buffer_alignment(u64::MAX - 3), u64::MAX - 3);
}

#[test]
fn alignment_agrees_with_backend() {
    assert_eq!(pad_to_copy_buffer_alignment(1), wgpu::COPY_BUFFER_ALIGNMENT);
}

#[test]
fn host_records_match_device_sizes() {
    assert_eq!(std::mem::size_of::<ModelSegment>() as u64, ModelGroup::Segment.size());
    assert_eq!(std::mem::size_of::<ModelFrame>() as u64, ModelGroup::Frame.size());
    assert_eq!(2 * std::mem::size_of::<f32>() as u64, ModelGroup::Vertex.size());
    assert_eq!(2 * 16 * std::mem::size_of::<f32>() as u64, UniformGroup::World.size());
    assert_eq!(8 * 4 + 2 * 4 + 4 + 4, ModelGroup::Shard.size());
    assert_eq!(16 * 4 + 4 * 4, SceneGroup::Object.size());
}

#[test]
fn slots_are_listed_in_binding_order() {
    for (i, t) in ModelGroup::entries().iter().enumerate() {
        assert_eq!(t.binding() as usize, i);
    }
    assert_eq!(
        ModelGroup::entries(),
        vec![ModelGroup::Vertex, ModelGroup::Segment, ModelGroup::Shard, ModelGroup::Frame]
    );
    assert_eq!(FrameGroup::entries(), vec![FrameGroup::Segment, FrameGroup::ShardVertex]);
    assert_eq!(UniformGroup::entries(), vec![UniformGroup::World]);
    assert_eq!(SceneGroup::entries(), vec![SceneGroup::Object]);
}

#[test]
fn element_sizes() {
    assert_eq!(UniformGroup::World.size(), 128);
    assert_eq!(ModelGroup::Vertex.size(), 8);
    assert_eq!(ModelGroup::Segment.size(), 16);
    assert_eq!(ModelGroup::Shard.size(), 48);
    assert_eq!(ModelGroup::Frame.size(), 16);
    assert_eq!(SceneGroup::Object.size(), 80);
    assert_eq!(FrameGroup::Segment.size(), 32);
    assert_eq!(FrameGroup::ShardVertex.size(), 48);
}

#[test]
fn layout_entries_follow_the_registry() {
    let entries = layout_entries::<ModelGroup>();
    assert_eq!(entries.len(), 4);
    assert_eq!(
        entries[2],
        LayoutEntry {
            binding: 2,
            visibility: COMPUTE,
            class: UsageClass::ReadOnlyStorage,
            min_binding_size: Some(48),
        }
    );
    let frame = layout_entries::<FrameGroup>();
    assert_eq!(frame[1].class, UsageClass::ReadWriteStorage);
    assert_eq!(frame[1].min_binding_size, Some(48));
    let uniform = layout_entries::<UniformGroup>();
    assert_eq!(
        uniform,
        vec![LayoutEntry {
            binding: 0,
            visibility: StageMask { vertex: true, fragment: true, compute: true },
            class: UsageClass::Uniform,
            min_binding_size: Some(128),
        }]
    );
    assert_eq!(SceneGroup::Object.layout_entry().visibility, COMPUTE);
}

#[test]
fn entry_helper_keeps_given_visibility() {
    let e = create_bind_group_layout_entry_buffer(
        &FrameGroup::ShardVertex,
        StageMask { vertex: true, fragment: false, compute: false },
        UsageClass::ReadOnlyStorage,
    );
    assert_eq!(e.binding, 1);
    assert_eq!(e.min_binding_size, Some(48));
    assert_eq!(e.visibility, StageMask { vertex: true, fragment: false, compute: false });
    let read = FrameGroup::read_layout_entries();
    assert_eq!(read[1], e);
    assert_eq!(read[0].visibility, StageMask { vertex: false, fragment: true, compute: false });
}

#[test]
fn buffer_descriptors_scale_with_count() {
    let b = FrameGroup::ShardVertex.buffer_descriptor(32);
    assert_eq!(b.label, "Frame shards vertex buffer");
    assert_eq!(b.size, 48 * 32);
    assert_eq!(b.usage, BufferUsage { uniform: false, storage: true, copy_dst: false });
    let s = SceneGroup::Object.buffer_descriptor(8);
    assert_eq!(s.size, 640);
    assert_eq!(s.label, "Scene objects buffer");
    assert_eq!(s.usage, BufferUsage { uniform: false, storage: true, copy_dst: true });
    let m = ModelGroup::Segment.buffer_descriptor(7);
    assert_eq!(m.size, 112);
    assert_eq!(m.label, "Model segment buffer");
    let u = UniformGroup::World.buffer_descriptor(5);
    assert_eq!(u.size, 128);
    assert_eq!(u.label, "World uniform buffer");
    assert_eq!(u.usage, BufferUsage { uniform: true, storage: false, copy_dst: true });
}

#[test]
fn device_id_keeps_its_index() {
    assert_eq!(DeviceId(3).index(), 3);
    assert_eq!(DeviceId(0), DeviceId(0));
}

#[test]
fn uniform_descriptor_ignores_count() {
    for count in [0u64, 1, 7, u64::MAX / 128 + 1, u64::MAX] {
        let u = UniformGroup::World.buffer_descriptor(count);
        assert_eq!(u.size, 128);
        assert_eq!(u.usage, BufferUsage { uniform: true, storage: false, copy_dst: true });
    }
}
