use fightish::buffer_structs::{FrameInfo, ObjectOffsets};
use fightish::engine::{FrameCapacities, RenderDongle, TextureFormat, TextureUsage};

fn info(clip_size: u32, shard_size: u32, segment_size: u32) -> FrameInfo {
    FrameInfo { clip_size, shard_size, segment_size }
}

#[test]
fn capacities_start_at_one() {
    let c = FrameCapacities::new();
    assert_eq!(c, FrameCapacities { objects: 1, segments: 1, shard_vertices: 1 });
}

#[test]
fn five_instances_grow_descriptor_buffer_to_eight_in_one_frame() {
    let mut c = FrameCapacities::new();
    let frames = vec![info(0, 0, 0)];
    let plan = c.plan_frame(&frames, &vec![0; 5]).unwrap();
    assert_eq!(c.objects, 8);
    assert!(plan.resize_objects);
    assert!(plan.rebuild_scene_group);
    assert!(!plan.resize_segments);
    assert!(!plan.resize_shard_vertices);
    assert!(!plan.rebuild_frame_groups);
    assert_eq!(plan.capacities, c);
    assert_eq!(plan.workgroups, 5);
    assert_eq!(plan.vertex_count, 0);
}

#[test]
fn two_instances_of_the_sample_frame() {
    let mut c = FrameCapacities::new();
    let frames = vec![info(2, 2, 7)];
    let plan = c.plan_frame(&frames, &vec![0, 0]).unwrap();
    assert_eq!(c, FrameCapacities { objects: 2, segments: 16, shard_vertices: 32 });
    assert!(plan.resize_objects && plan.resize_segments && plan.resize_shard_vertices);
    assert!(plan.rebuild_scene_group && plan.rebuild_frame_groups);
    assert_eq!(plan.vertex_count, 24);
    assert_eq!(plan.workgroups, 2);
    assert_eq!(
        plan.objects,
        vec![
            ObjectOffsets { frame_index: 0, clip_offset: 0, shard_offset: 0, segment_offset: 0 },
            ObjectOffsets { frame_index: 0, clip_offset: 2, shard_offset: 2, segment_offset: 7 },
        ]
    );
}

#[test]
fn rerunning_a_frame_resizes_and_rebuilds_nothing() {
    let mut c = FrameCapacities::new();
    let frames = vec![info(2, 2, 7), info(1, 1, 3)];
    let instances = vec![0, 1, 1, 0, 1];
    let first = c.plan_frame(&frames, &instances).unwrap();
    assert!(first.resize_objects || first.resize_segments || first.resize_shard_vertices);
    let after_first = c;
    let second = c.plan_frame(&frames, &instances).unwrap();
    assert_eq!(c, after_first);
    assert!(!second.resize_objects && !second.resize_segments && !second.resize_shard_vertices);
    assert!(!second.rebuild_scene_group && !second.rebuild_frame_groups);
    assert_eq!(second.objects, first.objects);
}

#[test]
fn rebuild_follows_resize_per_group() {
    let mut c = FrameCapacities { objects: 8, segments: 1, shard_vertices: 64 };
    let frames = vec![info(1, 1, 3)];
    let plan = c.plan_frame(&frames, &vec![0, 0]).unwrap();
    assert!(!plan.resize_objects && !plan.rebuild_scene_group);
    assert!(plan.resize_segments && !plan.resize_shard_vertices);
    assert!(plan.rebuild_frame_groups);
    assert_eq!(c, FrameCapacities { objects: 8, segments: 8, shard_vertices: 64 });

    let plan = c.plan_frame(&frames, &vec![0; 9]).unwrap();
    assert!(plan.resize_objects && plan.rebuild_scene_group);
    assert!(plan.resize_segments && plan.rebuild_frame_groups);
    assert_eq!(c, FrameCapacities { objects: 16, segments: 32, shard_vertices: 64 });
}

#[test]
fn smaller_frame_keeps_capacities() {
    let mut c = FrameCapacities::new();
    let frames = vec![info(2, 2, 7)];
    c.plan_frame(&frames, &vec![0; 6]).unwrap();
    let grown = c;
    let plan = c.plan_frame(&frames, &vec![0]).unwrap();
    assert_eq!(c, grown);
    assert!(!plan.rebuild_scene_group && !plan.rebuild_frame_groups);
}

#[test]
fn inadmissible_frame_changes_nothing() {
    let mut c = FrameCapacities::new();
    let frames = vec![info(2, 2, 7)];
    assert!(c.plan_frame(&frames, &vec![0, 3]).is_none());
    assert_eq!(c, FrameCapacities::new());
}

#[test]
fn depth_texture_matches_target() {
    let d = RenderDongle::new();
    assert_eq!(d.num_textures(), 1);
    let t = d.texture_desc(0, 640, 480);
    assert_eq!(t.label, "Depth buffer");
    assert_eq!((t.width, t.height), (640, 480));
    assert_eq!(t.depth_or_array_layers, 1);
    assert_eq!(t.mip_level_count, 1);
    assert_eq!(t.sample_count, 1);
    assert_eq!(t.format, TextureFormat::Depth24Plus);
    assert_eq!(t.usage, TextureUsage { render_attachment: true, texture_binding: true });
}

#[test]
fn capacities_hold_the_largest_demand_so_far() {
    let mut c = FrameCapacities::new();
    let frames = vec![info(1, 2, 5), info(3, 1, 1)];
    let sequence: Vec<Vec<i32>> = vec![vec![0, 0, 0], vec![1], vec![0; 7], vec![], vec![1, 0]];
    let mut seen = (0u64, 0u64, 0u64);
    let mut before = c;
    for instances in &sequence {
        c.plan_frame(&frames, instances).unwrap();
        let segments: u64 = instances.iter().map(|&f| frames[f as usize].segment_size as u64).sum();
        let shards: u64 = instances.iter().map(|&f| frames[f as usize].shard_size as u64).sum();
        seen = (seen.0.max(instances.len() as u64), seen.1.max(segments), seen.2.max(6 * shards));
        assert!(c.objects >= seen.0 && c.segments >= seen.1 && c.shard_vertices >= seen.2);
        assert!(c.objects >= before.objects);
        assert!(c.segments >= before.segments);
        assert!(c.shard_vertices >= before.shard_vertices);
        before = c;
    }
    assert_eq!(c, FrameCapacities { objects: 8, segments: 64, shard_vertices: 128 });
}
