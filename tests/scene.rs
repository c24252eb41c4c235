use fightish::buffer_structs::{FrameInfo, ObjectOffsets};
use fightish::scene::{frame_demand, frame_offsets, FrameDemand};

fn info(clip_size: u32, shard_size: u32, segment_size: u32) -> FrameInfo {
    FrameInfo { clip_size, shard_size, segment_size }
}

#[test]
fn two_instances_of_one_frame() {
    let frames = vec![info(2, 2, 7)];
    let instances = vec![0, 0];
    let d = frame_demand(&frames, &instances).unwrap();
    assert_eq!(d, FrameDemand { instances: 2, shards: 4, segments: 14, shard_vertices: 24 });
    let offsets = frame_offsets(&frames, &instances);
    assert_eq!(
        offsets,
        vec![
            ObjectOffsets { frame_index: 0, clip_offset: 0, shard_offset: 0, segment_offset: 0 },
            ObjectOffsets { frame_index: 0, clip_offset: 2, shard_offset: 2, segment_offset: 7 },
        ]
    );
}

#[test]
fn offsets_are_running_sums_over_mixed_frames() {
    let frames = vec![info(1, 3, 5), info(0, 0, 0), info(4, 2, 9)];
    let instances = vec![2, 0, 1, 2, 0];
    let offsets = frame_offsets(&frames, &instances);
    let clip: Vec<u32> = offsets.iter().map(|o| o.clip_offset).collect();
    let shard: Vec<i32> = offsets.iter().map(|o| o.shard_offset).collect();
    let segment: Vec<i32> = offsets.iter().map(|o| o.segment_offset).collect();
    assert_eq!(clip, vec![0, 4, 5, 5, 9]);
    assert_eq!(shard, vec![0, 2, 5, 5, 7]);
    assert_eq!(segment, vec![0, 9, 14, 14, 23]);
    let indices: Vec<i32> = offsets.iter().map(|o| o.frame_index).collect();
    assert_eq!(indices, instances);
    let d = frame_demand(&frames, &instances).unwrap();
    assert_eq!(d, FrameDemand { instances: 5, shards: 10, segments: 28, shard_vertices: 60 });
}

#[test]
fn regions_are_disjoint_and_gap_free() {
    let frames = vec![info(3, 1, 2), info(2, 4, 1), info(1, 0, 6)];
    let instances = vec![1, 1, 0, 2, 1, 0];
    let offsets = frame_offsets(&frames, &instances);
    let d = frame_demand(&frames, &instances).unwrap();
    let mut covered = vec![0u32; d.segments as usize];
    let mut vertices = vec![0u32; d.shard_vertices as usize];
    for (o, &f) in offsets.iter().zip(instances.iter()) {
        let fi = frames[f as usize];
        for k in 0..fi.segment_size as usize {
            covered[o.segment_offset as usize + k] += 1;
        }
        for k in 0..6 * fi.shard_size as usize {
            vertices[6 * o.shard_offset as usize + k] += 1;
        }
    }
    assert!(covered.iter().all(|&c| c == 1));
    assert!(vertices.iter().all(|&c| c == 1));
}

#[test]
fn no_instances_make_no_demand() {
    let frames = vec![info(2, 2, 7)];
    let instances: Vec<i32> = vec![];
    let d = frame_demand(&frames, &instances).unwrap();
    assert_eq!(d, FrameDemand { instances: 0, shards: 0, segments: 0, shard_vertices: 0 });
    assert!(frame_offsets(&frames, &instances).is_empty());
}

#[test]
fn unknown_frame_is_refused() {
    let frames = vec![info(2, 2, 7)];
    assert_eq!(frame_demand(&frames, &vec![0, 1]), None);
    assert_eq!(frame_demand(&frames, &vec![-1]), None);
    assert_eq!(frame_demand(&vec![], &vec![0]), None);
}

#[test]
fn totals_beyond_descriptor_fields_are_refused() {
    let big_segments = vec![info(0, 0, i32::MAX as u32)];
    assert!(frame_demand(&big_segments, &vec![0]).is_some());
    assert_eq!(frame_demand(&big_segments, &vec![0, 0]), None);
    let big_shards = vec![info(0, u32::MAX / 6, 0)];
    assert!(frame_demand(&big_shards, &vec![0]).is_some());
    assert_eq!(frame_demand(&big_shards, &vec![0, 0]), None);
    let big_clips = vec![info(u32::MAX, 0, 0), info(1, 0, 0)];
    assert!(frame_demand(&big_clips, &vec![0]).is_some());
    assert_eq!(frame_demand(&big_clips, &vec![0, 1]), None);
}
