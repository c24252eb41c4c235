use fightish::buffer_structs::{ModelFrame, ModelSegment};
use fightish::expansion::{expand_scene, ShardVertexSource};
use fightish::model::{ModelLayout, ShardLayout, SimpleLoader};

fn sample() -> ModelLayout {
    let seg = |a: i32, b: i32, c: i32| ModelSegment { idx: [a, b, c, -1] };
    ModelLayout {
        vertex_count: 5,
        segments: vec![
            seg(0, 2, -1),
            seg(2, 3, 0),
            seg(3, 1, -1),
            seg(1, 0, -1),
            seg(0, 1, -1),
            seg(1, 4, -1),
            seg(4, 0, -1),
        ],
        shards: vec![
            ShardLayout { segment_range: [0, 4], clip_depth: 0 },
            ShardLayout { segment_range: [4, 7], clip_depth: 1 },
        ],
        frames: vec![
            ModelFrame { shard_range: [0, 2], segment_range: [0, 7] },
            ModelFrame { shard_range: [1, 2], segment_range: [4, 7] },
        ],
    }
}

#[test]
fn single_identity_instance_reproduces_each_shard() {
    let loader = SimpleLoader::new(sample());
    let e = expand_scene(&loader, &vec![0]);
    assert_eq!(e.shard_vertices.len(), 12);
    for k in 0..2u32 {
        for c in 0..6u32 {
            assert_eq!(
                e.shard_vertices[(6 * k + c) as usize],
                ShardVertexSource { instance: 0, shard: k, corner: c }
            );
        }
    }
    assert_eq!(e.segments.len(), 7);
    for (k, s) in e.segments.iter().enumerate() {
        assert_eq!(s.instance, 0);
        assert_eq!(s.idx, loader.model().segments[k].idx);
    }
}

#[test]
fn two_instances_fill_disjoint_regions() {
    let loader = SimpleLoader::new(sample());
    let e = expand_scene(&loader, &vec![0, 0]);
    assert_eq!(e.segments.len(), 14);
    assert_eq!(e.shard_vertices.len(), 24);
    assert_eq!(e.segments[7].instance, 1);
    assert_eq!(e.segments[7].idx, [0, 2, -1, -1]);
    assert_eq!(e.segments[6].instance, 0);
    assert_eq!(e.shard_vertices[12], ShardVertexSource { instance: 1, shard: 0, corner: 0 });
    assert_eq!(e.shard_vertices[23], ShardVertexSource { instance: 1, shard: 1, corner: 5 });
}

#[test]
fn instances_of_different_frames_follow_one_another() {
    let loader = SimpleLoader::new(sample());
    let e = expand_scene(&loader, &vec![1, 0, 1]);
    assert_eq!(e.segments.len(), 3 + 7 + 3);
    assert_eq!(e.shard_vertices.len(), 6 + 12 + 6);
    assert_eq!(e.segments[0].idx, [0, 1, -1, -1]);
    assert_eq!(e.segments[3].idx, [0, 2, -1, -1]);
    assert_eq!(e.segments[3].instance, 1);
    assert_eq!(e.segments[10].instance, 2);
    assert_eq!(e.shard_vertices[0], ShardVertexSource { instance: 0, shard: 1, corner: 0 });
    assert_eq!(e.shard_vertices[6], ShardVertexSource { instance: 1, shard: 0, corner: 0 });
    assert_eq!(e.shard_vertices[18], ShardVertexSource { instance: 2, shard: 1, corner: 0 });
}

#[test]
fn no_instances_expand_to_nothing() {
    let loader = SimpleLoader::new(sample());
    let e = expand_scene(&loader, &vec![]);
    assert!(e.segments.is_empty());
    assert!(e.shard_vertices.is_empty());
}
