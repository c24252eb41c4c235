use fightish::buffer_structs::{FrameInfo, ModelFrame, ModelSegment};
use fightish::model::{frame_info_for, ModelLayout, ShardLayout, SimpleLoader};

fn sample() -> ModelLayout {
    let seg = |a: i32, b: i32, c: i32| ModelSegment { idx: [a, b, c, -1] };
    ModelLayout {
        vertex_count: 5,
        segments: vec![
            seg(0, 2, -1),
            seg(2, 3, 0),
            seg(3, 1, -1),
            seg(1, 0, -1),
            seg(0, 1, -1),
            seg(1, 4, -1),
            seg(4, 0, -1),
        ],
        shards: vec![
            ShardLayout { segment_range: [0, 4], clip_depth: 0 },
            ShardLayout { segment_range: [4, 7], clip_depth: 1 },
        ],
        frames: vec![ModelFrame { shard_range: [0, 2], segment_range: [0, 7] }],
    }
}

#[test]
fn sample_frame_info() {
    let loader = SimpleLoader::new(sample());
    assert_eq!(
        loader.frame_info(),
        &vec![FrameInfo { clip_size: 2, shard_size: 2, segment_size: 7 }]
    );
    assert_eq!(loader.model().segments.len(), 7);
}

#[test]
fn clip_size_follows_deepest_shard() {
    let shards = vec![
        ShardLayout { segment_range: [0, 1], clip_depth: 3 },
        ShardLayout { segment_range: [1, 2], clip_depth: 0 },
        ShardLayout { segment_range: [2, 3], clip_depth: 5 },
        ShardLayout { segment_range: [3, 4], clip_depth: 1 },
    ];
    let f = ModelFrame { shard_range: [1, 4], segment_range: [1, 4] };
    assert_eq!(
        frame_info_for(&f, &shards, 4),
        FrameInfo { clip_size: 6, shard_size: 3, segment_size: 3 }
    );
    let g = ModelFrame { shard_range: [3, 4], segment_range: [3, 4] };
    assert_eq!(
        frame_info_for(&g, &shards, 4),
        FrameInfo { clip_size: 2, shard_size: 1, segment_size: 1 }
    );
}

#[test]
fn frame_without_shards_has_no_clip_layers() {
    let shards = vec![ShardLayout { segment_range: [0, 1], clip_depth: 3 }];
    let f = ModelFrame { shard_range: [1, 1], segment_range: [0, 0] };
    assert_eq!(frame_info_for(&f, &shards, 1), FrameInfo::default());
    let g = ModelFrame { shard_range: [0, 0], segment_range: [0, 1] };
    assert_eq!(
        frame_info_for(&g, &shards, 1),
        FrameInfo { clip_size: 0, shard_size: 0, segment_size: 1 }
    );
}

#[test]
fn every_frame_gets_its_info() {
    let mut m = sample();
    m.frames.push(ModelFrame { shard_range: [1, 2], segment_range: [4, 7] });
    m.frames.push(ModelFrame { shard_range: [0, 1], segment_range: [0, 4] });
    let loader = SimpleLoader::new(m);
    assert_eq!(
        loader.frame_info(),
        &vec![
            FrameInfo { clip_size: 2, shard_size: 2, segment_size: 7 },
            FrameInfo { clip_size: 2, shard_size: 1, segment_size: 3 },
            FrameInfo { clip_size: 1, shard_size: 1, segment_size: 4 },
        ]
    );
}

#[test]
fn only_shards_inside_frames_bound_clip_depth() {
    let mut m = sample();
    m.shards.push(ShardLayout { segment_range: [0, 0], clip_depth: u32::MAX });
    assert!(m.frames_are_wf());
    let loader = SimpleLoader::new(m.clone());
    assert_eq!(
        loader.frame_info(),
        &vec![FrameInfo { clip_size: 2, shard_size: 2, segment_size: 7 }]
    );
    m.frames.push(ModelFrame { shard_range: [1, 3], segment_range: [4, 7] });
    assert!(!m.frames_are_wf());
}

#[test]
fn ranges_outside_the_model_are_refused() {
    let mut m = sample();
    assert!(m.frames_are_wf());
    m.frames.push(ModelFrame { shard_range: [1, 3], segment_range: [0, 1] });
    assert!(!m.frames_are_wf());
    let mut n = sample();
    n.frames.push(ModelFrame { shard_range: [0, 1], segment_range: [5, 8] });
    assert!(!n.frames_are_wf());
}
