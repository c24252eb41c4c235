use fightish::model::{make_load_test_layout, SimpleLoader};

#[test]
fn layout_follows_shape() {
    let m = make_load_test_layout(&vec![vec![4, 0, 1], vec![2]]);
    assert_eq!(m.vertex_count, 14);
    assert_eq!(m.frames.len(), 2);
    assert_eq!(m.frames[0].shard_range, [0, 3]);
    assert_eq!(m.frames[0].segment_range, [0, 5]);
    assert_eq!(m.frames[1].shard_range, [3, 4]);
    assert_eq!(m.frames[1].segment_range, [5, 7]);
    let ranges: Vec<[i32; 2]> = m.shards.iter().map(|s| s.segment_range).collect();
    assert_eq!(ranges, vec![[0, 4], [4, 4], [4, 5], [5, 7]]);
    let depths: Vec<u32> = m.shards.iter().map(|s| s.clip_depth).collect();
    assert_eq!(depths, vec![0, 1, 2, 0]);
    let idx: Vec<[i32; 4]> = m.segments.iter().map(|s| s.idx).collect();
    assert_eq!(
        idx,
        vec![
            [7, 4, 0, -1],
            [4, 5, 1, -1],
            [5, 6, 2, -1],
            [6, 7, 3, -1],
            [9, 9, 8, -1],
            [13, 12, 10, -1],
            [12, 13, 11, -1],
        ]
    );
}

#[test]
fn generated_model_sizes() {
    let m = make_load_test_layout(&vec![vec![3, 5], vec![], vec![1, 1, 1]]);
    let loader = SimpleLoader::new(m);
    let info: Vec<(u32, u32, u32)> = loader
        .frame_info()
        .iter()
        .map(|f| (f.clip_size, f.shard_size, f.segment_size))
        .collect();
    assert_eq!(info, vec![(2, 2, 8), (0, 0, 0), (3, 3, 3)]);
}

#[test]
fn empty_shape_gives_empty_model() {
    let m = make_load_test_layout(&vec![]);
    assert_eq!(m.vertex_count, 0);
    assert!(m.frames.is_empty() && m.shards.is_empty() && m.segments.is_empty());
}
