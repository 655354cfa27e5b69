use voxel_core::{Chunk, CompressedSet, Int3};

/// The reconstruction rule for the compressed payload: each run expanded
/// into `count` repetitions of `id`, in emission order.
fn expand_runs(runs: &[CompressedSet]) -> Vec<i32> {
    let mut out = Vec::new();
    for r in runs {
        for _ in 0..r.count {
            out.push(r.id);
        }
    }
    out
}

fn mixed_chunk() -> Chunk {
    let mut c = Chunk::new(Int3 { x: 0, y: 0, z: 0 }, 1);
    c.set_block(0, 0, 0, 2);
    c.set_block(1, 0, 0, 2);
    c.set_block(5, 3, 7, 3);
    c.set_block(15, 15, 15, 4);
    for x in 0..16u8 {
        c.set_block(x, 8, 8, -2);
    }
    c
}

#[test]
fn uniform_chunk_compresses_to_one_run() {
    let c = Chunk::new(Int3 { x: 0, y: 0, z: 0 }, 7);
    let runs = c.compress();
    assert_eq!(runs.len(), 1);
    assert_eq!(runs[0], CompressedSet { id: 7, count: 4096 });
}

#[test]
fn alternating_chunk_compresses_to_singleton_runs() {
    let mut c = Chunk::new(Int3 { x: 0, y: 0, z: 0 }, 0);
    for i in 0..4096u16 {
        c.set_block_i(i, (i % 2) as i32);
    }
    let runs = c.compress();
    assert_eq!(runs.len(), 4096);
    for (i, r) in runs.iter().enumerate() {
        assert_eq!(r.count, 1);
        assert_eq!(r.id, (i % 2) as i32);
    }
}

#[test]
fn round_trip_reproduces_blocks() {
    let c = mixed_chunk();
    let runs = c.compress();
    assert_eq!(expand_runs(&runs), c.blocks);
}

#[test]
fn counts_sum_to_chunk_volume() {
    let c = mixed_chunk();
    let runs = c.compress();
    let total: i64 = runs.iter().map(|r| r.count as i64).sum();
    assert_eq!(total, 4096);
    assert!(runs.iter().all(|r| r.count >= 1));
}

#[test]
fn adjacent_runs_differ() {
    let c = mixed_chunk();
    let runs = c.compress();
    for w in runs.windows(2) {
        assert_ne!(w[0].id, w[1].id);
    }
}

#[test]
fn negative_ids_survive_compression() {
    let c = Chunk::new(Int3 { x: 0, y: 0, z: 0 }, -1);
    let runs = c.compress();
    assert_eq!(runs.len(), 1);
    assert_eq!(runs[0], CompressedSet { id: -1, count: 4096 });
    assert_eq!(expand_runs(&runs), c.blocks);
}
