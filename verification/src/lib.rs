use vstd::prelude::*;

pub mod items;
pub mod packets;

pub use packets::ChunkUpdateType;
pub use packets::PacketType;

verus! {

/// A 3-component integer vector: a chunk's coordinate in chunk-grid space,
/// or a vertex position on the voxel grid.
#[derive(Clone, Copy, Debug, PartialEq, Eq, Structural)]
pub struct Int3 {
    pub x: i32,
    pub y: i32,
    pub z: i32,
}

/// A 2-component integer vector: an atlas grid size or cell, or an
/// integer-valued texture coordinate.
#[derive(Clone, Copy, Debug, PartialEq, Eq, Structural)]
pub struct Int2 {
    pub x: i32,
    pub y: i32,
}

/// One run of the run-length encoding: `count` consecutive voxels share
/// block `id`, in flattened-index order.
#[derive(Clone, Copy, Debug, PartialEq, Eq, Structural)]
pub struct CompressedSet {
    pub id: i32,
    pub count: i32,
}

/// The flat index of the voxel at (x, y, z): x varies fastest, then y, then z.
pub open spec fn spec_xyz_to_i(x: int, y: int, z: int) -> int {
    256 * z + 16 * y + x
}

/// The sequence of `count` copies of `id` that one run stands for.
pub open spec fn run_seq(id: i32, count: int) -> Seq<i32> {
    if count <= 0 {
        Seq::empty()
    } else {
        Seq::new(count as nat, |j: int| id)
    }
}

/// The block sequence that a run sequence stands for: each run expanded into
/// `count` repetitions of `id`, in order. This is the reconstruction rule the
/// storage and network collaborators must implement to decompress.
pub open spec fn expand(runs: Seq<CompressedSet>) -> Seq<i32>
    decreases runs.len(),
{
    if runs.len() == 0 {
        Seq::empty()
    } else {
        run_seq(runs[0].id, runs[0].count as int) + expand(runs.subrange(1, runs.len() as int))
    }
}

/// The sum of the counts of all runs.
pub open spec fn counts_sum(runs: Seq<CompressedSet>) -> int
    decreases runs.len(),
{
    if runs.len() == 0 {
        0
    } else {
        runs[0].count + counts_sum(runs.subrange(1, runs.len() as int))
    }
}

/// Maximality: no two adjacent runs share the same id.
pub open spec fn maximal_runs(runs: Seq<CompressedSet>) -> bool {
    forall|j: int| 0 <= j < runs.len() - 1 ==> runs[j].id != #[trigger] runs[j + 1].id
}

/// Every run has a positive count of at most 4096.
pub open spec fn counts_valid(runs: Seq<CompressedSet>) -> bool {
    forall|j: int| 0 <= j < runs.len() ==> 1 <= (#[trigger] runs[j]).count <= 4096
}

/// Appending a run expands to the expansion of the prefix followed by that
/// run's repetitions.
pub proof fn lemma_expand_push(runs: Seq<CompressedSet>, r: CompressedSet)
    ensures
        expand(runs.push(r)) == expand(runs) + run_seq(r.id, r.count as int),
        counts_sum(runs.push(r)) == counts_sum(runs) + r.count,
    decreases runs.len(),
{
    let p = runs.push(r);
    if runs.len() == 0 {
        assert(p[0] == r);
        assert(p.subrange(1, p.len() as int) =~= Seq::<CompressedSet>::empty());
        assert(expand(Seq::<CompressedSet>::empty()) == Seq::<i32>::empty());
        assert(counts_sum(Seq::<CompressedSet>::empty()) == 0);
        assert(runs =~= Seq::<CompressedSet>::empty());
        assert(expand(p) =~= expand(runs) + run_seq(r.id, r.count as int));
        assert(counts_sum(p) == counts_sum(runs) + r.count);
    } else {
        assert(p[0] == runs[0]);
        assert(p.subrange(1, p.len() as int) =~= runs.subrange(1, runs.len() as int).push(r));
        lemma_expand_push(runs.subrange(1, runs.len() as int), r);
        assert(expand(p) =~= expand(runs) + run_seq(r.id, r.count as int));
        assert(counts_sum(p) == counts_sum(runs) + r.count);
    }
}

/// Totality of the counts: the counts of a run sequence with nonnegative
/// counts sum to exactly the length of its expansion. In particular, the runs
/// a chunk compresses to have counts summing to 4096.
pub proof fn lemma_counts_total(runs: Seq<CompressedSet>)
    requires
        forall|j: int| 0 <= j < runs.len() ==> (#[trigger] runs[j]).count >= 0,
    ensures
        counts_sum(runs) == expand(runs).len(),
    decreases runs.len(),
{
    if runs.len() > 0 {
        lemma_counts_total(runs.subrange(1, runs.len() as int));
    }
}

/// Every run has a positive count.
pub open spec fn counts_positive(runs: Seq<CompressedSet>) -> bool {
    forall|j: int| 0 <= j < runs.len() ==> (#[trigger] runs[j]).count >= 1
}

/// The shape of the expansion of a nonempty run sequence: it starts with
/// `count` copies of the first run's id, and the rest is the expansion of the
/// remaining runs.
proof fn lemma_expand_head(runs: Seq<CompressedSet>)
    requires
        runs.len() > 0,
        runs[0].count >= 1,
    ensures
        expand(runs).len() >= runs[0].count,
        forall|j: int| 0 <= j < runs[0].count ==> expand(runs)[j] == runs[0].id,
        expand(runs).skip(runs[0].count as int) == expand(runs.subrange(1, runs.len() as int)),
{
    let c = runs[0].count as int;
    let head = run_seq(runs[0].id, c);
    let rest = expand(runs.subrange(1, runs.len() as int));
    assert(expand(runs) == head + rest);
    assert(head.len() == c);
    assert(forall|j: int| 0 <= j < c ==> (head + rest)[j] == head[j]);
    assert((head + rest).skip(c) =~= rest);
}

/// Uniqueness of the maximal-run encoding: two run sequences with positive
/// counts and no two adjacent runs of equal id that expand to the same block
/// sequence are the same run sequence. So the codec's output is the one
/// maximal encoding of the chunk.
pub proof fn lemma_maximal_encoding_unique(a: Seq<CompressedSet>, b: Seq<CompressedSet>)
    requires
        counts_positive(a),
        counts_positive(b),
        maximal_runs(a),
        maximal_runs(b),
        expand(a) == expand(b),
    ensures
        a == b,
    decreases a.len(),
{
    if a.len() == 0 {
        if b.len() > 0 {
            lemma_expand_head(b);
            assert(expand(a).len() == 0);
            assert(false);
        }
        assert(a =~= b);
    } else if b.len() == 0 {
        lemma_expand_head(a);
        assert(expand(b).len() == 0);
        assert(false);
    } else {
        let at = a.subrange(1, a.len() as int);
        let bt = b.subrange(1, b.len() as int);
        let ac = a[0].count as int;
        let bc = b[0].count as int;
        lemma_expand_head(a);
        lemma_expand_head(b);
        assert(expand(a)[0] == a[0].id);
        assert(expand(b)[0] == b[0].id);
        assert(a[0].id == b[0].id);
        assert(ac == bc) by {
            if ac < bc {
                // Inside b's first run the block at index ac is still b's
                // first id, so a's run cannot have ended there.
                assert(expand(b)[ac] == b[0].id);
                if at.len() == 0 {
                    assert(expand(at).len() == 0);
                    assert(expand(a).len() == ac);
                    assert(false);
                } else {
                    assert(at[0] == a[1]);
                    lemma_expand_head(at);
                    assert(expand(a).skip(ac)[0] == expand(at)[0]);
                    assert(expand(a)[ac] == a[1].id);
                    assert(a[0].id != a[1].id);
                    assert(false);
                }
            } else if bc < ac {
                assert(expand(a)[bc] == a[0].id);
                if bt.len() == 0 {
                    assert(expand(bt).len() == 0);
                    assert(expand(b).len() == bc);
                    assert(false);
                } else {
                    assert(bt[0] == b[1]);
                    lemma_expand_head(bt);
                    assert(expand(b).skip(bc)[0] == expand(bt)[0]);
                    assert(expand(b)[bc] == b[1].id);
                    assert(b[0].id != b[1].id);
                    assert(false);
                }
            }
        }
        assert(expand(at) == expand(bt)) by {
            assert(expand(a).skip(ac) == expand(at));
            assert(expand(b).skip(bc) == expand(bt));
        }
        assert(counts_positive(at)) by {
            assert(forall|j: int| 0 <= j < at.len() ==> #[trigger] at[j] == a[j + 1]);
        }
        assert(counts_positive(bt)) by {
            assert(forall|j: int| 0 <= j < bt.len() ==> #[trigger] bt[j] == b[j + 1]);
        }
        assert(maximal_runs(at)) by {
            assert(forall|j: int| 0 <= j < at.len() ==> #[trigger] at[j] == a[j + 1]);
        }
        assert(maximal_runs(bt)) by {
            assert(forall|j: int| 0 <= j < bt.len() ==> #[trigger] bt[j] == b[j + 1]);
        }
        lemma_maximal_encoding_unique(at, bt);
        assert(a[0] == b[0]);
        assert(a =~= b) by {
            assert(a.len() == b.len());
            assert(forall|j: int| 1 <= j < a.len() ==> #[trigger] a[j] == at[j - 1]);
            assert(forall|j: int| 1 <= j < b.len() ==> #[trigger] b[j] == bt[j - 1]);
        }
    }
}

/// Injectivity of the flat-index mapping: two in-range coordinate triples
/// with the same flat index are the same triple.
pub proof fn lemma_xyz_to_i_injective(x1: int, y1: int, z1: int, x2: int, y2: int, z2: int)
    requires
        0 <= x1 < 16,
        0 <= y1 < 16,
        0 <= z1 < 16,
        0 <= x2 < 16,
        0 <= y2 < 16,
        0 <= z2 < 16,
        spec_xyz_to_i(x1, y1, z1) == spec_xyz_to_i(x2, y2, z2),
    ensures
        x1 == x2,
        y1 == y2,
        z1 == z2,
{
}

/// The image of the flat-index mapping lies in [0, 4096).
pub proof fn lemma_xyz_to_i_in_range(x: int, y: int, z: int)
    requires
        0 <= x < 16,
        0 <= y < 16,
        0 <= z < 16,
    ensures
        0 <= spec_xyz_to_i(x, y, z) < 4096,
{
}

/// Surjectivity onto [0, 4096): every flat index is the image of an in-range
/// coordinate triple, namely (i % 16, (i / 16) % 16, i / 256). Together with
/// injectivity and the range bound, the mapping is a bijection between
/// [0,16)^3 and [0, 4096).
pub proof fn lemma_i_to_xyz(i: int)
    requires
        0 <= i < 4096,
    ensures
        0 <= i % 16 < 16,
        0 <= (i / 16) % 16 < 16,
        0 <= i / 256 < 16,
        spec_xyz_to_i(i % 16, (i / 16) % 16, i / 256) == i,
{
    assert(spec_xyz_to_i(i % 16, (i / 16) % 16, i / 256) == i) by (nonlinear_arith)
        requires 0 <= i < 4096;
}

/// A vertex of a quad, on the integer voxel grid: `position` is a corner in
/// model space, `tex_coords` an integer texture coordinate (the full-atlas
/// quad only samples the corners 0 and 1 of UV space).
#[derive(Clone, Copy, Debug, PartialEq, Eq, Structural)]
pub struct QuadVertex {
    pub position: Int3,
    pub tex_coords: Int2,
}

/// The four vertices of the unit quad in the plane z = 0, in emission order:
/// bottom-left, bottom-right, top-right, top-left. The UV v-axis is flipped
/// relative to the model y-axis, matching a top-left texture origin.
pub open spec fn quad_vertices() -> Seq<QuadVertex> {
    seq![
        (QuadVertex { position: (Int3 { x: 0, y: 0, z: 0 }), tex_coords: (Int2 { x: 0, y: 1 }) }),
        (QuadVertex { position: (Int3 { x: 1, y: 0, z: 0 }), tex_coords: (Int2 { x: 1, y: 1 }) }),
        (QuadVertex { position: (Int3 { x: 1, y: 1, z: 0 }), tex_coords: (Int2 { x: 1, y: 0 }) }),
        (QuadVertex { position: (Int3 { x: 0, y: 1, z: 0 }), tex_coords: (Int2 { x: 0, y: 0 }) }),
    ]
}

/// The six indices of the unit quad's two triangles, (bl, br, tl) and
/// (tr, tl, br): both counter-clockwise when viewed from +z.
pub open spec fn quad_indices() -> Seq<u32> {
    seq![0u32, 1u32, 3u32, 2u32, 3u32, 1u32]
}

/// A 16x16x16 cube of voxels: the unit of world streaming and meshing.
///
/// `blocks` holds one block id per voxel, in flattened-index order
/// (`spec_xyz_to_i`), and always has exactly 4096 entries.
pub struct Chunk {
    /// The chunk's coordinate in chunk-grid space, fixed at creation.
    pub position: Int3,
    /// One block id per voxel, in flattened-index order; `wf` says it always
    /// holds exactly 4096 entries.
    pub blocks: Vec<i32>,
    /// Derived geometry cache, rebuilt on demand by `build_mesh`.
    pub vertices: Vec<QuadVertex>,
    /// Derived index cache, rebuilt on demand by `build_mesh`.
    pub indices: Vec<u32>,
}

impl Chunk {
    /// The block ids of the chunk's voxels, in flattened-index order.
    pub open spec fn spec_blocks(&self) -> Seq<i32> {
        self.blocks@
    }

    /// The chunk's invariant: one block id for each of the 4096 voxels.
    pub open spec fn wf(&self) -> bool {
        self.spec_blocks().len() == 4096
    }

    /// Creates a new chunk at `position` and fills it with the block of id `id`.
    pub fn new(position: Int3, id: i32) -> (r: Chunk)
        ensures
            r.wf(),
            r.position == position,
            forall|j: int| 0 <= j < 4096 ==> r.spec_blocks()[j] == id,
            r.vertices@ == Seq::<QuadVertex>::empty(),
            r.indices@ == Seq::<u32>::empty(),
    {
        let mut blocks: Vec<i32> = Vec::new();
        let mut j: usize = 0;
        while j < 4096
            invariant
                j <= 4096,
                blocks@.len() == j,
                forall|k: int| 0 <= k < j ==> blocks@[k] == id,
            decreases 4096 - j,
        {
            blocks.push(id);
            j = j + 1;
        }
        Chunk { position, blocks, vertices: Vec::new(), indices: Vec::new() }
    }

    /// Maps chunk-local coordinates to the flat index `256*z + 16*y + x`.
    pub fn xyz_to_i(x: u8, y: u8, z: u8) -> (i: u16)
        requires
            x < 16,
            y < 16,
            z < 16,
        ensures
            i == spec_xyz_to_i(x as int, y as int, z as int),
            i < 4096,
    {
        256 * (z as u16) + 16 * (y as u16) + (x as u16)
    }

    /// Sets the block at flat index `i` to `id`.
    pub fn set_block_i(&mut self, i: u16, id: i32)
        requires
            old(self).wf(),
            i < 4096,
        ensures
            final(self).wf(),
            final(self).spec_blocks() == old(self).spec_blocks().update(i as int, id),
            final(self).position == old(self).position,
            final(self).vertices == old(self).vertices,
            final(self).indices == old(self).indices,
    {
        self.blocks[i as usize] = id;
    }

    /// Sets the block at chunk-local position (`x`,`y`,`z`) to `id`.
    pub fn set_block(&mut self, x: u8, y: u8, z: u8, id: i32)
        requires
            old(self).wf(),
            x < 16,
            y < 16,
            z < 16,
        ensures
            final(self).wf(),
            final(self).spec_blocks() == old(self).spec_blocks().update(
                spec_xyz_to_i(x as int, y as int, z as int),
                id,
            ),
            final(self).position == old(self).position,
            final(self).vertices == old(self).vertices,
            final(self).indices == old(self).indices,
    {
        let i = Chunk::xyz_to_i(x, y, z);
        self.blocks[i as usize] = id;
    }

    /// Compresses the chunk data using run-length encoding.
    ///
    /// The emitted runs, expanded in order, reproduce the block sequence
    /// exactly; no two adjacent runs share an id; and the counts are positive
    /// and sum to 4096.
    pub fn compress(&self) -> (runs: Vec<CompressedSet>)
        requires
            self.wf(),
        ensures
            expand(runs@) == self.spec_blocks(),
            maximal_runs(runs@),
            counts_positive(runs@),
            counts_valid(runs@),
            counts_sum(runs@) == 4096,
    {
        let mut out: Vec<CompressedSet> = Vec::new();
        let mut started: bool = false;
        let mut cur_id: i32 = 0;
        let mut cur_count: i32 = 0;
        let mut i: usize = 0;
        while i < 4096
            invariant
                self.wf(),
                i <= 4096,
                !started ==> i == 0 && out@.len() == 0,
                started ==> 1 <= cur_count <= i,
                expand(out@) + run_seq(cur_id, if started { cur_count as int } else { 0 })
                    == self.spec_blocks().take(i as int),
                maximal_runs(out@),
                started && out@.len() > 0 ==> out@.last().id != cur_id,
                counts_valid(out@),
            decreases 4096 - i,
        {
            let block = self.blocks[i];
            proof {
                assert(self.spec_blocks().take(i as int + 1)
                    =~= self.spec_blocks().take(i as int).push(self.spec_blocks()[i as int]));
            }
            if started && block == cur_id {
                proof {
                    assert(run_seq(cur_id, cur_count as int + 1)
                        =~= run_seq(cur_id, cur_count as int).push(cur_id));
                    assert(expand(out@) + run_seq(cur_id, cur_count as int + 1)
                        =~= (expand(out@) + run_seq(cur_id, cur_count as int)).push(cur_id));
                }
                cur_count = cur_count + 1;
            } else {
                if started {
                    let finished = CompressedSet { id: cur_id, count: cur_count };
                    proof {
                        lemma_expand_push(out@, finished);
                    }
                    out.push(finished);
                }
                proof {
                    assert(run_seq(block, 1) =~= Seq::<i32>::empty().push(block));
                    assert(expand(out@) + run_seq(block, 1) =~= expand(out@).push(block));
                }
                cur_id = block;
                cur_count = 1;
                started = true;
            }
            i = i + 1;
        }
        let finished = CompressedSet { id: cur_id, count: cur_count };
        proof {
            lemma_expand_push(out@, finished);
            assert(self.spec_blocks().take(4096) =~= self.spec_blocks());
        }
        out.push(finished);
        proof {
            assert(expand(out@) =~= self.spec_blocks());
            lemma_counts_total(out@);
        }
        out
    }

    /// Rebuilds the geometry cache: discards any previous contents of
    /// `vertices` and `indices` and emits exactly one unit quad in the plane
    /// z = 0, spanning (0,0,0)-(1,1,0), textured with the full atlas.
    pub fn build_mesh(&mut self)
        ensures
            final(self).vertices@ == quad_vertices(),
            final(self).indices@ == quad_indices(),
            final(self).position == old(self).position,
            final(self).spec_blocks() == old(self).spec_blocks(),
    {
        self.vertices.clear();
        self.indices.clear();

        // Bottom left
        self.vertices.push(QuadVertex {
            position: Int3 { x: 0, y: 0, z: 0 },
            tex_coords: Int2 { x: 0, y: 1 },
        });
        let bl_index: u32 = self.vertices.len() as u32 - 1;
        // Bottom right
        self.vertices.push(QuadVertex {
            position: Int3 { x: 1, y: 0, z: 0 },
            tex_coords: Int2 { x: 1, y: 1 },
        });
        let br_index: u32 = self.vertices.len() as u32 - 1;
        // Top right
        self.vertices.push(QuadVertex {
            position: Int3 { x: 1, y: 1, z: 0 },
            tex_coords: Int2 { x: 1, y: 0 },
        });
        let tr_index: u32 = self.vertices.len() as u32 - 1;
        // Top left
        self.vertices.push(QuadVertex {
            position: Int3 { x: 0, y: 1, z: 0 },
            tex_coords: Int2 { x: 0, y: 0 },
        });
        let tl_index: u32 = self.vertices.len() as u32 - 1;

        self.indices.push(bl_index);
        self.indices.push(br_index);
        self.indices.push(tl_index);

        self.indices.push(tr_index);
        self.indices.push(tl_index);
        self.indices.push(br_index);

        proof {
            assert(self.vertices@ =~= quad_vertices());
            assert(self.indices@ =~= quad_indices());
        }
    }

    /// Gets the block at chunk-local position (`x`,`y`,`z`).
    pub fn get_block(&self, x: u8, y: u8, z: u8) -> (id: i32)
        requires
            self.wf(),
            x < 16,
            y < 16,
            z < 16,
        ensures
            id == self.spec_blocks()[spec_xyz_to_i(x as int, y as int, z as int)],
    {
        let i = Chunk::xyz_to_i(x, y, z);
        self.blocks[i as usize]
    }
}

} // verus!

