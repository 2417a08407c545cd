//! CPU-side geometry batching: index rebasing, texture runs and the growth
//! policy of the GPU buffers the geometry is uploaded into.
//!
//! The vertex type is a parameter: the batch never looks inside a vertex.

use vstd::prelude::*;

use vstd::arithmetic::power2::{lemma_pow2_unfold, pow2};

use crate::texture::TextureId;

verus! {

/// Relative to the rectangle's own first vertex, in
/// `[top-left, top-right, bottom-left, bottom-right]` order. Clockwise in
/// world space, which the camera's y-flipping projection turns into the
/// counter-clockwise front face the shape pipeline declares.
pub const RECT_INDICES: [u32; 6] = [0, 2, 1, 1, 2, 3];

/// The three corners of a triangle, in the order they were given.
pub const TRIANGLE_INDICES: [u32; 3] = [0, 1, 2];

/// A contiguous slice `start..end` of the index buffer sharing one texture,
/// and so submittable as a single draw call.
#[derive(Debug, Clone, Copy, PartialEq, Eq, Structural)]
pub struct DrawRun {
    pub texture: Option<TextureId>,
    pub start: u32,
    pub end: u32,
}

/// `indices`, each moved up by `base`.
pub open spec fn rebased(indices: Seq<u32>, base: int) -> Seq<u32> {
    Seq::new(indices.len(), |i: int| (base + indices[i]) as u32)
}

/// The runs after appending the index range `start..end` drawn with
/// `texture`: the open run grows when it shares the texture, otherwise a new
/// run opens.
pub open spec fn extend_runs(runs: Seq<DrawRun>, texture: Option<TextureId>, start: u32, end: u32) -> Seq<DrawRun> {
    if runs.len() > 0 && runs.last().texture == texture {
        runs.update(runs.len() - 1, DrawRun { texture, start: runs.last().start, end })
    } else {
        runs.push(DrawRun { texture, start, end })
    }
}

/// The runs cover `0..index_count` in order, without gap, overlap or empty
/// run, and no two neighbouring runs share a texture (they would have been
/// one run).
pub open spec fn runs_partition(runs: Seq<DrawRun>, index_count: int) -> bool {
    &&& runs.len() == 0 <==> index_count == 0
    &&& runs.len() > 0 ==> runs[0].start == 0 && runs.last().end == index_count
    &&& forall|k: int| 0 <= k < runs.len() ==> #[trigger] runs[k].start < runs[k].end
    &&& forall|k: int| 0 <= k < runs.len() - 1 ==> #[trigger] runs[k].end == runs[k + 1].start
    &&& forall|k: int| 0 <= k < runs.len() - 1 ==> #[trigger] runs[k].texture != runs[k + 1].texture
}

/// `p` is a power of two.
pub open spec fn is_power_of_two(p: int) -> bool {
    exists|k: nat| p == #[trigger] pow2(k)
}

/// The smallest power of two that is at least `n` (one for zero).
pub fn next_power_of_two(n: usize) -> (p: usize)
    requires
        n <= usize::MAX / 2 + 1,
    ensures
        is_power_of_two(p as int),
        n <= p,
        p == 1 || p / 2 < n,
{
    let mut p: usize = 1;
    let ghost mut k: nat = 0;
    proof {
        vstd::arithmetic::power2::lemma2_to64();
    }
    while p < n
        invariant
            p == pow2(k),
            1 <= p,
            p == 1 || p / 2 < n,
            n <= usize::MAX / 2 + 1,
        decreases usize::MAX - p,
    {
        proof {
            lemma_pow2_unfold(k + 1);
        }
        p = p * 2;
        proof {
            k = k + 1;
        }
    }
    p
}

/// How many vertices and indices the GPU buffers behind a batch hold.
///
/// Capacity climbs to the next power of two and never shrinks, so a scene
/// whose geometry oscillates settles and stops reallocating. Both start at
/// zero: the first flush sizes the buffers to the frame actually drawn.
pub struct GeometryCapacity {
    vertex_capacity: usize,
    index_capacity: usize,
}

impl GeometryCapacity {
    /// The vertex buffer's capacity, in vertices.
    pub closed spec fn vertex_view(&self) -> usize {
        self.vertex_capacity
    }

    /// The index buffer's capacity, in indices.
    pub closed spec fn index_view(&self) -> usize {
        self.index_capacity
    }

    /// Empty buffers.
    pub fn new() -> (capacity: Self)
        ensures
            capacity.vertex_view() == 0,
            capacity.index_view() == 0,
    {
        GeometryCapacity { vertex_capacity: 0, index_capacity: 0 }
    }

    /// The vertex buffer's capacity, in vertices.
    pub fn vertex_capacity(&self) -> (capacity: usize)
        ensures
            capacity == self.vertex_view(),
    {
        self.vertex_capacity
    }

    /// The index buffer's capacity, in indices.
    pub fn index_capacity(&self) -> (capacity: usize)
        ensures
            capacity == self.index_view(),
    {
        self.index_capacity
    }

    /// Grows each capacity that is short of what is queued, returning which
    /// buffers must be recreated at their new size: the vertex buffer first,
    /// the index buffer second.
    pub fn reserve(&mut self, vertices: usize, indices: usize) -> (recreate: (bool, bool))
        requires
            vertices <= usize::MAX / 2 + 1,
            indices <= usize::MAX / 2 + 1,
        ensures
            recreate.0 == (vertices > old(self).vertex_view()),
            recreate.1 == (indices > old(self).index_view()),
            !recreate.0 ==> final(self).vertex_view() == old(self).vertex_view(),
            !recreate.1 ==> final(self).index_view() == old(self).index_view(),
            recreate.0 ==> is_power_of_two(final(self).vertex_view() as int) && vertices <= final(self).vertex_view()
                && (final(self).vertex_view() == 1 || final(self).vertex_view() / 2 < vertices),
            recreate.1 ==> is_power_of_two(final(self).index_view() as int) && indices <= final(self).index_view()
                && (final(self).index_view() == 1 || final(self).index_view() / 2 < indices),
            old(self).vertex_view() <= final(self).vertex_view(),
            old(self).index_view() <= final(self).index_view(),
            vertices <= final(self).vertex_view(),
            indices <= final(self).index_view(),
    {
        let grow_vertices: bool = vertices > self.vertex_capacity;
        if grow_vertices {
            self.vertex_capacity = next_power_of_two(vertices);
        }
        let grow_indices: bool = indices > self.index_capacity;
        if grow_indices {
            self.index_capacity = next_power_of_two(indices);
        }
        (grow_vertices, grow_indices)
    }
}

/// Geometry accumulated on the CPU during a frame.
pub struct Geometry<V> {
    vertices: Vec<V>,
    indices: Vec<u32>,
    runs: Vec<DrawRun>,
}

impl<V: Copy> Geometry<V> {
    /// The queued vertices.
    pub closed spec fn vertices_view(&self) -> Seq<V> {
        self.vertices@
    }

    /// The queued indices, each an absolute position in the vertices.
    pub closed spec fn indices_view(&self) -> Seq<u32> {
        self.indices@
    }

    /// The queued draw runs, in submission order.
    pub closed spec fn runs_view(&self) -> Seq<DrawRun> {
        self.runs@
    }

    /// The geometry can be drawn as queued: every index names a queued
    /// vertex, and the runs partition the index buffer.
    pub open spec fn wf(&self) -> bool {
        &&& forall|i: int| 0 <= i < self.indices_view().len() ==> #[trigger] self.indices_view()[i] < self.vertices_view().len()
        &&& runs_partition(self.runs_view(), self.indices_view().len() as int)
    }

    /// Nothing queued.
    pub fn new() -> (geometry: Self)
        ensures
            geometry.vertices_view() == Seq::<V>::empty(),
            geometry.indices_view() == Seq::<u32>::empty(),
            geometry.runs_view() == Seq::<DrawRun>::empty(),
            geometry.wf(),
    {
        Geometry { vertices: Vec::new(), indices: Vec::new(), runs: Vec::new() }
    }

    /// Appends `vertices` and the `indices` referencing them, rebasing each
    /// index onto the geometry already queued and recording its texture.
    ///
    /// Indices arrive relative to the primitive's own first vertex. Consecutive
    /// primitives sharing a texture extend the open run rather than opening a
    /// new one.
    pub fn push(&mut self, vertices: &[V], indices: &[u32], texture: Option<TextureId>)
        requires
            old(self).vertices_view().len() + vertices@.len() <= u32::MAX,
            old(self).indices_view().len() + indices@.len() <= u32::MAX,
            forall|i: int| 0 <= i < indices@.len() ==> old(self).vertices_view().len() + #[trigger] indices@[i] <= u32::MAX,
        ensures
            final(self).vertices_view() == old(self).vertices_view() + vertices@,
            final(self).indices_view() == old(self).indices_view() + rebased(indices@, old(self).vertices_view().len() as int),
            final(self).runs_view() == extend_runs(
                old(self).runs_view(),
                texture,
                old(self).indices_view().len() as u32,
                final(self).indices_view().len() as u32,
            ),
            old(self).wf() && indices@.len() > 0 && (forall|i: int| 0 <= i < indices@.len() ==> #[trigger] indices@[i] < vertices@.len())
                ==> final(self).wf(),
    {
        let base: u32 = self.vertices.len() as u32;
        let start: u32 = self.indices.len() as u32;
        let ghost old_vertices = self.vertices@;
        let ghost old_indices = self.indices@;
        proof {
            assert(vertices@.take(0) =~= Seq::<V>::empty());
            assert(self.vertices@ =~= old_vertices + vertices@.take(0));
        }

        let mut i: usize = 0;
        while i < vertices.len()
            invariant
                0 <= i <= vertices@.len(),
                self.vertices@ == old_vertices + vertices@.take(i as int),
                self.indices@ == old_indices,
                self.runs@ == old(self).runs@,
            decreases vertices@.len() - i,
        {
            self.vertices.push(vertices[i]);
            proof {
                assert(vertices@.take(i + 1) =~= vertices@.take(i as int).push(vertices@[i as int]));
            }
            i = i + 1;
        }
        proof {
            assert(vertices@.take(vertices@.len() as int) =~= vertices@);
        }

        let mut j: usize = 0;
        proof {
            assert(rebased(indices@.take(0), base as int) =~= Seq::<u32>::empty());
            assert(self.indices@ =~= old_indices + rebased(indices@.take(0), base as int));
        }
        while j < indices.len()
            invariant
                0 <= j <= indices@.len(),
                base == old_vertices.len(),
                forall|k: int| 0 <= k < indices@.len() ==> base + #[trigger] indices@[k] <= u32::MAX,
                self.indices@ == old_indices + rebased(indices@.take(j as int), base as int),
                self.vertices@ == old_vertices + vertices@,
                self.runs@ == old(self).runs@,
            decreases indices@.len() - j,
        {
            self.indices.push(base + indices[j]);
            proof {
                assert(rebased(indices@.take(j + 1), base as int) =~= rebased(indices@.take(j as int), base as int).push(
                    (base + indices@[j as int]) as u32,
                ));
            }
            j = j + 1;
        }
        proof {
            assert(indices@.take(indices@.len() as int) =~= indices@);
        }

        let end: u32 = self.indices.len() as u32;
        let run_count: usize = self.runs.len();
        if run_count > 0 && self.runs[run_count - 1].texture == texture {
            let last: DrawRun = self.runs[run_count - 1];
            self.runs.set(run_count - 1, DrawRun { texture, start: last.start, end });
        } else {
            self.runs.push(DrawRun { texture, start, end });
        }

        proof {
            if old(self).wf() && indices@.len() > 0 && (forall|i: int|
                0 <= i < indices@.len() ==> #[trigger] indices@[i] < vertices@.len()) {
                assert forall|k: int| 0 <= k < self.indices@.len() implies #[trigger] self.indices@[k]
                    < self.vertices@.len() by {
                    if k < old_indices.len() {
                        assert(self.indices@[k] == old_indices[k]);
                        assert(old(self).indices_view()[k] < old(self).vertices_view().len());
                    } else {
                        let r = k - old_indices.len();
                        assert(self.indices@[k] == (base + indices@[r]) as u32);
                        assert(indices@[r] < vertices@.len());
                    }
                }
                assert(runs_partition(self.runs@, self.indices@.len() as int));
            }
        }
    }

    /// Empties every queue.
    pub fn clear(&mut self)
        ensures
            final(self).vertices_view() == Seq::<V>::empty(),
            final(self).indices_view() == Seq::<u32>::empty(),
            final(self).runs_view() == Seq::<DrawRun>::empty(),
            final(self).wf(),
    {
        self.vertices.clear();
        self.indices.clear();
        self.runs.clear();
    }

    /// The number of unique vertices queued.
    pub fn unique_vertex_count(&self) -> (count: usize)
        ensures
            count == self.vertices_view().len(),
    {
        self.vertices.len()
    }

    /// The number of indices queued, which is the vertex count the next
    /// flush submits.
    pub fn index_count(&self) -> (count: usize)
        ensures
            count == self.indices_view().len(),
    {
        self.indices.len()
    }

    /// The queued vertices.
    pub fn vertices(&self) -> (vertices: &[V])
        ensures
            vertices@ == self.vertices_view(),
    {
        self.vertices.as_slice()
    }

    /// The queued indices.
    pub fn indices(&self) -> (indices: &[u32])
        ensures
            indices@ == self.indices_view(),
    {
        self.indices.as_slice()
    }

    /// The queued draw runs.
    pub fn runs(&self) -> (runs: &[DrawRun])
        ensures
            runs@ == self.runs_view(),
    {
        self.runs.as_slice()
    }
}

impl<V: Copy> Default for Geometry<V> {
    fn default() -> (value: Self)
        ensures
            value.vertices_view() == Seq::<V>::empty(),
            value.indices_view() == Seq::<u32>::empty(),
            value.runs_view() == Seq::<DrawRun>::empty(),
            value.wf(),
    {
        Self::new()
    }
}

} // verus!
