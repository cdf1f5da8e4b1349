use vstd::prelude::*;

use crate::error::FileError;
use crate::geometry::triangle::Triangles;
use crate::geometry::vertex::VertexAttributes;
use crate::geometry::{Idx, NIdx, TIdx, VIdx};

verus! {

/// The index triple stream of a mesh: three parallel sequences of indices
/// into the position, normal and UV sets. Corners are grouped in runs of
/// three to form triangles.
#[derive(Debug)]
pub struct Indices {
    pub v: Vec<Idx>,
    pub n: Vec<Idx>,
    pub uv: Vec<Idx>,
}

impl Default for Indices {
    fn default() -> (r: Self)
        ensures
            r.v@.len() == 0,
            r.n@.len() == 0,
            r.uv@.len() == 0,
    {
        Indices { v: Vec::new(), n: Vec::new(), uv: Vec::new() }
    }
}

impl Indices {
    /// The triple stored for corner `index`, or `(0, 0, 0)` past the end of
    /// the position stream.
    pub open spec fn triple(&self, index: int) -> (VIdx, NIdx, TIdx) {
        if 0 <= index < self.v@.len() {
            (self.v@[index], self.n@[index], self.uv@[index])
        } else {
            (0, 0, 0)
        }
    }

    /// Number of corners, which is the length of the position stream.
    pub fn len(&self) -> (len: usize)
        ensures
            len == self.v@.len(),
    {
        self.v.len()
    }

    /// The three indices of corner `index`; all zero when `index` is past
    /// the end.
    pub fn index(&self, index: Idx) -> (r: (VIdx, NIdx, TIdx))
        requires
            index < self.v@.len() ==> index < self.n@.len() && index < self.uv@.len(),
        ensures
            r == self.triple(index as int),
    {
        if index >= self.len() {
            return (0, 0, 0);
        }
        (self.v[index], self.n[index], self.uv[index])
    }

    /// Number of whole triangles in the position stream.
    pub fn triangle_count(&self) -> (count: usize)
        ensures
            count == self.v@.len() / 3,
    {
        self.v.len() / 3
    }

    /// The position indices of the three corners of triangle `t`.
    pub fn triangle(&self, t: usize) -> (r: [VIdx; 3])
        requires
            t < self.v@.len() / 3,
        ensures
            r[0] == self.v@[3 * t],
            r[1] == self.v@[3 * t + 1],
            r[2] == self.v@[3 * t + 2],
    {
        let len = self.v.len();
        assert(3 * t + 2 < len);
        [self.v[3 * t], self.v[3 * t + 1], self.v[3 * t + 2]]
    }

    /// The normal stream that normal synthesis leaves behind: as long as the
    /// position stream, equal to it on every whole triangle, and on a
    /// trailing partial triangle what `n` held there before, or zero.
    pub open spec fn normal_stream_after_bake(v: Seq<usize>, n: Seq<usize>) -> Seq<usize> {
        Seq::new(
            v.len(),
            |j: int|
                if j < 3 * (v.len() / 3) {
                    v[j]
                } else if j < n.len() {
                    n[j]
                } else {
                    0
                },
        )
    }

    /// Gives every position its own normal: the normal stream becomes a copy
    /// of the position stream, so that normal `k` belongs to position `k`.
    pub fn bake_normal_indices(&mut self)
        ensures
            final(self).n@ == Self::normal_stream_after_bake(old(self).v@, old(self).n@),
            final(self).v@ == old(self).v@,
            final(self).uv@ == old(self).uv@,
    {
        let corners = self.v.len();
        self.n.resize(corners, 0);
        let whole = 3 * (corners / 3);
        let mut j: usize = 0;
        while j < whole
            invariant
                j <= whole,
                whole == 3 * (corners / 3),
                corners == self.v@.len(),
                self.n@.len() == corners,
                self.v@ == old(self).v@,
                self.uv@ == old(self).uv@,
                forall|i: int| 0 <= i < j ==> self.n@[i] == self.v@[i],
                forall|i: int|
                    j <= i < corners ==> self.n@[i] == (if i < old(self).n@.len() {
                        old(self).n@[i]
                    } else {
                        0
                    }),
            decreases whole - j,
        {
            let id = self.v[j];
            self.n.set(j, id);
            j += 1;
        }
        assert(self.n@ =~= Self::normal_stream_after_bake(old(self).v@, old(self).n@));
    }

    /// The UV stream padded with zeros to the length of the position stream;
    /// a stream that is already as long or longer is as it was.
    pub open spec fn uv_stream_after_pad(v: Seq<usize>, uv: Seq<usize>) -> Seq<usize> {
        Seq::new(
            if uv.len() < v.len() {
                v.len()
            } else {
                uv.len()
            },
            |i: int|
                if i < uv.len() {
                    uv[i]
                } else {
                    0
                },
        )
    }

    /// Fills an absent UV stream with zeros up to the length of the position
    /// stream, so that all three streams have one length. A stream that is
    /// already as long or longer is left alone.
    pub fn pad_uv_indices(&mut self)
        ensures
            final(self).v@ == old(self).v@,
            final(self).n@ == old(self).n@,
            final(self).uv@ == Self::uv_stream_after_pad(old(self).v@, old(self).uv@),
    {
        let corners = self.v.len();
        while self.uv.len() < corners
            invariant
                corners == self.v@.len(),
                self.v@ == old(self).v@,
                self.n@ == old(self).n@,
                old(self).uv@.len() <= self.uv@.len(),
                self.uv@.len() <= corners || self.uv@.len() == old(self).uv@.len(),
                forall|i: int|
                    0 <= i < self.uv@.len() ==> self.uv@[i] == (if i < old(self).uv@.len() {
                        old(self).uv@[i]
                    } else {
                        0
                    }),
            decreases corners - self.uv@.len(),
        {
            self.uv.push(0);
        }
        assert(self.uv@ =~= Self::uv_stream_after_pad(old(self).v@, old(self).uv@));
    }

    /// Appends a position index.
    pub fn push_v_index(&mut self, idx: Idx)
        ensures
            final(self).v@ == old(self).v@.push(idx),
            final(self).n@ == old(self).n@,
            final(self).uv@ == old(self).uv@,
    {
        self.v.push(idx);
    }

    /// Appends a normal index.
    pub fn push_n_index(&mut self, idx: Idx)
        ensures
            final(self).n@ == old(self).n@.push(idx),
            final(self).v@ == old(self).v@,
            final(self).uv@ == old(self).uv@,
    {
        self.n.push(idx);
    }

    /// Appends a UV index.
    pub fn push_uv_index(&mut self, idx: Idx)
        ensures
            final(self).uv@ == old(self).uv@.push(idx),
            final(self).v@ == old(self).v@,
            final(self).n@ == old(self).n@,
    {
        self.uv.push(idx);
    }
}

/// Every entry of `stream` is a valid index into a set of `bound` elements.
pub open spec fn all_below(stream: Seq<usize>, bound: nat) -> bool {
    forall|i: int| 0 <= i < stream.len() ==> #[trigger] stream[i] < bound
}

/// Whether the parts of a baked mesh fit together: the three index streams
/// have one length, a multiple of three; every index addresses an element of
/// its set; and the tangent and bitangent sets hold one entry per position
/// when there are UVs and none when there are not.
pub open spec fn parts_fit(
    vertices: nat,
    normals: nat,
    uv: nat,
    tangents: nat,
    bi_tangents: nat,
    v: Seq<usize>,
    n: Seq<usize>,
    t: Seq<usize>,
) -> bool {
    &&& v.len() % 3 == 0
    &&& n.len() == v.len()
    &&& t.len() == v.len()
    &&& all_below(v, vertices)
    &&& all_below(n, normals)
    &&& uv > 0 ==> all_below(t, uv)
    &&& tangents == (if uv > 0 {
        vertices
    } else {
        0
    })
    &&& bi_tangents == tangents
}

/// An indexed triangle mesh with its baked per-vertex attributes. `V` is
/// the type of a 3D vector (positions, normals, tangents, bitangents) and
/// `U` the type of a 2D texture coordinate.
#[derive(Debug)]
pub struct Mesh<V, U> {
    pub vertices: Vec<V>,
    pub normals: Vec<V>,
    pub uv: Vec<U>,
    pub tangents: Vec<V>,
    pub bi_tangents: Vec<V>,
    pub indices: Indices,
}

impl<V, U> Default for Mesh<V, U> {
    fn default() -> (m: Self)
        ensures
            m.wf(),
            m.vertices@.len() == 0,
            m.indices.v@.len() == 0,
    {
        Mesh {
            vertices: Vec::new(),
            normals: Vec::new(),
            uv: Vec::new(),
            tangents: Vec::new(),
            bi_tangents: Vec::new(),
            indices: Indices::default(),
        }
    }
}

/// Whether the first `count` entries of `stream` exist and are valid indices
/// into a set of `bound` elements.
pub open spec fn prefix_below(stream: Seq<usize>, count: nat, bound: nat) -> bool {
    &&& count <= stream.len()
    &&& forall|i: int| 0 <= i < count ==> #[trigger] stream[i] < bound
}

/// Checks that the first `count` entries of `stream` exist and address a set
/// of `bound` elements.
pub fn addresses(stream: &Vec<usize>, count: usize, bound: usize) -> (ok: bool)
    ensures
        ok == prefix_below(stream@, count as nat, bound as nat),
{
    if stream.len() < count {
        return false;
    }
    let mut i: usize = 0;
    while i < count
        invariant
            i <= count <= stream@.len(),
            forall|j: int| 0 <= j < i ==> #[trigger] stream@[j] < bound,
        decreases count - i,
    {
        if stream[i] >= bound {
            return false;
        }
        i += 1;
    }
    true
}

/// Checks that every entry of `stream` is below `bound`.
fn check_all_below(stream: &Vec<usize>, bound: usize) -> (ok: bool)
    ensures
        ok == all_below(stream@, bound as nat),
{
    let mut i: usize = 0;
    while i < stream.len()
        invariant
            i <= stream@.len(),
            forall|j: int| 0 <= j < i ==> #[trigger] stream@[j] < bound,
        decreases stream@.len() - i,
    {
        if stream[i] >= bound {
            return false;
        }
        i += 1;
    }
    true
}

impl<V, U> Mesh<V, U> {
    /// The invariant of a baked mesh, see [`parts_fit`].
    pub open spec fn wf(&self) -> bool {
        parts_fit(
            self.vertices@.len(),
            self.normals@.len(),
            self.uv@.len(),
            self.tangents@.len(),
            self.bi_tangents@.len(),
            self.indices.v@,
            self.indices.n@,
            self.indices.uv@,
        )
    }

    /// The attribute bundle of corner `c`, resolved through the index
    /// streams. Tangent and bitangent are addressed by the position index.
    pub open spec fn corner(&self, c: int) -> VertexAttributes<V, U> {
        VertexAttributes {
            position: self.vertices@[self.indices.v@[c] as int],
            normal: self.normals@[self.indices.n@[c] as int],
            uv: if self.uv@.len() > 0 {
                Some(self.uv@[self.indices.uv@[c] as int])
            } else {
                None
            },
            tangent: if self.uv@.len() > 0 {
                Some(self.tangents@[self.indices.v@[c] as int])
            } else {
                None
            },
            bi_tangent: if self.uv@.len() > 0 {
                Some(self.bi_tangents@[self.indices.v@[c] as int])
            } else {
                None
            },
        }
    }

    /// Assembles a mesh from its baked parts. Malformed parts (index streams
    /// of different lengths or not a whole number of triangles, an index out
    /// of range, tangent sets that do not match the position set) are
    /// rejected with [`FileError::Invalid`].
    pub fn from_parts(
        vertices: Vec<V>,
        uv: Vec<U>,
        indices: Indices,
        normals: Vec<V>,
        tangents: Vec<V>,
        bi_tangents: Vec<V>,
    ) -> (r: Result<Self, FileError>)
        ensures
            match r {
                Ok(m) => {
                    &&& m.wf()
                    &&& m.vertices == vertices
                    &&& m.uv == uv
                    &&& m.indices == indices
                    &&& m.normals == normals
                    &&& m.tangents == tangents
                    &&& m.bi_tangents == bi_tangents
                },
                Err(e) => {
                    &&& e is Invalid
                    &&& !parts_fit(
                        vertices@.len(),
                        normals@.len(),
                        uv@.len(),
                        tangents@.len(),
                        bi_tangents@.len(),
                        indices.v@,
                        indices.n@,
                        indices.uv@,
                    )
                },
            },
    {
        let corners = indices.v.len();
        if corners % 3 != 0 || indices.n.len() != corners || indices.uv.len() != corners {
            return Err(FileError::Invalid);
        }
        let expected = if uv.len() > 0 {
            vertices.len()
        } else {
            0
        };
        if tangents.len() != expected || bi_tangents.len() != expected {
            return Err(FileError::Invalid);
        }
        if !check_all_below(&indices.v, vertices.len()) {
            return Err(FileError::Invalid);
        }
        if !check_all_below(&indices.n, normals.len()) {
            return Err(FileError::Invalid);
        }
        if uv.len() > 0 && !check_all_below(&indices.uv, uv.len()) {
            return Err(FileError::Invalid);
        }
        Ok(Mesh { vertices, normals, uv, tangents, bi_tangents, indices })
    }

    /// A bare mesh of positions and position indices, with nothing baked.
    pub fn from_vertices_faces(vertices: Vec<V>, faces: Vec<Idx>) -> (m: Self)
        ensures
            m.vertices == vertices,
            m.indices.v == faces,
            m.indices.n@.len() == 0,
            m.indices.uv@.len() == 0,
            m.normals@.len() == 0,
            m.uv@.len() == 0,
            m.tangents@.len() == 0,
            m.bi_tangents@.len() == 0,
    {
        Mesh {
            vertices,
            normals: Vec::new(),
            uv: Vec::new(),
            tangents: Vec::new(),
            bi_tangents: Vec::new(),
            indices: Indices { v: faces, n: Vec::new(), uv: Vec::new() },
        }
    }

    /// Number of positions.
    pub fn vertex_count(&self) -> (n: usize)
        ensures
            n == self.vertices@.len(),
    {
        self.vertices.len()
    }

    /// Number of corners.
    pub fn index_count(&self) -> (n: usize)
        ensures
            n == self.indices.v@.len(),
    {
        self.indices.len()
    }

    /// The index triple of corner `index`; all zero past the end.
    pub fn get_indices(&self, index: Idx) -> (r: (VIdx, NIdx, TIdx))
        requires
            index < self.indices.v@.len() ==> index < self.indices.n@.len() && index
                < self.indices.uv@.len(),
        ensures
            r == self.indices.triple(index as int),
    {
        self.indices.index(index)
    }

    /// A cursor over the triangles of the mesh, starting at the first.
    pub fn iter_triangles(&self) -> (t: Triangles<'_, V, U>)
        ensures
            t.mesh == self,
            t.counter == 0,
    {
        Triangles::new(self)
    }

    /// Whether the normal set holds anything.
    pub fn has_normals(&self) -> (b: bool)
        ensures
            b == (self.normals@.len() > 0),
    {
        self.normals.len() > 0
    }

    /// Whether the UV set holds anything.
    pub fn has_uv(&self) -> (b: bool)
        ensures
            b == (self.uv@.len() > 0),
    {
        self.uv.len() > 0
    }
}


} // verus!
