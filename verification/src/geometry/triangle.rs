use vstd::prelude::*;

use crate::geometry::mesh::Mesh;
use crate::geometry::vertex::VertexAttributes;

verus! {

/// A cursor that walks the triangles of a mesh in index order.
pub struct Triangles<'a, V, U> {
    pub mesh: &'a Mesh<V, U>,
    pub counter: usize,
}

impl<'a, V: Copy, U: Copy> Triangles<'a, V, U> {
    /// Whether a whole triangle is left at the cursor.
    pub open spec fn has_next(&self) -> bool {
        self.counter + 2 < self.mesh.indices.v@.len()
    }

    /// The three corners of the triangle at the cursor, or `None` once fewer
    /// than three corners are left; the cursor then stays where it is.
    pub fn next(&mut self) -> (r: Option<[VertexAttributes<V, U>; 3]>)
        requires
            old(self).mesh.wf(),
        ensures
            final(self).mesh == old(self).mesh,
            match r {
                Some(corners) => {
                    &&& old(self).has_next()
                    &&& final(self).counter == old(self).counter + 3
                    &&& forall|i: int|
                        0 <= i < 3 ==> #[trigger] corners[i] == old(self).mesh.corner(
                            old(self).counter + i,
                        )
                },
                None => !old(self).has_next() && final(self).counter == old(self).counter,
            },
    {
        let len = self.mesh.indices.v.len();
        if self.counter >= len || len - self.counter <= 2 {
            return None;
        }
        let c0 = self.resolve(self.counter);
        let c1 = self.resolve(self.counter + 1);
        let c2 = self.resolve(self.counter + 2);
        self.counter += 3;
        Some([c0, c1, c2])
    }

    /// Looks up the attributes of corner `index` through the index streams.
    fn resolve(&self, index: usize) -> (a: VertexAttributes<V, U>)
        requires
            self.mesh.wf(),
            index < self.mesh.indices.v@.len(),
        ensures
            a == self.mesh.corner(index as int),
    {
        let mesh = self.mesh;
        let v_id = mesh.indices.v[index];
        let n_id = mesh.indices.n[index];
        let textured = mesh.uv.len() > 0;
        VertexAttributes {
            position: mesh.vertices[v_id],
            normal: mesh.normals[n_id],
            uv: if textured {
                Some(mesh.uv[mesh.indices.uv[index]])
            } else {
                None
            },
            tangent: if textured {
                Some(mesh.tangents[v_id])
            } else {
                None
            },
            bi_tangent: if textured {
                Some(mesh.bi_tangents[v_id])
            } else {
                None
            },
        }
    }
}

impl<'a, V, U> Triangles<'a, V, U> {
    /// A cursor at the first triangle of `mesh`.
    pub fn new(mesh: &'a Mesh<V, U>) -> (t: Self)
        ensures
            t.mesh == mesh,
            t.counter == 0,
    {
        Self { mesh, counter: 0 }
    }
}

} // verus!
