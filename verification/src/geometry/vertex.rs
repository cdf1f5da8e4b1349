use vstd::prelude::*;

verus! {

/// The attributes of one triangle corner, resolved through the three index
/// streams of a mesh. `uv`, `tangent` and `bi_tangent` are absent on a mesh
/// that has no UV set.
#[derive(Debug, Clone, Copy)]
pub struct VertexAttributes<V, U> {
    pub position: V,
    pub normal: V,
    pub uv: Option<U>,
    pub tangent: Option<V>,
    pub bi_tangent: Option<V>,
}

impl<V, U> VertexAttributes<V, U> {
    /// Replaces the position.
    pub fn set_position(&mut self, v: V)
        ensures
            *final(self) == (VertexAttributes { position: v, ..*old(self) }),
    {
        self.position = v;
    }

    /// Replaces the normal.
    pub fn set_normal(&mut self, v: V)
        ensures
            *final(self) == (VertexAttributes { normal: v, ..*old(self) }),
    {
        self.normal = v;
    }

    /// Sets the texture coordinate.
    pub fn set_uv(&mut self, v: U)
        ensures
            *final(self) == (VertexAttributes { uv: Some(v), ..*old(self) }),
    {
        self.uv = Some(v);
    }

    /// Sets the tangent.
    pub fn set_tangent(&mut self, v: V)
        ensures
            *final(self) == (VertexAttributes { tangent: Some(v), ..*old(self) }),
    {
        self.tangent = Some(v);
    }

    /// Sets the bitangent.
    pub fn set_bi_tangent(&mut self, v: V)
        ensures
            *final(self) == (VertexAttributes { bi_tangent: Some(v), ..*old(self) }),
    {
        self.bi_tangent = Some(v);
    }
}

} // verus!
