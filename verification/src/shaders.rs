use vstd::prelude::*;

verus! {

/// The built-in shader: face normals for lighting, one colour per fragment
/// taken from the albedo texture.
pub struct Flat;

/// A fragment stage that reads its inputs from the implementing value.
pub trait Fragment {
    /// The interpolated bundle the stage consumes.
    type In;

    fn process_fragment(&self);
}

} // verus!
