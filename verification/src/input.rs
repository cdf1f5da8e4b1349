use vstd::prelude::*;

verus! {

/// The keys the camera and object controls listen to.
#[derive(Debug, Clone, Copy, PartialEq, Eq, Hash, Structural)]
pub enum Keys {
    W,
    A,
    S,
    D,
    Q,
    E,
    Up,
    Down,
    Left,
    Right,
}

} // verus!
