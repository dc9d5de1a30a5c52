//! Which movement keys are held, and the direction they ask for.
use vstd::prelude::*;

verus! {

/// The keys and mouse button that steer the camera.
#[derive(PartialEq, Eq, Structural, Clone, Copy, Debug, Default)]
pub struct KeyStates {
    pub forward: bool,
    pub backward: bool,
    pub left: bool,
    pub right: bool,
    pub up: bool,
    pub down: bool,
    pub lmb: bool,
}

/// `1` for a held key, `0` otherwise.
pub open spec fn held(b: bool) -> int {
    if b { 1 } else { 0 }
}

fn held_i8(b: bool) -> (r: i8)
    ensures
        r as int == held(b),
{
    if b { 1 } else { 0 }
}

impl KeyStates {
    /// No key held.
    pub fn new() -> (r: KeyStates)
        ensures
            !r.forward && !r.backward && !r.left && !r.right && !r.up && !r.down && !r.lmb,
    {
        KeyStates { forward: false, backward: false, left: false, right: false, up: false, down: false, lmb: false }
    }

    /// The camera-space translation the keys ask for, each axis in -1..=1:
    /// x from left minus right, y from down minus up, z from forward minus
    /// backward. Opposite keys held together cancel out.
    pub fn translation_axes(&self) -> (r: (i8, i8, i8))
        ensures
            r.0 as int == held(self.left) - held(self.right),
            r.1 as int == held(self.down) - held(self.up),
            r.2 as int == held(self.forward) - held(self.backward),
    {
        (
            held_i8(self.left) - held_i8(self.right),
            held_i8(self.down) - held_i8(self.up),
            held_i8(self.forward) - held_i8(self.backward),
        )
    }
}

} // verus!
