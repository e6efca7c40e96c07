//! The renderer's handle. Drawing is done by the host; the handle marks
//! where a frame is presented.

use vstd::prelude::*;

verus! {

pub struct Renderer {}

impl Renderer {
    pub fn new() -> (r: Renderer)
        ensures
            r == (Renderer {}),
    {
        Renderer {}
    }
}

} // verus!
