//! The pointer: where the cursor is, and moving it.

use vstd::prelude::*;
use crate::engine::Compositor;
use crate::model::CompositorView;
use crate::types::Point;

verus! {

/// Where the cursor is.
pub fn get_position(engine: &Compositor) -> (point: Point)
    ensures
        point == engine@.pointer,
{
    engine.pointer
}

/// Moves the cursor to `point`. A handler for pointer motion has to call
/// this: the motion event does not itself move the cursor.
pub fn set_position(engine: &mut Compositor, point: &Point)
    requires
        old(engine)@.wf(),
    ensures
        final(engine)@.wf(),
        final(engine)@ == (CompositorView { pointer: *point, ..old(engine)@ }),
{
    engine.pointer = *point;
    proof {
        old(engine)@.lemma_same_records_wf(engine@);
    }
}

} // verus!
