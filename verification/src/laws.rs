//! What holds of the state as a whole: where a surface stands, and what
//! calls made one after another come to.

use vstd::prelude::*;
use crate::flags::ViewState;
use crate::handle::{WlcOutput, WlcView};
use crate::model::{CompositorView, OutputModel, ViewRecord};
use crate::stack::{lemma_moved, moved};

verus! {

/// A surface stands in at most one stack, and there once: two outputs whose
/// stacks hold the same surface are the same output, the one that the
/// surface's record names.
pub proof fn surface_stands_in_one_stack(
    state: CompositorView,
    view: WlcView,
    a: WlcOutput,
    b: WlcOutput,
)
    requires
        state.wf(),
        state.stack_of(a).contains(view),
        state.stack_of(b).contains(view),
    ensures
        a == b,
        state.has_view(view),
        state.record(view).output == a,
        state.stack_of(a).no_duplicates(),
{
    let i = state.output_index(a);
    state.lemma_lookup_output(a);
    let k = state.stack_of(a).index_of(view);
    let j = state.lemma_member(i, k);
    let i2 = state.output_index(b);
    state.lemma_lookup_output(b);
    let k2 = state.stack_of(b).index_of(view);
    let j2 = state.lemma_member(i2, k2);
}

/// A live surface belongs to a live output and stands in that output's
/// stack.
pub proof fn live_surface_is_stacked(state: CompositorView, view: WlcView)
    requires
        state.wf(),
        state.has_view(view),
    ensures
        state.has_output(state.record(view).output),
        state.stack_with(view).contains(view),
        state.stack_with(view).no_duplicates(),
{
    state.lemma_lookup_view(view);
    let p = state.lemma_home(state.view_index(view));
}

/// Moving a surface within its stack changes that stack alone: the surface
/// comes to stand at the place asked for, the other surfaces of the stack
/// keep their order, and every record and every other stack stays as it
/// was.
pub proof fn restacking_moves_one_surface(state: CompositorView, view: WlcView, to: int)
    requires
        state.wf(),
        state.has_view(view),
        0 <= to < state.stack_with(view).len(),
    ensures
        state.restacked(view, to).wf(),
        state.restacked(view, to).views == state.views,
        state.restacked(view, to).stack_with(view) == moved(
            state.stack_with(view),
            state.stack_with(view).index_of(view),
            to,
        ),
        state.restacked(view, to).stack_with(view)[to] == view,
        state.restacked(view, to).stack_with(view).remove(to) == state.stack_with(view).remove(
            state.stack_with(view).index_of(view),
        ),
        forall|other: WlcOutput|
            other != state.record(view).output ==> state.restacked(view, to).stack_of(other)
                == state.stack_of(other),
{
    let output = state.record(view).output;
    let stack = state.stack_with(view);
    let next = state.restacked(view, to);
    live_surface_is_stacked(state, view);
    state.lemma_lookup_view(view);
    state.lemma_lookup_output(output);
    let i = state.output_index(output);
    let from = stack.index_of(view);
    lemma_moved(stack, from, to);
    let record = OutputModel { stack: moved(stack, from, to), ..state.outputs[i] };
    state.lemma_with_output_wf(i, record);
    next.lemma_output_index(i);
    state.lemma_same_views(next);
    assert forall|other: WlcOutput| other != output implies next.stack_of(other) == state.stack_of(
        other,
    ) by {
        if state.has_output(other) {
            let p = state.output_index(other);
            state.lemma_lookup_output(other);
            next.lemma_output_index(p);
        } else if next.has_output(other) {
            let p = next.output_index(other);
            next.lemma_lookup_output(other);
            assert(state.outputs[p].id == other);
        }
    }
}

/// No surface is its own ancestor: in a consistent state the chain of
/// parents that starts at a surface's parent never comes to the surface,
/// however many steps it is followed.
pub proof fn no_surface_is_its_own_ancestor(state: CompositorView, view: WlcView, steps: nat)
    requires
        state.wf(),
        state.has_view(view),
    ensures
        !state.comes_to(state.record(view).parent, view, steps),
        state.record(view).parent != view,
{
    state.lemma_lookup_view(view);
    let i = state.view_index(view);
    assert(state.chain_ends(state.views[i].id));
    let end = choose|end: nat| state.ends_within(view, end);
    if state.comes_to(state.record(view).parent, view, steps) {
        state.lemma_cycle_never_ends(view, steps, view, 0, end);
    }
}

/// Giving a surface a parent keeps the state consistent, so that afterwards
/// too no surface is its own ancestor; the surface then has the parent it
/// was given.
pub proof fn adoption_keeps_parents_apart(state: CompositorView, view: WlcView, parent: WlcView)
    requires
        state.wf(),
        state.has_view(view),
        state.can_adopt(view, parent),
    ensures
        state.with_view(view, ViewRecord { parent, ..state.record(view) }).wf(),
        state.with_view(view, ViewRecord { parent, ..state.record(view) }).record(view).parent
            == parent,
        parent != view,
{
    let i = state.view_index(view);
    state.lemma_lookup_view(view);
    let record = ViewRecord { parent, ..state.record(view) };
    state.lemma_with_view_stacks(i, record);
    state.lemma_adopted_wf(view, parent);
    let next = state.with_view(view, record);
    next.lemma_view_index(i);
}

/// Setting state flags that were all clear and clearing them again brings
/// the whole state back to what it was: the flags of the surface are those
/// it had, and nothing else has changed.
pub proof fn state_flag_on_then_off_restores(state: CompositorView, view: WlcView, flags: ViewState)
    requires
        state.wf(),
        state.has_view(view) ==> state.record(view).state.bits & flags.bits == 0,
    ensures
        state.state_toggled(view, flags, true).state_toggled(view, flags, false) == state,
{
    if state.has_view(view) {
        let i = state.view_index(view);
        state.lemma_lookup_view(view);
        let before = state.record(view);
        let on = ViewRecord { state: before.state.spec_toggled(flags, true), ..before };
        state.lemma_with_view_wf(i, on);
        let middle = state.state_toggled(view, flags, true);
        middle.lemma_view_index(i);
        before.state.toggle_on_then_off_restores(flags);
        let off = ViewRecord { state: on.state.spec_toggled(flags, false), ..on };
        assert(off == before);
        assert(middle.state_toggled(view, flags, false).views =~= state.views);
    } else {
        assert(state.state_toggled(view, flags, true) == state);
    }
}

/// Asking twice for a render of an output comes to the same state as asking
/// once.
pub proof fn scheduling_twice_is_scheduling_once(state: CompositorView, output: WlcOutput)
    requires
        state.wf(),
    ensures
        state.render_scheduled(output).render_scheduled(output) == state.render_scheduled(output),
{
    if state.has_output(output) {
        let i = state.output_index(output);
        state.lemma_lookup_output(output);
        let before = state.output_record(output);
        let once = OutputModel { render: before.render.spec_scheduled(), ..before };
        state.lemma_with_output_wf(i, once);
        let middle = state.render_scheduled(output);
        middle.lemma_output_index(i);
        before.render.scheduling_twice_schedules_once();
        assert(middle.render_scheduled(output).outputs =~= middle.outputs);
    } else {
        assert(state.render_scheduled(output) == state);
    }
}

} // verus!
