//! What can be asked of an output and done to it. A question about a handle
//! that names no live output is answered by the empty value of its type; a
//! change to such a handle is ignored. Replacing the whole stacking order is
//! the one call that can fail.

use vstd::prelude::*;
use crate::engine::Compositor;
use crate::handle::{WlcOutput, WlcView};
use crate::model::{CompositorView, OutputModel};
use crate::stack::{position, reorders};
use crate::types::Size;

verus! {

/// What `set_views` answers for a handle that names no live output.
pub open spec fn no_such_output() -> Seq<char> {
    "the output does not exist"@
}

/// What `set_views` answers for a list that is no reordering of the
/// output's stack.
pub open spec fn not_a_reordering() -> Seq<char> {
    "the views are not those of the output"@
}

/// Whether `list` holds no surface twice.
pub fn all_differ(list: &Vec<WlcView>) -> (b: bool)
    ensures
        b == list@.no_duplicates(),
{
    let mut i: usize = 0;
    while i < list.len()
        invariant
            i <= list.len(),
            forall|a: int, b: int| 0 <= a < b < list.len() && a < i ==> list@[a] != list@[b],
        decreases list.len() - i,
    {
        let mut j: usize = i + 1;
        while j < list.len()
            invariant
                i < j <= list.len(),
                forall|b: int| i < b < j ==> list@[i as int] != list@[b],
            decreases list.len() - j,
        {
            if list[i] == list[j] {
                return false;
            }
            j += 1;
        }
        i += 1;
    }
    true
}

/// Whether every surface of `part` stands in `whole`.
pub fn all_within(part: &Vec<WlcView>, whole: &Vec<WlcView>) -> (b: bool)
    ensures
        b == (forall|k: int| 0 <= k < part.len() ==> whole@.contains(#[trigger] part@[k])),
{
    let mut k: usize = 0;
    while k < part.len()
        invariant
            k <= part.len(),
            forall|j: int| 0 <= j < k ==> whole@.contains(#[trigger] part@[j]),
        decreases part.len() - k,
    {
        if position(whole, part[k]).is_none() {
            return false;
        }
        k += 1;
    }
    true
}

impl WlcOutput {
    /// Whether the output sleeps; `false` when the output is not alive.
    pub fn get_sleep(&self, engine: &Compositor) -> (sleep: bool)
        requires
            engine@.wf(),
        ensures
            sleep == if engine@.has_output(*self) {
                engine@.output_record(*self).sleep
            } else {
                false
            },
    {
        match engine.find_output(*self) {
            Some(i) => {
                assert(engine@.outputs[i as int] == engine.outputs@[i as int]@);
                engine.outputs[i].sleep
            },
            None => false,
        }
    }

    /// The visibility mask of the output; zero when the output is not alive.
    pub fn get_mask(&self, engine: &Compositor) -> (mask: u32)
        requires
            engine@.wf(),
        ensures
            mask == if engine@.has_output(*self) {
                engine@.output_record(*self).mask
            } else {
                0
            },
    {
        match engine.find_output(*self) {
            Some(i) => {
                assert(engine@.outputs[i as int] == engine.outputs@[i as int]@);
                engine.outputs[i].mask
            },
            None => 0,
        }
    }

    /// The word that the caller attached to the output; zero when none was
    /// attached or the output is not alive. The word is never interpreted.
    pub fn get_user_data(&self, engine: &Compositor) -> (data: usize)
        requires
            engine@.wf(),
        ensures
            data == if engine@.has_output(*self) {
                engine@.output_record(*self).user_data
            } else {
                0
            },
    {
        match engine.find_output(*self) {
            Some(i) => {
                assert(engine@.outputs[i as int] == engine.outputs@[i as int]@);
                engine.outputs[i].user_data
            },
            None => 0,
        }
    }

    /// The factor by which the output is scaled; zero when the output is not
    /// alive.
    pub fn get_scale(&self, engine: &Compositor) -> (scale: u32)
        requires
            engine@.wf(),
        ensures
            scale == if engine@.has_output(*self) {
                engine@.output_record(*self).scale
            } else {
                0
            },
    {
        match engine.find_output(*self) {
            Some(i) => {
                assert(engine@.outputs[i as int] == engine.outputs@[i as int]@);
                engine.outputs[i].scale
            },
            None => 0,
        }
    }

    /// The name of the output; empty when the output is not alive.
    pub fn get_name(&self, engine: &Compositor) -> (name: String)
        requires
            engine@.wf(),
        ensures
            name@ == if engine@.has_output(*self) {
                engine@.output_record(*self).name
            } else {
                Seq::<char>::empty()
            },
    {
        match engine.find_output(*self) {
            Some(i) => {
                assert(engine@.outputs[i as int] == engine.outputs@[i as int]@);
                engine.outputs[i].name.clone()
            },
            None => String::new(),
        }
    }

    /// The resolution of the output in pixels; no extent when the output is
    /// not alive. The answer is never `None`.
    pub fn get_resolution(&self, engine: &Compositor) -> (resolution: Option<Size>)
        requires
            engine@.wf(),
        ensures
            resolution == Some(
                if engine@.has_output(*self) {
                    engine@.output_record(*self).resolution
                } else {
                    Size::spec_zero()
                },
            ),
    {
        match engine.find_output(*self) {
            Some(i) => {
                assert(engine@.outputs[i as int] == engine.outputs@[i as int]@);
                Some(engine.outputs[i].resolution)
            },
            None => Some(Size::zero()),
        }
    }

    /// The surfaces on the output in stacking order, front first; none when
    /// the output is not alive.
    pub fn get_views(&self, engine: &Compositor) -> (views: Vec<WlcView>)
        requires
            engine@.wf(),
        ensures
            views@ == engine@.stack_of(*self),
    {
        match engine.find_output(*self) {
            Some(i) => {
                assert(engine@.outputs[i as int] == engine.outputs@[i as int]@);
                let views = engine.outputs[i].stack.clone();
                assert(views@ =~= engine.outputs@[i as int].stack@);
                views
            },
            None => Vec::new(),
        }
    }

    /// The same as `get_views`.
    pub fn get_mutable_views(&self, engine: &Compositor) -> (views: Vec<WlcView>)
        requires
            engine@.wf(),
        ensures
            views@ == engine@.stack_of(*self),
    {
        self.get_views(engine)
    }

    /// The live outputs, in the order in which they were made.
    pub fn list(engine: &Compositor) -> (outputs: Vec<WlcOutput>)
        requires
            engine@.wf(),
        ensures
            outputs@ == engine@.outputs.map_values(|o: OutputModel| o.id),
    {
        let mut outputs: Vec<WlcOutput> = Vec::new();
        let mut i: usize = 0;
        while i < engine.outputs.len()
            invariant
                i <= engine.outputs.len(),
                outputs@.len() == i,
                forall|j: int| 0 <= j < i ==> outputs@[j] == engine@.outputs[j].id,
            decreases engine.outputs.len() - i,
        {
            assert(engine@.outputs[i as int] == engine.outputs@[i as int]@);
            outputs.push(engine.outputs[i].id);
            i += 1;
        }
        assert(outputs@ =~= engine@.outputs.map_values(|o: OutputModel| o.id));
        outputs
    }

    /// The output that holds the focus; the output handle with the number
    /// zero when none does.
    pub fn focused(engine: &Compositor) -> (output: WlcOutput)
        ensures
            output == match engine@.focused_output {
                Some(o) => o,
                None => WlcOutput::spec_dummy(0),
            },
    {
        match engine.focused_output {
            Some(o) => o,
            None => WlcOutput::dummy(0),
        }
    }

    /// Gives the focus to an output, or with `None` to no output. A handle
    /// that names no live output is ignored.
    pub fn focus(engine: &mut Compositor, output: Option<WlcOutput>)
        requires
            old(engine)@.wf(),
        ensures
            final(engine)@.wf(),
            final(engine)@ == match output {
                None => CompositorView { focused_output: None, ..old(engine)@ },
                Some(o) => if old(engine)@.has_output(o) {
                    CompositorView { focused_output: Some(o), ..old(engine)@ }
                } else {
                    old(engine)@
                },
            },
    {
        match output {
            None => {
                engine.focused_output = None;
                proof {
                    old(engine)@.lemma_same_records_wf(engine@);
                }
            },
            Some(o) => {
                if engine.has_output(o) {
                    engine.focused_output = Some(o);
                    proof {
                        old(engine)@.lemma_same_records_wf(engine@);
                    }
                }
            },
        }
    }

    /// Puts the output to sleep or wakes it.
    pub fn set_sleep(&self, engine: &mut Compositor, sleep: bool)
        requires
            old(engine)@.wf(),
        ensures
            final(engine)@.wf(),
            final(engine)@ == old(engine)@.with_output(
                *self,
                OutputModel { sleep, ..old(engine)@.output_record(*self) },
            ),
    {
        match engine.find_output(*self) {
            Some(i) => {
                assert(old(engine)@.outputs[i as int] == old(engine).outputs@[i as int]@);
                engine.outputs[i].sleep = sleep;
                proof {
                    let record = engine.outputs@[i as int]@;
                    assert(engine@.outputs =~= old(engine)@.outputs.update(i as int, record));
                    old(engine)@.lemma_with_output_wf(i as int, record);
                }
            },
            None => {},
        }
    }

    /// Sets the visibility mask of the output.
    pub fn set_mask(&self, engine: &mut Compositor, mask: u32)
        requires
            old(engine)@.wf(),
        ensures
            final(engine)@.wf(),
            final(engine)@ == old(engine)@.with_output(
                *self,
                OutputModel { mask, ..old(engine)@.output_record(*self) },
            ),
    {
        match engine.find_output(*self) {
            Some(i) => {
                assert(old(engine)@.outputs[i as int] == old(engine).outputs@[i as int]@);
                engine.outputs[i].mask = mask;
                proof {
                    let record = engine.outputs@[i as int]@;
                    assert(engine@.outputs =~= old(engine)@.outputs.update(i as int, record));
                    old(engine)@.lemma_with_output_wf(i as int, record);
                }
            },
            None => {},
        }
    }

    /// Sets the resolution of the output, with the factor by which it is
    /// scaled.
    pub fn set_resolution(&self, engine: &mut Compositor, size: Size, scaling: u32)
        requires
            old(engine)@.wf(),
        ensures
            final(engine)@.wf(),
            final(engine)@ == old(engine)@.with_output(
                *self,
                OutputModel {
                    resolution: size,
                    scale: scaling,
                    ..old(engine)@.output_record(*self)
                },
            ),
    {
        match engine.find_output(*self) {
            Some(i) => {
                assert(old(engine)@.outputs[i as int] == old(engine).outputs@[i as int]@);
                engine.outputs[i].resolution = size;
                engine.outputs[i].scale = scaling;
                proof {
                    let record = engine.outputs@[i as int]@;
                    assert(engine@.outputs =~= old(engine)@.outputs.update(i as int, record));
                    old(engine)@.lemma_with_output_wf(i as int, record);
                }
            },
            None => {},
        }
    }

    /// Attaches a word of the caller's own to the output. It is stored and
    /// handed back as it is, never interpreted.
    pub fn set_user_data(&self, engine: &mut Compositor, data: usize)
        requires
            old(engine)@.wf(),
        ensures
            final(engine)@.wf(),
            final(engine)@ == old(engine)@.with_output(
                *self,
                OutputModel { user_data: data, ..old(engine)@.output_record(*self) },
            ),
    {
        match engine.find_output(*self) {
            Some(i) => {
                assert(old(engine)@.outputs[i as int] == old(engine).outputs@[i as int]@);
                engine.outputs[i].user_data = data;
                proof {
                    let record = engine.outputs@[i as int]@;
                    assert(engine@.outputs =~= old(engine)@.outputs.update(i as int, record));
                    old(engine)@.lemma_with_output_wf(i as int, record);
                }
            },
            None => {},
        }
    }

    /// Asks for the output to be rendered with the next frame. When a render
    /// is already due nothing changes; when a frame is in flight, one more
    /// render is due right after it.
    pub fn schedule_render(&self, engine: &mut Compositor)
        requires
            old(engine)@.wf(),
        ensures
            final(engine)@.wf(),
            final(engine)@ == old(engine)@.render_scheduled(*self),
    {
        match engine.find_output(*self) {
            Some(i) => {
                assert(old(engine)@.outputs[i as int] == old(engine).outputs@[i as int]@);
                let render = engine.outputs[i].render.scheduled();
                engine.outputs[i].render = render;
                proof {
                    let record = engine.outputs@[i as int]@;
                    assert(engine@.outputs =~= old(engine)@.outputs.update(i as int, record));
                    old(engine)@.lemma_with_output_wf(i as int, record);
                }
            },
            None => {},
        }
    }

    /// Replaces the whole stacking order of the output by `views`, front
    /// first. This fails, and changes nothing, when the output is not alive
    /// or when `views` is not a reordering of the output's stack: the same
    /// surfaces, each of them once. The list itself is left as it is.
    pub fn set_views(&self, engine: &mut Compositor, views: &mut Vec<WlcView>) -> (res: Result<
        (),
        &'static str,
    >)
        requires
            old(engine)@.wf(),
        ensures
            final(engine)@.wf(),
            final(views)@ == old(views)@,
            res is Ok <==> old(engine)@.has_output(*self) && reorders(
                old(views)@,
                old(engine)@.stack_of(*self),
            ),
            res is Ok ==> final(engine)@ == old(engine)@.with_stack(*self, old(views)@),
            res is Err ==> final(engine)@ == old(engine)@,
            res matches Err(reason) ==> reason@ == if old(engine)@.has_output(*self) {
                not_a_reordering()
            } else {
                no_such_output()
            },
    {
        let i = match engine.find_output(*self) {
            Some(i) => i,
            None => {
                return Err("the output does not exist");
            },
        };
        assert(engine@.outputs[i as int] == engine.outputs@[i as int]@);
        if !(all_differ(views) && all_within(views, &engine.outputs[i].stack) && all_within(
            &engine.outputs[i].stack,
            views,
        )) {
            return Err("the views are not those of the output");
        }
        let order = views.clone();
        assert(order@ =~= views@);
        engine.outputs[i].stack = order;
        proof {
            let before = old(engine)@;
            let record = OutputModel { stack: views@, ..before.outputs[i as int] };
            before.lemma_output_index(i as int);
            assert(engine@.outputs =~= before.outputs.update(i as int, record));
            assert forall|x: WlcView|
                record.stack.contains(x) <==> before.outputs[i as int].stack.contains(x) by {
                if record.stack.contains(x) {
                    let k = record.stack.index_of(x);
                    assert(before.outputs[i as int].stack.contains(views@[k]));
                }
                if before.outputs[i as int].stack.contains(x) {
                    let k = before.outputs[i as int].stack.index_of(x);
                    assert(views@.contains(before.outputs[i as int].stack[k]));
                }
            }
            before.lemma_with_output_wf(i as int, record);
            assert(engine@ =~= before.with_stack(*self, views@));
        }
        Ok(())
    }
}

} // verus!
