//! What can be asked of a surface and done to it. A question about a handle
//! that names no live surface is answered by the empty value of its type; a
//! change to such a handle is ignored.

use vstd::prelude::*;
use crate::engine::Compositor;
use crate::flags::{ResizeEdge, ViewState, ViewType};
use crate::handle::{WlcOutput, WlcView};
use crate::model::{CompositorView, OutputModel, ViewRecord};
use crate::stack::{place_above, place_below, position};
use crate::types::Geometry;

verus! {

impl WlcView {
    /// The output that the surface belongs to; the output handle with the
    /// number zero when the surface is not alive.
    pub fn get_output(&self, engine: &Compositor) -> (output: WlcOutput)
        requires
            engine@.wf(),
        ensures
            output == if engine@.has_view(*self) {
                engine@.record(*self).output
            } else {
                WlcOutput::spec_dummy(0)
            },
    {
        match engine.find_view(*self) {
            Some(i) => engine.views[i].output,
            None => WlcOutput::dummy(0),
        }
    }

    /// The visibility mask of the surface; zero when the surface is not alive.
    pub fn get_mask(&self, engine: &Compositor) -> (mask: u32)
        requires
            engine@.wf(),
        ensures
            mask == if engine@.has_view(*self) {
                engine@.record(*self).mask
            } else {
                0
            },
    {
        match engine.find_view(*self) {
            Some(i) => engine.views[i].mask,
            None => 0,
        }
    }

    /// The geometry of the surface as it is shown, after clipping; it may
    /// differ from the committed geometry.
    pub fn get_visible_geometry(&self, engine: &Compositor) -> (geometry: Geometry)
        requires
            engine@.wf(),
        ensures
            geometry == if engine@.has_view(*self) {
                engine@.record(*self).visible_geometry
            } else {
                Geometry::spec_zero()
            },
    {
        match engine.find_view(*self) {
            Some(i) => engine.views[i].visible_geometry,
            None => Geometry::zero(),
        }
    }

    /// The type flags of the surface; the empty set when the surface is not
    /// alive.
    pub fn get_type(&self, engine: &Compositor) -> (view_type: ViewType)
        requires
            engine@.wf(),
        ensures
            view_type == if engine@.has_view(*self) {
                engine@.record(*self).view_type
            } else {
                ViewType::spec_empty()
            },
    {
        match engine.find_view(*self) {
            Some(i) => engine.views[i].view_type,
            None => ViewType::empty(),
        }
    }

    /// The state flags of the surface; the empty set when the surface is not
    /// alive.
    pub fn get_state(&self, engine: &Compositor) -> (state: ViewState)
        requires
            engine@.wf(),
        ensures
            state == if engine@.has_view(*self) {
                engine@.record(*self).state
            } else {
                ViewState::spec_empty()
            },
    {
        match engine.find_view(*self) {
            Some(i) => engine.views[i].state,
            None => ViewState::empty(),
        }
    }

    /// The parent of the surface; the root surface when it has none, or is
    /// not alive.
    pub fn get_parent(&self, engine: &Compositor) -> (parent: WlcView)
        requires
            engine@.wf(),
        ensures
            parent == if engine@.has_view(*self) {
                engine@.record(*self).parent
            } else {
                WlcView::spec_root()
            },
    {
        match engine.find_view(*self) {
            Some(i) => engine.views[i].parent,
            None => WlcView::root(),
        }
    }

    /// The word that the caller attached to the surface; zero when none was
    /// attached or the surface is not alive. The word is never interpreted.
    pub fn get_user_data(&self, engine: &Compositor) -> (data: usize)
        requires
            engine@.wf(),
        ensures
            data == if engine@.has_view(*self) {
                engine@.record(*self).user_data
            } else {
                0
            },
    {
        match engine.find_view(*self) {
            Some(i) => engine.views[i].user_data,
            None => 0,
        }
    }

    /// The geometry last committed for the surface; the empty rectangle at the
    /// origin when the surface is not alive. The answer is never `None`.
    pub fn get_geometry(&self, engine: &Compositor) -> (geometry: Option<Geometry>)
        requires
            engine@.wf(),
        ensures
            geometry == Some(
                if engine@.has_view(*self) {
                    engine@.record(*self).geometry
                } else {
                    Geometry::spec_zero()
                },
            ),
    {
        match engine.find_view(*self) {
            Some(i) => Some(engine.views[i].geometry),
            None => Some(Geometry::zero()),
        }
    }

    /// The title of the surface; empty when the surface is not alive.
    pub fn get_title(&self, engine: &Compositor) -> (title: String)
        requires
            engine@.wf(),
        ensures
            title@ == if engine@.has_view(*self) {
                engine@.record(*self).title@
            } else {
                Seq::<char>::empty()
            },
    {
        match engine.find_view(*self) {
            Some(i) => engine.views[i].title.clone(),
            None => String::new(),
        }
    }

    /// The class of the surface (shell surfaces only); empty when it has none
    /// or is not alive.
    pub fn get_class(&self, engine: &Compositor) -> (class: String)
        requires
            engine@.wf(),
        ensures
            class@ == if engine@.has_view(*self) {
                engine@.record(*self).class@
            } else {
                Seq::<char>::empty()
            },
    {
        match engine.find_view(*self) {
            Some(i) => engine.views[i].class.clone(),
            None => String::new(),
        }
    }

    /// The application identifier of the surface (xdg surfaces only); empty
    /// when it has none or is not alive.
    pub fn get_app_id(&self, engine: &Compositor) -> (app_id: String)
        requires
            engine@.wf(),
        ensures
            app_id@ == if engine@.has_view(*self) {
                engine@.record(*self).app_id@
            } else {
                Seq::<char>::empty()
            },
    {
        match engine.find_view(*self) {
            Some(i) => engine.views[i].app_id.clone(),
            None => String::new(),
        }
    }

    /// Asks the surface to close. On the root surface, which is never alive,
    /// this does nothing.
    pub fn close(&self, engine: &mut Compositor)
        requires
            old(engine)@.wf(),
        ensures
            final(engine)@.wf(),
            final(engine)@ == old(engine)@.with_view(
                *self,
                ViewRecord { close_requested: true, ..old(engine)@.record(*self) },
            ),
            self.spec_is_root() ==> final(engine)@ == old(engine)@,
    {
        match engine.find_view(*self) {
            Some(i) => {
                engine.views[i].close_requested = true;
                proof {
                    assert(engine.views@ =~= old(engine).views@.update(
                        i as int,
                        engine.views@[i as int],
                    ));
                    old(engine)@.lemma_with_view_wf(i as int, engine.views@[i as int]);
                }
            },
            None => {},
        }
    }

    /// Sets the visibility mask of the surface. The mask is a plain 32-bit
    /// value, stored as it is given.
    pub fn set_mask(&self, engine: &mut Compositor, mask: u32)
        requires
            old(engine)@.wf(),
        ensures
            final(engine)@.wf(),
            final(engine)@ == old(engine)@.with_view(
                *self,
                ViewRecord { mask, ..old(engine)@.record(*self) },
            ),
    {
        match engine.find_view(*self) {
            Some(i) => {
                engine.views[i].mask = mask;
                proof {
                    assert(engine.views@ =~= old(engine).views@.update(
                        i as int,
                        engine.views@[i as int],
                    ));
                    old(engine)@.lemma_with_view_wf(i as int, engine.views@[i as int]);
                }
            },
            None => {},
        }
    }

    /// Commits a geometry for the surface. `edges` says which edges an
    /// interactive resize dragged; it is empty when a program made the change.
    /// The visible geometry is the engine's to set.
    pub fn set_geometry(&self, engine: &mut Compositor, edges: ResizeEdge, geometry: Geometry)
        requires
            old(engine)@.wf(),
        ensures
            final(engine)@.wf(),
            final(engine)@ == old(engine)@.with_view(
                *self,
                ViewRecord { geometry, resize_edges: edges, ..old(engine)@.record(*self) },
            ),
    {
        match engine.find_view(*self) {
            Some(i) => {
                engine.views[i].geometry = geometry;
                engine.views[i].resize_edges = edges;
                proof {
                    assert(engine.views@ =~= old(engine).views@.update(
                        i as int,
                        engine.views@[i as int],
                    ));
                    old(engine)@.lemma_with_view_wf(i as int, engine.views@[i as int]);
                }
            },
            None => {},
        }
    }

    /// Sets (`toggle` true) or clears (`toggle` false) the given type flags.
    /// Every other flag stays as it is.
    pub fn set_type(&self, engine: &mut Compositor, view_type: ViewType, toggle: bool)
        requires
            old(engine)@.wf(),
        ensures
            final(engine)@.wf(),
            final(engine)@ == old(engine)@.type_toggled(*self, view_type, toggle),
    {
        match engine.find_view(*self) {
            Some(i) => {
                let flags = engine.views[i].view_type.toggled(view_type, toggle);
                engine.views[i].view_type = flags;
                proof {
                    assert(engine.views@ =~= old(engine).views@.update(
                        i as int,
                        engine.views@[i as int],
                    ));
                    old(engine)@.lemma_with_view_wf(i as int, engine.views@[i as int]);
                }
            },
            None => {},
        }
    }

    /// Sets (`toggle` true) or clears (`toggle` false) the given state flags.
    /// Every other flag stays as it is.
    pub fn set_state(&self, engine: &mut Compositor, state: ViewState, toggle: bool)
        requires
            old(engine)@.wf(),
        ensures
            final(engine)@.wf(),
            final(engine)@ == old(engine)@.state_toggled(*self, state, toggle),
    {
        match engine.find_view(*self) {
            Some(i) => {
                let flags = engine.views[i].state.toggled(state, toggle);
                engine.views[i].state = flags;
                proof {
                    assert(engine.views@ =~= old(engine).views@.update(
                        i as int,
                        engine.views@[i as int],
                    ));
                    old(engine)@.lemma_with_view_wf(i as int, engine.views@[i as int]);
                }
            },
            None => {},
        }
    }

    /// Attaches a word of the caller's own to the surface. It is stored and
    /// handed back as it is, never interpreted.
    pub fn set_user_data(&self, engine: &mut Compositor, data: usize)
        requires
            old(engine)@.wf(),
        ensures
            final(engine)@.wf(),
            final(engine)@ == old(engine)@.with_view(
                *self,
                ViewRecord { user_data: data, ..old(engine)@.record(*self) },
            ),
    {
        match engine.find_view(*self) {
            Some(i) => {
                engine.views[i].user_data = data;
                proof {
                    assert(engine.views@ =~= old(engine).views@.update(
                        i as int,
                        engine.views@[i as int],
                    ));
                    old(engine)@.lemma_with_view_wf(i as int, engine.views@[i as int]);
                }
            },
            None => {},
        }
    }

    /// Moves the surface to `output`: it leaves the stack it stood in and
    /// goes to the back of the stack of `output`. Nothing happens unless both
    /// the surface and the output are alive and the surface is on another
    /// output.
    pub fn set_output(&self, engine: &mut Compositor, output: WlcOutput)
        requires
            old(engine)@.wf(),
        ensures
            final(engine)@.wf(),
            final(engine)@ == old(engine)@.moved_to_output(*self, output),
    {
        let i = match engine.find_view(*self) {
            Some(i) => i,
            None => {
                return ;
            },
        };
        let t = match engine.find_output(output) {
            Some(t) => t,
            None => {
                return ;
            },
        };
        let (f, k) = match engine.locate(*self) {
            Some(place) => place,
            None => {
                return ;
            },
        };
        if f == t {
            return ;
        }
        engine.outputs[f].stack.remove(k);
        engine.outputs[t].stack.push(*self);
        engine.views[i].output = output;
        proof {
            let before = old(engine)@;
            let fi = f as int;
            let ti = t as int;
            let ii = i as int;
            before.lemma_view_index(ii);
            before.lemma_output_index(fi);
            before.lemma_output_index(ti);
            let from_stack = before.outputs[fi].stack;
            let to_stack = before.outputs[ti].stack;
            assert(from_stack == old(engine).outputs@[fi].stack@);
            assert(to_stack == old(engine).outputs@[ti].stack@);
            assert(engine@.views =~= before.views.update(
                ii,
                ViewRecord { output, ..before.views[ii] },
            ));
            assert(engine@.outputs =~= before.outputs.update(
                fi,
                OutputModel { stack: from_stack.remove(k as int), ..before.outputs[fi] },
            ).update(ti, OutputModel { stack: to_stack.push(*self), ..before.outputs[ti] }));
            assert(engine@ =~= before.moved_to_output(*self, output));
            before.moving_changes_two_stacks(*self, output);
        }
    }

    /// Makes `parent` the parent of the surface; the root surface as parent
    /// means that the surface has none. The engine turns down a parent that
    /// is not alive, and one that has the surface among its own ancestors,
    /// the surface itself included: the call is then ignored.
    pub fn set_parent(&self, engine: &mut Compositor, parent: WlcView)
        requires
            old(engine)@.wf(),
        ensures
            final(engine)@.wf(),
            final(engine)@ == if old(engine)@.can_adopt(*self, parent) {
                old(engine)@.with_view(*self, ViewRecord { parent, ..old(engine)@.record(*self) })
            } else {
                old(engine)@
            },
    {
        let accepted = parent.is_root() || (engine.has_view(parent) && !engine.leads_to(
            parent,
            *self,
        ));
        if accepted {
            match engine.find_view(*self) {
                Some(i) => {
                    engine.views[i].parent = parent;
                    proof {
                        assert(engine.views@ =~= old(engine).views@.update(
                            i as int,
                            engine.views@[i as int],
                        ));
                        old(engine)@.lemma_with_view_stacks(i as int, engine.views@[i as int]);
                        old(engine)@.lemma_adopted_wf(*self, parent);
                    }
                },
                None => {},
            }
        }
    }

    /// Gives the surface the input focus. On the root surface this takes the
    /// focus from every surface. A handle that is neither the root nor alive
    /// is ignored.
    pub fn focus(&self, engine: &mut Compositor)
        requires
            old(engine)@.wf(),
        ensures
            final(engine)@.wf(),
            final(engine)@ == if self.spec_is_root() || old(engine)@.has_view(*self) {
                CompositorView { focused_view: *self, ..old(engine)@ }
            } else {
                old(engine)@
            },
    {
        if self.is_root() || engine.has_view(*self) {
            engine.focused_view = *self;
            proof {
                old(engine)@.lemma_same_records_wf(engine@);
            }
        }
    }

    /// Moves the surface to the front of the stack of its output. No other
    /// stack changes, and the other surfaces keep their order.
    pub fn bring_to_front(&self, engine: &mut Compositor)
        requires
            old(engine)@.wf(),
        ensures
            final(engine)@.wf(),
            final(engine)@ == old(engine)@.restacked(*self, 0),
    {
        match engine.locate(*self) {
            Some((o, k)) => {
                engine.restack(o, k, 0);
            },
            None => {},
        }
    }

    /// Moves the surface to the back of the stack of its output. No other
    /// stack changes, and the other surfaces keep their order.
    pub fn send_to_back(&self, engine: &mut Compositor)
        requires
            old(engine)@.wf(),
        ensures
            final(engine)@.wf(),
            final(engine)@ == old(engine)@.restacked(
                *self,
                old(engine)@.stack_with(*self).len() - 1,
            ),
    {
        match engine.locate(*self) {
            Some((o, k)) => {
                let last = engine.outputs[o].stack.len() - 1;
                engine.restack(o, k, last);
            },
            None => {},
        }
    }

    /// Moves the surface directly behind `other`. Nothing happens unless
    /// both stand in the same stack and differ.
    pub fn send_below(&self, engine: &mut Compositor, other: WlcView)
        requires
            old(engine)@.wf(),
        ensures
            final(engine)@.wf(),
            final(engine)@ == if other != *self && old(engine)@.stack_with(*self).contains(other) {
                old(engine)@.restacked(
                    *self,
                    place_below(
                        old(engine)@.stack_with(*self).index_of(*self),
                        old(engine)@.stack_with(*self).index_of(other),
                    ),
                )
            } else {
                old(engine)@
            },
    {
        if other == *self {
            return ;
        }
        match engine.locate(*self) {
            Some((o, k)) => {
                match position(&engine.outputs[o].stack, other) {
                    Some(j) => {
                        let to = if k < j {
                            j
                        } else {
                            j + 1
                        };
                        engine.restack(o, k, to);
                    },
                    None => {},
                }
            },
            None => {},
        }
    }

    /// Moves the surface directly in front of `other`. Nothing happens
    /// unless both stand in the same stack and differ.
    pub fn bring_above(&self, engine: &mut Compositor, other: WlcView)
        requires
            old(engine)@.wf(),
        ensures
            final(engine)@.wf(),
            final(engine)@ == if other != *self && old(engine)@.stack_with(*self).contains(other) {
                old(engine)@.restacked(
                    *self,
                    place_above(
                        old(engine)@.stack_with(*self).index_of(*self),
                        old(engine)@.stack_with(*self).index_of(other),
                    ),
                )
            } else {
                old(engine)@
            },
    {
        if other == *self {
            return ;
        }
        match engine.locate(*self) {
            Some((o, k)) => {
                match position(&engine.outputs[o].stack, other) {
                    Some(j) => {
                        let to = if k < j {
                            j - 1
                        } else {
                            j
                        };
                        engine.restack(o, k, to);
                    },
                    None => {},
                }
            },
            None => {},
        }
    }
}

} // verus!
