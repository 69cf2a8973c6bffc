//! The mathematical model of the compositor's state: which surfaces and
//! outputs are alive, what is recorded of each, and in which order every
//! output stacks its surfaces.

use vstd::prelude::*;
use crate::flags::{KeyMod, ResizeEdge, ViewState, ViewType};
use crate::event::{Event, Outcome};
use crate::handle::{WlcOutput, WlcView};
use crate::stack::moved;
use crate::types::{BackendType, Geometry, Keysym, Phase, Point, RenderState, Size};

verus! {

/// What is recorded of one live surface.
pub struct ViewRecord {
    pub id: WlcView,
    /// The output whose stack holds the surface.
    pub output: WlcOutput,
    /// The geometry last committed for the surface.
    pub geometry: Geometry,
    /// The geometry that is shown, after clipping.
    pub visible_geometry: Geometry,
    /// The edges that the last geometry change dragged; empty when the
    /// change was made by a program.
    pub resize_edges: ResizeEdge,
    pub view_type: ViewType,
    pub state: ViewState,
    /// The parent surface; the root surface when there is none.
    pub parent: WlcView,
    pub mask: u32,
    pub title: String,
    pub class: String,
    pub app_id: String,
    /// A word of the caller's own, never looked at.
    pub user_data: usize,
    /// Whether the surface was asked to close.
    pub close_requested: bool,
}

/// What is recorded of one live output, as a mathematical value.
pub ghost struct OutputModel {
    pub id: WlcOutput,
    pub name: Seq<char>,
    pub sleep: bool,
    pub resolution: Size,
    pub scale: u32,
    pub mask: u32,
    pub render: RenderState,
    pub user_data: usize,
    /// The surfaces on the output, front first.
    pub stack: Seq<WlcView>,
}

/// One entry of the keymap: what a key means under a set of modifiers.
#[derive(Clone, Copy, Debug, PartialEq, Eq, Structural)]
pub struct KeyBinding {
    pub key: u32,
    pub mods: KeyMod,
    pub keysym: Keysym,
    pub utf32: u32,
}

/// The whole state, as a mathematical value.
pub ghost struct CompositorView {
    pub views: Seq<ViewRecord>,
    pub outputs: Seq<OutputModel>,
    /// The surface that holds the input focus; the root surface when none
    /// does.
    pub focused_view: WlcView,
    pub focused_output: Option<WlcOutput>,
    pub pointer: Point,
    pub held_keys: Seq<u32>,
    pub keymap: Seq<KeyBinding>,
    pub backend: BackendType,
    pub phase: Phase,
}

impl CompositorView {
    /// Whether `view` names a live surface.
    pub open spec fn has_view(self, view: WlcView) -> bool {
        exists|i: int| 0 <= i < self.views.len() && (#[trigger] self.views[i]).id == view
    }

    /// Where the record of `view` stands, if `view` is live.
    pub open spec fn view_index(self, view: WlcView) -> int {
        choose|i: int| 0 <= i < self.views.len() && (#[trigger] self.views[i]).id == view
    }

    /// The record of `view`, if `view` is live.
    pub open spec fn record(self, view: WlcView) -> ViewRecord {
        self.views[self.view_index(view)]
    }

    /// Whether `output` names a live output.
    pub open spec fn has_output(self, output: WlcOutput) -> bool {
        exists|i: int| 0 <= i < self.outputs.len() && (#[trigger] self.outputs[i]).id == output
    }

    /// Where the record of `output` stands, if `output` is live.
    pub open spec fn output_index(self, output: WlcOutput) -> int {
        choose|i: int| 0 <= i < self.outputs.len() && (#[trigger] self.outputs[i]).id == output
    }

    /// The record of `output`, if `output` is live.
    pub open spec fn output_record(self, output: WlcOutput) -> OutputModel {
        self.outputs[self.output_index(output)]
    }

    /// The surfaces that `output` stacks, front first; empty for an output
    /// that is not alive.
    pub open spec fn stack_of(self, output: WlcOutput) -> Seq<WlcView> {
        if self.has_output(output) {
            self.output_record(output).stack
        } else {
            Seq::empty()
        }
    }

    /// Whether `view` is a live surface that belongs to `output`.
    pub open spec fn view_on(self, view: WlcView, output: WlcOutput) -> bool {
        self.has_view(view) && self.record(view).output == output
    }

    /// Whether `output` is alive and its stack holds `view`.
    pub open spec fn stacked(self, view: WlcView, output: WlcOutput) -> bool {
        self.has_output(output) && self.output_record(output).stack.contains(view)
    }

    /// No live surface is the root, no live output has the number zero, and
    /// no two records share a handle.
    pub open spec fn distinct(self) -> bool {
        &&& forall|i: int| 0 <= i < self.views.len() ==> (#[trigger] self.views[i]).id.number() != 0
        &&& forall|i: int, j: int|
            0 <= i < j < self.views.len() ==> (#[trigger] self.views[i]).id != (
            #[trigger] self.views[j]).id
        &&& forall|i: int| 0 <= i < self.outputs.len() ==> (#[trigger] self.outputs[i]).id.number() != 0
        &&& forall|i: int, j: int|
            0 <= i < j < self.outputs.len() ==> (#[trigger] self.outputs[i]).id != (
            #[trigger] self.outputs[j]).id
    }

    /// No stack holds a surface twice; every stack holds only live surfaces
    /// that belong to its output; and every live surface stands in the stack
    /// of the output it belongs to, which is alive.
    pub open spec fn stacks_consistent(self) -> bool {
        &&& forall|i: int|
            0 <= i < self.outputs.len() ==> (#[trigger] self.outputs[i]).stack.no_duplicates()
        &&& forall|i: int, k: int|
            0 <= i < self.outputs.len() && 0 <= k < self.outputs[i].stack.len() ==> self.view_on(
                #[trigger] self.outputs[i].stack[k],
                self.outputs[i].id,
            )
        &&& forall|i: int|
            0 <= i < self.views.len() ==> self.stacked(
                (#[trigger] self.views[i]).id,
                self.views[i].output,
            )
    }

    /// The state is consistent: handles are distinct, the stacks agree with
    /// the records, and every chain of parents ends. It follows that a live
    /// surface stands in exactly one stack, once, and that no surface is its
    /// own ancestor.
    pub open spec fn wf(self) -> bool {
        self.distinct() && self.stacks_consistent() && self.acyclic()
    }

    /// The state with the record of `view` replaced by `record`; the state
    /// itself when `view` is not alive.
    pub open spec fn with_view(self, view: WlcView, record: ViewRecord) -> CompositorView {
        if self.has_view(view) {
            CompositorView { views: self.views.update(self.view_index(view), record), ..self }
        } else {
            self
        }
    }

    /// The state with the record of `output` replaced by `record`; the state
    /// itself when `output` is not alive.
    pub open spec fn with_output(self, output: WlcOutput, record: OutputModel) -> CompositorView {
        if self.has_output(output) {
            CompositorView {
                outputs: self.outputs.update(self.output_index(output), record),
                ..self
            }
        } else {
            self
        }
    }

    /// The state with the stack of `output` replaced by `stack`.
    pub open spec fn with_stack(self, output: WlcOutput, stack: Seq<WlcView>) -> CompositorView {
        self.with_output(output, OutputModel { stack, ..self.output_record(output) })
    }

    /// The state after the given state flags of `view` were set (`toggle`
    /// true) or cleared (`toggle` false).
    pub open spec fn state_toggled(
        self,
        view: WlcView,
        flags: ViewState,
        toggle: bool,
    ) -> CompositorView {
        self.with_view(
            view,
            ViewRecord {
                state: self.record(view).state.spec_toggled(flags, toggle),
                ..self.record(view)
            },
        )
    }

    /// The state after the given type flags of `view` were set or cleared.
    pub open spec fn type_toggled(
        self,
        view: WlcView,
        flags: ViewType,
        toggle: bool,
    ) -> CompositorView {
        self.with_view(
            view,
            ViewRecord {
                view_type: self.record(view).view_type.spec_toggled(flags, toggle),
                ..self.record(view)
            },
        )
    }

    /// The state after a render was asked for on `output`.
    pub open spec fn render_scheduled(self, output: WlcOutput) -> CompositorView {
        self.with_output(
            output,
            OutputModel {
                render: self.output_record(output).render.spec_scheduled(),
                ..self.output_record(output)
            },
        )
    }

    /// Whether the chain of parents that starts at `from` comes to `target`
    /// within `steps` steps, or has not come to an end by then. The chain
    /// ends at the root surface, or at a handle that is not alive.
    pub open spec fn leads_to(self, from: WlcView, target: WlcView, steps: nat) -> bool
        decreases steps,
    {
        if from == target {
            true
        } else if !self.has_view(from) {
            false
        } else if steps == 0 {
            true
        } else {
            self.leads_to(self.record(from).parent, target, (steps - 1) as nat)
        }
    }

    /// Whether `parent` can become the parent of `view`. The root surface
    /// always can: it stands for "no parent". Any other parent has to be
    /// alive, and its own chain of parents must end without coming to
    /// `view`: a surface is never its own ancestor.
    pub open spec fn can_adopt(self, view: WlcView, parent: WlcView) -> bool {
        parent.spec_is_root() || (self.has_view(parent) && !self.leads_to(
            parent,
            view,
            self.views.len(),
        ))
    }

    /// The stack that holds `view`; empty when `view` is not alive.
    pub open spec fn stack_with(self, view: WlcView) -> Seq<WlcView> {
        if self.has_view(view) {
            self.stack_of(self.record(view).output)
        } else {
            Seq::empty()
        }
    }

    /// The state after `view` was moved to place `to` of the stack that
    /// holds it; the state itself when `view` is not alive. Only that one
    /// stack differs.
    pub open spec fn restacked(self, view: WlcView, to: int) -> CompositorView {
        if self.has_view(view) {
            self.with_stack(
                self.record(view).output,
                moved(self.stack_with(view), self.stack_with(view).index_of(view), to),
            )
        } else {
            self
        }
    }

    /// The state after the engine made `output` with the given name and
    /// resolution. An output whose number is zero or already in use is not
    /// made.
    pub open spec fn output_added(
        self,
        output: WlcOutput,
        name: Seq<char>,
        resolution: Size,
    ) -> CompositorView {
        if output.number() != 0 && !self.has_output(output) {
            CompositorView {
                outputs: self.outputs.push(
                    OutputModel {
                        id: output,
                        name,
                        sleep: false,
                        resolution,
                        scale: 1,
                        mask: 0,
                        render: RenderState::Idle,
                        user_data: 0,
                        stack: Seq::empty(),
                    },
                ),
                ..self
            }
        } else {
            self
        }
    }

    /// Whether the engine can make a surface `view` on `output`: the handle
    /// is not the root and not in use, and the output is alive.
    pub open spec fn can_add_view(self, view: WlcView, output: WlcOutput) -> bool {
        view.number() != 0 && !self.has_view(view) && self.has_output(output)
    }

    /// The state after the engine made the surface of `record`: the record
    /// comes last, and the surface stands at the back of its output's stack.
    pub open spec fn view_added(self, record: ViewRecord) -> CompositorView {
        if self.can_add_view(record.id, record.output) {
            CompositorView {
                views: self.views.push(record),
                outputs: self.outputs.update(
                    self.output_index(record.output),
                    OutputModel {
                        stack: self.stack_of(record.output).push(record.id),
                        ..self.output_record(record.output)
                    },
                ),
                ..self
            }
        } else {
            self
        }
    }

    /// Whether `view` can move to `output`: both are alive, and the surface
    /// is not on that output yet.
    pub open spec fn can_move(self, view: WlcView, output: WlcOutput) -> bool {
        self.has_view(view) && self.has_output(output) && self.record(view).output != output
    }

    /// The state after `view` moved to `output`: it left the stack it stood
    /// in, whose other surfaces keep their order, and stands at the back of
    /// the stack of `output`.
    pub open spec fn moved_to_output(self, view: WlcView, output: WlcOutput) -> CompositorView {
        if self.can_move(view, output) {
            let from = self.record(view).output;
            let left = self.stack_of(from).remove(self.stack_of(from).index_of(view));
            CompositorView {
                views: self.views.update(
                    self.view_index(view),
                    ViewRecord { output, ..self.record(view) },
                ),
                outputs: self.outputs.update(
                    self.output_index(from),
                    OutputModel { stack: left, ..self.output_record(from) },
                ).update(
                    self.output_index(output),
                    OutputModel {
                        stack: self.stack_of(output).push(view),
                        ..self.output_record(output)
                    },
                ),
                ..self
            }
        } else {
            self
        }
    }

    /// The record `record` once the surface `gone` has gone: a child of
    /// `gone` has no parent any more.
    pub open spec fn orphaned(record: ViewRecord, gone: WlcView) -> ViewRecord {
        if record.parent == gone {
            ViewRecord { parent: WlcView::spec_root(), ..record }
        } else {
            record
        }
    }

    /// The state after the engine destroyed `view`: its record is gone, it
    /// left the stack it stood in, its children have no parent, and it no
    /// longer holds the focus. The state itself when `view` is not alive.
    pub open spec fn view_removed(self, view: WlcView) -> CompositorView {
        if self.has_view(view) {
            let from = self.record(view).output;
            CompositorView {
                views: self.views.remove(self.view_index(view)).map_values(
                    |r: ViewRecord| CompositorView::orphaned(r, view),
                ),
                outputs: self.outputs.update(
                    self.output_index(from),
                    OutputModel {
                        stack: self.stack_of(from).remove(self.stack_of(from).index_of(view)),
                        ..self.output_record(from)
                    },
                ),
                focused_view: if self.focused_view == view {
                    WlcView::spec_root()
                } else {
                    self.focused_view
                },
                ..self
            }
        } else {
            self
        }
    }

    /// Whether the engine can destroy `output`: it is alive and holds no
    /// surface.
    pub open spec fn can_remove_output(self, output: WlcOutput) -> bool {
        self.has_output(output) && self.stack_of(output).len() == 0
    }

    /// The state after the engine destroyed `output`: its record is gone, and
    /// it no longer holds the focus. The state itself when the output is not
    /// alive or still holds surfaces.
    pub open spec fn output_removed(self, output: WlcOutput) -> CompositorView {
        if self.can_remove_output(output) {
            CompositorView {
                outputs: self.outputs.remove(self.output_index(output)),
                focused_output: if self.focused_output == Some(output) {
                    None
                } else {
                    self.focused_output
                },
                ..self
            }
        } else {
            self
        }
    }

    /// The state after the engine destroyed the surfaces of `output`, front
    /// first, `steps` of them at most.
    pub open spec fn emptied(self, output: WlcOutput, steps: nat) -> CompositorView
        decreases steps,
    {
        if steps == 0 || self.stack_of(output).len() == 0 {
            self
        } else {
            self.view_removed(self.stack_of(output)[0]).emptied(output, (steps - 1) as nat)
        }
    }

    /// The state after the engine destroyed `output` together with every
    /// surface on it: the surfaces go first, front first, each as
    /// `view_removed` says, then the output's record. The state itself when
    /// the output is not alive.
    pub open spec fn output_destroyed(self, output: WlcOutput) -> CompositorView {
        self.emptied(output, self.stack_of(output).len()).output_removed(output)
    }

    /// The state after the outcome of an event was carried out. Only a veto
    /// changes anything: the surface that was made is destroyed, or the
    /// output that was made is destroyed with whatever surfaces were put on
    /// it meanwhile.
    pub open spec fn settled(self, event: Event, outcome: Outcome) -> CompositorView {
        match (event, outcome) {
            (Event::ViewCreated { view }, Outcome::Vetoed) => self.view_removed(view),
            (Event::OutputCreated { output }, Outcome::Vetoed) => self.output_destroyed(output),
            _ => self,
        }
    }

    /// In a consistent state the record at place `i` is the one that its
    /// handle is looked up to.
    pub proof fn lemma_view_index(self, i: int)
        requires
            self.distinct(),
            0 <= i < self.views.len(),
        ensures
            self.has_view(self.views[i].id),
            self.view_index(self.views[i].id) == i,
            self.record(self.views[i].id) == self.views[i],
    {
        let v = self.views[i].id;
        let j = self.view_index(v);
        assert(0 <= j < self.views.len() && self.views[j].id == v);
        if j != i {
            if j < i {
                assert(self.views[j].id != self.views[i].id);
            } else {
                assert(self.views[i].id != self.views[j].id);
            }
        }
    }

    /// The same for outputs.
    pub proof fn lemma_output_index(self, i: int)
        requires
            self.distinct(),
            0 <= i < self.outputs.len(),
        ensures
            self.has_output(self.outputs[i].id),
            self.output_index(self.outputs[i].id) == i,
            self.output_record(self.outputs[i].id) == self.outputs[i],
    {
        let o = self.outputs[i].id;
        let j = self.output_index(o);
        assert(0 <= j < self.outputs.len() && self.outputs[j].id == o);
        if j != i {
            if j < i {
                assert(self.outputs[j].id != self.outputs[i].id);
            } else {
                assert(self.outputs[i].id != self.outputs[j].id);
            }
        }
    }

    /// A live handle is looked up to a record that carries it.
    pub proof fn lemma_lookup_view(self, view: WlcView)
        requires
            self.has_view(view),
        ensures
            0 <= self.view_index(view) < self.views.len(),
            self.record(view).id == view,
    {
    }

    /// The same for outputs.
    pub proof fn lemma_lookup_output(self, output: WlcOutput)
        requires
            self.has_output(output),
        ensures
            0 <= self.output_index(output) < self.outputs.len(),
            self.output_record(output).id == output,
    {
    }
}

impl CompositorView {
    /// Replacing a record by one with the same handle, the same output and
    /// the same parent keeps the state consistent.
    pub proof fn lemma_with_view_wf(self, i: int, record: ViewRecord)
        requires
            self.wf(),
            0 <= i < self.views.len(),
            record.id == self.views[i].id,
            record.output == self.views[i].output,
            record.parent == self.views[i].parent,
        ensures
            (CompositorView { views: self.views.update(i, record), ..self }).wf(),
            self.with_view(self.views[i].id, record) == (CompositorView {
                views: self.views.update(i, record),
                ..self
            }),
    {
        self.lemma_with_view_stacks(i, record);
        let next = CompositorView { views: self.views.update(i, record), ..self };
        assert(self.links_agree(next, -1));
        self.lemma_same_links_acyclic(next);
    }

    /// Replacing a record by one with the same handle and the same output
    /// keeps the handles distinct and the stacks in agreement with the
    /// records.
    pub proof fn lemma_with_view_stacks(self, i: int, record: ViewRecord)
        requires
            self.wf(),
            0 <= i < self.views.len(),
            record.id == self.views[i].id,
            record.output == self.views[i].output,
        ensures
            (CompositorView { views: self.views.update(i, record), ..self }).distinct(),
            (CompositorView { views: self.views.update(i, record), ..self }).stacks_consistent(),
            self.with_view(self.views[i].id, record) == (CompositorView {
                views: self.views.update(i, record),
                ..self
            }),
    {
        let next = CompositorView { views: self.views.update(i, record), ..self };
        self.lemma_view_index(i);
        assert(next.distinct());
        assert forall|j: int| 0 <= j < next.views.len() implies next.stacked(
            (#[trigger] next.views[j]).id,
            next.views[j].output,
        ) by {
            assert(self.stacked(self.views[j].id, self.views[j].output));
        }
        assert forall|o: int, k: int|
            0 <= o < next.outputs.len() && 0 <= k < next.outputs[o].stack.len() implies next.view_on(
            #[trigger] next.outputs[o].stack[k],
            next.outputs[o].id,
        ) by {
            let x = self.outputs[o].stack[k];
            assert(self.view_on(x, self.outputs[o].id));
            let j = self.view_index(x);
            self.lemma_lookup_view(x);
            assert(next.views[j].id == x);
            next.lemma_view_index(j);
        }
    }

    /// Whether the output at place `p` is the one that the surface at place
    /// `j` belongs to, and holds it in its stack.
    pub open spec fn houses(self, p: int, j: int) -> bool {
        &&& 0 <= p < self.outputs.len()
        &&& self.outputs[p].id == self.views[j].output
        &&& self.outputs[p].stack.contains(self.views[j].id)
    }

    /// Whether some output houses the surface at place `j`.
    pub open spec fn housed(self, j: int) -> bool {
        exists|p: int| #[trigger] self.houses(p, j)
    }

    /// Whether the record at place `j` is that of the surface at place `k`
    /// of the stack at place `o`, and names that stack's output.
    pub open spec fn records(self, j: int, o: int, k: int) -> bool {
        &&& 0 <= j < self.views.len()
        &&& self.views[j].id == self.outputs[o].stack[k]
        &&& self.views[j].output == self.outputs[o].id
    }

    /// Whether some record is that of the surface at place `k` of the stack
    /// at place `o`.
    pub open spec fn recorded(self, o: int, k: int) -> bool {
        exists|j: int| #[trigger] self.records(j, o, k)
    }

    /// Consistency, shown place by place: it is enough to point, for every
    /// live surface, at a stack of its output that holds it, and for every
    /// place of a stack at a record of the surface there that names the
    /// stack's output.
    pub proof fn lemma_wf_by_witness(self)
        requires
            self.distinct(),
            self.acyclic(),
            forall|o: int|
                0 <= o < self.outputs.len() ==> (#[trigger] self.outputs[o]).stack.no_duplicates(),
            forall|j: int| 0 <= j < self.views.len() ==> #[trigger] self.housed(j),
            forall|o: int, k: int|
                0 <= o < self.outputs.len() && 0 <= k < self.outputs[o].stack.len()
                    ==> #[trigger] self.recorded(o, k),
        ensures
            self.wf(),
    {
        assert forall|j: int| 0 <= j < self.views.len() implies self.stacked(
            (#[trigger] self.views[j]).id,
            self.views[j].output,
        ) by {
            assert(self.housed(j));
            let p = choose|p: int| self.houses(p, j);
            self.lemma_output_index(p);
        }
        assert forall|o: int, k: int|
            0 <= o < self.outputs.len() && 0 <= k < self.outputs[o].stack.len() implies self.view_on(
            #[trigger] self.outputs[o].stack[k],
            self.outputs[o].id,
        ) by {
            assert(self.recorded(o, k));
            let j = choose|j: int| self.records(j, o, k);
            self.lemma_view_index(j);
        }
    }

    /// What consistency gives for the surface at place `j`: the place of its
    /// output's record, whose stack holds the surface.
    pub proof fn lemma_home(self, j: int) -> (p: int)
        requires
            self.wf(),
            0 <= j < self.views.len(),
        ensures
            0 <= p < self.outputs.len(),
            self.outputs[p].id == self.views[j].output,
            self.outputs[p].stack.contains(self.views[j].id),
            p == self.output_index(self.views[j].output),
    {
        assert(self.stacked(self.views[j].id, self.views[j].output));
        self.lemma_lookup_output(self.views[j].output);
        self.output_index(self.views[j].output)
    }

    /// What consistency gives for place `k` of the stack at place `o`: the
    /// place of the record of the surface there, which names that output.
    pub proof fn lemma_member(self, o: int, k: int) -> (j: int)
        requires
            self.wf(),
            0 <= o < self.outputs.len(),
            0 <= k < self.outputs[o].stack.len(),
        ensures
            0 <= j < self.views.len(),
            self.views[j].id == self.outputs[o].stack[k],
            self.views[j].output == self.outputs[o].id,
            j == self.view_index(self.outputs[o].stack[k]),
    {
        assert(self.view_on(self.outputs[o].stack[k], self.outputs[o].id));
        self.lemma_lookup_view(self.outputs[o].stack[k]);
        self.view_index(self.outputs[o].stack[k])
    }

    /// A state with the same records of surfaces looks every surface up to
    /// the same record.
    pub proof fn lemma_same_views(self, next: CompositorView)
        requires
            next.views == self.views,
        ensures
            forall|v: WlcView| next.has_view(v) == self.has_view(v),
            forall|v: WlcView| next.view_index(v) == self.view_index(v),
            forall|v: WlcView| next.record(v) == self.record(v),
    {
    }

    /// Consistency speaks of the records and the stacks alone: a state with
    /// the same records and stacks as a consistent one is consistent.
    pub proof fn lemma_same_records_wf(self, next: CompositorView)
        requires
            self.wf(),
            next.views == self.views,
            next.outputs == self.outputs,
        ensures
            next.wf(),
            forall|v: WlcView| next.has_view(v) == self.has_view(v),
            forall|o: WlcOutput| next.has_output(o) == self.has_output(o),
    {
        assert(next.distinct());
        assert forall|j: int| 0 <= j < next.views.len() implies next.stacked(
            (#[trigger] next.views[j]).id,
            next.views[j].output,
        ) by {
            let o = self.views[j].output;
            assert(self.stacked(self.views[j].id, o));
            let p = self.output_index(o);
            self.lemma_lookup_output(o);
            next.lemma_output_index(p);
        }
        assert forall|o: int, k: int|
            0 <= o < next.outputs.len() && 0 <= k < next.outputs[o].stack.len() implies next.view_on(
            #[trigger] next.outputs[o].stack[k],
            next.outputs[o].id,
        ) by {
            let x = self.outputs[o].stack[k];
            assert(self.view_on(x, self.outputs[o].id));
            let j = self.view_index(x);
            self.lemma_lookup_view(x);
            next.lemma_view_index(j);
        }
        assert(self.links_agree(next, -1));
        self.lemma_same_links_acyclic(next);
    }

    /// Replacing the record of an output by one with the same handle, whose
    /// stack holds the same surfaces, none twice, keeps the state
    /// consistent.
    pub proof fn lemma_with_output_wf(self, i: int, record: OutputModel)
        requires
            self.wf(),
            0 <= i < self.outputs.len(),
            record.id == self.outputs[i].id,
            record.stack.no_duplicates(),
            forall|x: WlcView| record.stack.contains(x) <==> self.outputs[i].stack.contains(x),
        ensures
            (CompositorView { outputs: self.outputs.update(i, record), ..self }).wf(),
            self.with_output(self.outputs[i].id, record) == (CompositorView {
                outputs: self.outputs.update(i, record),
                ..self
            }),
    {
        let next = CompositorView { outputs: self.outputs.update(i, record), ..self };
        self.lemma_output_index(i);
        assert(next.distinct());
        assert forall|j: int| 0 <= j < next.views.len() implies next.stacked(
            (#[trigger] next.views[j]).id,
            next.views[j].output,
        ) by {
            let o = self.views[j].output;
            assert(self.stacked(self.views[j].id, o));
            let p = self.output_index(o);
            self.lemma_lookup_output(o);
            assert(next.outputs[p].id == o);
            next.lemma_output_index(p);
        }
        assert forall|o: int, k: int|
            0 <= o < next.outputs.len() && 0 <= k < next.outputs[o].stack.len() implies next.view_on(
            #[trigger] next.outputs[o].stack[k],
            next.outputs[o].id,
        ) by {
            let x = next.outputs[o].stack[k];
            if o == i {
                assert(record.stack.contains(x));
                assert(self.outputs[i].stack.contains(x));
                let k0 = choose|k0: int|
                    0 <= k0 < self.outputs[i].stack.len() && self.outputs[i].stack[k0] == x;
                assert(self.view_on(self.outputs[i].stack[k0], self.outputs[i].id));
            } else {
                assert(self.view_on(self.outputs[o].stack[k], self.outputs[o].id));
            }
        }
        assert(self.links_agree(next, -1));
        self.lemma_same_links_acyclic(next);
    }
}

impl CompositorView {
    /// Moving a surface to another output keeps the state consistent. The
    /// surface's record names the new output; the surface has left the stack
    /// it stood in, whose other surfaces keep their order, and stands at the
    /// back of the new output's stack. So it still stands in one stack only.
    pub proof fn moving_changes_two_stacks(self, view: WlcView, output: WlcOutput)
        requires
            self.wf(),
            self.can_move(view, output),
        ensures
            self.moved_to_output(view, output).wf(),
            self.moved_to_output(view, output).has_view(view),
            self.moved_to_output(view, output).record(view) == (ViewRecord {
                output,
                ..self.record(view)
            }),
            self.moved_to_output(view, output).stack_of(output) == self.stack_of(output).push(view),
            self.moved_to_output(view, output).stack_of(self.record(view).output) == self.stack_of(
                self.record(view).output,
            ).remove(self.stack_of(self.record(view).output).index_of(view)),
            !self.moved_to_output(view, output).stack_of(self.record(view).output).contains(view),
    {
        let before = self;
        let next = self.moved_to_output(view, output);
        let from = self.record(view).output;
        let ii = self.view_index(view);
        self.lemma_lookup_view(view);
        let fi = self.lemma_home(ii);
        let ti = self.output_index(output);
        self.lemma_lookup_output(output);
        self.lemma_output_index(fi);
        let from_stack = before.outputs[fi].stack;
        let to_stack = before.outputs[ti].stack;
        let ki = from_stack.index_of(view);
        assert(next.distinct());
        assert forall|o: int| 0 <= o < next.outputs.len() implies (
        #[trigger] next.outputs[o]).stack.no_duplicates() by {
            assert(before.outputs[o].stack.no_duplicates());
            if o == ti {
                if to_stack.contains(view) {
                    let m = to_stack.index_of(view);
                    let j = before.lemma_member(ti, m);
                }
            }
        }
        assert forall|j: int| 0 <= j < next.views.len() implies #[trigger] next.housed(j) by {
            if j == ii {
                assert(next.outputs[ti].stack[to_stack.len() as int] == view);
                assert(next.houses(ti, j));
            } else {
                let p = before.lemma_home(j);
                let x = before.views[j].id;
                let m = before.outputs[p].stack.index_of(x);
                if p == fi {
                    let shifted = if m < ki {
                        m
                    } else {
                        m - 1
                    };
                    assert(next.outputs[p].stack[shifted] == x);
                } else {
                    assert(next.outputs[p].stack[m] == x);
                }
                assert(next.houses(p, j));
            }
        }
        assert forall|o: int, m: int|
            0 <= o < next.outputs.len() && 0 <= m < next.outputs[o].stack.len()
                implies #[trigger] next.recorded(o, m) by {
            if o == ti && m == to_stack.len() {
                assert(next.records(ii, o, m));
            } else {
                let earlier = if o == fi && m >= ki {
                    m + 1
                } else {
                    m
                };
                let j = before.lemma_member(o, earlier);
                assert(before.outputs[o].stack[earlier] == next.outputs[o].stack[m]);
                if j == ii {
                    assert(o == fi);
                    assert(from_stack[earlier] == from_stack[ki]);
                }
                assert(next.records(j, o, m));
            }
        }
        assert(self.links_agree(next, -1));
        self.lemma_same_links_acyclic(next);
        next.lemma_wf_by_witness();
        next.lemma_view_index(ii);
        next.lemma_output_index(fi);
        next.lemma_output_index(ti);
        if next.stack_of(from).contains(view) {
            let m = next.outputs[fi].stack.index_of(view);
            let earlier = if m >= ki {
                m + 1
            } else {
                m
            };
            assert(from_stack[earlier] == from_stack[ki]);
        }
    }
}

} // verus!
