//! The compositor's state, and what the engine itself does to it: outputs
//! and surfaces come and go, frames start and end.

use vstd::prelude::*;
use crate::event::{Event, Outcome};
use crate::flags::{ResizeEdge, ViewState, ViewType};
use crate::handle::{WlcOutput, WlcView};
use crate::model::{CompositorView, KeyBinding, OutputModel, ViewRecord};
use crate::stack::{lemma_moved, moved, position};
use crate::types::{BackendType, Geometry, Phase, Point, RenderState, Size};

verus! {

/// What is recorded of one live output.
pub struct OutputRecord {
    pub(crate) id: WlcOutput,
    pub(crate) name: String,
    pub(crate) sleep: bool,
    pub(crate) resolution: Size,
    pub(crate) scale: u32,
    pub(crate) mask: u32,
    pub(crate) render: RenderState,
    pub(crate) user_data: usize,
    pub(crate) stack: Vec<WlcView>,
}

impl OutputRecord {
    pub open(crate) spec fn view(&self) -> OutputModel {
        OutputModel {
            id: self.id,
            name: self.name@,
            sleep: self.sleep,
            resolution: self.resolution,
            scale: self.scale,
            mask: self.mask,
            render: self.render,
            user_data: self.user_data,
            stack: self.stack@,
        }
    }
}

/// The state of the compositor: the live outputs and surfaces, the stacking
/// order on every output, the focus, the pointer and the keyboard.
pub struct Compositor {
    pub(crate) views: Vec<ViewRecord>,
    pub(crate) outputs: Vec<OutputRecord>,
    pub(crate) focused_view: WlcView,
    pub(crate) focused_output: Option<WlcOutput>,
    pub(crate) pointer: Point,
    pub(crate) held_keys: Vec<u32>,
    pub(crate) keymap: Vec<KeyBinding>,
    pub(crate) backend: BackendType,
    pub(crate) phase: Phase,
}

impl Compositor {
    pub open(crate) spec fn view(&self) -> CompositorView {
        CompositorView {
            views: self.views@,
            outputs: self.outputs@.map_values(|r: OutputRecord| r@),
            focused_view: self.focused_view,
            focused_output: self.focused_output,
            pointer: self.pointer,
            held_keys: self.held_keys@,
            keymap: self.keymap@,
            backend: self.backend,
            phase: self.phase,
        }
    }

    /// A compositor on the given backend with no output, no surface, no
    /// focus and an empty keymap, before initialization.
    pub fn new(backend: BackendType) -> (engine: Compositor)
        ensures
            engine@.wf(),
            engine@ == (CompositorView {
                views: Seq::empty(),
                outputs: Seq::empty(),
                focused_view: WlcView::spec_root(),
                focused_output: None,
                pointer: Point::spec_origin(),
                held_keys: Seq::empty(),
                keymap: Seq::empty(),
                backend,
                phase: Phase::Bootstrap,
            }),
    {
        let engine = Compositor {
            views: Vec::new(),
            outputs: Vec::new(),
            focused_view: WlcView::root(),
            focused_output: None,
            pointer: Point::origin(),
            held_keys: Vec::new(),
            keymap: Vec::new(),
            backend,
            phase: Phase::Bootstrap,
        };
        assert(engine@.outputs =~= Seq::empty());
        engine
    }

    /// Where the record of `view` stands.
    pub(crate) fn find_view(&self, view: WlcView) -> (r: Option<usize>)
        requires
            self@.distinct(),
        ensures
            r is Some <==> self@.has_view(view),
            r matches Some(i) ==> i < self.views.len() && self@.view_index(view) == i
                && self.views@[i as int].id == view,
    {
        let mut i: usize = 0;
        while i < self.views.len()
            invariant
                self@.distinct(),
                i <= self.views.len(),
                forall|j: int| 0 <= j < i ==> (#[trigger] self.views@[j]).id != view,
            decreases self.views.len() - i,
        {
            if self.views[i].id == view {
                proof {
                    self@.lemma_view_index(i as int);
                }
                return Some(i);
            }
            i += 1;
        }
        None
    }

    /// Where the record of `output` stands.
    pub(crate) fn find_output(&self, output: WlcOutput) -> (r: Option<usize>)
        requires
            self@.distinct(),
        ensures
            r is Some <==> self@.has_output(output),
            r matches Some(i) ==> i < self.outputs.len() && self@.output_index(output) == i
                && self.outputs@[i as int].id == output,
    {
        let mut i: usize = 0;
        while i < self.outputs.len()
            invariant
                self@.distinct(),
                i <= self.outputs.len(),
                forall|j: int| 0 <= j < i ==> (#[trigger] self.outputs@[j]).id != output,
            decreases self.outputs.len() - i,
        {
            if self.outputs[i].id == output {
                proof {
                    assert(self@.outputs[i as int].id == output);
                    self@.lemma_output_index(i as int);
                }
                return Some(i);
            }
            i += 1;
        }
        proof {
            assert forall|j: int| 0 <= j < self@.outputs.len() implies (#[trigger] self@.outputs[j]).id
                != output by {
                assert(self.outputs@[j].id != output);
            }
        }
        None
    }

    /// For a live surface, where the record of its output stands and which
    /// place of that output's stack holds it.
    pub(crate) fn locate(&self, view: WlcView) -> (r: Option<(usize, usize)>)
        requires
            self@.wf(),
        ensures
            r is Some <==> self@.has_view(view),
            r matches Some((o, k)) ==> {
                &&& o < self.outputs.len()
                &&& self@.outputs[o as int].id == self@.record(view).output
                &&& self@.output_index(self@.record(view).output) == o
                &&& self@.stack_with(view) == self@.outputs[o as int].stack
                &&& k < self@.outputs[o as int].stack.len()
                &&& self@.outputs[o as int].stack[k as int] == view
                &&& self@.stack_with(view).index_of(view) == k
            },
    {
        match self.find_view(view) {
            Some(i) => {
                let output = self.views[i].output;
                assert(self@.stacked(self@.views[i as int].id, self@.views[i as int].output));
                match self.find_output(output) {
                    Some(o) => {
                        assert(self@.outputs[o as int].stack == self.outputs@[o as int].stack@);
                        match position(&self.outputs[o].stack, view) {
                            Some(k) => Some((o, k)),
                            None => None,
                        }
                    },
                    None => None,
                }
            },
            None => None,
        }
    }

    /// Moves the surface at place `from` of the stack of the output at place
    /// `o` to place `to` of that stack.
    pub(crate) fn restack(&mut self, o: usize, from: usize, to: usize)
        requires
            old(self)@.wf(),
            o < old(self).outputs.len(),
            from < old(self)@.outputs[o as int].stack.len(),
            to < old(self)@.outputs[o as int].stack.len(),
        ensures
            final(self)@.wf(),
            final(self)@ == old(self)@.with_stack(
                old(self)@.outputs[o as int].id,
                moved(old(self)@.outputs[o as int].stack, from as int, to as int),
            ),
    {
        let view = self.outputs[o].stack.remove(from);
        self.outputs[o].stack.insert(to, view);
        proof {
            let before = old(self)@;
            let stack = before.outputs[o as int].stack;
            assert(stack == old(self).outputs@[o as int].stack@);
            lemma_moved(stack, from as int, to as int);
            before.lemma_output_index(o as int);
            let record = OutputModel {
                stack: moved(stack, from as int, to as int),
                ..before.outputs[o as int]
            };
            before.lemma_with_output_wf(o as int, record);
            assert(self@.outputs =~= before.outputs.update(o as int, record));
            assert(self@ =~= before.with_stack(
                before.outputs[o as int].id,
                moved(stack, from as int, to as int),
            ));
        }
    }

    /// The engine makes an output. Nothing happens when the number is zero
    /// or already names a live output; the answer says whether the output
    /// was made.
    pub fn add_output(&mut self, output: WlcOutput, name: String, resolution: Size) -> (made: bool)
        requires
            old(self)@.wf(),
        ensures
            final(self)@.wf(),
            made == (output.number() != 0 && !old(self)@.has_output(output)),
            final(self)@ == old(self)@.output_added(output, name@, resolution),
    {
        if output.0 == 0 || self.find_output(output).is_some() {
            return false;
        }
        let record = OutputRecord {
            id: output,
            name,
            sleep: false,
            resolution,
            scale: 1,
            mask: 0,
            render: RenderState::Idle,
            user_data: 0,
            stack: Vec::new(),
        };
        self.outputs.push(record);
        proof {
            let before = old(self)@;
            let next = self@;
            assert(next.outputs =~= before.outputs.push(record@));
            assert(next =~= before.output_added(output, name@, resolution));
            assert forall|i: int| 0 <= i < before.outputs.len() implies (
            #[trigger] before.outputs[i]).id != output by {
                if before.outputs[i].id == output {
                    assert(before.has_output(output));
                }
            }
            assert(next.distinct());
            assert forall|j: int| 0 <= j < next.views.len() implies #[trigger] next.housed(j) by {
                let p = before.lemma_home(j);
                assert(next.outputs[p] == before.outputs[p]);
                assert(next.houses(p, j));
            }
            assert forall|o: int, k: int|
                0 <= o < next.outputs.len() && 0 <= k < next.outputs[o].stack.len()
                    implies #[trigger] next.recorded(o, k) by {
                let j = before.lemma_member(o, k);
                assert(next.records(j, o, k));
            }
            assert(before.links_agree(next, -1));
            before.lemma_same_links_acyclic(next);
            next.lemma_wf_by_witness();
        }
        true
    }

    /// The engine makes a surface on `output`, with no geometry, no flags, no
    /// parent and an empty mask. The surface goes to the back of the
    /// output's stack. Nothing happens when the handle is the root or in
    /// use, or the output is not alive; the answer says whether the surface
    /// was made.
    pub fn add_view(
        &mut self,
        view: WlcView,
        output: WlcOutput,
        title: String,
        class: String,
        app_id: String,
    ) -> (made: bool)
        requires
            old(self)@.wf(),
        ensures
            final(self)@.wf(),
            made == old(self)@.can_add_view(view, output),
            final(self)@ == old(self)@.view_added(
                ViewRecord {
                    id: view,
                    output,
                    geometry: Geometry::spec_zero(),
                    visible_geometry: Geometry::spec_zero(),
                    resize_edges: ResizeEdge::spec_empty(),
                    view_type: ViewType::spec_empty(),
                    state: ViewState::spec_empty(),
                    parent: WlcView::spec_root(),
                    mask: 0,
                    title,
                    class,
                    app_id,
                    user_data: 0,
                    close_requested: false,
                },
            ),
    {
        if view.0 == 0 || self.find_view(view).is_some() {
            return false;
        }
        let target = match self.find_output(output) {
            Some(t) => t,
            None => {
                return false;
            },
        };
        let record = ViewRecord {
            id: view,
            output,
            geometry: Geometry::zero(),
            visible_geometry: Geometry::zero(),
            resize_edges: ResizeEdge::empty(),
            view_type: ViewType::empty(),
            state: ViewState::empty(),
            parent: WlcView::root(),
            mask: 0,
            title,
            class,
            app_id,
            user_data: 0,
            close_requested: false,
        };
        self.views.push(record);
        self.outputs[target].stack.push(view);
        proof {
            let before = old(self)@;
            let next = self@;
            let t = target as int;
            before.lemma_output_index(t);
            let stack = before.outputs[t].stack;
            assert(stack == old(self).outputs@[t].stack@);
            assert(next.outputs =~= before.outputs.update(
                t,
                OutputModel { stack: stack.push(view), ..before.outputs[t] },
            ));
            assert(next =~= before.view_added(record));
            assert forall|i: int| 0 <= i < before.views.len() implies (#[trigger] before.views[i]).id
                != view by {
                if before.views[i].id == view {
                    assert(before.has_view(view));
                }
            }
            assert(next.distinct());
            assert forall|o: int| 0 <= o < next.outputs.len() implies (
            #[trigger] next.outputs[o]).stack.no_duplicates() by {
                assert(before.outputs[o].stack.no_duplicates());
                if o == t {
                    if stack.contains(view) {
                        let k = stack.index_of(view);
                        let j = before.lemma_member(t, k);
                    }
                }
            }
            assert forall|j: int| 0 <= j < next.views.len() implies #[trigger] next.housed(j) by {
                if j < before.views.len() {
                    let p = before.lemma_home(j);
                    let x = before.views[j].id;
                    let k = before.outputs[p].stack.index_of(x);
                    assert(next.outputs[p].stack[k] == x);
                    assert(next.houses(p, j));
                } else {
                    assert(next.outputs[t].stack[stack.len() as int] == view);
                    assert(next.houses(t, j));
                }
            }
            assert forall|o: int, k: int|
                0 <= o < next.outputs.len() && 0 <= k < next.outputs[o].stack.len()
                    implies #[trigger] next.recorded(o, k) by {
                if o == t && k == stack.len() {
                    let j = before.views.len() as int;
                    assert(next.records(j, o, k));
                } else {
                    let j = before.lemma_member(o, k);
                    assert(next.records(j, o, k));
                }
            }
            before.lemma_added_acyclic(next, record);
            next.lemma_wf_by_witness();
        }
        true
    }

    /// The engine destroys a surface. Its children lose their parent, and it
    /// loses the focus if it held it. The answer says whether the surface
    /// was alive.
    pub fn remove_view(&mut self, view: WlcView) -> (removed: bool)
        requires
            old(self)@.wf(),
        ensures
            final(self)@.wf(),
            removed == old(self)@.has_view(view),
            final(self)@ == old(self)@.view_removed(view),
            !final(self)@.has_view(view),
    {
        let i = match self.find_view(view) {
            Some(i) => i,
            None => {
                return false;
            },
        };
        let (f, k) = match self.locate(view) {
            Some(place) => place,
            None => {
                return false;
            },
        };
        self.outputs[f].stack.remove(k);
        self.views.remove(i);
        if self.focused_view == view {
            self.focused_view = WlcView::root();
        }
        let ghost before = old(self)@;
        let ghost rest = before.views.remove(i as int);
        let ghost stack = before.outputs[f as int].stack;
        let ghost outputs = before.outputs.update(
            f as int,
            OutputModel { stack: stack.remove(k as int), ..before.outputs[f as int] },
        );
        proof {
            assert(stack == old(self).outputs@[f as int].stack@);
            assert(self@.outputs =~= outputs);
        }
        let mut n: usize = 0;
        while n < self.views.len()
            invariant
                n <= self.views.len(),
                self.views@.len() == rest.len(),
                forall|j: int|
                    0 <= j < n ==> self.views@[j] == CompositorView::orphaned(rest[j], view),
                forall|j: int| n <= j < rest.len() ==> self.views@[j] == rest[j],
                self@.outputs == outputs,
                self.focused_view == (if before.focused_view == view {
                    WlcView::spec_root()
                } else {
                    before.focused_view
                }),
                self.focused_output == before.focused_output,
                self.pointer == before.pointer,
                self.held_keys@ == before.held_keys,
                self.keymap@ == before.keymap,
                self.backend == before.backend,
                self.phase == before.phase,
            decreases self.views.len() - n,
        {
            if self.views[n].parent == view {
                self.views[n].parent = WlcView::root();
            }
            n += 1;
        }
        proof {
            let next = self@;
            let fi = f as int;
            let ii = i as int;
            let ki = k as int;
            before.lemma_view_index(ii);
            before.lemma_output_index(fi);
            assert(next.views =~= rest.map_values(
                |r: ViewRecord| CompositorView::orphaned(r, view),
            ));
            assert(next =~= before.view_removed(view));
            assert forall|j: int| 0 <= j < next.views.len() implies (#[trigger] next.views[j]).id
                == before.views[if j < ii { j } else { j + 1 }].id && next.views[j].output
                == before.views[if j < ii { j } else { j + 1 }].output by {}
            assert(next.distinct());
            assert forall|o: int| 0 <= o < next.outputs.len() implies (
            #[trigger] next.outputs[o]).stack.no_duplicates() by {
                assert(before.outputs[o].stack.no_duplicates());
            }
            assert forall|j: int| 0 <= j < next.views.len() implies #[trigger] next.housed(j) by {
                let j0 = if j < ii { j } else { j + 1 };
                let p = before.lemma_home(j0);
                let x = before.views[j0].id;
                assert(x != view);
                let m = before.outputs[p].stack.index_of(x);
                if p == fi {
                    let m1 = if m < ki { m } else { m - 1 };
                    assert(next.outputs[p].stack[m1] == x);
                } else {
                    assert(next.outputs[p].stack[m] == x);
                }
                assert(next.houses(p, j));
            }
            assert forall|o: int, m: int|
                0 <= o < next.outputs.len() && 0 <= m < next.outputs[o].stack.len()
                    implies #[trigger] next.recorded(o, m) by {
                let m0 = if o == fi && m >= ki { m + 1 } else { m };
                let j0 = before.lemma_member(o, m0);
                assert(before.outputs[o].stack[m0] != view);
                let j = if j0 < ii { j0 } else { j0 - 1 };
                assert(next.records(j, o, m));
            }
            before.lemma_removed_acyclic(next, ii);
            next.lemma_wf_by_witness();
            if next.has_view(view) {
                let j = next.view_index(view);
                assert(next.views[j].id == view);
            }
        }
        true
    }

    /// The engine destroys an output whose stack is empty. An output that
    /// still holds surfaces stays: they have to leave it first. The answer
    /// says whether the output was destroyed.
    pub fn remove_output(&mut self, output: WlcOutput) -> (removed: bool)
        requires
            old(self)@.wf(),
        ensures
            final(self)@.wf(),
            removed == old(self)@.can_remove_output(output),
            final(self)@ == old(self)@.output_removed(output),
            removed ==> !final(self)@.has_output(output),
    {
        let i = match self.find_output(output) {
            Some(i) => i,
            None => {
                return false;
            },
        };
        assert(self@.outputs[i as int] == self.outputs@[i as int]@);
        if self.outputs[i].stack.len() != 0 {
            return false;
        }
        self.outputs.remove(i);
        let clear = match self.focused_output {
            Some(o) => o == output,
            None => false,
        };
        if clear {
            self.focused_output = None;
        }
        proof {
            let before = old(self)@;
            let next = self@;
            let ii = i as int;
            before.lemma_output_index(ii);
            assert(next.outputs =~= before.outputs.remove(ii));
            assert(next.distinct());
            assert forall|j: int| 0 <= j < next.views.len() implies #[trigger] next.housed(j) by {
                let p = before.lemma_home(j);
                assert(p != ii);
                let q = if p < ii { p } else { p - 1 };
                assert(next.outputs[q] == before.outputs[p]);
                assert(next.houses(q, j));
            }
            assert forall|o: int, m: int|
                0 <= o < next.outputs.len() && 0 <= m < next.outputs[o].stack.len()
                    implies #[trigger] next.recorded(o, m) by {
                let o0 = if o < ii { o } else { o + 1 };
                let j = before.lemma_member(o0, m);
                assert(next.records(j, o, m));
            }
            assert forall|o: int| 0 <= o < next.outputs.len() implies (
            #[trigger] next.outputs[o]).stack.no_duplicates() by {
                let o0 = if o < ii { o } else { o + 1 };
                assert(before.outputs[o0].stack.no_duplicates());
            }
            assert(before.links_agree(next, -1));
            before.lemma_same_links_acyclic(next);
            next.lemma_wf_by_witness();
            if next.has_output(output) {
                let j = next.output_index(output);
                let j0 = if j < ii { j } else { j + 1 };
                assert(before.outputs[j0].id == output);
            }
        }
        true
    }

    /// The engine comes to the next frame of `output`: a render that was due
    /// starts. The answer says whether one did.
    pub fn frame_started(&mut self, output: WlcOutput) -> (rendering: bool)
        requires
            old(self)@.wf(),
        ensures
            final(self)@.wf(),
            rendering == (old(self)@.has_output(output) && old(self)@.output_record(output).render
                == RenderState::Scheduled),
            final(self)@ == old(self)@.with_output(
                output,
                OutputModel {
                    render: old(self)@.output_record(output).render.spec_started(),
                    ..old(self)@.output_record(output)
                },
            ),
    {
        match self.find_output(output) {
            Some(i) => {
                assert(old(self)@.outputs[i as int] == old(self).outputs@[i as int]@);
                let was = self.outputs[i].render;
                self.outputs[i].render = was.started();
                proof {
                    let record = self.outputs@[i as int]@;
                    assert(self@.outputs =~= old(self)@.outputs.update(i as int, record));
                    old(self)@.lemma_with_output_wf(i as int, record);
                }
                was == RenderState::Scheduled
            },
            None => false,
        }
    }

    /// The frame of `output` that was in flight completed. When one more
    /// render was asked for meanwhile, it is due now.
    pub fn frame_finished(&mut self, output: WlcOutput)
        requires
            old(self)@.wf(),
        ensures
            final(self)@.wf(),
            final(self)@ == old(self)@.with_output(
                output,
                OutputModel {
                    render: old(self)@.output_record(output).render.spec_finished(),
                    ..old(self)@.output_record(output)
                },
            ),
    {
        match self.find_output(output) {
            Some(i) => {
                assert(old(self)@.outputs[i as int] == old(self).outputs@[i as int]@);
                let was = self.outputs[i].render;
                self.outputs[i].render = was.finished();
                proof {
                    let record = self.outputs@[i as int]@;
                    assert(self@.outputs =~= old(self)@.outputs.update(i as int, record));
                    old(self)@.lemma_with_output_wf(i as int, record);
                }
            },
            None => {},
        }
    }

    /// Where `output` stands with its next frame; idle when the output is
    /// not alive.
    pub fn render_state(&self, output: WlcOutput) -> (state: RenderState)
        requires
            self@.wf(),
        ensures
            state == if self@.has_output(output) {
                self@.output_record(output).render
            } else {
                RenderState::Idle
            },
    {
        match self.find_output(output) {
            Some(i) => {
                assert(self@.outputs[i as int] == self.outputs@[i as int]@);
                self.outputs[i].render
            },
            None => RenderState::Idle,
        }
    }

    /// The engine clipped a surface: `visible` is what is shown of it.
    pub fn clip_view(&mut self, view: WlcView, visible: Geometry)
        requires
            old(self)@.wf(),
        ensures
            final(self)@.wf(),
            final(self)@ == old(self)@.with_view(
                view,
                ViewRecord { visible_geometry: visible, ..old(self)@.record(view) },
            ),
    {
        match self.find_view(view) {
            Some(i) => {
                self.views[i].visible_geometry = visible;
                proof {
                    assert(self.views@ =~= old(self).views@.update(
                        i as int,
                        self.views@[i as int],
                    ));
                    old(self)@.lemma_with_view_wf(i as int, self.views@[i as int]);
                }
            },
            None => {},
        }
    }

    /// The edges that the last geometry change of the surface dragged; none
    /// when a program made the change or the surface is not alive.
    pub fn resize_edges(&self, view: WlcView) -> (edges: ResizeEdge)
        requires
            self@.wf(),
        ensures
            edges == if self@.has_view(view) {
                self@.record(view).resize_edges
            } else {
                ResizeEdge::spec_empty()
            },
    {
        match self.find_view(view) {
            Some(i) => self.views[i].resize_edges,
            None => ResizeEdge::empty(),
        }
    }

    /// Whether the surface was asked to close; `false` when it is not alive.
    pub fn close_requested(&self, view: WlcView) -> (asked: bool)
        requires
            self@.wf(),
        ensures
            asked == (self@.has_view(view) && self@.record(view).close_requested),
    {
        match self.find_view(view) {
            Some(i) => self.views[i].close_requested,
            None => false,
        }
    }

    /// The surface that holds the input focus; the root surface when none
    /// does.
    pub fn focused_view(&self) -> (view: WlcView)
        ensures
            view == self@.focused_view,
    {
        self.focused_view
    }

    /// Whether the event loop runs: the compositor was initialized and
    /// started, and was not asked to end.
    pub fn is_running(&self) -> (running: bool)
        ensures
            running == (self@.phase == Phase::Running),
    {
        match self.phase {
            Phase::Running => true,
            _ => false,
        }
    }

    /// Where the compositor stands in its life.
    pub fn phase(&self) -> (phase: Phase)
        ensures
            phase == self@.phase,
    {
        self.phase
    }

    /// Adds an entry at the end of the keymap. Of two entries for the same
    /// key and modifiers the earlier one counts.
    pub fn bind_key(&mut self, binding: KeyBinding)
        requires
            old(self)@.wf(),
        ensures
            final(self)@.wf(),
            final(self)@ == (CompositorView {
                keymap: old(self)@.keymap.push(binding),
                ..old(self)@
            }),
    {
        self.keymap.push(binding);
        proof {
            old(self)@.lemma_same_records_wf(self@);
        }
    }

    /// Records which keys are held down.
    pub fn set_held_keys(&mut self, keys: Vec<u32>)
        requires
            old(self)@.wf(),
        ensures
            final(self)@.wf(),
            final(self)@ == (CompositorView { held_keys: keys@, ..old(self)@ }),
    {
        self.held_keys = keys;
        proof {
            old(self)@.lemma_same_records_wf(self@);
        }
    }

    /// The engine destroys every surface on `output`, front first. The output
    /// itself stays.
    pub fn clear_output(&mut self, output: WlcOutput)
        requires
            old(self)@.wf(),
        ensures
            final(self)@.wf(),
            final(self)@ == old(self)@.emptied(output, old(self)@.stack_of(output).len()),
            final(self)@.has_output(output) == old(self)@.has_output(output),
            final(self)@.stack_of(output).len() == 0,
    {
        loop
            invariant
                self@.wf(),
                self@.has_output(output) == old(self)@.has_output(output),
                old(self)@.emptied(output, old(self)@.stack_of(output).len()) == self@.emptied(
                    output,
                    self@.stack_of(output).len(),
                ),
            ensures
                self@.wf(),
                self@.has_output(output) == old(self)@.has_output(output),
                self@.stack_of(output).len() == 0,
                self@ == old(self)@.emptied(output, old(self)@.stack_of(output).len()),
            decreases self@.stack_of(output).len(),
        {
            let at = match self.find_output(output) {
                Some(at) => at,
                None => {
                    break ;
                },
            };
            assert(self@.outputs[at as int] == self.outputs@[at as int]@);
            if self.outputs[at].stack.len() == 0 {
                break ;
            }
            let front = self.outputs[at].stack[0];
            let ghost before = self@;
            proof {
                let j = before.lemma_member(at as int, 0);
                before.lemma_view_index(j);
                let stack = before.stack_of(output);
                let k = stack.index_of(front);
                assert(0 <= k < stack.len() && stack[k] == front);
                assert(k == 0);
            }
            self.remove_view(front);
            proof {
                assert(self@.outputs[at as int].id == output);
                self@.lemma_output_index(at as int);
            }
        }
    }

    /// The engine destroys an output together with every surface on it. The
    /// answer says whether the output was alive.
    pub fn destroy_output(&mut self, output: WlcOutput) -> (destroyed: bool)
        requires
            old(self)@.wf(),
        ensures
            final(self)@.wf(),
            destroyed == old(self)@.has_output(output),
            final(self)@ == old(self)@.output_destroyed(output),
            !final(self)@.has_output(output),
    {
        self.clear_output(output);
        self.remove_output(output)
    }

    /// Carries out the outcome of an event. Only a veto changes anything:
    /// the surface that was made is destroyed, or the output that was made
    /// is destroyed with whatever surfaces were put on it meanwhile. Either
    /// way what was vetoed is not alive afterwards.
    pub fn settle(&mut self, event: Event, outcome: Outcome)
        requires
            old(self)@.wf(),
        ensures
            final(self)@.wf(),
            final(self)@ == old(self)@.settled(event, outcome),
            outcome == Outcome::Vetoed ==> (event matches Event::OutputCreated { output }
                ==> !final(self)@.has_output(output)),
            outcome == Outcome::Vetoed ==> (event matches Event::ViewCreated { view }
                ==> !final(self)@.has_view(view)),
    {
        match outcome {
            Outcome::Vetoed => {
                match event {
                    Event::ViewCreated { view } => {
                        self.remove_view(view);
                    },
                    Event::OutputCreated { output } => {
                        self.destroy_output(output);
                    },
                    _ => {},
                }
            },
            _ => {},
        }
    }

    /// Whether the chain of parents that starts at `from` comes to `target`,
    /// or does not end within as many steps as there are surfaces.
    pub fn leads_to(&self, from: WlcView, target: WlcView) -> (b: bool)
        requires
            self@.wf(),
        ensures
            b == self@.leads_to(from, target, self@.views.len()),
    {
        let mut current = from;
        let mut left: usize = self.views.len();
        loop
            invariant
                self@.wf(),
                self@.leads_to(from, target, self@.views.len()) == self@.leads_to(
                    current,
                    target,
                    left as nat,
                ),
            decreases left,
        {
            if current == target {
                return true;
            }
            match self.find_view(current) {
                None => {
                    return false;
                },
                Some(i) => {
                    if left == 0 {
                        return true;
                    }
                    current = self.views[i].parent;
                    left -= 1;
                },
            }
        }
    }

    /// Whether `view` names a live surface.
    pub fn has_view(&self, view: WlcView) -> (b: bool)
        requires
            self@.wf(),
        ensures
            b == self@.has_view(view),
    {
        self.find_view(view).is_some()
    }

    /// Whether `output` names a live output.
    pub fn has_output(&self, output: WlcOutput) -> (b: bool)
        requires
            self@.wf(),
        ensures
            b == self@.has_output(output),
    {
        self.find_output(output).is_some()
    }
}

} // verus!
