//! The parent relation. Every chain of parents ends: it comes to the root
//! surface, or to a handle that is not alive. So no surface is its own
//! ancestor. These are the lemmas that keep that true.

use vstd::prelude::*;
use crate::handle::WlcView;
use crate::model::{CompositorView, ViewRecord};

verus! {

impl CompositorView {
    /// Whether the chain of parents that starts at `from` ends within `steps`
    /// steps: it ends at a handle that is not alive, which the root surface
    /// never is.
    pub open spec fn ends_within(self, from: WlcView, steps: nat) -> bool
        decreases steps,
    {
        !self.has_view(from) || (steps > 0 && self.ends_within(
            self.record(from).parent,
            (steps - 1) as nat,
        ))
    }

    /// Whether the chain of parents that starts at `from` ends.
    pub open spec fn chain_ends(self, from: WlcView) -> bool {
        exists|steps: nat| self.ends_within(from, steps)
    }

    /// Every chain of parents ends.
    pub open spec fn acyclic(self) -> bool {
        forall|i: int| 0 <= i < self.views.len() ==> self.chain_ends((#[trigger] self.views[i]).id)
    }

    /// Whether the chain of parents that starts at `from` comes to `target`
    /// within `steps` steps.
    pub open spec fn comes_to(self, from: WlcView, target: WlcView, steps: nat) -> bool
        decreases steps,
    {
        from == target || (steps > 0 && self.has_view(from) && self.comes_to(
            self.record(from).parent,
            target,
            (steps - 1) as nat,
        ))
    }

    /// Whether `next` holds records for the same handles at the same places,
    /// each with the parent it has here; the record at place `except` may
    /// have another parent.
    pub open spec fn links_agree(self, next: CompositorView, except: int) -> bool {
        &&& next.views.len() == self.views.len()
        &&& forall|j: int|
            0 <= j < self.views.len() ==> (#[trigger] next.views[j]).id == self.views[j].id && (j
                != except ==> next.views[j].parent == self.views[j].parent)
    }

    /// Where the links agree, a handle is alive in both states or in
    /// neither, and its record stands at the same place.
    pub proof fn lemma_links_lookup(self, next: CompositorView, except: int, view: WlcView)
        requires
            self.distinct(),
            next.distinct(),
            self.links_agree(next, except),
        ensures
            next.has_view(view) == self.has_view(view),
            self.has_view(view) ==> 0 <= self.view_index(view) < self.views.len()
                && next.view_index(view) == self.view_index(view) && self.views[self.view_index(
                view,
            )].id == view,
    {
        if self.has_view(view) {
            let j = self.view_index(view);
            assert(next.views[j].id == view);
            next.lemma_view_index(j);
        }
        if next.has_view(view) {
            let j = next.view_index(view);
            assert(next.views[j].id == view);
            assert(self.views[j].id == view);
        }
    }

    /// A chain that ends within some steps ends within more.
    pub proof fn lemma_ends_later(self, from: WlcView, steps: nat, more: nat)
        requires
            self.ends_within(from, steps),
            steps <= more,
        ensures
            self.ends_within(from, more),
        decreases steps,
    {
        if self.has_view(from) {
            self.lemma_ends_later(self.record(from).parent, (steps - 1) as nat, (more - 1) as nat);
        }
    }

    /// Where every link agrees, a chain that ends here ends there, within
    /// the same steps.
    pub proof fn lemma_same_links(self, next: CompositorView, from: WlcView, steps: nat)
        requires
            self.distinct(),
            next.distinct(),
            self.links_agree(next, -1),
            self.ends_within(from, steps),
        ensures
            next.ends_within(from, steps),
        decreases steps,
    {
        self.lemma_links_lookup(next, -1, from);
        if next.has_view(from) {
            let j = self.view_index(from);
            assert(next.views[j].parent == self.views[j].parent);
            self.lemma_same_links(next, self.record(from).parent, (steps - 1) as nat);
        }
    }

    /// Where every link agrees, every chain still ends.
    pub proof fn lemma_same_links_acyclic(self, next: CompositorView)
        requires
            self.distinct(),
            self.acyclic(),
            next.distinct(),
            self.links_agree(next, -1),
        ensures
            next.acyclic(),
    {
        assert forall|i: int| 0 <= i < next.views.len() implies next.chain_ends(
            (#[trigger] next.views[i]).id,
        ) by {
            let view = self.views[i].id;
            assert(self.chain_ends(view));
            let steps = choose|steps: nat| self.ends_within(view, steps);
            self.lemma_same_links(next, view, steps);
        }
    }

    /// After the surface at place `i` got another parent: a chain that ended
    /// without coming to that surface is as it was.
    pub proof fn lemma_chain_apart(self, next: CompositorView, i: int, from: WlcView, steps: nat)
        requires
            self.distinct(),
            next.distinct(),
            0 <= i < self.views.len(),
            self.links_agree(next, i),
            !self.leads_to(from, self.views[i].id, steps),
        ensures
            next.ends_within(from, steps),
            !next.leads_to(from, self.views[i].id, steps),
        decreases steps,
    {
        self.lemma_links_lookup(next, i, from);
        if self.has_view(from) {
            let j = self.view_index(from);
            self.lemma_view_index(i);
            assert(j != i);
            assert(next.views[j].parent == self.views[j].parent);
            self.lemma_chain_apart(next, i, self.record(from).parent, (steps - 1) as nat);
        }
    }

    /// After the surface at place `i` got another parent, from which the
    /// chain ends within `tail` steps: a chain that ended within `steps`
    /// steps ends within `steps + tail`.
    pub proof fn lemma_chain_through(
        self,
        next: CompositorView,
        i: int,
        from: WlcView,
        steps: nat,
        tail: nat,
    )
        requires
            self.distinct(),
            next.distinct(),
            0 <= i < self.views.len(),
            self.links_agree(next, i),
            self.ends_within(from, steps),
            next.ends_within(self.views[i].id, tail),
        ensures
            next.ends_within(from, steps + tail),
        decreases steps,
    {
        self.lemma_links_lookup(next, i, from);
        if next.has_view(from) {
            let j = self.view_index(from);
            if j == i {
                next.lemma_ends_later(from, tail, steps + tail);
            } else {
                assert(next.views[j].parent == self.views[j].parent);
                self.lemma_chain_through(
                    next,
                    i,
                    self.record(from).parent,
                    (steps - 1) as nat,
                    tail,
                );
            }
        }
    }

    /// Giving a surface a parent that `can_adopt` admits keeps the state
    /// consistent: every chain of parents still ends.
    pub proof fn lemma_adopted_wf(self, view: WlcView, parent: WlcView)
        requires
            self.wf(),
            self.has_view(view),
            self.can_adopt(view, parent),
        ensures
            self.with_view(view, ViewRecord { parent, ..self.record(view) }).wf(),
    {
        let i = self.view_index(view);
        self.lemma_lookup_view(view);
        let record = ViewRecord { parent, ..self.record(view) };
        self.lemma_with_view_stacks(i, record);
        let next = self.with_view(view, record);
        next.lemma_view_index(i);
        let len = self.views.len();
        assert(self.links_agree(next, i));
        if parent.spec_is_root() {
            if next.has_view(parent) {
                let j = next.view_index(parent);
                assert(next.views[j].id.number() != 0);
            }
            assert(next.ends_within(parent, len));
        } else {
            self.lemma_chain_apart(next, i, parent, len);
        }
        assert(next.ends_within(view, len + 1));
        assert forall|k: int| 0 <= k < next.views.len() implies next.chain_ends(
            (#[trigger] next.views[k]).id,
        ) by {
            let from = self.views[k].id;
            assert(self.chain_ends(from));
            let steps = choose|steps: nat| self.ends_within(from, steps);
            self.lemma_chain_through(next, i, from, steps, len + 1);
        }
    }

    /// After a surface with no parent was made: a chain that ended within
    /// `steps` steps ends within one more.
    pub proof fn lemma_added_links(
        self,
        next: CompositorView,
        record: ViewRecord,
        from: WlcView,
        steps: nat,
    )
        requires
            self.distinct(),
            next.distinct(),
            next.views == self.views.push(record),
            record.parent.spec_is_root(),
            self.ends_within(from, steps),
        ensures
            next.ends_within(from, steps + 1),
        decreases steps,
    {
        if next.has_view(from) {
            let j = next.view_index(from);
            next.lemma_lookup_view(from);
            next.lemma_view_index(j);
            if j == self.views.len() {
                if next.has_view(record.parent) {
                    let r = next.view_index(record.parent);
                    assert(next.views[r].id.number() != 0);
                }
                assert(next.ends_within(record.parent, steps));
            } else {
                assert(self.views[j].id == from);
                self.lemma_view_index(j);
                self.lemma_added_links(
                    next,
                    record,
                    self.record(from).parent,
                    (steps - 1) as nat,
                );
            }
        }
    }

    /// After a surface with no parent was made, every chain still ends.
    pub proof fn lemma_added_acyclic(self, next: CompositorView, record: ViewRecord)
        requires
            self.distinct(),
            self.acyclic(),
            next.distinct(),
            next.views == self.views.push(record),
            record.parent.spec_is_root(),
        ensures
            next.acyclic(),
    {
        assert forall|k: int| 0 <= k < next.views.len() implies next.chain_ends(
            (#[trigger] next.views[k]).id,
        ) by {
            let from = next.views[k].id;
            if k < self.views.len() {
                assert(self.chain_ends(self.views[k].id));
                let steps = choose|steps: nat| self.ends_within(from, steps);
                self.lemma_added_links(next, record, from, steps);
            } else {
                assert(self.ends_within(from, 0)) by {
                    if self.has_view(from) {
                        let j = self.view_index(from);
                        assert(next.views[j].id == from);
                        assert(next.views[j].id != next.views[k].id);
                    }
                }
                self.lemma_added_links(next, record, from, 0);
            }
        }
    }

    /// After the surface at place `i` was destroyed and its children lost
    /// their parent: a chain that ended still ends, within the same steps.
    pub proof fn lemma_removed_links(self, next: CompositorView, i: int, from: WlcView, steps: nat)
        requires
            self.distinct(),
            next.distinct(),
            0 <= i < self.views.len(),
            next.views == self.views.remove(i).map_values(
                |r: ViewRecord| CompositorView::orphaned(r, self.views[i].id),
            ),
            self.ends_within(from, steps),
        ensures
            next.ends_within(from, steps),
        decreases steps,
    {
        if next.has_view(from) {
            let j = next.view_index(from);
            next.lemma_lookup_view(from);
            let earlier = if j < i {
                j
            } else {
                j + 1
            };
            assert(next.views[j] == CompositorView::orphaned(self.views[earlier], self.views[i].id));
            assert(self.views[earlier].id == from);
            self.lemma_view_index(earlier);
            let parent = self.views[earlier].parent;
            assert(self.has_view(from) && self.record(from).parent == parent);
            assert(steps > 0);
            if parent == self.views[i].id {
                if next.has_view(WlcView::spec_root()) {
                    let r = next.view_index(WlcView::spec_root());
                    assert(next.views[r].id.number() != 0);
                }
                assert(next.record(from).parent == WlcView::spec_root());
                assert(next.ends_within(WlcView::spec_root(), (steps - 1) as nat));
            } else {
                self.lemma_removed_links(next, i, parent, (steps - 1) as nat);
                assert(next.record(from).parent == parent);
            }
        }
    }

    /// After a surface was destroyed and its children lost their parent,
    /// every chain still ends.
    pub proof fn lemma_removed_acyclic(self, next: CompositorView, i: int)
        requires
            self.distinct(),
            self.acyclic(),
            next.distinct(),
            0 <= i < self.views.len(),
            next.views == self.views.remove(i).map_values(
                |r: ViewRecord| CompositorView::orphaned(r, self.views[i].id),
            ),
        ensures
            next.acyclic(),
    {
        assert forall|k: int| 0 <= k < next.views.len() implies next.chain_ends(
            (#[trigger] next.views[k]).id,
        ) by {
            let earlier = if k < i {
                k
            } else {
                k + 1
            };
            assert(next.views[k] == CompositorView::orphaned(self.views[earlier], self.views[i].id));
            let from = self.views[earlier].id;
            assert(self.chain_ends(from));
            let steps = choose|steps: nat| self.ends_within(from, steps);
            self.lemma_removed_links(next, i, from, steps);
        }
    }

    /// A chain that comes back to where a cycle stands never ends.
    pub proof fn lemma_cycle_never_ends(
        self,
        view: WlcView,
        round: nat,
        from: WlcView,
        reach: nat,
        steps: nat,
    )
        requires
            self.has_view(view),
            self.comes_to(self.record(view).parent, view, round),
            self.comes_to(from, view, reach),
        ensures
            !self.ends_within(from, steps),
        decreases steps,
    {
        if steps > 0 {
            if from == view {
                self.lemma_cycle_never_ends(
                    view,
                    round,
                    self.record(view).parent,
                    round,
                    (steps - 1) as nat,
                );
            } else {
                self.lemma_cycle_never_ends(
                    view,
                    round,
                    self.record(from).parent,
                    (reach - 1) as nat,
                    (steps - 1) as nat,
                );
            }
        }
    }
}

} // verus!
