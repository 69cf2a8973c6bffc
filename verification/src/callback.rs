//! The registry of handlers. Every kind of event has one slot; a handler
//! that is registered takes the slot of its kind, and whatever stood there
//! before is gone. The registry is a value of its own, made while the
//! compositor is set up and handed to whatever drives the event loop.

use vstd::prelude::*;
use crate::event::{Event, EventKind, EVENT_KINDS};

verus! {

/// The registry: one slot per kind of event. `H` is the type of a handler.
pub struct Callbacks<H> {
    slots: Vec<Option<H>>,
}

impl<H> Callbacks<H> {
    /// The registry has a slot for every kind.
    pub closed spec fn wf(&self) -> bool {
        self.slots@.len() == EVENT_KINDS
    }

    /// What stands in the slot of `kind`.
    pub closed spec fn slot(&self, kind: EventKind) -> Option<H> {
        self.slots@[kind.spec_index() as int]
    }

    /// Whether `next` is this registry after `handler` was registered for
    /// `kind`: the slot of `kind` holds `handler`, every other slot what it
    /// held.
    pub open spec fn registered(&self, next: &Callbacks<H>, kind: EventKind, handler: H) -> bool {
        &&& next.wf()
        &&& next.slot(kind) == Some(handler)
        &&& forall|other: EventKind| other != kind ==> next.slot(other) == self.slot(other)
    }

    /// A registry with every slot empty.
    pub fn new() -> (callbacks: Callbacks<H>)
        ensures
            callbacks.wf(),
            forall|kind: EventKind| callbacks.slot(kind) is None,
    {
        let mut slots: Vec<Option<H>> = Vec::new();
        let mut i: usize = 0;
        while i < EVENT_KINDS
            invariant
                i <= EVENT_KINDS,
                slots@.len() == i,
                forall|j: int| 0 <= j < i ==> slots@[j] is None,
            decreases EVENT_KINDS - i,
        {
            slots.push(None);
            i += 1;
        }
        let callbacks = Callbacks { slots };
        assert forall|kind: EventKind| callbacks.slot(kind) is None by {
            kind.slots_are_apart(kind);
        }
        callbacks
    }

    /// Puts `handler` into the slot of `kind`. What stood there before is
    /// dropped and can no longer be reached.
    pub fn register(&mut self, kind: EventKind, handler: H)
        requires
            old(self).wf(),
        ensures
            old(self).registered(final(self), kind, handler),
    {
        let i = kind.index();
        self.slots[i] = Some(handler);
        proof {
            assert forall|other: EventKind| other != kind implies self.slot(other) == old(
                self,
            ).slot(other) by {
                kind.slots_are_apart(other);
                other.slots_are_apart(other);
            }
        }
    }

    /// The handler registered for `kind`, if there is one.
    pub fn handler(&self, kind: EventKind) -> (found: Option<&H>)
        requires
            self.wf(),
        ensures
            found is Some <==> self.slot(kind) is Some,
            found matches Some(h) ==> self.slot(kind) == Some(*h),
    {
        let i = kind.index();
        self.slots[i].as_ref()
    }

    /// The handler that an event is to be handed to: the one registered for
    /// the event's kind. With `None` the event is dropped, and the engine
    /// does what it does by default. Only a well-formed event is handed on:
    /// a touch event of the `Frame` kind carries zero for slot and point.
    pub fn dispatch(&self, event: &Event) -> (found: Option<&H>)
        requires
            self.wf(),
            event.wf(),
        ensures
            found is Some <==> self.slot(event.spec_kind()) is Some,
            found matches Some(h) ==> self.slot(event.spec_kind()) == Some(*h),
    {
        self.handler(event.kind())
    }

    /// Of two handlers registered for one kind, one after the other, only
    /// the second is in the registry: the slot holds it, no slot holds the
    /// first because of that registration, and the registry is the same as if
    /// the first had never been registered.
    pub proof fn last_registration_wins(
        &self,
        middle: &Callbacks<H>,
        last: &Callbacks<H>,
        only: &Callbacks<H>,
        kind: EventKind,
        first: H,
        second: H,
    )
        requires
            self.wf(),
            self.registered(middle, kind, first),
            middle.registered(last, kind, second),
            self.registered(only, kind, second),
        ensures
            last.slot(kind) == Some(second),
            forall|any: EventKind| last.slot(any) == only.slot(any),
            forall|any: EventKind| any != kind ==> last.slot(any) == self.slot(any),
    {
    }
}

/// Registers the handler for the event: an output was made. The handler may
/// veto it by answering `false`; the output is then not used.
pub fn output_created<H>(callbacks: &mut Callbacks<H>, callback: H)
    requires
        old(callbacks).wf(),
    ensures
        old(callbacks).registered(final(callbacks), EventKind::OutputCreated, callback),
{
    callbacks.register(EventKind::OutputCreated, callback);
}

/// Registers the handler for the event: an output was destroyed.
pub fn output_destroyed<H>(callbacks: &mut Callbacks<H>, callback: H)
    requires
        old(callbacks).wf(),
    ensures
        old(callbacks).registered(final(callbacks), EventKind::OutputDestroyed, callback),
{
    callbacks.register(EventKind::OutputDestroyed, callback);
}

/// Registers the handler for the event: an output got or lost the focus.
pub fn output_focus<H>(callbacks: &mut Callbacks<H>, callback: H)
    requires
        old(callbacks).wf(),
    ensures
        old(callbacks).registered(final(callbacks), EventKind::OutputFocus, callback),
{
    callbacks.register(EventKind::OutputFocus, callback);
}

/// Registers the handler for the event: the resolution of an output changed.
pub fn output_resolution<H>(callbacks: &mut Callbacks<H>, callback: H)
    requires
        old(callbacks).wf(),
    ensures
        old(callbacks).registered(final(callbacks), EventKind::OutputResolution, callback),
{
    callbacks.register(EventKind::OutputResolution, callback);
}

/// Registers the handler for the event: the render context of an output was
/// destroyed, as on a switch to another session.
pub fn output_context_destroyed<H>(callbacks: &mut Callbacks<H>, callback: H)
    requires
        old(callbacks).wf(),
    ensures
        old(callbacks).registered(final(callbacks), EventKind::OutputContextDestroyed, callback),
{
    callbacks.register(EventKind::OutputContextDestroyed, callback);
}

/// Registers the handler for the event: the render context of an output was
/// made.
pub fn output_context_created<H>(callbacks: &mut Callbacks<H>, callback: H)
    requires
        old(callbacks).wf(),
    ensures
        old(callbacks).registered(final(callbacks), EventKind::OutputContextCreated, callback),
{
    callbacks.register(EventKind::OutputContextCreated, callback);
}

/// Registers the handler for the event: an output is about to be rendered.
pub fn output_render_pre<H>(callbacks: &mut Callbacks<H>, callback: H)
    requires
        old(callbacks).wf(),
    ensures
        old(callbacks).registered(final(callbacks), EventKind::OutputRenderPre, callback),
{
    callbacks.register(EventKind::OutputRenderPre, callback);
}

/// Registers the handler for the event: an output was rendered.
pub fn output_render_post<H>(callbacks: &mut Callbacks<H>, callback: H)
    requires
        old(callbacks).wf(),
    ensures
        old(callbacks).registered(final(callbacks), EventKind::OutputRenderPost, callback),
{
    callbacks.register(EventKind::OutputRenderPost, callback);
}

/// Registers the handler for the event: a surface was made. The handler may
/// veto it by answering `false`; the surface is then destroyed.
pub fn view_created<H>(callbacks: &mut Callbacks<H>, callback: H)
    requires
        old(callbacks).wf(),
    ensures
        old(callbacks).registered(final(callbacks), EventKind::ViewCreated, callback),
{
    callbacks.register(EventKind::ViewCreated, callback);
}

/// Registers the handler for the event: a surface was destroyed.
pub fn view_destroyed<H>(callbacks: &mut Callbacks<H>, callback: H)
    requires
        old(callbacks).wf(),
    ensures
        old(callbacks).registered(final(callbacks), EventKind::ViewDestroyed, callback),
{
    callbacks.register(EventKind::ViewDestroyed, callback);
}

/// Registers the handler for the event: a surface got or lost the focus.
pub fn view_focus<H>(callbacks: &mut Callbacks<H>, callback: H)
    requires
        old(callbacks).wf(),
    ensures
        old(callbacks).registered(final(callbacks), EventKind::ViewFocus, callback),
{
    callbacks.register(EventKind::ViewFocus, callback);
}

/// Registers the handler for the event: a surface moved to another output.
pub fn view_move_to_output<H>(callbacks: &mut Callbacks<H>, callback: H)
    requires
        old(callbacks).wf(),
    ensures
        old(callbacks).registered(final(callbacks), EventKind::ViewMoveToOutput, callback),
{
    callbacks.register(EventKind::ViewMoveToOutput, callback);
}

/// Registers the handler for the event: a surface asks for a geometry. The
/// handler decides whether and how to grant it.
pub fn view_request_geometry<H>(callbacks: &mut Callbacks<H>, callback: H)
    requires
        old(callbacks).wf(),
    ensures
        old(callbacks).registered(final(callbacks), EventKind::ViewRequestGeometry, callback),
{
    callbacks.register(EventKind::ViewRequestGeometry, callback);
}

/// Registers the handler for the event: a surface asks for a state flag to be
/// set or cleared; `handled` says whether the request was already taken care
/// of.
pub fn view_request_state<H>(callbacks: &mut Callbacks<H>, callback: H)
    requires
        old(callbacks).wf(),
    ensures
        old(callbacks).registered(final(callbacks), EventKind::ViewRequestState, callback),
{
    callbacks.register(EventKind::ViewRequestState, callback);
}

/// Registers the handler for the event: a surface asks to be moved.
pub fn view_request_move<H>(callbacks: &mut Callbacks<H>, callback: H)
    requires
        old(callbacks).wf(),
    ensures
        old(callbacks).registered(final(callbacks), EventKind::ViewRequestMove, callback),
{
    callbacks.register(EventKind::ViewRequestMove, callback);
}

/// Registers the handler for the event: a surface asks to be resized; `edge`
/// says which edge is dragged.
pub fn view_request_resize<H>(callbacks: &mut Callbacks<H>, callback: H)
    requires
        old(callbacks).wf(),
    ensures
        old(callbacks).registered(final(callbacks), EventKind::ViewRequestResize, callback),
{
    callbacks.register(EventKind::ViewRequestResize, callback);
}

/// Registers the handler for the event: a surface is about to be rendered.
pub fn view_render_pre<H>(callbacks: &mut Callbacks<H>, callback: H)
    requires
        old(callbacks).wf(),
    ensures
        old(callbacks).registered(final(callbacks), EventKind::ViewRenderPre, callback),
{
    callbacks.register(EventKind::ViewRenderPre, callback);
}

/// Registers the handler for the event: a surface was rendered.
pub fn view_render_post<H>(callbacks: &mut Callbacks<H>, callback: H)
    requires
        old(callbacks).wf(),
    ensures
        old(callbacks).registered(final(callbacks), EventKind::ViewRenderPost, callback),
{
    callbacks.register(EventKind::ViewRenderPost, callback);
}

/// Registers the handler for the event: a key went down or came up. The
/// handler answers `true` to consume the event, which then does not reach the
/// surface.
pub fn keyboard_key<H>(callbacks: &mut Callbacks<H>, callback: H)
    requires
        old(callbacks).wf(),
    ensures
        old(callbacks).registered(final(callbacks), EventKind::KeyboardKey, callback),
{
    callbacks.register(EventKind::KeyboardKey, callback);
}

/// Registers the handler for the event: a pointer button went down or came
/// up. The handler answers `true` to consume the event.
pub fn pointer_button<H>(callbacks: &mut Callbacks<H>, callback: H)
    requires
        old(callbacks).wf(),
    ensures
        old(callbacks).registered(final(callbacks), EventKind::PointerButton, callback),
{
    callbacks.register(EventKind::PointerButton, callback);
}

/// Registers the handler for the event: the pointer scrolled. The two amounts
/// are carried as the bit patterns of the numbers the engine reported. The
/// handler answers `true` to consume the event.
pub fn pointer_scroll<H>(callbacks: &mut Callbacks<H>, callback: H)
    requires
        old(callbacks).wf(),
    ensures
        old(callbacks).registered(final(callbacks), EventKind::PointerScroll, callback),
{
    callbacks.register(EventKind::PointerScroll, callback);
}

/// Registers the handler for the event: the pointer moved. The event does not
/// itself move the cursor: the handler has to set the pointer's position. It
/// answers `true` to consume the event.
pub fn pointer_motion<H>(callbacks: &mut Callbacks<H>, callback: H)
    requires
        old(callbacks).wf(),
    ensures
        old(callbacks).registered(final(callbacks), EventKind::PointerMotion, callback),
{
    callbacks.register(EventKind::PointerMotion, callback);
}

/// Registers the handler for the event: a touch event. In a `Frame` event the
/// slot and the point are zero and say nothing about a finger. The handler
/// answers `true` to consume the event.
pub fn touch<H>(callbacks: &mut Callbacks<H>, callback: H)
    requires
        old(callbacks).wf(),
    ensures
        old(callbacks).registered(final(callbacks), EventKind::Touch, callback),
{
    callbacks.register(EventKind::Touch, callback);
}

/// Registers the handler for the event: the compositor is ready:
/// initialization is complete. Fired once.
pub fn compositor_ready<H>(callbacks: &mut Callbacks<H>, callback: H)
    requires
        old(callbacks).wf(),
    ensures
        old(callbacks).registered(final(callbacks), EventKind::CompositorReady, callback),
{
    callbacks.register(EventKind::CompositorReady, callback);
}

/// Registers the handler for the event: the compositor is about to end.
pub fn compositor_terminate<H>(callbacks: &mut Callbacks<H>, callback: H)
    requires
        old(callbacks).wf(),
    ensures
        old(callbacks).registered(final(callbacks), EventKind::CompositorTerminate, callback),
{
    callbacks.register(EventKind::CompositorTerminate, callback);
}

} // verus!
