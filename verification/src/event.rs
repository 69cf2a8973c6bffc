//! The events that the engine reports, and what a handler's answer means
//! for each kind of them.

use vstd::prelude::*;
use crate::flags::{ResizeEdge, ScrollAxis, ViewState};
use crate::handle::{WlcOutput, WlcView};
use crate::types::{ButtonState, Geometry, KeyState, KeyboardModifiers, Point, Size, TouchType};

verus! {

/// The kinds of events. Each kind has one slot for a handler.
#[derive(Clone, Copy, Debug, PartialEq, Eq, Structural, Hash)]
pub enum EventKind {
    OutputCreated,
    OutputDestroyed,
    OutputFocus,
    OutputResolution,
    OutputContextDestroyed,
    OutputContextCreated,
    OutputRenderPre,
    OutputRenderPost,
    ViewCreated,
    ViewDestroyed,
    ViewFocus,
    ViewMoveToOutput,
    ViewRequestGeometry,
    ViewRequestState,
    ViewRequestMove,
    ViewRequestResize,
    ViewRenderPre,
    ViewRenderPost,
    KeyboardKey,
    PointerButton,
    PointerScroll,
    PointerMotion,
    Touch,
    CompositorReady,
    CompositorTerminate,
}

/// How many kinds of events there are.
pub const EVENT_KINDS: usize = 25;

/// An event with what it carries.
#[derive(Clone, Copy, Debug, PartialEq, Eq, Structural)]
pub enum Event {
    /// An output was made. The handler may veto it by answering `false`; the
    /// output is then not used.
    OutputCreated { output: WlcOutput },
    /// An output was destroyed.
    OutputDestroyed { output: WlcOutput },
    /// An output got or lost the focus.
    OutputFocus { output: WlcOutput, focused: bool },
    /// The resolution of an output changed.
    OutputResolution { output: WlcOutput, old_size: Size, new_size: Size },
    /// The render context of an output was destroyed, as on a switch to
    /// another session.
    OutputContextDestroyed { output: WlcOutput },
    /// The render context of an output was made.
    OutputContextCreated { output: WlcOutput },
    /// An output is about to be rendered.
    OutputRenderPre { output: WlcOutput },
    /// An output was rendered.
    OutputRenderPost { output: WlcOutput },
    /// A surface was made. The handler may veto it by answering `false`; the
    /// surface is then destroyed.
    ViewCreated { view: WlcView },
    /// A surface was destroyed.
    ViewDestroyed { view: WlcView },
    /// A surface got or lost the focus.
    ViewFocus { view: WlcView, focused: bool },
    /// A surface moved to another output.
    ViewMoveToOutput { view: WlcView, old_output: WlcOutput, new_output: WlcOutput },
    /// A surface asks for a geometry. The handler decides whether and how to
    /// grant it.
    ViewRequestGeometry { view: WlcView, geometry: Geometry },
    /// A surface asks for a state flag to be set or cleared; `handled` says
    /// whether the request was already taken care of.
    ViewRequestState { view: WlcView, state: ViewState, handled: bool },
    /// A surface asks to be moved.
    ViewRequestMove { view: WlcView, destination: Point },
    /// A surface asks to be resized; `edge` says which edge is dragged.
    ViewRequestResize { view: WlcView, edge: ResizeEdge, location: Point },
    /// A surface is about to be rendered.
    ViewRenderPre { view: WlcView },
    /// A surface was rendered.
    ViewRenderPost { view: WlcView },
    /// A key went down or came up. The handler answers `true` to consume the
    /// event, which then does not reach the surface.
    KeyboardKey {
        view: WlcView,
        time: u32,
        modifiers: KeyboardModifiers,
        key: u32,
        key_state: KeyState,
    },
    /// A pointer button went down or came up. The handler answers `true` to
    /// consume the event.
    PointerButton {
        view: WlcView,
        time: u32,
        modifiers: KeyboardModifiers,
        button: u32,
        button_state: ButtonState,
        point: Point,
    },
    /// The pointer scrolled. The two amounts are carried as the bit patterns
    /// of the numbers the engine reported. The handler answers `true` to consume
    /// the event.
    PointerScroll {
        view: WlcView,
        time: u32,
        modifiers: KeyboardModifiers,
        axis: ScrollAxis,
        amount_bits: Amount,
    },
    /// The pointer moved. The event does not itself move the cursor: the
    /// handler has to set the pointer's position. It answers `true` to consume
    /// the event.
    PointerMotion { view: WlcView, time: u32, point: Point },
    /// A touch event. In a `Frame` event the slot and the point are zero and
    /// say nothing about a finger. The handler answers `true` to consume the
    /// event.
    Touch {
        view: WlcView,
        time: u32,
        modifiers: KeyboardModifiers,
        touch: TouchType,
        slot: i32,
        point: Point,
    },
    /// The compositor is ready: initialization is complete. Fired once.
    CompositorReady,
    /// The compositor is about to end.
    CompositorTerminate,
}

/// The two amounts of a scroll event, each as the bit pattern of the number
/// that the engine reported.
#[derive(Clone, Copy, Debug, PartialEq, Eq, Structural)]
pub struct Amount {
    pub first: u64,
    pub second: u64,
}

/// What follows from a handler's answer.
#[derive(Clone, Copy, Debug, PartialEq, Eq, Structural)]
pub enum Outcome {
    /// The engine goes on with what it does by default.
    Proceed,
    /// The output or surface that was made is not to be used.
    Vetoed,
    /// The input event stops here and does not reach the surface.
    Consumed,
}

impl EventKind {
    /// The place of the kind's slot, counted from zero.
    pub open spec fn spec_index(self) -> usize {
        match self {
            EventKind::OutputCreated => 0,
            EventKind::OutputDestroyed => 1,
            EventKind::OutputFocus => 2,
            EventKind::OutputResolution => 3,
            EventKind::OutputContextDestroyed => 4,
            EventKind::OutputContextCreated => 5,
            EventKind::OutputRenderPre => 6,
            EventKind::OutputRenderPost => 7,
            EventKind::ViewCreated => 8,
            EventKind::ViewDestroyed => 9,
            EventKind::ViewFocus => 10,
            EventKind::ViewMoveToOutput => 11,
            EventKind::ViewRequestGeometry => 12,
            EventKind::ViewRequestState => 13,
            EventKind::ViewRequestMove => 14,
            EventKind::ViewRequestResize => 15,
            EventKind::ViewRenderPre => 16,
            EventKind::ViewRenderPost => 17,
            EventKind::KeyboardKey => 18,
            EventKind::PointerButton => 19,
            EventKind::PointerScroll => 20,
            EventKind::PointerMotion => 21,
            EventKind::Touch => 22,
            EventKind::CompositorReady => 23,
            EventKind::CompositorTerminate => 24,
        }
    }

    /// Whether the kind reports that an output or a surface was made.
    pub open spec fn spec_is_creation(self) -> bool {
        self == EventKind::OutputCreated || self == EventKind::ViewCreated
    }

    /// Whether the kind reports input from the keyboard, the pointer or a
    /// touch screen.
    pub open spec fn spec_is_input(self) -> bool {
        self == EventKind::KeyboardKey || self == EventKind::PointerButton || self
            == EventKind::PointerScroll || self == EventKind::PointerMotion || self
            == EventKind::Touch
    }

    /// What follows from the answer to an event of this kind. `None` means
    /// that no handler was there to answer: the event is dropped and the
    /// engine does what it does by default. After a creation, `false` is a
    /// veto. After input, `true` consumes the event. The answer to any other
    /// kind changes nothing.
    pub open spec fn spec_outcome(self, answer: Option<bool>) -> Outcome {
        match answer {
            None => Outcome::Proceed,
            Some(b) => if self.spec_is_creation() && !b {
                Outcome::Vetoed
            } else if self.spec_is_input() && b {
                Outcome::Consumed
            } else {
                Outcome::Proceed
            },
        }
    }

    #[verifier::when_used_as_spec(spec_index)]
    pub fn index(self) -> (i: usize)
        ensures
            i == self.spec_index(),
            i < EVENT_KINDS,
    {
        match self {
            EventKind::OutputCreated => 0,
            EventKind::OutputDestroyed => 1,
            EventKind::OutputFocus => 2,
            EventKind::OutputResolution => 3,
            EventKind::OutputContextDestroyed => 4,
            EventKind::OutputContextCreated => 5,
            EventKind::OutputRenderPre => 6,
            EventKind::OutputRenderPost => 7,
            EventKind::ViewCreated => 8,
            EventKind::ViewDestroyed => 9,
            EventKind::ViewFocus => 10,
            EventKind::ViewMoveToOutput => 11,
            EventKind::ViewRequestGeometry => 12,
            EventKind::ViewRequestState => 13,
            EventKind::ViewRequestMove => 14,
            EventKind::ViewRequestResize => 15,
            EventKind::ViewRenderPre => 16,
            EventKind::ViewRenderPost => 17,
            EventKind::KeyboardKey => 18,
            EventKind::PointerButton => 19,
            EventKind::PointerScroll => 20,
            EventKind::PointerMotion => 21,
            EventKind::Touch => 22,
            EventKind::CompositorReady => 23,
            EventKind::CompositorTerminate => 24,
        }
    }

    #[verifier::when_used_as_spec(spec_is_creation)]
    pub fn is_creation(self) -> (b: bool)
        ensures
            b == self.spec_is_creation(),
    {
        match self {
            EventKind::OutputCreated => true,
            EventKind::ViewCreated => true,
            _ => false,
        }
    }

    #[verifier::when_used_as_spec(spec_is_input)]
    pub fn is_input(self) -> (b: bool)
        ensures
            b == self.spec_is_input(),
    {
        match self {
            EventKind::KeyboardKey => true,
            EventKind::PointerButton => true,
            EventKind::PointerScroll => true,
            EventKind::PointerMotion => true,
            EventKind::Touch => true,
            _ => false,
        }
    }

    #[verifier::when_used_as_spec(spec_outcome)]
    pub fn outcome(self, answer: Option<bool>) -> (outcome: Outcome)
        ensures
            outcome == self.spec_outcome(answer),
    {
        match answer {
            None => Outcome::Proceed,
            Some(b) => {
                if self.is_creation() && !b {
                    Outcome::Vetoed
                } else if self.is_input() && b {
                    Outcome::Consumed
                } else {
                    Outcome::Proceed
                }
            },
        }
    }

    /// Two kinds have the same slot only if they are the same kind.
    pub proof fn slots_are_apart(self, other: EventKind)
        ensures
            self.spec_index() < EVENT_KINDS,
            self.spec_index() == other.spec_index() <==> self == other,
    {
    }
}

impl Event {
    /// The kind of the event.
    pub open spec fn spec_kind(self) -> EventKind {
        match self {
            Event::OutputCreated { .. } => EventKind::OutputCreated,
            Event::OutputDestroyed { .. } => EventKind::OutputDestroyed,
            Event::OutputFocus { .. } => EventKind::OutputFocus,
            Event::OutputResolution { .. } => EventKind::OutputResolution,
            Event::OutputContextDestroyed { .. } => EventKind::OutputContextDestroyed,
            Event::OutputContextCreated { .. } => EventKind::OutputContextCreated,
            Event::OutputRenderPre { .. } => EventKind::OutputRenderPre,
            Event::OutputRenderPost { .. } => EventKind::OutputRenderPost,
            Event::ViewCreated { .. } => EventKind::ViewCreated,
            Event::ViewDestroyed { .. } => EventKind::ViewDestroyed,
            Event::ViewFocus { .. } => EventKind::ViewFocus,
            Event::ViewMoveToOutput { .. } => EventKind::ViewMoveToOutput,
            Event::ViewRequestGeometry { .. } => EventKind::ViewRequestGeometry,
            Event::ViewRequestState { .. } => EventKind::ViewRequestState,
            Event::ViewRequestMove { .. } => EventKind::ViewRequestMove,
            Event::ViewRequestResize { .. } => EventKind::ViewRequestResize,
            Event::ViewRenderPre { .. } => EventKind::ViewRenderPre,
            Event::ViewRenderPost { .. } => EventKind::ViewRenderPost,
            Event::KeyboardKey { .. } => EventKind::KeyboardKey,
            Event::PointerButton { .. } => EventKind::PointerButton,
            Event::PointerScroll { .. } => EventKind::PointerScroll,
            Event::PointerMotion { .. } => EventKind::PointerMotion,
            Event::Touch { .. } => EventKind::Touch,
            Event::CompositorReady => EventKind::CompositorReady,
            Event::CompositorTerminate => EventKind::CompositorTerminate,
        }
    }

    /// An event is well formed unless it is a touch event of the `Frame`
    /// kind with a slot or a point other than zero.
    pub open spec fn wf(self) -> bool {
        match self {
            Event::Touch { touch, slot, point, .. } => touch == TouchType::Frame ==> slot == 0
                && point == Point::spec_origin(),
            _ => true,
        }
    }

    /// Whether the event is well formed.
    pub fn is_well_formed(self) -> (b: bool)
        ensures
            b == self.wf(),
    {
        match self {
            Event::Touch { touch, slot, point, .. } => match touch {
                TouchType::Frame => slot == 0 && point.x == 0 && point.y == 0,
                _ => true,
            },
            _ => true,
        }
    }

    #[verifier::when_used_as_spec(spec_kind)]
    pub fn kind(self) -> (kind: EventKind)
        ensures
            kind == self.spec_kind(),
    {
        match self {
            Event::OutputCreated { .. } => EventKind::OutputCreated,
            Event::OutputDestroyed { .. } => EventKind::OutputDestroyed,
            Event::OutputFocus { .. } => EventKind::OutputFocus,
            Event::OutputResolution { .. } => EventKind::OutputResolution,
            Event::OutputContextDestroyed { .. } => EventKind::OutputContextDestroyed,
            Event::OutputContextCreated { .. } => EventKind::OutputContextCreated,
            Event::OutputRenderPre { .. } => EventKind::OutputRenderPre,
            Event::OutputRenderPost { .. } => EventKind::OutputRenderPost,
            Event::ViewCreated { .. } => EventKind::ViewCreated,
            Event::ViewDestroyed { .. } => EventKind::ViewDestroyed,
            Event::ViewFocus { .. } => EventKind::ViewFocus,
            Event::ViewMoveToOutput { .. } => EventKind::ViewMoveToOutput,
            Event::ViewRequestGeometry { .. } => EventKind::ViewRequestGeometry,
            Event::ViewRequestState { .. } => EventKind::ViewRequestState,
            Event::ViewRequestMove { .. } => EventKind::ViewRequestMove,
            Event::ViewRequestResize { .. } => EventKind::ViewRequestResize,
            Event::ViewRenderPre { .. } => EventKind::ViewRenderPre,
            Event::ViewRenderPost { .. } => EventKind::ViewRenderPost,
            Event::KeyboardKey { .. } => EventKind::KeyboardKey,
            Event::PointerButton { .. } => EventKind::PointerButton,
            Event::PointerScroll { .. } => EventKind::PointerScroll,
            Event::PointerMotion { .. } => EventKind::PointerMotion,
            Event::Touch { .. } => EventKind::Touch,
            Event::CompositorReady => EventKind::CompositorReady,
            Event::CompositorTerminate => EventKind::CompositorTerminate,
        }
    }

    /// The touch event that the engine reports. For a `Frame` event the slot
    /// and the point that come with it are dropped: the event carries zero
    /// for both, so that nothing left over from an earlier touch is taken
    /// for a finger's place.
    pub fn touch(
        view: WlcView,
        time: u32,
        modifiers: KeyboardModifiers,
        touch: TouchType,
        slot: i32,
        point: Point,
    ) -> (event: Event)
        ensures
            event.wf(),
            event == (Event::Touch {
                view,
                time,
                modifiers,
                touch,
                slot: if touch == TouchType::Frame {
                    0
                } else {
                    slot
                },
                point: if touch == TouchType::Frame {
                    Point::spec_origin()
                } else {
                    point
                },
            }),
            touch == TouchType::Frame ==> (event matches Event::Touch { slot: s, point: p, .. }
                && s == 0 && p.x == 0 && p.y == 0),
    {
        match touch {
            TouchType::Frame => Event::Touch {
                view,
                time,
                modifiers,
                touch,
                slot: 0,
                point: Point::origin(),
            },
            _ => Event::Touch { view, time, modifiers, touch, slot, point },
        }
    }
}

} // verus!
