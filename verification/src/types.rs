//! Plain value types shared by the whole library: geometry, input snapshots
//! and the small enumerations that events carry.

use vstd::prelude::*;
use crate::flags::{KeyMod, KeyboardLed};

verus! {

/// A position in the compositor's coordinate space. Either coordinate may be
/// negative when several outputs are laid out side by side.
#[derive(Clone, Copy, Debug, PartialEq, Eq, Structural, Hash)]
pub struct Point {
    pub x: i32,
    pub y: i32,
}

/// A pixel dimension.
#[derive(Clone, Copy, Debug, PartialEq, Eq, Structural, Hash)]
pub struct Size {
    pub w: u32,
    pub h: u32,
}

/// A rectangle: where it starts and how large it is.
#[derive(Clone, Copy, Debug, PartialEq, Eq, Structural, Hash)]
pub struct Geometry {
    pub origin: Point,
    pub size: Size,
}

impl Point {
    /// The point `(0, 0)`.
    pub open spec fn spec_origin() -> Point {
        Point { x: 0, y: 0 }
    }

    #[verifier::when_used_as_spec(spec_origin)]
    pub fn origin() -> (p: Point)
        ensures
            p == Point::spec_origin(),
    {
        Point { x: 0, y: 0 }
    }
}

impl Size {
    /// The size with no extent.
    pub open spec fn spec_zero() -> Size {
        Size { w: 0, h: 0 }
    }

    #[verifier::when_used_as_spec(spec_zero)]
    pub fn zero() -> (s: Size)
        ensures
            s == Size::spec_zero(),
    {
        Size { w: 0, h: 0 }
    }
}

impl Geometry {
    /// The rectangle at the origin with no extent: what a query about an
    /// unknown surface answers.
    pub open spec fn spec_zero() -> Geometry {
        Geometry { origin: Point::spec_origin(), size: Size::spec_zero() }
    }

    #[verifier::when_used_as_spec(spec_zero)]
    pub fn zero() -> (g: Geometry)
        ensures
            g == Geometry::spec_zero(),
    {
        Geometry { origin: Point::origin(), size: Size::zero() }
    }
}

/// The kind of a log message.
#[derive(Clone, Copy, Debug, PartialEq, Eq, Structural, Hash)]
pub enum LogType {
    Info,
    Warn,
    Error,
    Wayland,
}

/// The backend the compositor runs on. `Unknown` means that no usable backend
/// was found.
#[derive(Clone, Copy, Debug, PartialEq, Eq, Structural, Hash)]
pub enum BackendType {
    Unknown,
    DRM,
    X11,
}

/// Whether a key went down or came up.
#[derive(Clone, Copy, Debug, PartialEq, Eq, Structural, Hash)]
pub enum KeyState {
    Released,
    Pressed,
}

/// Whether a pointer button went down or came up.
#[derive(Clone, Copy, Debug, PartialEq, Eq, Structural, Hash)]
pub enum ButtonState {
    Released,
    Pressed,
}

/// The phase of a touch interaction that an event reports.
#[derive(Clone, Copy, Debug, PartialEq, Eq, Structural, Hash)]
pub enum TouchType {
    Down,
    Up,
    Motion,
    Frame,
    Cancel,
}

/// The modifier keys and lock lights that were active when an input event
/// happened.
#[derive(Clone, Copy, Debug, PartialEq, Eq, Structural, Hash)]
pub struct KeyboardModifiers {
    pub leds: KeyboardLed,
    pub mods: KeyMod,
}

/// A key symbol, as the keymap names it. `Keysym(0)` is "no symbol".
#[derive(Clone, Copy, Debug, PartialEq, Eq, Structural, Hash)]
pub struct Keysym(pub u32);

/// Where an output stands with its next frame.
#[derive(Clone, Copy, Debug, PartialEq, Eq, Structural, Hash)]
pub enum RenderState {
    /// Nothing is asked for.
    Idle,
    /// One render is due for the next frame.
    Scheduled,
    /// A frame is being rendered.
    Rendering,
    /// A frame is being rendered, and one more is due right after it.
    RenderingThenScheduled,
}

impl RenderState {
    /// The state after a render was asked for: an idle output has one due; an
    /// output that renders has one more due right after; asking again
    /// changes nothing.
    pub open spec fn spec_scheduled(self) -> RenderState {
        match self {
            RenderState::Idle => RenderState::Scheduled,
            RenderState::Scheduled => RenderState::Scheduled,
            RenderState::Rendering => RenderState::RenderingThenScheduled,
            RenderState::RenderingThenScheduled => RenderState::RenderingThenScheduled,
        }
    }

    /// The state after the engine came to the next frame: a render that was
    /// due starts.
    pub open spec fn spec_started(self) -> RenderState {
        match self {
            RenderState::Scheduled => RenderState::Rendering,
            _ => self,
        }
    }

    /// The state after the frame in flight completed: the output is idle,
    /// unless one more render was asked for meanwhile, which is then due.
    pub open spec fn spec_finished(self) -> RenderState {
        match self {
            RenderState::Rendering => RenderState::Idle,
            RenderState::RenderingThenScheduled => RenderState::Scheduled,
            _ => self,
        }
    }

    /// How many renders the state still owes: the one in flight does not
    /// count.
    pub open spec fn due(self) -> nat {
        match self {
            RenderState::Scheduled => 1,
            RenderState::RenderingThenScheduled => 1,
            _ => 0,
        }
    }

    #[verifier::when_used_as_spec(spec_scheduled)]
    pub fn scheduled(self) -> (next: RenderState)
        ensures
            next == self.spec_scheduled(),
    {
        match self {
            RenderState::Idle => RenderState::Scheduled,
            RenderState::Scheduled => RenderState::Scheduled,
            RenderState::Rendering => RenderState::RenderingThenScheduled,
            RenderState::RenderingThenScheduled => RenderState::RenderingThenScheduled,
        }
    }

    #[verifier::when_used_as_spec(spec_started)]
    pub fn started(self) -> (next: RenderState)
        ensures
            next == self.spec_started(),
    {
        match self {
            RenderState::Scheduled => RenderState::Rendering,
            other => other,
        }
    }

    #[verifier::when_used_as_spec(spec_finished)]
    pub fn finished(self) -> (next: RenderState)
        ensures
            next == self.spec_finished(),
    {
        match self {
            RenderState::Rendering => RenderState::Idle,
            RenderState::RenderingThenScheduled => RenderState::Scheduled,
            other => other,
        }
    }

    /// Asking for a render twice is the same as asking once: one render is
    /// due, not two. When no frame was in flight, that one render starts
    /// with the next frame, and after it the output is idle again.
    pub proof fn scheduling_twice_schedules_once(self)
        ensures
            self.spec_scheduled().spec_scheduled() == self.spec_scheduled(),
            self.spec_scheduled().spec_scheduled().due() == 1,
            (self == RenderState::Idle || self == RenderState::Scheduled)
                ==> self.spec_scheduled().spec_scheduled().spec_started() == RenderState::Rendering
                && self.spec_scheduled().spec_scheduled().spec_started().spec_finished()
                == RenderState::Idle,
    {
    }

    /// A render asked for while a frame is in flight is not dropped: it is
    /// due as soon as that frame completes.
    pub proof fn scheduling_in_flight_renders_again(self)
        requires
            self == RenderState::Rendering || self == RenderState::RenderingThenScheduled,
        ensures
            self.spec_scheduled().spec_finished() == RenderState::Scheduled,
    {
    }
}

/// Where the compositor stands in its life.
#[derive(Clone, Copy, Debug, PartialEq, Eq, Structural, Hash)]
pub enum Phase {
    /// Handlers and the log sink are being set up.
    Bootstrap,
    /// Initialization succeeded; the event loop has not started.
    Initialized,
    /// The event loop runs.
    Running,
    /// The event loop was asked to end. Nothing leads out of this phase.
    Terminated,
}

} // verus!
