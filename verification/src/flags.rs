//! Flag sets. Each is a set of named bits held in a `u32`; every bit can be
//! set, cleared and tested on its own.

use vstd::prelude::*;

verus! {

/// The surface bypasses window management.
pub const VIEW_BIT_OVERRIDE_REDIRECT: u32 = 1;

/// The surface is not managed: a tooltip, a menu, a drag icon.
pub const VIEW_BIT_UNMANAGED: u32 = 2;

/// The surface is a splash screen.
pub const VIEW_BIT_SPLASH: u32 = 4;

/// The surface is a modal dialogue.
pub const VIEW_BIT_MODAL: u32 = 8;

/// The surface is a popup.
pub const VIEW_BIT_POPUP: u32 = 16;

/// Every bit that a view type set can hold.
pub const VIEW_TYPE_ALL: u32 = 31;

/// A set of structural flags of a surface. The flags are independent of one
/// another; the default is the empty set.
#[derive(Clone, Copy, Debug, PartialEq, Eq, Structural, Hash)]
pub struct ViewType {
    pub bits: u32,
}

impl ViewType {
    /// The set that holds no flag.
    pub open spec fn spec_empty() -> ViewType {
        ViewType { bits: 0 }
    }

    /// The set made of the named bits of `bits`; bits without a name are
    /// dropped.
    pub open spec fn spec_from_bits_truncate(bits: u32) -> ViewType {
        ViewType { bits: bits & VIEW_TYPE_ALL }
    }

    /// Whether every flag of `other` is in this set.
    pub open spec fn spec_contains(self, other: ViewType) -> bool {
        self.bits & other.bits == other.bits
    }

    /// This set with the flags of `flags` set (`toggle` true) or cleared
    /// (`toggle` false). Every other bit stays as it is.
    pub open spec fn spec_toggled(self, flags: ViewType, toggle: bool) -> ViewType {
        if toggle {
            ViewType { bits: self.bits | flags.bits }
        } else {
            ViewType { bits: self.bits & !flags.bits }
        }
    }

    #[verifier::when_used_as_spec(spec_empty)]
    pub fn empty() -> (s: ViewType)
        ensures
            s == ViewType::spec_empty(),
    {
        ViewType { bits: 0 }
    }

    #[verifier::when_used_as_spec(spec_from_bits_truncate)]
    pub fn from_bits_truncate(bits: u32) -> (s: ViewType)
        ensures
            s == ViewType::spec_from_bits_truncate(bits),
    {
        ViewType { bits: bits & VIEW_TYPE_ALL }
    }

    /// The raw bits of the set.
    pub fn bits(&self) -> (b: u32)
        ensures
            b == self.bits,
    {
        self.bits
    }

    pub fn is_empty(&self) -> (b: bool)
        ensures
            b == (self.bits == 0),
    {
        self.bits == 0
    }

    #[verifier::when_used_as_spec(spec_contains)]
    pub fn contains(self, other: ViewType) -> (b: bool)
        ensures
            b == self.spec_contains(other),
    {
        self.bits & other.bits == other.bits
    }

    #[verifier::when_used_as_spec(spec_toggled)]
    pub fn toggled(self, flags: ViewType, toggle: bool) -> (s: ViewType)
        ensures
            s == self.spec_toggled(flags, toggle),
    {
        if toggle {
            ViewType { bits: self.bits | flags.bits }
        } else {
            ViewType { bits: self.bits & !flags.bits }
        }
    }

    /// Setting flags that were all clear and then clearing them again gives
    /// back the set one started with.
    pub proof fn toggle_on_then_off_restores(self, flags: ViewType)
        requires
            self.bits & flags.bits == 0,
        ensures
            self.spec_toggled(flags, true).spec_toggled(flags, false) == self,
    {
        let b = self.bits;
        let f = flags.bits;
        assert(b & f == 0 ==> (b | f) & !f == b) by (bit_vector);
    }

    /// Setting or clearing flags leaves every bit outside them as it was, and
    /// gives the flags themselves the value asked for.
    pub proof fn toggle_touches_only_flags(self, flags: ViewType, toggle: bool)
        ensures
            self.spec_toggled(flags, toggle).bits & !flags.bits == self.bits & !flags.bits,
            toggle ==> self.spec_toggled(flags, toggle).spec_contains(flags),
            !toggle ==> self.spec_toggled(flags, toggle).bits & flags.bits == 0,
    {
        let b = self.bits;
        let f = flags.bits;
        assert((b | f) & !f == b & !f) by (bit_vector);
        assert((b & !f) & !f == b & !f) by (bit_vector);
        assert((b | f) & f == f) by (bit_vector);
        assert((b & !f) & f == 0) by (bit_vector);
    }
}

/// The surface is maximized.
pub const VIEW_MAXIMIZED: u32 = 1;

/// The surface covers its whole output.
pub const VIEW_FULLSCREEN: u32 = 2;

/// The surface is being resized.
pub const VIEW_RESIZING: u32 = 4;

/// The surface is being moved.
pub const VIEW_MOVING: u32 = 8;

/// The surface is the active one.
pub const VIEW_ACTIVATED: u32 = 16;

/// Every bit that a view state set can hold.
pub const VIEW_STATE_ALL: u32 = 31;

/// A set of runtime flags of a surface. The flags are independent of one
/// another; the default is the empty set.
#[derive(Clone, Copy, Debug, PartialEq, Eq, Structural, Hash)]
pub struct ViewState {
    pub bits: u32,
}

impl ViewState {
    /// The set that holds no flag.
    pub open spec fn spec_empty() -> ViewState {
        ViewState { bits: 0 }
    }

    /// The set made of the named bits of `bits`; bits without a name are
    /// dropped.
    pub open spec fn spec_from_bits_truncate(bits: u32) -> ViewState {
        ViewState { bits: bits & VIEW_STATE_ALL }
    }

    /// Whether every flag of `other` is in this set.
    pub open spec fn spec_contains(self, other: ViewState) -> bool {
        self.bits & other.bits == other.bits
    }

    /// This set with the flags of `flags` set (`toggle` true) or cleared
    /// (`toggle` false). Every other bit stays as it is.
    pub open spec fn spec_toggled(self, flags: ViewState, toggle: bool) -> ViewState {
        if toggle {
            ViewState { bits: self.bits | flags.bits }
        } else {
            ViewState { bits: self.bits & !flags.bits }
        }
    }

    #[verifier::when_used_as_spec(spec_empty)]
    pub fn empty() -> (s: ViewState)
        ensures
            s == ViewState::spec_empty(),
    {
        ViewState { bits: 0 }
    }

    #[verifier::when_used_as_spec(spec_from_bits_truncate)]
    pub fn from_bits_truncate(bits: u32) -> (s: ViewState)
        ensures
            s == ViewState::spec_from_bits_truncate(bits),
    {
        ViewState { bits: bits & VIEW_STATE_ALL }
    }

    /// The raw bits of the set.
    pub fn bits(&self) -> (b: u32)
        ensures
            b == self.bits,
    {
        self.bits
    }

    pub fn is_empty(&self) -> (b: bool)
        ensures
            b == (self.bits == 0),
    {
        self.bits == 0
    }

    #[verifier::when_used_as_spec(spec_contains)]
    pub fn contains(self, other: ViewState) -> (b: bool)
        ensures
            b == self.spec_contains(other),
    {
        self.bits & other.bits == other.bits
    }

    #[verifier::when_used_as_spec(spec_toggled)]
    pub fn toggled(self, flags: ViewState, toggle: bool) -> (s: ViewState)
        ensures
            s == self.spec_toggled(flags, toggle),
    {
        if toggle {
            ViewState { bits: self.bits | flags.bits }
        } else {
            ViewState { bits: self.bits & !flags.bits }
        }
    }

    /// Setting flags that were all clear and then clearing them again gives
    /// back the set one started with.
    pub proof fn toggle_on_then_off_restores(self, flags: ViewState)
        requires
            self.bits & flags.bits == 0,
        ensures
            self.spec_toggled(flags, true).spec_toggled(flags, false) == self,
    {
        let b = self.bits;
        let f = flags.bits;
        assert(b & f == 0 ==> (b | f) & !f == b) by (bit_vector);
    }

    /// Setting or clearing flags leaves every bit outside them as it was, and
    /// gives the flags themselves the value asked for.
    pub proof fn toggle_touches_only_flags(self, flags: ViewState, toggle: bool)
        ensures
            self.spec_toggled(flags, toggle).bits & !flags.bits == self.bits & !flags.bits,
            toggle ==> self.spec_toggled(flags, toggle).spec_contains(flags),
            !toggle ==> self.spec_toggled(flags, toggle).bits & flags.bits == 0,
    {
        let b = self.bits;
        let f = flags.bits;
        assert((b | f) & !f == b & !f) by (bit_vector);
        assert((b & !f) & !f == b & !f) by (bit_vector);
        assert((b | f) & f == f) by (bit_vector);
        assert((b & !f) & f == 0) by (bit_vector);
    }
}

/// No edge.
pub const EDGE_NONE: u32 = 0;

/// The top edge.
pub const EDGE_TOP: u32 = 1;

/// The bottom edge.
pub const EDGE_BOTTOM: u32 = 2;

/// The left edge.
pub const EDGE_LEFT: u32 = 4;

/// The top left corner.
pub const EDGE_TOPLEFT: u32 = 5;

/// The bottom left corner.
pub const EDGE_BOTTOMLEFT: u32 = 6;

/// The right edge.
pub const EDGE_RIGHT: u32 = 8;

/// The top right corner.
pub const EDGE_TOPRIGHT: u32 = 9;

/// The bottom right corner.
pub const EDGE_BOTTOMRIGHT: u32 = 10;

/// Every bit that a resize edge set can hold.
pub const EDGE_ALL: u32 = 15;

/// The edge or edges of a surface that an interactive resize drags. The empty
/// set means that no edge is involved.
#[derive(Clone, Copy, Debug, PartialEq, Eq, Structural, Hash)]
pub struct ResizeEdge {
    pub bits: u32,
}

impl ResizeEdge {
    /// The set that holds no flag.
    pub open spec fn spec_empty() -> ResizeEdge {
        ResizeEdge { bits: 0 }
    }

    /// The set made of the named bits of `bits`; bits without a name are
    /// dropped.
    pub open spec fn spec_from_bits_truncate(bits: u32) -> ResizeEdge {
        ResizeEdge { bits: bits & EDGE_ALL }
    }

    /// Whether every flag of `other` is in this set.
    pub open spec fn spec_contains(self, other: ResizeEdge) -> bool {
        self.bits & other.bits == other.bits
    }

    /// This set with the flags of `flags` set (`toggle` true) or cleared
    /// (`toggle` false). Every other bit stays as it is.
    pub open spec fn spec_toggled(self, flags: ResizeEdge, toggle: bool) -> ResizeEdge {
        if toggle {
            ResizeEdge { bits: self.bits | flags.bits }
        } else {
            ResizeEdge { bits: self.bits & !flags.bits }
        }
    }

    #[verifier::when_used_as_spec(spec_empty)]
    pub fn empty() -> (s: ResizeEdge)
        ensures
            s == ResizeEdge::spec_empty(),
    {
        ResizeEdge { bits: 0 }
    }

    #[verifier::when_used_as_spec(spec_from_bits_truncate)]
    pub fn from_bits_truncate(bits: u32) -> (s: ResizeEdge)
        ensures
            s == ResizeEdge::spec_from_bits_truncate(bits),
    {
        ResizeEdge { bits: bits & EDGE_ALL }
    }

    /// The raw bits of the set.
    pub fn bits(&self) -> (b: u32)
        ensures
            b == self.bits,
    {
        self.bits
    }

    pub fn is_empty(&self) -> (b: bool)
        ensures
            b == (self.bits == 0),
    {
        self.bits == 0
    }

    #[verifier::when_used_as_spec(spec_contains)]
    pub fn contains(self, other: ResizeEdge) -> (b: bool)
        ensures
            b == self.spec_contains(other),
    {
        self.bits & other.bits == other.bits
    }

    #[verifier::when_used_as_spec(spec_toggled)]
    pub fn toggled(self, flags: ResizeEdge, toggle: bool) -> (s: ResizeEdge)
        ensures
            s == self.spec_toggled(flags, toggle),
    {
        if toggle {
            ResizeEdge { bits: self.bits | flags.bits }
        } else {
            ResizeEdge { bits: self.bits & !flags.bits }
        }
    }

    /// Setting flags that were all clear and then clearing them again gives
    /// back the set one started with.
    pub proof fn toggle_on_then_off_restores(self, flags: ResizeEdge)
        requires
            self.bits & flags.bits == 0,
        ensures
            self.spec_toggled(flags, true).spec_toggled(flags, false) == self,
    {
        let b = self.bits;
        let f = flags.bits;
        assert(b & f == 0 ==> (b | f) & !f == b) by (bit_vector);
    }

    /// Setting or clearing flags leaves every bit outside them as it was, and
    /// gives the flags themselves the value asked for.
    pub proof fn toggle_touches_only_flags(self, flags: ResizeEdge, toggle: bool)
        ensures
            self.spec_toggled(flags, toggle).bits & !flags.bits == self.bits & !flags.bits,
            toggle ==> self.spec_toggled(flags, toggle).spec_contains(flags),
            !toggle ==> self.spec_toggled(flags, toggle).bits & flags.bits == 0,
    {
        let b = self.bits;
        let f = flags.bits;
        assert((b | f) & !f == b & !f) by (bit_vector);
        assert((b & !f) & !f == b & !f) by (bit_vector);
        assert((b | f) & f == f) by (bit_vector);
        assert((b & !f) & f == 0) by (bit_vector);
    }
}

/// No modifier.
pub const MOD_NONE: u32 = 0;

/// Shift.
pub const MOD_SHIFT: u32 = 1;

/// Caps lock.
pub const MOD_CAPS: u32 = 2;

/// Control.
pub const MOD_CTRL: u32 = 4;

/// Alt.
pub const MOD_ALT: u32 = 8;

/// The second extra modifier.
pub const MOD_MOD2: u32 = 16;

/// The third extra modifier.
pub const MOD_MOD3: u32 = 32;

/// The logo key.
pub const MOD_LOGO: u32 = 64;

/// The fifth extra modifier.
pub const MOD_MOD5: u32 = 128;

/// Every bit that a key modifier set can hold.
pub const MOD_ALL: u32 = 255;

/// A set of keyboard modifier keys.
#[derive(Clone, Copy, Debug, PartialEq, Eq, Structural, Hash)]
pub struct KeyMod {
    pub bits: u32,
}

impl KeyMod {
    /// The set that holds no flag.
    pub open spec fn spec_empty() -> KeyMod {
        KeyMod { bits: 0 }
    }

    /// The set made of the named bits of `bits`; bits without a name are
    /// dropped.
    pub open spec fn spec_from_bits_truncate(bits: u32) -> KeyMod {
        KeyMod { bits: bits & MOD_ALL }
    }

    /// Whether every flag of `other` is in this set.
    pub open spec fn spec_contains(self, other: KeyMod) -> bool {
        self.bits & other.bits == other.bits
    }

    /// This set with the flags of `flags` set (`toggle` true) or cleared
    /// (`toggle` false). Every other bit stays as it is.
    pub open spec fn spec_toggled(self, flags: KeyMod, toggle: bool) -> KeyMod {
        if toggle {
            KeyMod { bits: self.bits | flags.bits }
        } else {
            KeyMod { bits: self.bits & !flags.bits }
        }
    }

    #[verifier::when_used_as_spec(spec_empty)]
    pub fn empty() -> (s: KeyMod)
        ensures
            s == KeyMod::spec_empty(),
    {
        KeyMod { bits: 0 }
    }

    #[verifier::when_used_as_spec(spec_from_bits_truncate)]
    pub fn from_bits_truncate(bits: u32) -> (s: KeyMod)
        ensures
            s == KeyMod::spec_from_bits_truncate(bits),
    {
        KeyMod { bits: bits & MOD_ALL }
    }

    /// The raw bits of the set.
    pub fn bits(&self) -> (b: u32)
        ensures
            b == self.bits,
    {
        self.bits
    }

    pub fn is_empty(&self) -> (b: bool)
        ensures
            b == (self.bits == 0),
    {
        self.bits == 0
    }

    #[verifier::when_used_as_spec(spec_contains)]
    pub fn contains(self, other: KeyMod) -> (b: bool)
        ensures
            b == self.spec_contains(other),
    {
        self.bits & other.bits == other.bits
    }

    #[verifier::when_used_as_spec(spec_toggled)]
    pub fn toggled(self, flags: KeyMod, toggle: bool) -> (s: KeyMod)
        ensures
            s == self.spec_toggled(flags, toggle),
    {
        if toggle {
            KeyMod { bits: self.bits | flags.bits }
        } else {
            KeyMod { bits: self.bits & !flags.bits }
        }
    }

    /// Setting flags that were all clear and then clearing them again gives
    /// back the set one started with.
    pub proof fn toggle_on_then_off_restores(self, flags: KeyMod)
        requires
            self.bits & flags.bits == 0,
        ensures
            self.spec_toggled(flags, true).spec_toggled(flags, false) == self,
    {
        let b = self.bits;
        let f = flags.bits;
        assert(b & f == 0 ==> (b | f) & !f == b) by (bit_vector);
    }

    /// Setting or clearing flags leaves every bit outside them as it was, and
    /// gives the flags themselves the value asked for.
    pub proof fn toggle_touches_only_flags(self, flags: KeyMod, toggle: bool)
        ensures
            self.spec_toggled(flags, toggle).bits & !flags.bits == self.bits & !flags.bits,
            toggle ==> self.spec_toggled(flags, toggle).spec_contains(flags),
            !toggle ==> self.spec_toggled(flags, toggle).bits & flags.bits == 0,
    {
        let b = self.bits;
        let f = flags.bits;
        assert((b | f) & !f == b & !f) by (bit_vector);
        assert((b & !f) & !f == b & !f) by (bit_vector);
        assert((b | f) & f == f) by (bit_vector);
        assert((b & !f) & f == 0) by (bit_vector);
    }
}

/// Num lock.
pub const LED_NUM_LOCK: u32 = 1;

/// Caps lock.
pub const LED_CAPS_LOCK: u32 = 2;

/// Scroll lock.
pub const LED_SCROLL_LOCK: u32 = 4;

/// Every bit that a keyboard light set can hold.
pub const LED_ALL: u32 = 7;

/// A set of keyboard lock lights.
#[derive(Clone, Copy, Debug, PartialEq, Eq, Structural, Hash)]
pub struct KeyboardLed {
    pub bits: u32,
}

impl KeyboardLed {
    /// The set that holds no flag.
    pub open spec fn spec_empty() -> KeyboardLed {
        KeyboardLed { bits: 0 }
    }

    /// The set made of the named bits of `bits`; bits without a name are
    /// dropped.
    pub open spec fn spec_from_bits_truncate(bits: u32) -> KeyboardLed {
        KeyboardLed { bits: bits & LED_ALL }
    }

    /// Whether every flag of `other` is in this set.
    pub open spec fn spec_contains(self, other: KeyboardLed) -> bool {
        self.bits & other.bits == other.bits
    }

    /// This set with the flags of `flags` set (`toggle` true) or cleared
    /// (`toggle` false). Every other bit stays as it is.
    pub open spec fn spec_toggled(self, flags: KeyboardLed, toggle: bool) -> KeyboardLed {
        if toggle {
            KeyboardLed { bits: self.bits | flags.bits }
        } else {
            KeyboardLed { bits: self.bits & !flags.bits }
        }
    }

    #[verifier::when_used_as_spec(spec_empty)]
    pub fn empty() -> (s: KeyboardLed)
        ensures
            s == KeyboardLed::spec_empty(),
    {
        KeyboardLed { bits: 0 }
    }

    #[verifier::when_used_as_spec(spec_from_bits_truncate)]
    pub fn from_bits_truncate(bits: u32) -> (s: KeyboardLed)
        ensures
            s == KeyboardLed::spec_from_bits_truncate(bits),
    {
        KeyboardLed { bits: bits & LED_ALL }
    }

    /// The raw bits of the set.
    pub fn bits(&self) -> (b: u32)
        ensures
            b == self.bits,
    {
        self.bits
    }

    pub fn is_empty(&self) -> (b: bool)
        ensures
            b == (self.bits == 0),
    {
        self.bits == 0
    }

    #[verifier::when_used_as_spec(spec_contains)]
    pub fn contains(self, other: KeyboardLed) -> (b: bool)
        ensures
            b == self.spec_contains(other),
    {
        self.bits & other.bits == other.bits
    }

    #[verifier::when_used_as_spec(spec_toggled)]
    pub fn toggled(self, flags: KeyboardLed, toggle: bool) -> (s: KeyboardLed)
        ensures
            s == self.spec_toggled(flags, toggle),
    {
        if toggle {
            KeyboardLed { bits: self.bits | flags.bits }
        } else {
            KeyboardLed { bits: self.bits & !flags.bits }
        }
    }

    /// Setting flags that were all clear and then clearing them again gives
    /// back the set one started with.
    pub proof fn toggle_on_then_off_restores(self, flags: KeyboardLed)
        requires
            self.bits & flags.bits == 0,
        ensures
            self.spec_toggled(flags, true).spec_toggled(flags, false) == self,
    {
        let b = self.bits;
        let f = flags.bits;
        assert(b & f == 0 ==> (b | f) & !f == b) by (bit_vector);
    }

    /// Setting or clearing flags leaves every bit outside them as it was, and
    /// gives the flags themselves the value asked for.
    pub proof fn toggle_touches_only_flags(self, flags: KeyboardLed, toggle: bool)
        ensures
            self.spec_toggled(flags, toggle).bits & !flags.bits == self.bits & !flags.bits,
            toggle ==> self.spec_toggled(flags, toggle).spec_contains(flags),
            !toggle ==> self.spec_toggled(flags, toggle).bits & flags.bits == 0,
    {
        let b = self.bits;
        let f = flags.bits;
        assert((b | f) & !f == b & !f) by (bit_vector);
        assert((b & !f) & !f == b & !f) by (bit_vector);
        assert((b | f) & f == f) by (bit_vector);
        assert((b & !f) & f == 0) by (bit_vector);
    }
}

/// Vertical scrolling.
pub const SCROLL_AXIS_VERTICAL: u32 = 1;

/// Horizontal scrolling.
pub const SCROLL_AXIS_HORIZONTAL: u32 = 2;

/// Every bit that a scroll axis set can hold.
pub const SCROLL_AXIS_ALL: u32 = 3;

/// The axis or axes along which a scroll event moves.
#[derive(Clone, Copy, Debug, PartialEq, Eq, Structural, Hash)]
pub struct ScrollAxis {
    pub bits: u32,
}

impl ScrollAxis {
    /// The set that holds no flag.
    pub open spec fn spec_empty() -> ScrollAxis {
        ScrollAxis { bits: 0 }
    }

    /// The set made of the named bits of `bits`; bits without a name are
    /// dropped.
    pub open spec fn spec_from_bits_truncate(bits: u32) -> ScrollAxis {
        ScrollAxis { bits: bits & SCROLL_AXIS_ALL }
    }

    /// Whether every flag of `other` is in this set.
    pub open spec fn spec_contains(self, other: ScrollAxis) -> bool {
        self.bits & other.bits == other.bits
    }

    /// This set with the flags of `flags` set (`toggle` true) or cleared
    /// (`toggle` false). Every other bit stays as it is.
    pub open spec fn spec_toggled(self, flags: ScrollAxis, toggle: bool) -> ScrollAxis {
        if toggle {
            ScrollAxis { bits: self.bits | flags.bits }
        } else {
            ScrollAxis { bits: self.bits & !flags.bits }
        }
    }

    #[verifier::when_used_as_spec(spec_empty)]
    pub fn empty() -> (s: ScrollAxis)
        ensures
            s == ScrollAxis::spec_empty(),
    {
        ScrollAxis { bits: 0 }
    }

    #[verifier::when_used_as_spec(spec_from_bits_truncate)]
    pub fn from_bits_truncate(bits: u32) -> (s: ScrollAxis)
        ensures
            s == ScrollAxis::spec_from_bits_truncate(bits),
    {
        ScrollAxis { bits: bits & SCROLL_AXIS_ALL }
    }

    /// The raw bits of the set.
    pub fn bits(&self) -> (b: u32)
        ensures
            b == self.bits,
    {
        self.bits
    }

    pub fn is_empty(&self) -> (b: bool)
        ensures
            b == (self.bits == 0),
    {
        self.bits == 0
    }

    #[verifier::when_used_as_spec(spec_contains)]
    pub fn contains(self, other: ScrollAxis) -> (b: bool)
        ensures
            b == self.spec_contains(other),
    {
        self.bits & other.bits == other.bits
    }

    #[verifier::when_used_as_spec(spec_toggled)]
    pub fn toggled(self, flags: ScrollAxis, toggle: bool) -> (s: ScrollAxis)
        ensures
            s == self.spec_toggled(flags, toggle),
    {
        if toggle {
            ScrollAxis { bits: self.bits | flags.bits }
        } else {
            ScrollAxis { bits: self.bits & !flags.bits }
        }
    }

    /// Setting flags that were all clear and then clearing them again gives
    /// back the set one started with.
    pub proof fn toggle_on_then_off_restores(self, flags: ScrollAxis)
        requires
            self.bits & flags.bits == 0,
        ensures
            self.spec_toggled(flags, true).spec_toggled(flags, false) == self,
    {
        let b = self.bits;
        let f = flags.bits;
        assert(b & f == 0 ==> (b | f) & !f == b) by (bit_vector);
    }

    /// Setting or clearing flags leaves every bit outside them as it was, and
    /// gives the flags themselves the value asked for.
    pub proof fn toggle_touches_only_flags(self, flags: ScrollAxis, toggle: bool)
        ensures
            self.spec_toggled(flags, toggle).bits & !flags.bits == self.bits & !flags.bits,
            toggle ==> self.spec_toggled(flags, toggle).spec_contains(flags),
            !toggle ==> self.spec_toggled(flags, toggle).bits & flags.bits == 0,
    {
        let b = self.bits;
        let f = flags.bits;
        assert((b | f) & !f == b & !f) by (bit_vector);
        assert((b & !f) & !f == b & !f) by (bit_vector);
        assert((b | f) & f == f) by (bit_vector);
        assert((b & !f) & f == 0) by (bit_vector);
    }
}

impl Default for ViewType {
    /// The empty set.
    fn default() -> (s: ViewType)
        ensures
            s == ViewType::spec_empty(),
    {
        ViewType { bits: 0 }
    }
}

impl Default for ViewState {
    /// The empty set.
    fn default() -> (s: ViewState)
        ensures
            s == ViewState::spec_empty(),
    {
        ViewState { bits: 0 }
    }
}

impl Default for ResizeEdge {
    /// The empty set.
    fn default() -> (s: ResizeEdge)
        ensures
            s == ResizeEdge::spec_empty(),
    {
        ResizeEdge { bits: 0 }
    }
}

impl Default for KeyMod {
    /// The empty set.
    fn default() -> (s: KeyMod)
        ensures
            s == KeyMod::spec_empty(),
    {
        KeyMod { bits: 0 }
    }
}

impl Default for KeyboardLed {
    /// The empty set.
    fn default() -> (s: KeyboardLed)
        ensures
            s == KeyboardLed::spec_empty(),
    {
        KeyboardLed { bits: 0 }
    }
}

impl Default for ScrollAxis {
    /// The empty set.
    fn default() -> (s: ScrollAxis)
        ensures
            s == ScrollAxis::spec_empty(),
    {
        ScrollAxis { bits: 0 }
    }
}

} // verus!
