//! The two handle types. A handle names a surface or an output of the
//! compositor by a number; it owns nothing, and the number cannot be read
//! from outside. Surfaces and outputs share one
//! space of numbers, so a handle of one kind can be turned into one of the
//! other, but only by an explicit call. The number is pointer-sized, as the
//! engine's own handles are.

use libc::uintptr_t;
use vstd::prelude::*;
use vstd::std_specs::convert::{FromSpec, FromSpecImpl};

verus! {

/// A handle to a surface. The number `0` names the root surface: the desktop
/// background, which is no real window.
#[derive(Clone, Copy, Debug, PartialEq, Eq, Structural, Ord, Hash)]
pub struct WlcView(pub(crate) uintptr_t);

/// A handle to an output.
#[derive(Clone, Copy, Debug, PartialEq, Eq, Structural, Ord, Hash)]
pub struct WlcOutput(pub(crate) uintptr_t);

impl From<WlcView> for WlcOutput {
    fn from(view: WlcView) -> (output: WlcOutput) {
        WlcOutput(view.0)
    }
}

impl FromSpecImpl<WlcView> for WlcOutput {
    open spec fn obeys_from_spec() -> bool {
        true
    }

    open spec fn from_spec(view: WlcView) -> WlcOutput {
        view.spec_as_output()
    }
}

impl From<WlcOutput> for WlcView {
    fn from(output: WlcOutput) -> (view: WlcView) {
        WlcView(output.0)
    }
}

impl FromSpecImpl<WlcOutput> for WlcView {
    open spec fn obeys_from_spec() -> bool {
        true
    }

    open spec fn from_spec(output: WlcOutput) -> WlcView {
        output.spec_as_view()
    }
}

impl WlcOutput {
    /// The number that the handle carries.
    pub open(crate) spec fn number(self) -> usize {
        self.0
    }

    /// The surface handle with the same number.
    pub open(crate) spec fn spec_as_view(self) -> WlcView {
        WlcView(self.0)
    }

    /// The output handle with the number `code`.
    pub open(crate) spec fn spec_dummy(code: u32) -> WlcOutput {
        WlcOutput(code as usize)
    }

    /// Turns the handle into a surface handle with the same number. Nothing
    /// says that a surface of that number exists.
    #[verifier::when_used_as_spec(spec_as_view)]
    pub fn as_view(self) -> (view: WlcView)
        ensures
            view == self.spec_as_view(),
    {
        WlcView::from(self)
    }

    /// Makes an output handle from a number, for code that needs a handle
    /// without a compositor behind it.
    #[verifier::when_used_as_spec(spec_dummy)]
    pub fn dummy(code: u32) -> (output: WlcOutput)
        ensures
            output == WlcOutput::spec_dummy(code),
    {
        WlcOutput(code as uintptr_t)
    }
}

impl WlcView {
    /// The number that the handle carries.
    pub open(crate) spec fn number(self) -> usize {
        self.0
    }

    /// The output handle with the same number.
    pub open(crate) spec fn spec_as_output(self) -> WlcOutput {
        WlcOutput(self.0)
    }

    /// The surface handle with the number `code`.
    pub open(crate) spec fn spec_dummy(code: u32) -> WlcView {
        WlcView(code as usize)
    }

    /// The handle of the root surface.
    pub open(crate) spec fn spec_root() -> WlcView {
        WlcView(0)
    }

    pub open(crate) spec fn spec_is_root(&self) -> bool {
        self.0 == 0
    }

    pub open(crate) spec fn spec_is_window(&self) -> bool {
        self.0 != 0
    }

    /// Turns the handle into an output handle with the same number. Nothing
    /// says that an output of that number exists.
    #[verifier::when_used_as_spec(spec_as_output)]
    pub fn as_output(self) -> (output: WlcOutput)
        ensures
            output == self.spec_as_output(),
    {
        WlcOutput::from(self)
    }

    /// Makes a surface handle from a number, for code that needs a handle
    /// without a compositor behind it. `dummy(0)` is the root surface.
    #[verifier::when_used_as_spec(spec_dummy)]
    pub fn dummy(code: u32) -> (view: WlcView)
        ensures
            view == WlcView::spec_dummy(code),
    {
        WlcView(code as uintptr_t)
    }

    /// The handle of the root surface (the desktop background).
    #[verifier::when_used_as_spec(spec_root)]
    pub fn root() -> (view: WlcView)
        ensures
            view == WlcView::spec_root(),
            view.spec_is_root(),
            !view.spec_is_window(),
    {
        WlcView(0)
    }

    /// Whether this is the root surface.
    #[verifier::when_used_as_spec(spec_is_root)]
    pub fn is_root(&self) -> (b: bool)
        ensures
            b == (self.number() == 0),
    {
        self.0 == 0
    }

    /// Whether this is a real window: the opposite of `is_root`.
    #[verifier::when_used_as_spec(spec_is_window)]
    pub fn is_window(&self) -> (b: bool)
        ensures
            b == (self.number() != 0),
    {
        self.0 != 0
    }
}

/// A surface handle is the root exactly when its number is zero, and a real
/// window exactly when it is not the root. The root handle itself is the
/// root and no window.
pub proof fn root_is_the_only_non_window(view: WlcView)
    ensures
        WlcView::spec_root().spec_is_root(),
        !WlcView::spec_root().spec_is_window(),
        view.spec_is_root() <==> view.number() == 0,
        view.spec_is_window() <==> !view.spec_is_root(),
        view.number() != 0 ==> !view.spec_is_root() && view.spec_is_window(),
{
}

/// Turning a surface handle into an output handle and back gives the handle
/// one started with, number for number; so does the other way round.
pub proof fn conversion_round_trips(view: WlcView, output: WlcOutput)
    ensures
        view.spec_as_output().spec_as_view() == view,
        output.spec_as_view().spec_as_output() == output,
        view.spec_as_output().number() == view.number(),
        output.spec_as_view().number() == output.number(),
        <WlcView as FromSpec<WlcOutput>>::from_spec(
            <WlcOutput as FromSpec<WlcView>>::from_spec(view),
        ) == view,
        <WlcOutput as FromSpec<WlcView>>::from_spec(
            <WlcView as FromSpec<WlcOutput>>::from_spec(output),
        ) == output,
{
}

} // verus!
