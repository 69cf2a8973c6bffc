//! The identity, state and event-dispatch layer between a windowing
//! compositor and the code that reacts to its events.
//!
//! Set-up goes in this order: install a log sink, register handlers, call
//! `init`, then run the action that `init` handed out.

use vstd::prelude::*;

pub mod callback;
pub mod engine;
pub mod event;
pub mod flags;
pub mod handle;
pub mod input;
pub mod laws;
pub mod log;
pub mod model;
pub mod order;
pub mod output;
pub mod parents;
pub mod stack;
pub mod types;
pub mod view;

pub use crate::engine::Compositor;
pub use crate::handle::{WlcOutput, WlcView};
pub use crate::log::{log_set_default_handler, log_set_handler, log_set_rust_handler};
pub use crate::model::CompositorView;
pub use crate::types::{BackendType, Phase};

verus! {

/// The action that `init` hands out: running it enters the event loop.
pub struct RunAction {}

impl RunAction {
    /// Enters the event loop: an initialized compositor runs from now on.
    /// The answer says whether it does; in any other phase nothing changes.
    pub fn run(self, engine: &mut Compositor) -> (running: bool)
        requires
            old(engine)@.wf(),
        ensures
            final(engine)@.wf(),
            running == (old(engine)@.phase == Phase::Initialized),
            final(engine)@ == if running {
                CompositorView { phase: Phase::Running, ..old(engine)@ }
            } else {
                old(engine)@
            },
    {
        match engine.phase {
            Phase::Initialized => {
                engine.phase = Phase::Running;
                proof {
                    old(engine)@.lemma_same_records_wf(engine@);
                }
                true
            },
            _ => false,
        }
    }
}

/// The backend that the compositor runs on.
pub fn get_backend_type(engine: &Compositor) -> (backend: BackendType)
    ensures
        backend == engine@.backend,
{
    engine.backend
}

/// Whether `init` succeeds in this state: set-up is still going on, and a
/// backend is there.
pub open spec fn can_init(state: CompositorView) -> bool {
    state.phase == Phase::Bootstrap && state.backend != BackendType::Unknown
}

/// Initializes the compositor. On success the compositor is initialized and
/// the answer is the action that enters the event loop. Without a backend,
/// or in any phase but set-up, nothing changes and the answer is `None`.
pub fn init(engine: &mut Compositor) -> (action: Option<RunAction>)
    requires
        old(engine)@.wf(),
    ensures
        final(engine)@.wf(),
        action is Some <==> can_init(old(engine)@),
        final(engine)@ == if can_init(old(engine)@) {
            CompositorView { phase: Phase::Initialized, ..old(engine)@ }
        } else {
            old(engine)@
        },
{
    let ready = match engine.phase {
        Phase::Bootstrap => match engine.backend {
            BackendType::Unknown => false,
            _ => true,
        },
        _ => false,
    };
    if ready {
        engine.phase = Phase::Initialized;
        proof {
            old(engine)@.lemma_same_records_wf(engine@);
        }
        Some(RunAction {  })
    } else {
        None
    }
}

/// An alias of `init`.
pub fn init2(engine: &mut Compositor) -> (action: Option<RunAction>)
    requires
        old(engine)@.wf(),
    ensures
        final(engine)@.wf(),
        action is Some <==> can_init(old(engine)@),
        final(engine)@ == if can_init(old(engine)@) {
            CompositorView { phase: Phase::Initialized, ..old(engine)@ }
        } else {
            old(engine)@
        },
{
    init(engine)
}

/// Asks the event loop to end. There is no way back: the compositor is
/// terminated from now on, whatever phase it was in.
pub fn terminate(engine: &mut Compositor)
    requires
        old(engine)@.wf(),
    ensures
        final(engine)@.wf(),
        final(engine)@ == (CompositorView { phase: Phase::Terminated, ..old(engine)@ }),
{
    engine.phase = Phase::Terminated;
    proof {
        old(engine)@.lemma_same_records_wf(engine@);
    }
}

} // verus!
