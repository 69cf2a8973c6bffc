use rustwlc::callback::{
    compositor_ready, compositor_terminate, keyboard_key, output_created, pointer_motion, touch,
    view_created, view_destroyed, view_focus, Callbacks,
};
use rustwlc::engine::Compositor;
use rustwlc::event::{Amount, Event, EventKind, Outcome, EVENT_KINDS};
use rustwlc::flags::{KeyMod, KeyboardLed, ScrollAxis, MOD_CTRL, SCROLL_AXIS_VERTICAL};
use rustwlc::handle::{WlcOutput, WlcView};
use rustwlc::input::pointer;
use rustwlc::types::{BackendType, KeyState, KeyboardModifiers, Point, Size, TouchType};

type Handler = fn(&mut Compositor, &Event) -> bool;

fn no_modifiers() -> KeyboardModifiers {
    KeyboardModifiers { leds: KeyboardLed::empty(), mods: KeyMod::empty() }
}

fn raise_and_focus(engine: &mut Compositor, event: &Event) -> bool {
    if let Event::ViewCreated { view } = event {
        view.bring_to_front(engine);
        view.focus(engine);
    }
    true
}

fn refuse(_engine: &mut Compositor, _event: &Event) -> bool {
    false
}

fn accept(_engine: &mut Compositor, _event: &Event) -> bool {
    true
}

fn follow_pointer(engine: &mut Compositor, event: &Event) -> bool {
    if let Event::PointerMotion { point, .. } = event {
        pointer::set_position(engine, point);
    }
    false
}

fn deliver(engine: &mut Compositor, callbacks: &Callbacks<Handler>, event: Event) -> Outcome {
    assert!(event.is_well_formed());
    let answer = callbacks.dispatch(&event).map(|handler| handler(engine, &event));
    let outcome = event.kind().outcome(answer);
    engine.settle(event, outcome);
    outcome
}

fn busy_output() -> Compositor {
    let mut engine = Compositor::new(BackendType::X11);
    assert!(engine.add_output(WlcOutput::dummy(1), "WLC-1".to_string(), Size { w: 800, h: 600 }));
    for id in [10u32, 11] {
        assert!(engine.add_view(
            WlcView::dummy(id),
            WlcOutput::dummy(1),
            String::new(),
            String::new(),
            String::new(),
        ));
    }
    engine
}

#[test]
fn created_surface_is_raised_and_focused() {
    let mut engine = busy_output();
    let mut callbacks: Callbacks<Handler> = Callbacks::new();
    view_created(&mut callbacks, raise_and_focus);
    let fresh = WlcView::dummy(12);
    assert!(engine.add_view(fresh, WlcOutput::dummy(1), String::new(), String::new(), String::new()));
    assert_eq!(
        WlcOutput::dummy(1).get_views(&engine),
        vec![WlcView::dummy(10), WlcView::dummy(11), fresh]
    );
    let outcome = deliver(&mut engine, &callbacks, Event::ViewCreated { view: fresh });
    assert_eq!(outcome, Outcome::Proceed);
    let stack = WlcOutput::dummy(1).get_views(&engine);
    assert_eq!(stack[0], fresh);
    assert_eq!(stack, vec![fresh, WlcView::dummy(10), WlcView::dummy(11)]);
    assert_eq!(engine.focused_view(), fresh);
}

#[test]
fn vetoed_surface_is_destroyed() {
    let mut engine = busy_output();
    let mut callbacks: Callbacks<Handler> = Callbacks::new();
    view_created(&mut callbacks, refuse);
    output_created(&mut callbacks, refuse);
    let fresh = WlcView::dummy(12);
    assert!(engine.add_view(fresh, WlcOutput::dummy(1), String::new(), String::new(), String::new()));
    let outcome = deliver(&mut engine, &callbacks, Event::ViewCreated { view: fresh });
    assert_eq!(outcome, Outcome::Vetoed);
    assert!(!engine.has_view(fresh));
    assert_eq!(
        WlcOutput::dummy(1).get_views(&engine),
        vec![WlcView::dummy(10), WlcView::dummy(11)]
    );
    assert!(engine.add_output(WlcOutput::dummy(2), String::new(), Size { w: 1, h: 1 }));
    let outcome = deliver(&mut engine, &callbacks, Event::OutputCreated { output: WlcOutput::dummy(2) });
    assert_eq!(outcome, Outcome::Vetoed);
    assert!(!engine.has_output(WlcOutput::dummy(2)));
    assert!(engine.has_output(WlcOutput::dummy(1)));
}

#[test]
fn second_registration_replaces_the_first() {
    let mut engine = busy_output();
    let mut callbacks: Callbacks<Handler> = Callbacks::new();
    view_created(&mut callbacks, refuse);
    view_created(&mut callbacks, accept);
    let fresh = WlcView::dummy(12);
    assert!(engine.add_view(fresh, WlcOutput::dummy(1), String::new(), String::new(), String::new()));
    let found = callbacks.handler(EventKind::ViewCreated).copied();
    assert!(found == Some(accept as Handler));
    assert!(found != Some(refuse as Handler));
    let outcome = deliver(&mut engine, &callbacks, Event::ViewCreated { view: fresh });
    assert_eq!(outcome, Outcome::Proceed);
    assert!(engine.has_view(fresh));
    assert!(callbacks.handler(EventKind::ViewDestroyed).is_none());
    assert!(callbacks.handler(EventKind::OutputCreated).is_none());
}

#[test]
fn every_kind_has_its_own_slot() {
    let mut callbacks: Callbacks<u32> = Callbacks::new();
    let kinds = [
        EventKind::OutputCreated,
        EventKind::OutputDestroyed,
        EventKind::OutputFocus,
        EventKind::OutputResolution,
        EventKind::OutputContextDestroyed,
        EventKind::OutputContextCreated,
        EventKind::OutputRenderPre,
        EventKind::OutputRenderPost,
        EventKind::ViewCreated,
        EventKind::ViewDestroyed,
        EventKind::ViewFocus,
        EventKind::ViewMoveToOutput,
        EventKind::ViewRequestGeometry,
        EventKind::ViewRequestState,
        EventKind::ViewRequestMove,
        EventKind::ViewRequestResize,
        EventKind::ViewRenderPre,
        EventKind::ViewRenderPost,
        EventKind::KeyboardKey,
        EventKind::PointerButton,
        EventKind::PointerScroll,
        EventKind::PointerMotion,
        EventKind::Touch,
        EventKind::CompositorReady,
        EventKind::CompositorTerminate,
    ];
    assert_eq!(kinds.len(), EVENT_KINDS);
    for (place, kind) in kinds.iter().enumerate() {
        assert_eq!(kind.index(), place);
        assert!(callbacks.handler(*kind).is_none());
    }
    for (place, kind) in kinds.iter().enumerate() {
        callbacks.register(*kind, place as u32);
    }
    for (place, kind) in kinds.iter().enumerate() {
        assert_eq!(callbacks.handler(*kind), Some(&(place as u32)));
    }
    compositor_ready(&mut callbacks, 100);
    compositor_terminate(&mut callbacks, 101);
    view_destroyed(&mut callbacks, 102);
    view_focus(&mut callbacks, 103);
    keyboard_key(&mut callbacks, 104);
    touch(&mut callbacks, 105);
    assert_eq!(callbacks.handler(EventKind::CompositorReady), Some(&100));
    assert_eq!(callbacks.handler(EventKind::CompositorTerminate), Some(&101));
    assert_eq!(callbacks.handler(EventKind::ViewDestroyed), Some(&102));
    assert_eq!(callbacks.handler(EventKind::ViewFocus), Some(&103));
    assert_eq!(callbacks.handler(EventKind::KeyboardKey), Some(&104));
    assert_eq!(callbacks.handler(EventKind::Touch), Some(&105));
    assert_eq!(callbacks.handler(EventKind::ViewCreated), Some(&8));
    assert_eq!(callbacks.dispatch(&Event::CompositorReady), Some(&100));
    assert_eq!(callbacks.dispatch(&Event::ViewCreated { view: WlcView::dummy(1) }), Some(&8));
}

#[test]
fn unhandled_events_are_dropped() {
    let mut engine = busy_output();
    let callbacks: Callbacks<Handler> = Callbacks::new();
    let event = Event::ViewRequestMove { view: WlcView::dummy(10), destination: Point { x: 1, y: 2 } };
    assert!(callbacks.dispatch(&event).is_none());
    assert_eq!(deliver(&mut engine, &callbacks, event), Outcome::Proceed);
    let created = Event::ViewCreated { view: WlcView::dummy(10) };
    assert_eq!(deliver(&mut engine, &callbacks, created), Outcome::Proceed);
    assert!(engine.has_view(WlcView::dummy(10)));
}

#[test]
fn answers_mean_what_their_kind_says() {
    assert_eq!(EventKind::ViewCreated.outcome(Some(false)), Outcome::Vetoed);
    assert_eq!(EventKind::ViewCreated.outcome(Some(true)), Outcome::Proceed);
    assert_eq!(EventKind::OutputCreated.outcome(Some(false)), Outcome::Vetoed);
    assert_eq!(EventKind::OutputCreated.outcome(None), Outcome::Proceed);
    assert_eq!(EventKind::KeyboardKey.outcome(Some(true)), Outcome::Consumed);
    assert_eq!(EventKind::KeyboardKey.outcome(Some(false)), Outcome::Proceed);
    assert_eq!(EventKind::PointerScroll.outcome(Some(true)), Outcome::Consumed);
    assert_eq!(EventKind::Touch.outcome(None), Outcome::Proceed);
    assert_eq!(EventKind::ViewFocus.outcome(Some(true)), Outcome::Proceed);
    assert_eq!(EventKind::ViewFocus.outcome(Some(false)), Outcome::Proceed);
    assert!(EventKind::PointerMotion.is_input());
    assert!(!EventKind::PointerMotion.is_creation());
    assert!(EventKind::OutputCreated.is_creation());
    let key = Event::KeyboardKey {
        view: WlcView::dummy(10),
        time: 5,
        modifiers: KeyboardModifiers { leds: KeyboardLed::empty(), mods: KeyMod::from_bits_truncate(MOD_CTRL) },
        key: 30,
        key_state: KeyState::Pressed,
    };
    assert_eq!(key.kind(), EventKind::KeyboardKey);
    let scroll = Event::PointerScroll {
        view: WlcView::dummy(10),
        time: 5,
        modifiers: no_modifiers(),
        axis: ScrollAxis::from_bits_truncate(SCROLL_AXIS_VERTICAL),
        amount_bits: Amount { first: 1.5f64.to_bits(), second: 0f64.to_bits() },
    };
    assert_eq!(scroll.kind(), EventKind::PointerScroll);
}

#[test]
fn touch_frame_carries_zeroes() {
    let down = Event::touch(
        WlcView::dummy(10),
        1,
        no_modifiers(),
        TouchType::Down,
        3,
        Point { x: 120, y: 45 },
    );
    assert_eq!(
        down,
        Event::Touch {
            view: WlcView::dummy(10),
            time: 1,
            modifiers: no_modifiers(),
            touch: TouchType::Down,
            slot: 3,
            point: Point { x: 120, y: 45 },
        }
    );
    let frame = Event::touch(
        WlcView::dummy(10),
        2,
        no_modifiers(),
        TouchType::Frame,
        3,
        Point { x: 120, y: 45 },
    );
    assert_eq!(
        frame,
        Event::Touch {
            view: WlcView::dummy(10),
            time: 2,
            modifiers: no_modifiers(),
            touch: TouchType::Frame,
            slot: 0,
            point: Point { x: 0, y: 0 },
        }
    );
    assert_eq!(frame.kind(), EventKind::Touch);
    assert!(frame.is_well_formed());
    assert!(down.is_well_formed());
    let stale = Event::Touch {
        view: WlcView::dummy(10),
        time: 2,
        modifiers: no_modifiers(),
        touch: TouchType::Frame,
        slot: 3,
        point: Point { x: 0, y: 0 },
    };
    assert!(!stale.is_well_formed());
    let shifted = Event::Touch {
        view: WlcView::dummy(10),
        time: 2,
        modifiers: no_modifiers(),
        touch: TouchType::Frame,
        slot: 0,
        point: Point { x: 0, y: 4 },
    };
    assert!(!shifted.is_well_formed());
    assert!(Event::CompositorReady.is_well_formed());
}

fn occupy_and_refuse(engine: &mut Compositor, event: &Event) -> bool {
    if let Event::OutputCreated { output } = event {
        WlcView::dummy(10).set_output(engine, *output);
        WlcOutput::focus(engine, Some(*output));
    }
    false
}

#[test]
fn vetoed_output_is_gone_with_its_surfaces() {
    let mut engine = busy_output();
    let mut callbacks: Callbacks<Handler> = Callbacks::new();
    output_created(&mut callbacks, occupy_and_refuse);
    let fresh = WlcOutput::dummy(2);
    assert!(engine.add_output(fresh, String::new(), Size { w: 1, h: 1 }));
    WlcView::dummy(11).set_parent(&mut engine, WlcView::dummy(10));
    WlcView::dummy(10).focus(&mut engine);
    let outcome = deliver(&mut engine, &callbacks, Event::OutputCreated { output: fresh });
    assert_eq!(outcome, Outcome::Vetoed);
    assert!(!engine.has_output(fresh));
    assert_eq!(WlcOutput::list(&engine), vec![WlcOutput::dummy(1)]);
    assert!(WlcOutput::focused(&engine) != fresh);
    assert_eq!(WlcOutput::focused(&engine), WlcOutput::dummy(0));
    assert!(!engine.has_view(WlcView::dummy(10)));
    assert!(engine.has_view(WlcView::dummy(11)));
    assert_eq!(WlcView::dummy(11).get_parent(&engine), WlcView::root());
    assert_eq!(engine.focused_view(), WlcView::root());
    assert_eq!(WlcOutput::dummy(1).get_views(&engine), vec![WlcView::dummy(11)]);
    assert_eq!(fresh.get_views(&engine), vec![]);
}

#[test]
fn accepted_output_stays() {
    let mut engine = busy_output();
    let mut callbacks: Callbacks<Handler> = Callbacks::new();
    output_created(&mut callbacks, accept);
    let fresh = WlcOutput::dummy(2);
    assert!(engine.add_output(fresh, String::new(), Size { w: 1, h: 1 }));
    let outcome = deliver(&mut engine, &callbacks, Event::OutputCreated { output: fresh });
    assert_eq!(outcome, Outcome::Proceed);
    assert_eq!(WlcOutput::list(&engine), vec![WlcOutput::dummy(1), fresh]);
}

#[test]
fn outputs_are_destroyed_with_their_surfaces() {
    let mut engine = busy_output();
    assert!(!engine.destroy_output(WlcOutput::dummy(7)));
    engine.clear_output(WlcOutput::dummy(7));
    assert_eq!(
        WlcOutput::dummy(1).get_views(&engine),
        vec![WlcView::dummy(10), WlcView::dummy(11)]
    );
    engine.clear_output(WlcOutput::dummy(1));
    assert!(engine.has_output(WlcOutput::dummy(1)));
    assert_eq!(WlcOutput::dummy(1).get_views(&engine), vec![]);
    assert!(!engine.has_view(WlcView::dummy(10)));
    assert!(engine.destroy_output(WlcOutput::dummy(1)));
    assert_eq!(WlcOutput::list(&engine), vec![]);
}

#[test]
fn pointer_motion_moves_the_cursor_only_through_the_handler() {
    let mut engine = busy_output();
    let mut callbacks: Callbacks<Handler> = Callbacks::new();
    let event = Event::PointerMotion { view: WlcView::dummy(10), time: 9, point: Point { x: 7, y: -3 } };
    assert_eq!(deliver(&mut engine, &callbacks, event), Outcome::Proceed);
    assert_eq!(pointer::get_position(&engine), Point { x: 0, y: 0 });
    pointer_motion(&mut callbacks, follow_pointer);
    assert_eq!(deliver(&mut engine, &callbacks, event), Outcome::Proceed);
    assert_eq!(pointer::get_position(&engine), Point { x: 7, y: -3 });
    pointer_motion(&mut callbacks, accept);
    assert_eq!(deliver(&mut engine, &callbacks, event), Outcome::Consumed);
}
