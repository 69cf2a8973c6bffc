use rustwlc::engine::Compositor;
use rustwlc::handle::{WlcOutput, WlcView};
use rustwlc::types::{BackendType, RenderState, Size};

fn one_output() -> Compositor {
    let mut engine = Compositor::new(BackendType::DRM);
    assert!(engine.add_output(WlcOutput::dummy(1), "WLC-1".to_string(), Size { w: 800, h: 600 }));
    for id in [10u32, 11, 12] {
        assert!(engine.add_view(
            WlcView::dummy(id),
            WlcOutput::dummy(1),
            String::new(),
            String::new(),
            String::new(),
        ));
    }
    engine
}

fn views(ids: &[u32]) -> Vec<WlcView> {
    ids.iter().map(|id| WlcView::dummy(*id)).collect()
}

#[test]
fn outputs_are_listed_in_order() {
    let mut engine = one_output();
    assert!(engine.add_output(WlcOutput::dummy(5), "WLC-2".to_string(), Size { w: 1, h: 2 }));
    assert_eq!(WlcOutput::list(&engine), vec![WlcOutput::dummy(1), WlcOutput::dummy(5)]);
    assert_eq!(WlcOutput::list(&Compositor::new(BackendType::X11)), vec![]);
    assert!(engine.has_output(WlcOutput::dummy(5)));
    assert!(!engine.has_output(WlcOutput::dummy(6)));
}

#[test]
fn output_getters_and_setters() {
    let mut engine = one_output();
    let out = WlcOutput::dummy(1);
    assert_eq!(out.get_name(&engine), "WLC-1");
    assert_eq!(out.get_resolution(&engine), Some(Size { w: 800, h: 600 }));
    assert_eq!(out.get_scale(&engine), 1);
    assert!(!out.get_sleep(&engine));
    out.set_sleep(&mut engine, true);
    assert!(out.get_sleep(&engine));
    out.set_resolution(&mut engine, Size { w: 1024, h: 768 }, 2);
    assert_eq!(out.get_resolution(&engine), Some(Size { w: 1024, h: 768 }));
    assert_eq!(out.get_scale(&engine), 2);
    assert_eq!(WlcOutput::dummy(9).get_scale(&engine), 0);
    out.set_mask(&mut engine, 3);
    assert_eq!(out.get_mask(&engine), 3);
    out.set_user_data(&mut engine, 99);
    assert_eq!(out.get_user_data(&engine), 99);
    assert_eq!(out.get_mutable_views(&engine), out.get_views(&engine));
    assert_eq!(out.get_views(&engine), views(&[10, 11, 12]));
}

#[test]
fn unknown_outputs_answer_defaults() {
    let mut engine = one_output();
    let ghost = WlcOutput::dummy(9);
    assert_eq!(ghost.get_name(&engine), "");
    assert_eq!(ghost.get_resolution(&engine), Some(Size { w: 0, h: 0 }));
    assert!(!ghost.get_sleep(&engine));
    assert_eq!(ghost.get_mask(&engine), 0);
    assert_eq!(ghost.get_views(&engine), vec![]);
    assert_eq!(ghost.get_user_data(&engine), 0);
    ghost.set_sleep(&mut engine, true);
    ghost.set_mask(&mut engine, 1);
    ghost.set_resolution(&mut engine, Size { w: 5, h: 5 }, 1);
    ghost.set_user_data(&mut engine, 1);
    ghost.schedule_render(&mut engine);
    assert!(!ghost.get_sleep(&engine));
    assert_eq!(ghost.get_mask(&engine), 0);
    assert_eq!(ghost.get_resolution(&engine), Some(Size { w: 0, h: 0 }));
    assert_eq!(engine.render_state(ghost), RenderState::Idle);
    assert_eq!(WlcOutput::list(&engine), vec![WlcOutput::dummy(1)]);
}

#[test]
fn output_focus_is_set_and_cleared() {
    let mut engine = one_output();
    assert_eq!(WlcOutput::focused(&engine), WlcOutput::dummy(0));
    WlcOutput::focus(&mut engine, Some(WlcOutput::dummy(1)));
    assert_eq!(WlcOutput::focused(&engine), WlcOutput::dummy(1));
    WlcOutput::focus(&mut engine, Some(WlcOutput::dummy(9)));
    assert_eq!(WlcOutput::focused(&engine), WlcOutput::dummy(1));
    WlcOutput::focus(&mut engine, None);
    assert_eq!(WlcOutput::focused(&engine), WlcOutput::dummy(0));
}

#[test]
fn scheduling_twice_renders_once() {
    let mut engine = one_output();
    let out = WlcOutput::dummy(1);
    assert_eq!(engine.render_state(out), RenderState::Idle);
    out.schedule_render(&mut engine);
    assert_eq!(engine.render_state(out), RenderState::Scheduled);
    out.schedule_render(&mut engine);
    assert_eq!(engine.render_state(out), RenderState::Scheduled);
    assert!(engine.frame_started(out));
    assert_eq!(engine.render_state(out), RenderState::Rendering);
    engine.frame_finished(out);
    assert_eq!(engine.render_state(out), RenderState::Idle);
    assert!(!engine.frame_started(out));
    assert_eq!(engine.render_state(out), RenderState::Idle);
}

#[test]
fn scheduling_in_flight_renders_again() {
    let mut engine = one_output();
    let out = WlcOutput::dummy(1);
    out.schedule_render(&mut engine);
    assert!(engine.frame_started(out));
    out.schedule_render(&mut engine);
    out.schedule_render(&mut engine);
    assert_eq!(engine.render_state(out), RenderState::RenderingThenScheduled);
    engine.frame_finished(out);
    assert_eq!(engine.render_state(out), RenderState::Scheduled);
    assert!(engine.frame_started(out));
    engine.frame_finished(out);
    assert_eq!(engine.render_state(out), RenderState::Idle);
    assert_eq!(RenderState::Idle.scheduled(), RenderState::Scheduled);
    assert_eq!(RenderState::Rendering.scheduled(), RenderState::RenderingThenScheduled);
    assert_eq!(RenderState::Idle.finished(), RenderState::Idle);
    assert_eq!(RenderState::Rendering.started(), RenderState::Rendering);
}

#[test]
fn stack_order_is_replaced_by_a_reordering() {
    let mut engine = one_output();
    let out = WlcOutput::dummy(1);
    let mut order = views(&[12, 10, 11]);
    assert_eq!(out.set_views(&mut engine, &mut order), Ok(()));
    assert_eq!(order, views(&[12, 10, 11]));
    assert_eq!(out.get_views(&engine), views(&[12, 10, 11]));
    let mut same = views(&[12, 10, 11]);
    assert_eq!(out.set_views(&mut engine, &mut same), Ok(()));
    assert_eq!(out.get_views(&engine), views(&[12, 10, 11]));
}

#[test]
fn stack_order_mismatch_fails_and_changes_nothing() {
    let mut engine = one_output();
    let out = WlcOutput::dummy(1);
    let reason = "the views are not those of the output";
    for bad in [
        views(&[10, 11]),
        views(&[10, 11, 12, 13]),
        views(&[10, 11, 13]),
        views(&[10, 11, 11]),
        views(&[10, 11, 12, 12]),
        views(&[]),
        views(&[0, 10, 11, 12]),
    ] {
        let mut list = bad.clone();
        assert_eq!(out.set_views(&mut engine, &mut list), Err(reason));
        assert_eq!(list, bad);
        assert_eq!(out.get_views(&engine), views(&[10, 11, 12]));
    }
    let mut list = views(&[10, 11, 12]);
    assert_eq!(
        WlcOutput::dummy(4).set_views(&mut engine, &mut list),
        Err("the output does not exist")
    );
    let mut none = views(&[]);
    assert_eq!(
        WlcOutput::dummy(4).set_views(&mut engine, &mut none),
        Err("the output does not exist")
    );
    assert_eq!(out.get_views(&engine), views(&[10, 11, 12]));
}

#[test]
fn outputs_with_surfaces_are_not_destroyed() {
    let mut engine = one_output();
    assert!(engine.add_output(WlcOutput::dummy(2), String::new(), Size { w: 1, h: 1 }));
    WlcOutput::focus(&mut engine, Some(WlcOutput::dummy(2)));
    assert!(!engine.remove_output(WlcOutput::dummy(1)));
    assert!(!engine.remove_output(WlcOutput::dummy(3)));
    assert!(engine.remove_output(WlcOutput::dummy(2)));
    assert_eq!(WlcOutput::list(&engine), vec![WlcOutput::dummy(1)]);
    assert_eq!(WlcOutput::focused(&engine), WlcOutput::dummy(0));
    assert_eq!(WlcOutput::dummy(1).get_views(&engine), views(&[10, 11, 12]));
}
