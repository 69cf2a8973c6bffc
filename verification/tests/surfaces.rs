use rustwlc::engine::Compositor;
use rustwlc::flags::{ResizeEdge, ViewState, ViewType, EDGE_BOTTOMRIGHT, VIEW_ACTIVATED, VIEW_BIT_MODAL, VIEW_FULLSCREEN, VIEW_MAXIMIZED};
use rustwlc::handle::{WlcOutput, WlcView};
use rustwlc::types::{BackendType, Geometry, Point, Size};

fn two_outputs() -> Compositor {
    let mut engine = Compositor::new(BackendType::X11);
    assert!(engine.add_output(WlcOutput::dummy(1), "WLC-1".to_string(), Size { w: 800, h: 600 }));
    assert!(engine.add_output(WlcOutput::dummy(2), "WLC-2".to_string(), Size { w: 1920, h: 1080 }));
    for id in [10u32, 11, 12] {
        assert!(engine.add_view(
            WlcView::dummy(id),
            WlcOutput::dummy(1),
            format!("title {}", id),
            "class".to_string(),
            "app".to_string(),
        ));
    }
    assert!(engine.add_view(
        WlcView::dummy(20),
        WlcOutput::dummy(2),
        "other".to_string(),
        String::new(),
        String::new(),
    ));
    engine
}

fn handles(ids: &[u32]) -> Vec<WlcView> {
    ids.iter().map(|id| WlcView::dummy(*id)).collect()
}

#[test]
fn engine_refuses_bad_handles() {
    let mut engine = two_outputs();
    assert!(!engine.add_output(WlcOutput::dummy(0), String::new(), Size { w: 1, h: 1 }));
    assert!(!engine.add_output(WlcOutput::dummy(1), String::new(), Size { w: 1, h: 1 }));
    assert!(!engine.add_view(WlcView::root(), WlcOutput::dummy(1), String::new(), String::new(), String::new()));
    assert!(!engine.add_view(WlcView::dummy(10), WlcOutput::dummy(2), String::new(), String::new(), String::new()));
    assert!(!engine.add_view(WlcView::dummy(30), WlcOutput::dummy(9), String::new(), String::new(), String::new()));
    assert!(!engine.has_view(WlcView::dummy(30)));
    assert_eq!(WlcOutput::dummy(1).get_views(&engine), handles(&[10, 11, 12]));
    assert_eq!(WlcOutput::dummy(2).get_views(&engine), handles(&[20]));
}

#[test]
fn getters_answer_for_live_surfaces() {
    let engine = two_outputs();
    let view = WlcView::dummy(11);
    assert_eq!(view.get_title(&engine), "title 11");
    assert_eq!(view.get_class(&engine), "class");
    assert_eq!(view.get_app_id(&engine), "app");
    assert_eq!(view.get_output(&engine), WlcOutput::dummy(1));
    assert_eq!(WlcView::dummy(20).get_output(&engine), WlcOutput::dummy(2));
    assert_eq!(view.get_parent(&engine), WlcView::root());
    assert_eq!(view.get_geometry(&engine), Some(Geometry::zero()));
    assert_eq!(view.get_mask(&engine), 0);
}

#[test]
fn getters_default_for_unknown_surfaces() {
    let engine = two_outputs();
    let ghost = WlcView::dummy(99);
    assert_eq!(ghost.get_title(&engine), "");
    assert_eq!(ghost.get_class(&engine), "");
    assert_eq!(ghost.get_app_id(&engine), "");
    assert_eq!(ghost.get_output(&engine), WlcOutput::dummy(0));
    assert_eq!(ghost.get_parent(&engine), WlcView::root());
    assert_eq!(
        ghost.get_geometry(&engine),
        Some(Geometry { origin: Point { x: 0, y: 0 }, size: Size { w: 0, h: 0 } })
    );
    assert_eq!(ghost.get_visible_geometry(&engine), Geometry::zero());
    assert!(ghost.get_type(&engine).is_empty());
    assert!(ghost.get_state(&engine).is_empty());
    assert_eq!(ghost.get_mask(&engine), 0);
    assert_eq!(ghost.get_user_data(&engine), 0);
}

#[test]
fn setters_on_unknown_surfaces_change_nothing() {
    let mut engine = two_outputs();
    let ghost = WlcView::dummy(99);
    ghost.set_mask(&mut engine, 7);
    ghost.set_state(&mut engine, ViewState::from_bits_truncate(VIEW_MAXIMIZED), true);
    ghost.set_output(&mut engine, WlcOutput::dummy(2));
    ghost.bring_to_front(&mut engine);
    ghost.send_to_back(&mut engine);
    ghost.focus(&mut engine);
    ghost.set_user_data(&mut engine, 5);
    assert_eq!(ghost.get_mask(&engine), 0);
    assert_eq!(ghost.get_user_data(&engine), 0);
    assert!(ghost.get_state(&engine).is_empty());
    assert_eq!(engine.focused_view(), WlcView::root());
    assert_eq!(WlcOutput::dummy(1).get_views(&engine), handles(&[10, 11, 12]));
    assert_eq!(WlcOutput::dummy(2).get_views(&engine), handles(&[20]));
}

#[test]
fn closing_the_root_changes_nothing() {
    let mut engine = two_outputs();
    WlcView::root().close(&mut engine);
    for id in [10u32, 11, 12, 20] {
        assert!(!engine.close_requested(WlcView::dummy(id)));
        assert!(engine.has_view(WlcView::dummy(id)));
    }
    assert!(!engine.close_requested(WlcView::root()));
    assert_eq!(WlcOutput::dummy(1).get_views(&engine), handles(&[10, 11, 12]));
    WlcView::dummy(11).close(&mut engine);
    assert!(engine.close_requested(WlcView::dummy(11)));
    assert!(!engine.close_requested(WlcView::dummy(10)));
}

#[test]
fn state_flag_on_then_off_restores() {
    let mut engine = two_outputs();
    let view = WlcView::dummy(10);
    let maximized = ViewState::from_bits_truncate(VIEW_MAXIMIZED);
    let fullscreen = ViewState::from_bits_truncate(VIEW_FULLSCREEN);
    let activated = ViewState::from_bits_truncate(VIEW_ACTIVATED);
    view.set_state(&mut engine, maximized, true);
    view.set_state(&mut engine, activated, true);
    let before = view.get_state(&engine);
    assert_eq!(before.bits(), 17);
    view.set_state(&mut engine, fullscreen, true);
    assert_eq!(view.get_state(&engine).bits(), 19);
    view.set_state(&mut engine, fullscreen, false);
    assert_eq!(view.get_state(&engine), before);
    assert!(WlcView::dummy(11).get_state(&engine).is_empty());
    view.set_type(&mut engine, ViewType::from_bits_truncate(VIEW_BIT_MODAL), true);
    assert_eq!(view.get_type(&engine).bits(), 8);
    view.set_type(&mut engine, ViewType::from_bits_truncate(VIEW_BIT_MODAL), false);
    assert!(view.get_type(&engine).is_empty());
    assert_eq!(view.get_state(&engine), before);
}

#[test]
fn geometry_mask_and_payload_are_stored() {
    let mut engine = two_outputs();
    let view = WlcView::dummy(12);
    let geometry = Geometry { origin: Point { x: -30, y: 12 }, size: Size { w: 640, h: 480 } };
    view.set_geometry(&mut engine, ResizeEdge::from_bits_truncate(EDGE_BOTTOMRIGHT), geometry);
    assert_eq!(view.get_geometry(&engine), Some(geometry));
    assert_eq!(engine.resize_edges(view).bits(), 10);
    assert!(engine.resize_edges(WlcView::dummy(11)).is_empty());
    assert_eq!(view.get_visible_geometry(&engine), Geometry::zero());
    let visible = Geometry { origin: Point { x: 0, y: 12 }, size: Size { w: 610, h: 480 } };
    engine.clip_view(view, visible);
    assert_eq!(view.get_visible_geometry(&engine), visible);
    assert_eq!(view.get_geometry(&engine), Some(geometry));
    view.set_mask(&mut engine, 0xdead_beef);
    assert_eq!(view.get_mask(&engine), 0xdead_beef);
    view.set_user_data(&mut engine, 4711);
    assert_eq!(view.get_user_data(&engine), 4711);
    assert_eq!(WlcView::dummy(11).get_user_data(&engine), 0);
    assert_eq!(WlcView::dummy(11).get_geometry(&engine), Some(Geometry::zero()));
}

#[test]
fn parents_are_set_and_turned_down() {
    let mut engine = two_outputs();
    let child = WlcView::dummy(11);
    child.set_parent(&mut engine, WlcView::dummy(10));
    assert_eq!(child.get_parent(&engine), WlcView::dummy(10));
    child.set_parent(&mut engine, WlcView::dummy(99));
    assert_eq!(child.get_parent(&engine), WlcView::dummy(10));
    child.set_parent(&mut engine, child);
    assert_eq!(child.get_parent(&engine), WlcView::dummy(10));
    child.set_parent(&mut engine, WlcView::root());
    assert_eq!(child.get_parent(&engine), WlcView::root());
    assert!(child.get_parent(&engine).is_root());
}

#[test]
fn no_surface_becomes_its_own_ancestor() {
    let mut engine = two_outputs();
    let a = WlcView::dummy(10);
    let b = WlcView::dummy(11);
    let c = WlcView::dummy(12);
    b.set_parent(&mut engine, a);
    c.set_parent(&mut engine, b);
    assert!(engine.leads_to(c, a));
    assert!(engine.leads_to(a, a));
    assert!(!engine.leads_to(a, c));
    assert!(!engine.leads_to(WlcView::root(), a));
    a.set_parent(&mut engine, c);
    assert_eq!(a.get_parent(&engine), WlcView::root());
    a.set_parent(&mut engine, b);
    assert_eq!(a.get_parent(&engine), WlcView::root());
    a.set_parent(&mut engine, WlcView::dummy(20));
    assert_eq!(a.get_parent(&engine), WlcView::dummy(20));
    c.set_parent(&mut engine, a);
    assert_eq!(c.get_parent(&engine), a);
    assert_eq!(b.get_parent(&engine), a);
}

#[test]
fn focus_moves_and_clears() {
    let mut engine = two_outputs();
    assert_eq!(engine.focused_view(), WlcView::root());
    WlcView::dummy(12).focus(&mut engine);
    assert_eq!(engine.focused_view(), WlcView::dummy(12));
    WlcView::dummy(99).focus(&mut engine);
    assert_eq!(engine.focused_view(), WlcView::dummy(12));
    WlcView::root().focus(&mut engine);
    assert_eq!(engine.focused_view(), WlcView::root());
}

#[test]
fn stacking_moves_one_surface() {
    let mut engine = two_outputs();
    let out = WlcOutput::dummy(1);
    WlcView::dummy(12).bring_to_front(&mut engine);
    assert_eq!(out.get_views(&engine), handles(&[12, 10, 11]));
    WlcView::dummy(12).send_to_back(&mut engine);
    assert_eq!(out.get_views(&engine), handles(&[10, 11, 12]));
    WlcView::dummy(10).send_below(&mut engine, WlcView::dummy(11));
    assert_eq!(out.get_views(&engine), handles(&[11, 10, 12]));
    WlcView::dummy(12).bring_above(&mut engine, WlcView::dummy(11));
    assert_eq!(out.get_views(&engine), handles(&[12, 11, 10]));
    WlcView::dummy(12).send_below(&mut engine, WlcView::dummy(10));
    assert_eq!(out.get_views(&engine), handles(&[11, 10, 12]));
    WlcView::dummy(10).bring_above(&mut engine, WlcView::dummy(12));
    assert_eq!(out.get_views(&engine), handles(&[11, 10, 12]));
    WlcView::dummy(11).bring_above(&mut engine, WlcView::dummy(12));
    assert_eq!(out.get_views(&engine), handles(&[10, 11, 12]));
    WlcView::dummy(10).bring_above(&mut engine, WlcView::dummy(20));
    WlcView::dummy(10).send_below(&mut engine, WlcView::dummy(10));
    WlcView::dummy(10).send_below(&mut engine, WlcView::dummy(99));
    assert_eq!(out.get_views(&engine), handles(&[10, 11, 12]));
    assert_eq!(WlcOutput::dummy(2).get_views(&engine), handles(&[20]));
    WlcView::dummy(10).bring_to_front(&mut engine);
    assert_eq!(out.get_views(&engine), handles(&[10, 11, 12]));
    WlcView::dummy(20).send_to_back(&mut engine);
    assert_eq!(WlcOutput::dummy(2).get_views(&engine), handles(&[20]));
}

#[test]
fn moving_to_another_output_leaves_the_old_stack() {
    let mut engine = two_outputs();
    WlcView::dummy(11).set_output(&mut engine, WlcOutput::dummy(2));
    assert_eq!(WlcOutput::dummy(1).get_views(&engine), handles(&[10, 12]));
    assert_eq!(WlcOutput::dummy(2).get_views(&engine), handles(&[20, 11]));
    assert_eq!(WlcView::dummy(11).get_output(&engine), WlcOutput::dummy(2));
    WlcView::dummy(11).set_output(&mut engine, WlcOutput::dummy(2));
    assert_eq!(WlcOutput::dummy(2).get_views(&engine), handles(&[20, 11]));
    WlcView::dummy(11).set_output(&mut engine, WlcOutput::dummy(7));
    assert_eq!(WlcView::dummy(11).get_output(&engine), WlcOutput::dummy(2));
    assert_eq!(WlcOutput::dummy(1).get_views(&engine), handles(&[10, 12]));
}

#[test]
fn destroyed_surfaces_are_gone() {
    let mut engine = two_outputs();
    WlcView::dummy(11).set_parent(&mut engine, WlcView::dummy(10));
    WlcView::dummy(12).set_parent(&mut engine, WlcView::dummy(11));
    WlcView::dummy(10).focus(&mut engine);
    assert!(engine.remove_view(WlcView::dummy(10)));
    assert!(!engine.remove_view(WlcView::dummy(10)));
    assert!(!engine.has_view(WlcView::dummy(10)));
    assert_eq!(WlcOutput::dummy(1).get_views(&engine), handles(&[11, 12]));
    assert_eq!(WlcView::dummy(11).get_parent(&engine), WlcView::root());
    assert_eq!(WlcView::dummy(12).get_parent(&engine), WlcView::dummy(11));
    assert_eq!(engine.focused_view(), WlcView::root());
    assert_eq!(WlcView::dummy(10).get_title(&engine), "");
    assert_eq!(WlcView::dummy(10).get_output(&engine), WlcOutput::dummy(0));
}
