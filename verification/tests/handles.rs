use rustwlc::engine::Compositor;
use rustwlc::flags::{ResizeEdge, ViewState, ViewType};
use rustwlc::handle::{WlcOutput, WlcView};
use rustwlc::order::{output_precedes, view_precedes};
use rustwlc::types::{BackendType, Geometry, Point, Size};

#[test]
fn dummy_views() {
    let mut engine = Compositor::new(BackendType::Unknown);
    let dummy = WlcView::dummy(1);
    assert!(!dummy.is_root(), "Dummy(1) is root");
    assert!(dummy.is_window(), "Dummy(1) is root");
    let _title = dummy.get_title(&engine);
    let _class = dummy.get_class(&engine);
    let _app_id = dummy.get_app_id(&engine);
    dummy.close(&mut engine);
    let output = dummy.get_output(&engine);
    assert!(output == WlcOutput::dummy(0));
    dummy.set_output(&mut engine, output);
    let mask = dummy.get_mask(&engine);
    dummy.set_mask(&mut engine, mask);
    let _geometry = dummy.get_geometry(&engine);
    dummy.set_geometry(
        &mut engine,
        ResizeEdge::empty(),
        Geometry { origin: Point { x: 0, y: 0 }, size: Size { w: 0, h: 0 } },
    );
    let view_type = dummy.get_type(&engine);
    assert!(view_type.is_empty(), "Dummy had a view type");
    dummy.set_type(&mut engine, ViewType::empty(), true);
    let view_state = dummy.get_state(&engine);
    assert!(view_state.is_empty(), "Dummu had a view state");
    dummy.set_state(&mut engine, view_state, true);
    let parent = dummy.get_parent(&engine);
    assert!(parent.is_root(), "Dummy had real parent");
    dummy.set_parent(&mut engine, parent);
}

#[test]
fn dummy_outputs() {
    let mut engine = Compositor::new(BackendType::Unknown);
    let dummy = WlcOutput::dummy(1);
    dummy.schedule_render(&mut engine);
    let _name = dummy.get_name(&engine);
    let sleep = dummy.get_sleep(&engine);
    dummy.set_sleep(&mut engine, sleep);
    let _resolution = dummy.get_resolution(&engine);
    let mut views = dummy.get_views(&engine);
    dummy.set_views(&mut engine, &mut views).unwrap_err();
    let mask = dummy.get_mask(&engine);
    dummy.set_mask(&mut engine, mask);
    WlcOutput::focus(&mut engine, Some(dummy));
}

#[test]
fn root_is_root_and_no_window() {
    assert!(WlcView::root().is_root());
    assert!(!WlcView::root().is_window());
    assert!(WlcView::root() == WlcView::dummy(0));
    for code in [1u32, 2, 77, u32::MAX] {
        assert!(!WlcView::dummy(code).is_root());
        assert!(WlcView::dummy(code).is_window());
    }
}

#[test]
fn conversion_round_trips() {
    for code in [0u32, 1, 5, 4096, u32::MAX] {
        let view = WlcView::dummy(code);
        let output = WlcOutput::dummy(code);
        assert_eq!(view.as_output().as_view(), view);
        assert_eq!(output.as_view().as_output(), output);
        assert_eq!(view.as_output(), output);
        assert_eq!(view.as_output(), WlcOutput::dummy(code));
        assert_eq!(output.as_view(), WlcView::dummy(code));
        assert_eq!(WlcView::from(WlcOutput::from(view)), view);
        assert_eq!(WlcOutput::from(WlcView::from(output)), output);
    }
}

#[test]
fn handles_order_as_their_numbers() {
    let view = WlcView::dummy(0u32);
    let view2 = WlcView::dummy(1u32);
    assert!(view < view2);
    assert!(view != view2);
    assert!(!(view2 < view));
    assert!(view2 > view);
    assert!(view <= view);
    assert!(view_precedes(view, view2));
    assert!(!view_precedes(view2, view));
    assert!(!view_precedes(view, view));
    let output = WlcOutput::dummy(0u32);
    let output2 = WlcOutput::dummy(1u32);
    assert!(output < output2);
    assert!(output != output2);
    assert!(output_precedes(output, output2));
    assert!(!output_precedes(output2, output));
    assert_eq!(view.partial_cmp(&view2), Some(std::cmp::Ordering::Less));
    assert_eq!(view2.partial_cmp(&view), Some(std::cmp::Ordering::Greater));
    assert_eq!(view.partial_cmp(&view), Some(std::cmp::Ordering::Equal));
    assert_eq!(view.cmp(&view2), std::cmp::Ordering::Less);
    assert_eq!(output2.cmp(&output), std::cmp::Ordering::Greater);
    let mut sorted = vec![WlcView::dummy(3), WlcView::dummy(1), WlcView::dummy(2)];
    sorted.sort();
    assert_eq!(sorted, vec![WlcView::dummy(1), WlcView::dummy(2), WlcView::dummy(3)]);
}

#[test]
fn flag_sets_toggle_single_bits() {
    let state = ViewState::from_bits_truncate(rustwlc::flags::VIEW_MAXIMIZED);
    let moving = ViewState::from_bits_truncate(rustwlc::flags::VIEW_MOVING);
    let on = state.toggled(moving, true);
    assert_eq!(on.bits(), 9);
    assert!(on.contains(moving));
    assert!(on.contains(state));
    let off = on.toggled(moving, false);
    assert_eq!(off, state);
    assert_eq!(state.toggled(state, false), ViewState::empty());
    assert!(ViewState::empty().is_empty());
    assert_eq!(ViewState::default(), ViewState::empty());
    assert_eq!(ViewType::default().bits(), 0);
    assert_eq!(ResizeEdge::default(), ResizeEdge::from_bits_truncate(rustwlc::flags::EDGE_NONE));
    assert_eq!(ViewState::from_bits_truncate(0xffff_ffff).bits(), 31);
    assert_eq!(ViewType::from_bits_truncate(32).bits(), 0);
    assert_eq!(ResizeEdge::from_bits_truncate(rustwlc::flags::EDGE_TOPLEFT).bits(), 5);
    assert!(
        ResizeEdge::from_bits_truncate(rustwlc::flags::EDGE_TOPLEFT)
            .contains(ResizeEdge::from_bits_truncate(rustwlc::flags::EDGE_TOP))
    );
}
