use editor::{generate_nodes, Bounds, CursorStyle, Point, ResizeHandle, RgEditor, RgRect};

fn pt(x: i64, y: i64) -> Point {
    Point { x, y }
}

fn node(id: u64, x: i64, y: i64, w: i64, h: i64) -> RgRect {
    RgRect::new(id, x, y, w, h)
}

fn ids(e: &RgEditor) -> Vec<u64> {
    e.nodes.iter().map(|n| n.id).collect()
}

fn selected_ids(e: &RgEditor) -> Vec<u64> {
    e.nodes.iter().filter(|n| n.selected).map(|n| n.id).collect()
}

#[test]
fn scenario_screen_geometry_and_bottom_right_resize() {
    let mut n = node(1, 0, 0, 100, 50);
    n.zoom = 2000;
    n.pan = (10_000, 10_000);
    assert_eq!(n.screen_position(), (10_000, 10_000));
    assert_eq!(n.screen_size(), (200_000, 100_000));
    let corner = n.get_handle_position(ResizeHandle::BottomRight);
    assert_eq!(corner, (210_000, 110_000));
    n.start_drag(pt(corner.0, corner.1), ResizeHandle::BottomRight);
    assert!(n.is_resizing);
    assert_eq!(n.initial_drag_data, Some((0, 0, 100, 50)));
    let target = n.world_to_screen(80, 60);
    n.update_drag(pt(target.0, target.1));
    assert_eq!((n.x, n.y, n.width, n.height), (0, 0, 80, 60));
    n.end_drag();
    assert!(!n.is_resizing && n.initial_drag_data.is_none());
    assert_eq!(n.resize_handle, ResizeHandle::Outside);
}

#[test]
fn round_trip_world_screen() {
    for &(zoom, pan) in &[(1000, (0, 0)), (100, (-35_000, 7)), (3500, (123_456, -9_999)), (4000, (1, 1))] {
        let mut n = node(0, 0, 0, 10, 10);
        n.zoom = zoom;
        n.pan = pan;
        for &(wx, wy) in &[(0, 0), (-17, 33), (999_999, -1), (-1_000_000, 250)] {
            let (sx, sy) = n.world_to_screen(wx, wy);
            assert_eq!(n.screen_to_world(sx, sy), (wx, wy));
        }
    }
}

#[test]
fn screen_to_world_rounds_down() {
    let mut n = node(0, 0, 0, 10, 10);
    n.zoom = 2000;
    assert_eq!(n.screen_to_world(3999, -1), (1, -1));
}

#[test]
fn top_left_corner_wins_over_edges_and_body() {
    let mut n = node(0, 10, 20, 100, 50);
    n.selected = true;
    let (sx, sy) = n.screen_position();
    assert_eq!(n.detect_handle_at(pt(sx, sy)), ResizeHandle::TopLeft);
    n.zoom = 2500;
    n.pan = (-400, 900);
    let (sx, sy) = n.screen_position();
    assert_eq!(n.detect_handle_at(pt(sx, sy)), ResizeHandle::TopLeft);
}

#[test]
fn hit_regions_of_a_single_selection() {
    let mut n = node(0, 0, 0, 100, 50);
    n.selected = true;
    assert_eq!(n.detect_handle_at(pt(50_000, 0)), ResizeHandle::Top);
    assert_eq!(n.detect_handle_at(pt(100_000, 25_000)), ResizeHandle::Right);
    assert_eq!(n.detect_handle_at(pt(100_000, 50_000)), ResizeHandle::BottomRight);
    assert_eq!(n.detect_handle_at(pt(0, 50_000)), ResizeHandle::BottomLeft);
    assert_eq!(n.detect_handle_at(pt(50_000, 25_000)), ResizeHandle::Body);
    // in the left band, away from any grip
    assert_eq!(n.detect_handle_at(pt(7_000, 15_000)), ResizeHandle::Left);
    // in the bottom band
    assert_eq!(n.detect_handle_at(pt(30_000, 57_000)), ResizeHandle::Bottom);
    // diagonally outside the corner, past the grip but within the band
    assert_eq!(n.detect_handle_at(pt(-7_000, -7_000)), ResizeHandle::Left);
    assert_eq!(n.detect_handle_at(pt(-9_000, 25_000)), ResizeHandle::Outside);
    assert_eq!(n.detect_handle_at(pt(500_000, 25_000)), ResizeHandle::Outside);
}

#[test]
fn unselected_or_hidden_handles_give_body_only() {
    let mut n = node(0, 0, 0, 100, 50);
    assert_eq!(n.detect_handle_at(pt(0, 0)), ResizeHandle::Body);
    assert_eq!(n.detect_handle_at(pt(-1, 0)), ResizeHandle::Outside);
    n.selected = true;
    n.set_show_handles(false);
    assert_eq!(n.detect_handle_at(pt(0, 0)), ResizeHandle::Body);
    assert_eq!(n.detect_handle_at(pt(-3_000, 0)), ResizeHandle::Outside);
}

#[test]
fn grip_size_grows_with_zoom_above_one() {
    let mut n = node(0, 0, 0, 100, 100);
    n.selected = true;
    n.zoom = 2000;
    // half grip is 12 pixels at zoom two
    assert_eq!(n.detect_handle_at(pt(12_000, 12_000)), ResizeHandle::TopLeft);
    assert_eq!(n.detect_handle_at(pt(13_000, 13_000)), ResizeHandle::Left);
    assert_eq!(n.detect_handle_at(pt(30_000, 100_000)), ResizeHandle::Body);
    n.zoom = 500;
    // below one the grip keeps its size of 6 pixels each way
    assert_eq!(n.detect_handle_at(pt(6_000, 6_000)), ResizeHandle::TopLeft);
}

#[test]
fn update_mouse_position_records_and_classifies() {
    let mut n = node(0, 0, 0, 100, 50);
    assert_eq!(n.update_mouse_position(pt(5_000, 5_000)), ResizeHandle::Body);
    assert_eq!(n.current_mouse_position, Some(pt(5_000, 5_000)));
}

#[test]
fn cursor_for_each_region() {
    assert_eq!(RgRect::get_cursor_for_handle(ResizeHandle::TopLeft), CursorStyle::ResizeUpLeftDownRight);
    assert_eq!(RgRect::get_cursor_for_handle(ResizeHandle::BottomRight), CursorStyle::ResizeUpLeftDownRight);
    assert_eq!(RgRect::get_cursor_for_handle(ResizeHandle::TopRight), CursorStyle::ResizeUpRightDownLeft);
    assert_eq!(RgRect::get_cursor_for_handle(ResizeHandle::BottomLeft), CursorStyle::ResizeUpRightDownLeft);
    assert_eq!(RgRect::get_cursor_for_handle(ResizeHandle::Top), CursorStyle::ResizeUpDown);
    assert_eq!(RgRect::get_cursor_for_handle(ResizeHandle::Bottom), CursorStyle::ResizeUpDown);
    assert_eq!(RgRect::get_cursor_for_handle(ResizeHandle::Left), CursorStyle::ResizeLeftRight);
    assert_eq!(RgRect::get_cursor_for_handle(ResizeHandle::Right), CursorStyle::ResizeLeftRight);
    assert_eq!(RgRect::get_cursor_for_handle(ResizeHandle::Body), CursorStyle::PointingHand);
    assert_eq!(RgRect::get_cursor_for_handle(ResizeHandle::Outside), CursorStyle::Arrow);
}

#[test]
fn resize_below_floor_is_rejected_per_axis() {
    let mut n = node(0, 100, 100, 50, 40);
    n.start_drag(pt(100_000, 100_000), ResizeHandle::TopLeft);
    // width would be 5 (rejected), height would be 60 (applied)
    n.update_drag(pt(145_000, 80_000));
    assert_eq!((n.x, n.width, n.y, n.height), (100, 50, 80, 60));
    // exactly 10 is still rejected
    n.update_drag(pt(140_000, 80_000));
    assert_eq!((n.x, n.width), (100, 50));
    // a later, less extreme pointer succeeds
    n.update_drag(pt(130_000, 120_000));
    assert_eq!((n.x, n.width, n.y, n.height), (130, 20, 120, 20));
}

#[test]
fn every_grip_follows_its_table_row() {
    let cases = [
        (ResizeHandle::TopLeft, (30, 40, 70, 60)),
        (ResizeHandle::Top, (0, 40, 100, 60)),
        (ResizeHandle::TopRight, (0, 40, 30, 60)),
        (ResizeHandle::Right, (0, 0, 30, 100)),
        (ResizeHandle::BottomRight, (0, 0, 30, 40)),
        (ResizeHandle::Bottom, (0, 0, 100, 40)),
        (ResizeHandle::BottomLeft, (30, 0, 70, 40)),
        (ResizeHandle::Left, (30, 0, 70, 100)),
    ];
    for (h, expected) in cases {
        let mut n = node(0, 0, 0, 100, 100);
        n.start_drag(pt(0, 0), h);
        n.update_drag(pt(30_000, 40_000));
        assert_eq!((n.x, n.y, n.width, n.height), expected, "{:?}", h);
    }
}

#[test]
fn move_session_translates() {
    let mut n = node(0, 10, 20, 30, 30);
    n.start_drag(pt(15_000, 25_000), ResizeHandle::Body);
    assert_eq!(n.drag_offset, Some((5, 5)));
    n.update_drag(pt(115_000, -75_000));
    assert_eq!((n.x, n.y, n.width, n.height), (110, -80, 30, 30));
    n.end_drag();
    n.update_drag(pt(0, 0));
    assert_eq!((n.x, n.y), (110, -80));
}

#[test]
fn start_drag_outside_opens_nothing() {
    let mut n = node(0, 0, 0, 30, 30);
    n.start_drag(pt(0, 0), ResizeHandle::Outside);
    assert!(!n.is_dragging && !n.is_resizing);
}

fn stacked() -> RgEditor {
    RgEditor::new(vec![node(10, 0, 0, 100, 100), node(11, 0, 0, 100, 100), node(12, 0, 0, 100, 100)])
}

#[test]
fn shift_click_cycles_through_overlapping_nodes() {
    let mut e = stacked();
    let p = pt(50_000, 50_000);
    let mut chosen = Vec::new();
    for _ in 0..4 {
        let i = e.smart_select_nodes(p).unwrap();
        chosen.push(e.nodes[i].id);
        e.on_mouse_left_down(p, true);
        e.on_mouse_left_up();
    }
    assert_eq!(chosen, vec![12, 11, 10, 12]);
}

#[test]
fn shift_click_toggles_and_hides_handles_on_multi_selection() {
    let mut e = stacked();
    let p = pt(50_000, 50_000);
    e.on_mouse_left_down(p, true);
    assert_eq!(selected_ids(&e), vec![12]);
    assert!(e.nodes[2].show_handles);
    e.on_mouse_left_up();
    e.on_mouse_left_down(p, true);
    assert_eq!(selected_ids(&e), vec![11, 12]);
    assert!(e.nodes.iter().filter(|n| n.selected).all(|n| !n.show_handles));
}

#[test]
fn hits_are_listed_topmost_first() {
    let e = RgEditor::new(vec![node(1, 0, 0, 100, 100), node(2, 500, 500, 10, 10), node(3, 50, 50, 100, 100)]);
    assert_eq!(e.get_nodes_at_position_with_edges(pt(60_000, 60_000)), vec![2, 0]);
    assert_eq!(e.get_nodes_at_position_with_edges(pt(900_000, 0)), Vec::<usize>::new());
}

#[test]
fn marquee_selects_exactly_overlapping_nodes() {
    let mut e = RgEditor::new(vec![
        node(0, 10, 10, 20, 20),
        node(1, 200, 200, 20, 20),
        node(2, 90, 90, 50, 50),
        node(3, 100, 0, 20, 20),
    ]);
    e.on_mouse_left_down(pt(0, 0), false);
    assert!(e.is_selecting);
    assert_eq!(e.selection_rect, Some((pt(0, 0), pt(0, 0))));
    e.on_mouse_move(pt(50_000, 50_000));
    assert_eq!(selected_ids(&e), vec![0]);
    e.on_mouse_move(pt(100_000, 100_000));
    assert_eq!(selected_ids(&e), vec![0, 2]);
    e.on_mouse_move(pt(20_000, 20_000));
    assert_eq!(selected_ids(&e), vec![0]);
    e.on_mouse_move(pt(100_000, 100_000));
    e.on_mouse_left_up();
    assert!(!e.is_selecting && e.selection_rect.is_none());
    assert_eq!(selected_ids(&e), vec![0, 2]);
    assert!(e.nodes.iter().filter(|n| n.selected).all(|n| !n.show_handles));
}

#[test]
fn marquee_dragged_backwards_normalises_corners() {
    let mut e = RgEditor::new(vec![node(0, 10, 10, 20, 20), node(1, 200, 200, 20, 20)]);
    e.on_mouse_left_down(pt(300_000, 300_000), false);
    e.on_mouse_move(pt(205_000, 205_000));
    assert_eq!(selected_ids(&e), vec![1]);
    e.on_mouse_left_up();
    assert!(e.nodes[1].show_handles);
}

#[test]
fn click_promotes_to_top_and_wins_later_hits() {
    let mut e = RgEditor::new(vec![node(1, 0, 0, 100, 100), node(2, 50, 50, 100, 100)]);
    let overlap = pt(75_000, 75_000);
    assert_eq!(e.nodes[e.get_nodes_at_position_with_edges(overlap)[0]].id, 2);
    e.on_mouse_left_down(pt(10_000, 10_000), false);
    e.on_mouse_left_up();
    assert_eq!(ids(&e), vec![2, 1]);
    assert_eq!(selected_ids(&e), vec![1]);
    assert!(e.nodes[1].show_handles);
    assert_eq!(e.nodes[e.get_nodes_at_position_with_edges(overlap)[0]].id, 1);
}

#[test]
fn right_click_clears_selection_and_opens_nothing() {
    let mut e = stacked();
    e.on_mouse_left_down(pt(50_000, 50_000), true);
    e.on_mouse_left_up();
    e.on_mouse_left_down(pt(50_000, 50_000), true);
    e.on_mouse_left_up();
    assert_eq!(selected_ids(&e).len(), 2);
    e.on_mouse_right_down();
    assert!(selected_ids(&e).is_empty());
    assert!(e.drag_state.is_none() && !e.is_selecting);
    assert!(e.nodes.iter().all(|n| !n.is_dragging && !n.is_resizing && n.show_handles));
}

#[test]
fn dragging_a_selection_moves_every_selected_node() {
    let mut e = RgEditor::new(vec![node(1, 0, 0, 100, 100), node(2, 300, 0, 100, 100), node(3, 600, 0, 50, 50)]);
    e.on_mouse_left_down(pt(-50_000, -50_000), false);
    e.on_mouse_move(pt(450_000, 150_000));
    e.on_mouse_left_up();
    assert_eq!(selected_ids(&e), vec![1, 2]);
    e.on_mouse_left_down(pt(50_000, 50_000), false);
    assert_eq!(selected_ids(&e), vec![1, 2]);
    e.on_mouse_move(pt(50_000, 50_000));
    assert_eq!(e.drag_state, Some(ResizeHandle::Body));
    e.on_mouse_move(pt(60_000, 70_000));
    let pos: Vec<(u64, i64, i64)> = e.nodes.iter().map(|n| (n.id, n.x, n.y)).collect();
    assert!(pos.contains(&(1, 10, 20)));
    assert!(pos.contains(&(2, 310, 20)));
    assert!(pos.contains(&(3, 600, 0)));
    e.on_mouse_left_up();
    assert!(e.drag_state.is_none());
    assert!(e.nodes.iter().all(|n| !n.is_dragging && n.drag_offset.is_none()));
    e.on_mouse_move(pt(0, 0));
    assert!(e.nodes.iter().any(|n| (n.id, n.x, n.y) == (1, 10, 20)));
}

#[test]
fn clicking_a_grip_resizes_without_changing_selection() {
    let mut e = RgEditor::new(vec![node(1, 0, 0, 100, 100)]);
    e.on_mouse_left_down(pt(50_000, 50_000), false);
    e.on_mouse_left_up();
    e.on_mouse_left_down(pt(100_000, 100_000), false);
    assert_eq!(e.drag_state, Some(ResizeHandle::BottomRight));
    assert!(e.nodes[0].selected && e.nodes[0].is_resizing);
    e.on_mouse_move(pt(150_000, 120_000));
    assert_eq!((e.nodes[0].width, e.nodes[0].height), (150, 120));
    e.on_mouse_move(pt(5_000, 5_000));
    assert_eq!((e.nodes[0].width, e.nodes[0].height), (150, 120));
    e.on_mouse_left_up();
    assert!(!e.nodes[0].is_resizing);
}

#[test]
fn click_on_empty_space_clears_and_starts_marquee() {
    let mut e = RgEditor::new(vec![node(1, 0, 0, 100, 100)]);
    e.on_mouse_left_down(pt(50_000, 50_000), false);
    e.on_mouse_left_up();
    assert_eq!(selected_ids(&e), vec![1]);
    e.on_mouse_left_down(pt(500_000, 500_000), false);
    assert!(selected_ids(&e).is_empty());
    assert!(e.is_selecting);
}

#[test]
fn pointer_positions_are_taken_relative_to_the_canvas_origin() {
    let mut e = RgEditor::new(vec![node(1, 0, 0, 100, 100)]);
    e.on_bounds_changed(Bounds { origin: pt(20_000, 30_000), width: 2_000_000, height: 2_000_000 });
    let (sx, sy) = e.nodes[0].screen_position();
    e.on_mouse_left_down(pt(sx + 20_000 + 1_000, sy + 30_000 + 1_000), false);
    assert_eq!(e.click_start_position, Some(pt(sx + 1_000, sy + 1_000)));
    assert_eq!(selected_ids(&e), vec![1]);
}

#[test]
fn auto_fit_shrinks_to_the_tighter_axis() {
    let mut e = RgEditor::new(vec![node(1, 0, 0, 100, 100)]);
    e.on_bounds_changed(Bounds { origin: pt(0, 0), width: 400_000, height: 600_000 });
    assert_eq!(e.zoom, 500);
    assert_eq!(e.pan, (0, 150_000));
    assert_eq!(e.base_size, (400_000, 600_000));
    assert!(e.view_initialized);
    assert!(e.nodes.iter().all(|n| n.zoom == 500 && n.pan == (0, 150_000)));
}

#[test]
fn auto_fit_keeps_scale_one_when_content_fits() {
    let mut e = RgEditor::new(vec![]);
    e.on_bounds_changed(Bounds { origin: pt(0, 0), width: 1_600_000, height: 1_200_000 });
    assert_eq!(e.zoom, 1000);
    assert_eq!(e.pan, (400_000, 300_000));
}

#[test]
fn auto_fit_clamps_to_minimum_zoom() {
    let mut e = RgEditor::new(vec![]);
    e.on_bounds_changed(Bounds { origin: pt(0, 0), width: 10_000, height: 10_000 });
    assert_eq!(e.zoom, 100);
    assert_eq!(e.pan, (-35_000, -25_000));
}

#[test]
fn auto_fit_uses_content_bounds() {
    let mut e = RgEditor::new(vec![]);
    e.set_content_bounds(-100, -50, 100, 50);
    e.on_bounds_changed(Bounds { origin: pt(0, 0), width: 100_000, height: 100_000 });
    assert_eq!(e.zoom, 500);
    assert_eq!(e.pan, (50_000, 50_000));
}

#[test]
fn auto_fit_skips_degenerate_extents() {
    let mut e = RgEditor::new(vec![]);
    e.on_bounds_changed(Bounds { origin: pt(0, 0), width: 0, height: 500_000 });
    assert_eq!((e.zoom, e.pan), (1000, (0, 0)));
    e.set_content_bounds(0, 0, 0, 600);
    e.on_bounds_changed(Bounds { origin: pt(0, 0), width: 300_000, height: 500_000 });
    assert_eq!((e.zoom, e.pan), (1000, (0, 0)));
}

#[test]
fn same_size_bounds_change_only_moves_the_origin() {
    let mut e = RgEditor::new(vec![]);
    e.on_bounds_changed(Bounds { origin: pt(0, 0), width: 400_000, height: 600_000 });
    e.on_bounds_changed(Bounds { origin: pt(5, 5), width: 400_000, height: 600_000 });
    assert_eq!(e.bounds.origin, pt(5, 5));
    assert_eq!(e.zoom, 500);
}

#[test]
fn user_zoom_stops_auto_fit() {
    let mut e = RgEditor::new(vec![]);
    e.on_bounds_changed(Bounds { origin: pt(0, 0), width: 400_000, height: 600_000 });
    e.user_zoomed = true;
    e.on_bounds_changed(Bounds { origin: pt(0, 0), width: 1_600_000, height: 1_200_000 });
    assert_eq!(e.zoom, 500);
    assert_eq!(e.base_size, (1_600_000, 1_200_000));
}

#[test]
fn zoom_stays_in_range_after_any_fit() {
    for &(w, h) in &[(1, 1), (1_000, 999_999_999), (80_000, 60_000), (999_999_999_999, 999_999_999_999)] {
        let mut e = RgEditor::new(vec![]);
        e.on_bounds_changed(Bounds { origin: pt(0, 0), width: w, height: h });
        assert!(e.zoom >= 100 && e.zoom <= 4000);
    }
}

#[test]
fn new_editor_draws_nodes_at_scale_one() {
    let mut n = node(7, 1, 2, 30, 40);
    n.zoom = 3000;
    n.pan = (5, 5);
    let e = RgEditor::new(vec![n]);
    assert_eq!((e.nodes[0].zoom, e.nodes[0].pan), (1000, (0, 0)));
    assert_eq!(e.content_bounds, (0, 0, 800, 600));
    assert!(!e.view_initialized && !e.user_zoomed);
}

#[test]
fn generated_nodes_lie_in_their_ranges() {
    let nodes = generate_nodes(50);
    assert_eq!(nodes.len(), 50);
    for (i, n) in nodes.iter().enumerate() {
        assert_eq!(n.id, i as u64);
        assert!((50..700).contains(&n.x) && (50..500).contains(&n.y));
        assert!((80..200).contains(&n.width) && (60..150).contains(&n.height));
        assert!(!n.selected && n.show_handles);
    }
    assert!(nodes.iter().any(|n| n.x != 50 || n.y != 50 || n.width != 80 || n.height != 60));
    assert!(generate_nodes(0).is_empty());
}

#[test]
fn selection_rect_overlap_is_strict() {
    let e = RgEditor::new(vec![node(0, 100, 0, 20, 20), node(1, 50, 50, 10, 10)]);
    let rect = (pt(100_000, 100_000), pt(0, 0));
    assert!(!e.is_node_in_selection_rect(0, rect));
    assert!(e.is_node_in_selection_rect(1, rect));
    assert!(e.is_node_in_selection_rect(0, (pt(0, 0), pt(100_001, 1))));
}
