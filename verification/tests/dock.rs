use ui_gtk::dock_control::{
    apply_layout, close_panel, panel_icon, restore_workspace, set_panel_visible, CloseRoute,
    IconSource, LayoutStep, PanelEdit, SessionGate, StockIcon,
};
use ui_gtk::dock_geometry::{
    allocated_size, geometry_rect, grab_at, grab_fraction, legacy_side, resize_edge, restore_area,
    side_drag_size, side_index, tear_off_size, DockLocation, DockPanel, DockRect, DockSide,
    WindowEdge, WindowGeometry, DOCK_CAPTION_H,
};
use ui_gtk::dock_gesture::{
    drop_zone_groups, frame_press, held_mid_caption, held_where_pressed, settled_size, Band,
    DragSubject, Gestures, Held, LiveGroup, Propagation, Release,
};
use ui_gtk::dock_panels::{LayoutEdit, PanelRegistry, PluginPanelSpec, Reading, Refusal};
use ui_gtk::dock_reconcile::{
    group_in_window, placements, reconcile, BandPlan, GroupReading, Placed, Rehost, WidgetTree,
};

const LEAST: (i32, i32) = (120, 90);

fn rect(x: i32, y: i32, w: i32, h: i32) -> DockRect {
    DockRect { x, y, w, h }
}

/// Scale the fraction as the window does, and hold the window there.
fn tear_off_grab(cursor_dx: i32, source_w: i32, new_w: i32) -> (i32, i32) {
    let (num, div) = grab_fraction(cursor_dx, source_w);
    let scaled = (f64::from(num) / f64::from(div) * f64::from(new_w)).round() as i32;
    grab_at(scaled, new_w)
}

#[test]
fn side_drag_sign_conventions() {
    // Dragging right grows a Left band and shrinks a Right one.
    assert_eq!(side_drag_size(DockSide::Left, 200, (30, 0)), 230);
    assert_eq!(side_drag_size(DockSide::Right, 200, (30, 0)), 170);
    // Dragging down grows a Top band and shrinks a Bottom one.
    assert_eq!(side_drag_size(DockSide::Top, 200, (0, 30)), 230);
    assert_eq!(side_drag_size(DockSide::Bottom, 200, (0, 30)), 170);
    // The off-axis component is ignored.
    assert_eq!(side_drag_size(DockSide::Left, 200, (0, 99)), 200);
}

#[test]
fn tear_off_size_is_a_third_of_the_window_floored_at_the_minimum() {
    assert_eq!(tear_off_size((1200, 900), LEAST), (400, 300));
    // A small window floors at the minimum rather than a sliver.
    assert_eq!(tear_off_size((300, 240), LEAST), LEAST);
    assert_eq!(tear_off_size((0, 0), LEAST), LEAST);
}

#[test]
fn tear_off_grab_keeps_the_pointer_fraction_along_the_caption() {
    // Pressed a quarter of the way along a 400-wide band → a quarter
    // of the way along the 200-wide float.
    assert_eq!(tear_off_grab(100, 400, 200), (50, DOCK_CAPTION_H / 2));
    // Beyond either end clamps rather than leaving the float behind.
    assert_eq!(tear_off_grab(-30, 400, 200).0, 0);
    assert_eq!(tear_off_grab(900, 400, 200).0, 200);
    // A degenerate source width does not divide by zero.
    assert_eq!(tear_off_grab(10, 0, 200).0, 200);
}

#[test]
fn resize_edge_corners_beat_sides_and_the_body_is_none() {
    let (w, h, b) = (300, 200, 6);
    assert_eq!(resize_edge(0, 0, w, h, b), Some(WindowEdge::NorthWest));
    assert_eq!(resize_edge(299, 0, w, h, b), Some(WindowEdge::NorthEast));
    assert_eq!(resize_edge(0, 199, w, h, b), Some(WindowEdge::SouthWest));
    assert_eq!(resize_edge(299, 199, w, h, b), Some(WindowEdge::SouthEast));
    assert_eq!(resize_edge(2, 100, w, h, b), Some(WindowEdge::West));
    assert_eq!(resize_edge(297, 100, w, h, b), Some(WindowEdge::East));
    assert_eq!(resize_edge(150, 3, w, h, b), Some(WindowEdge::North));
    assert_eq!(resize_edge(150, 196, w, h, b), Some(WindowEdge::South));
    // Just inside the border on both axes: the body.
    assert_eq!(resize_edge(6, 6, w, h, b), None);
    assert_eq!(resize_edge(150, 100, w, h, b), None);
}

#[test]
fn geometry_rect_needs_every_field() {
    let full = WindowGeometry {
        width: Some(800),
        height: Some(600),
        x: Some(10),
        y: Some(20),
        maximized: false,
    };
    assert_eq!(geometry_rect(Some(full)), Some(rect(10, 20, 800, 600)));
    let no_pos = WindowGeometry { x: None, ..full };
    assert_eq!(geometry_rect(Some(no_pos)), None);
    assert_eq!(geometry_rect(None), None);
}

#[test]
fn every_side_has_its_own_position() {
    let sides = [DockSide::Left, DockSide::Right, DockSide::Top, DockSide::Bottom];
    for (i, side) in sides.iter().enumerate() {
        assert_eq!(side_index(*side), i);
    }
}

#[test]
fn a_splitter_dragged_back_leaves_the_size() {
    for side in [DockSide::Left, DockSide::Right, DockSide::Top, DockSide::Bottom] {
        let out = side_drag_size(side, 300, (17, -9));
        assert_eq!(side_drag_size(side, out, (-17, 9)), 300);
    }
}

#[test]
fn the_area_comes_from_the_screen_first() {
    let saved = WindowGeometry {
        width: Some(800),
        height: Some(600),
        x: Some(1),
        y: Some(2),
        maximized: false,
    };
    let screen = rect(0, 0, 500, 400);
    let monitor = rect(0, 0, 1920, 1080);
    assert_eq!(restore_area(Some(screen), Some(saved), Some(monitor)), Some(screen));
    assert_eq!(restore_area(None, Some(saved), Some(monitor)), Some(rect(1, 2, 800, 600)));
    assert_eq!(restore_area(None, None, Some(monitor)), Some(monitor));
    assert_eq!(restore_area(None, None, None), None);
}

#[test]
fn nothing_is_allocated_less_than_one_pixel() {
    assert_eq!(allocated_size(rect(0, 0, 30, 40)), (30, 40));
    assert_eq!(allocated_size(rect(0, 0, 0, -4)), (1, 1));
}

#[test]
fn a_panel_that_floats_counts_for_its_own_side() {
    let docked = Some(DockLocation::Side(DockSide::Bottom));
    assert_eq!(legacy_side(docked, DockSide::Left), DockSide::Bottom);
    let floating = Some(DockLocation::Floating(rect(0, 0, 9, 9)));
    assert_eq!(legacy_side(floating, DockSide::Left), DockSide::Left);
    assert_eq!(legacy_side(None, DockSide::Right), DockSide::Right);
}

#[test]
fn a_tab_that_travels_is_dropped_and_one_that_does_not_is_selected() {
    let held = Held { grab: (10, 5), float_size: (200, 150) };
    let panel = DockPanel::Plugin(4);
    let mut g = Gestures::new();
    assert_eq!(g.tab_press(1, 7, 2, panel, (100, 100), held), Propagation::Stop);
    assert_eq!(g.drag_motion((101, 101)), None);
    assert_eq!(g.drag_release(1, (101, 101), true), Release::SwitchTab(7, 2));

    let mut g = Gestures::new();
    assert_eq!(g.tab_press(1, 7, 2, panel, (100, 100), held), Propagation::Stop);
    let preview = rect(120 - 10, 100 - 5, 200, 150);
    assert_eq!(g.drag_motion((120, 100)), Some((DragSubject::Panel(panel), preview)));
    assert_eq!(
        g.drag_release(1, (120, 100), true),
        Release::Drop(DragSubject::Panel(panel), preview)
    );
    assert_eq!(g.drag_release(1, (120, 100), true), Release::Nothing);
}

#[test]
fn escape_ends_a_drag_without_a_drop() {
    let held = held_mid_caption((200, 150));
    let mut g = Gestures::new();
    assert_eq!(g.caption_press(1, 3, (0, 0), Some(held)), Propagation::Stop);
    assert!(g.drag_motion((50, 50)).is_some());
    assert!(g.key_press(true).hide_hint);
    let far = (i32::MIN, 50);
    assert!(g.motion_fits(far) && g.release_fits(1, far), "a cancelled drag shows nothing");
    assert_eq!(g.drag_motion(far), None);
    assert_eq!(g.drag_release(1, far, false), Release::Nothing);
}

#[test]
fn only_a_drag_under_way_needs_room_for_its_preview() {
    let held = Held { grab: (10, 5), float_size: (200, 150) };
    let edge = (i32::MIN, 0);
    let mut g = Gestures::new();
    assert!(g.motion_fits(edge) && g.release_fits(1, edge));
    assert_eq!(g.tab_press(1, 7, 2, DockPanel::Plugin(4), edge, held), Propagation::Stop);
    assert!(g.motion_fits(edge) && g.release_fits(1, edge), "it has not moved");
    assert_eq!(g.drag_motion(edge), None);
    assert!(!g.motion_fits((i32::MIN, 50)));
    assert!(g.drag_motion((50, 50)).is_some());
    assert!(!g.release_fits(1, edge) && g.release_fits(3, edge));
    assert_eq!(g.drag_release(3, edge, false), Release::NotOurs);
}

#[test]
fn escape_puts_a_splitter_back() {
    let mut g = Gestures::new();
    assert_eq!(g.splitter_press(1, DockSide::Left, (10, 0), 200), Propagation::Stop);
    assert_eq!(g.splitter_proposal((40, 0)), Some((DockSide::Left, 230)));
    assert_eq!(g.key_press(true).restore, Some((DockSide::Left, 200)));
    assert_eq!(g.splitter_proposal((40, 0)), None);
    assert_eq!(g.splitter_release(1), Some(false));
}

#[test]
fn another_button_does_not_end_a_splitter_drag() {
    let mut g = Gestures::new();
    assert_eq!(g.splitter_press(3, DockSide::Left, (10, 0), 200), Propagation::Proceed);
    assert_eq!(g.splitter_press(1, DockSide::Left, (10, 0), 200), Propagation::Stop);
    assert_eq!(g.splitter_release(2), None);
    assert_eq!(g.splitter_release(1), Some(true));
    assert_eq!(g.splitter_press(1, DockSide::Left, (10, 0), 200), Propagation::Stop);
    assert!(g.grab_broken());
    assert!(!g.grab_broken());
}

#[test]
fn a_group_is_held_where_it_was_pressed() {
    let held = held_where_pressed((130, 220), rect(100, 200, 300, 250), LEAST);
    assert_eq!(held.grab, (30, 20));
    assert_eq!(held.float_size, (300, 250));
    let small = held_where_pressed((130, 220), rect(100, 200, 10, 10), LEAST);
    assert_eq!(small.float_size, LEAST);
}

#[test]
fn a_size_settles_as_it_is_drawn() {
    let bands = vec![
        Band { side: DockSide::Left, rect: rect(0, 0, 180, 600) },
        Band { side: DockSide::Bottom, rect: rect(0, 500, 800, 90) },
    ];
    assert_eq!(settled_size(&bands, DockSide::Left, 240), Some(180));
    assert_eq!(settled_size(&bands, DockSide::Left, 180), None);
    assert_eq!(settled_size(&bands, DockSide::Bottom, 100), Some(90));
    assert_eq!(settled_size(&bands, DockSide::Right, 100), None);
}

#[test]
fn floating_groups_are_hit_before_docked_ones() {
    let groups = vec![
        LiveGroup { id: 1, floating: false, rect: Some(rect(0, 0, 10, 10)) },
        LiveGroup { id: 2, floating: true, rect: Some(rect(5, 5, 10, 10)) },
        LiveGroup { id: 3, floating: true, rect: None },
    ];
    assert_eq!(
        drop_zone_groups(&groups),
        vec![(2, rect(5, 5, 10, 10)), (1, rect(0, 0, 10, 10))]
    );
}

#[test]
fn only_a_floating_frame_is_resized_by_its_border() {
    assert_eq!(frame_press(1, true, (0, 0), (300, 200)), Some(WindowEdge::NorthWest));
    assert_eq!(frame_press(1, false, (0, 0), (300, 200)), None);
    assert_eq!(frame_press(3, true, (0, 0), (300, 200)), None);
    assert_eq!(frame_press(1, true, (150, 100), (300, 200)), None);
}

fn spec(panel: u32, handle: usize, name: &str) -> PluginPanelSpec {
    PluginPanelSpec {
        panel: DockPanel::Plugin(panel),
        handle,
        tb_data: handle + 1,
        name: name.to_string(),
        module_name: "tool.so".to_string(),
        caller: Some(2),
        initial_side: Some(DockSide::Bottom),
    }
}

#[test]
fn a_registration_is_refused_for_each_of_its_reasons() {
    let mut r: PanelRegistry<u8> = PanelRegistry::new();
    assert!(r.register(spec(1, 100, "Console"), 2).is_ok());
    assert_eq!(r.register(spec(2, 100, "Other"), 2).err(), Some(Refusal::WidgetRegistered));
    assert_eq!(r.register(spec(1, 200, "Other"), 2).err(), Some(Refusal::PanelRegistered));
    assert!(r.register(spec(2, 200, "Other"), 2).is_ok());
    assert_eq!(r.register(spec(3, 300, "Third"), 2).err(), Some(Refusal::CapReached));
    let mut said: Vec<&str> = Vec::new();
    for why in [
        Refusal::WidgetRegistered,
        Refusal::PanelRegistered,
        Refusal::CapReached,
        Refusal::Busy,
    ] {
        assert!(!said.contains(&why.message()));
        said.push(why.message());
    }
}

#[test]
fn a_registered_panel_is_shown_hidden_and_renamed() {
    let mut r: PanelRegistry<u8> = PanelRegistry::new();
    let (_, edits) = r.register(spec(1, 100, "Console"), 8).unwrap();
    let panel = DockPanel::Plugin(1);
    assert_eq!(
        edits,
        vec![LayoutEdit::SetInitialSide(panel, DockSide::Bottom), LayoutEdit::Unpark(panel)]
    );
    assert!(r.take_dirty());
    assert!(!r.take_dirty());
    assert_eq!(
        r.show_plugin_panel(100),
        Some(vec![LayoutEdit::Show(panel), LayoutEdit::Activate(panel)])
    );
    assert_eq!(r.hide_plugin_panel(100), Some(vec![LayoutEdit::Hide(panel)]));
    assert_eq!(r.show_plugin_panel(999), None);
    assert_eq!(
        r.view_plugin_panel("Console"),
        Some(vec![LayoutEdit::Show(panel), LayoutEdit::Activate(panel)])
    );
    assert_eq!(r.view_plugin_panel("console"), None);
    assert_eq!(r.plugin_panel_handle("Console", None), Some(100));
    assert_eq!(r.plugin_panel_tb_data(100), Some(101));
    r.rename_plugin_panel(100, "Output".to_string(), "tool.so".to_string());
    assert_eq!(r.plugin_panel_handle("Console", None), None);
    assert_eq!(r.plugin_panel_handle("Output", Some("tool.so")), Some(100));
    assert_eq!(r.plugin_panel_notify_target(panel), Some((100, Some(2))));
    assert!(r.plugin_panel_is_live(panel, 100));
    assert!(!r.plugin_panel_is_live(panel, 101));
}

#[test]
fn a_destroyed_widget_is_forgotten_and_its_panel_closed() {
    let mut r: PanelRegistry<u8> = PanelRegistry::new();
    let (token, _) = r.register(spec(1, 100, "Console"), 8).unwrap();
    let panel = DockPanel::Plugin(1);
    assert!(r.mark_gone(token));
    assert!(!r.is_plugin_panel_registered(panel));
    let edits = r.forget_destroyed_plugin_panels(&vec![panel]);
    assert_eq!(edits, Some(vec![LayoutEdit::Hide(panel)]));
    assert_eq!(r.forget_destroyed_plugin_panels(&vec![panel]), None);
    // The panel can be registered again.
    assert!(r.register(spec(1, 100, "Console"), 1).is_ok());
}

#[test]
fn a_plugin_is_told_once_where_its_panel_is() {
    let mut r: PanelRegistry<u8> = PanelRegistry::new();
    assert!(r.register(spec(1, 100, "Console"), 8).is_ok());
    let at = |same: bool| vec![Reading { container: 3u8, code: 70, same_as_told: same }];
    let told = r.container_notices(&at(false));
    assert_eq!(told.len(), 1);
    assert_eq!((told[0].handle, told[0].code, told[0].caller), (100, 70, Some(2)));
    assert!(r.container_notices(&at(true)).is_empty());
}

#[test]
fn widgets_follow_the_layout() {
    let mut tree = WidgetTree::new();
    let ws = DockPanel::Workspace;
    let map = DockPanel::DocMap;
    let float = rect(5, 6, 70, 80);
    let layout = vec![
        GroupReading {
            id: 1,
            panels: vec![ws],
            active: 0,
            location: DockLocation::Side(DockSide::Left),
        },
        GroupReading { id: 2, panels: vec![map], active: 0, location: DockLocation::Floating(float) },
    ];
    let plan = reconcile(&mut tree, &layout, &vec![DockPanel::Plugin(3)], &vec![ws, map]);
    assert_eq!(plan.built, vec![1, 2]);
    assert!(plan.dismantled.is_empty());
    assert_eq!(tree.groups.len(), 2);
    let window = tree.groups[1].float.unwrap();
    assert_eq!(plan.steps[1].rehost, Rehost::Floated { window, fresh: true, rect: float });
    assert_eq!(group_in_window(&tree, window), Some(2));

    // The floating group goes: its window is kept for the next one.
    let plan = reconcile(&mut tree, &vec![GroupReading {
        id: 1,
        panels: vec![ws],
        active: 0,
        location: DockLocation::Side(DockSide::Left),
    }], &vec![DockPanel::Plugin(3)], &vec![ws]);
    assert_eq!(plan.dismantled.len(), 1);
    assert_eq!(plan.parked, vec![map, DockPanel::Plugin(3)]);
    assert_eq!(tree.pool, vec![window]);
    assert_eq!(group_in_window(&tree, window), None);
    let again = vec![GroupReading {
        id: 9,
        panels: vec![map],
        active: 0,
        location: DockLocation::Floating(float),
    }];
    let plan = reconcile(&mut tree, &again, &Vec::new(), &vec![map]);
    assert_eq!(plan.steps[0].rehost, Rehost::Floated { window, fresh: false, rect: float });
}

#[test]
fn the_editor_and_the_bands_are_placed() {
    let mut tree = WidgetTree::new();
    let layout = vec![GroupReading {
        id: 4,
        panels: vec![DockPanel::Workspace],
        active: 0,
        location: DockLocation::Side(DockSide::Left),
    }];
    reconcile(&mut tree, &layout, &Vec::new(), &vec![DockPanel::Workspace]);
    let bands = vec![BandPlan {
        side: DockSide::Left,
        splitter: rect(200, 0, 4, 600),
        groups: vec![(4, rect(0, 0, 200, 600)), (99, rect(0, 0, 1, 1))],
    }];
    let editor = rect(204, 0, 596, 600);
    let placed = placements(&tree, (800, 600), editor, &bands);
    assert!(placed.contains(&(Placed::Editor, editor)));
    assert!(placed.contains(&(Placed::Splitter(DockSide::Left), rect(200, 0, 4, 600))));
    assert!(placed.contains(&(Placed::Group(4), rect(0, 0, 200, 600))));
    assert_eq!(placed.len(), 3);
    assert!(placements(&tree, (0, 600), editor, &bands).is_empty());
}

#[test]
fn the_icon_of_a_plugin_is_its_own_if_it_has_one() {
    assert_eq!(panel_icon(DockPanel::Plugin(1), true, 1), (IconSource::Own, 16));
    assert_eq!(
        panel_icon(DockPanel::Plugin(1), false, 2),
        (IconSource::Stock { stock: StockIcon::PluginPanel, double: true }, 32)
    );
    assert_eq!(
        panel_icon(DockPanel::Workspace, false, 0),
        (IconSource::Stock { stock: StockIcon::FolderWorkspace, double: false }, 16)
    );
    assert_eq!(
        panel_icon(DockPanel::DocMap, false, 1).0,
        IconSource::Stock { stock: StockIcon::DocumentMap, double: false }
    );
}

#[test]
fn plugins_are_told_last() {
    let with_map = apply_layout(true);
    assert_eq!(with_map.last(), Some(&LayoutStep::Notices));
    assert!(with_map.contains(&LayoutStep::SyncDocMap));
    let without = apply_layout(false);
    assert!(!without.contains(&LayoutStep::SyncDocMap));
    assert_eq!(without.len() + 1, with_map.len());
}

#[test]
fn hiding_a_hidden_panel_does_nothing() {
    assert_eq!(set_panel_visible(false, false), PanelEdit::Nothing);
    assert_eq!(set_panel_visible(true, false), PanelEdit::Hide);
    assert_eq!(set_panel_visible(true, true), PanelEdit::Show);
    assert_eq!(set_panel_visible(false, true), PanelEdit::Show);
}

#[test]
fn a_workspace_without_its_folder_is_hidden() {
    let gone = restore_workspace(false, true);
    assert!(gone.hide && !gone.visible && !gone.open_root);
    let there = restore_workspace(true, true);
    assert!(!there.hide && there.visible && there.open_root);
    let closed = restore_workspace(true, false);
    assert!(!closed.hide && !closed.visible && closed.open_root);
}

#[test]
fn a_close_goes_to_whom_the_panel_belongs() {
    assert_eq!(close_panel(DockPanel::Workspace), CloseRoute::Workspace);
    assert_eq!(close_panel(DockPanel::DocMap), CloseRoute::DocMap);
    assert_eq!(close_panel(DockPanel::Plugin(9)), CloseRoute::Plugin);
}

#[test]
fn a_frozen_session_is_left_alone() {
    let mut gate = SessionGate::new();
    assert!(gate.syncs());
    gate.freeze_session();
    assert!(!gate.syncs());
}
