use ui_gtk::delivery::{DeliveryQueue, Latch};
use ui_gtk::dock_geometry::DockPanel;
use ui_gtk::dock_panels::{DockNotice, PanelRegistry, PluginPanelSpec};
use ui_gtk::plugin_checks::PluginChecks;
use ui_gtk::plugin_host::{
    chord_begins, chord_ends, chord_to_gdk, close_plugin_panel, deliver_notifications,
    deliver_sync, dispatch_follow_up, funcitem_label, is_valid_scintilla, looks_at_icon, next_dock_notice,
    notify_shutdown, plugin_dispatch, portable_key_to_gdk, refuse_host_handle, refuse_widget, ChordStep,
    DispatchAfter, DispatchBefore, DispatchStep, GdkKey, HandleRefusal, MessageRoute, NotifyStep,
    PortableKey,
    ShutdownNotice, WidgetReading, CONTROL_MASK, MOD1_MASK, SHIFT_MASK,
    VOID_SYMBOL,
};
use ui_gtk::plugin_load::{
    close_unregistered_restored_panels, park_unsupplied_plugin_panels, park_withheld_panels,
    restore_plugin_panels, unpark_loaded_plugins_panels, Commit, LoadAction, LoadReading, LoadRun,
    OpenPanel, PanelRecord, ParkedPanel, RestoredPanel,
};
use ui_gtk::plugin_menu::{
    manager_rows, on_plugin_item_activated, rebuild_menu, show_recorded_mark, InstalledPlugin,
    LiveItem, MarkShow, PluginEntry, PluginItem, PluginLine, PluginRow,
};

/// Only a loaded plugin's own commands take a mark — not a built-in
/// id, not a separator's slot, not a stray value — so the table is
/// bounded by what the plugins published.
#[test]
fn a_mark_is_recorded_only_for_a_published_command() {
    let mut checks = PluginChecks::default();
    checks.absorb(vec![(50_000, true, false), (50_001, false, false)]);
    assert!(checks.set(50_000, true));
    assert_eq!(checks.get(50_000), Some(true));
    assert!(!checks.set(50_001, true), "a separator is no command");
    assert!(!checks.set(42_001, true), "a built-in IDM_* id is not mapped");
    assert!(!checks.set(-1, false));
    assert_eq!(checks.get(50_001), None);
    assert_eq!(checks.get(42_001), None);
}

/// `_init2Check` ticks a command that has no mark yet and yields to
/// one the plugin set since — a later load pass re-absorbing the same
/// commands must not undo the plugin's own untick.
#[test]
fn init2check_seeds_a_mark_without_overriding_one() {
    let mut checks = PluginChecks::default();
    checks.absorb(vec![(50_010, true, true), (50_011, true, false)]);
    assert_eq!(checks.get(50_010), Some(true), "_init2Check ticks it");
    assert_eq!(checks.get(50_011), None, "no mark: drawn as a plain item");
    assert!(checks.set(50_010, false));
    checks.absorb(vec![(50_010, true, true)]);
    assert_eq!(checks.get(50_010), Some(false), "the plugin's untick survives");
}

/// An untick is a mark too: an item the plugin has unticked is a
/// toggle the user should see as one, empty, rather than a plain
/// action.
#[test]
fn an_untick_is_recorded_as_a_mark() {
    let mut checks = PluginChecks::default();
    checks.absorb(vec![(50_020, true, false)]);
    assert!(checks.set(50_020, false));
    assert_eq!(checks.get(50_020), Some(false));
}

/// The keys that mean the same everywhere, by their virtual key code.
fn portable_key(vk: u8) -> Option<PortableKey> {
    match vk {
        0x41..=0x5A => Some(PortableKey::Letter(vk - 0x41 + b'a')),
        0x30..=0x39 => Some(PortableKey::Digit(vk)),
        0x70..=0x7B => Some(PortableKey::Function(vk - 0x6F)),
        0x2E => Some(PortableKey::Delete),
        _ => None,
    }
}

const F3: u32 = 0xFFC0;
const DELETE: u32 = 0xFFFF;

/// The values of the keys that are found by name.
fn keyval(key: GdkKey) -> u32 {
    match key {
        GdkKey::Value(v) => v,
        GdkKey::Name(name) => match name.as_str() {
            "F3" => F3,
            "Delete" => DELETE,
            _ => 0,
        },
    }
}

fn chord(ctrl: bool, alt: bool, shift: bool, vk: u8) -> Option<(u32, u32)> {
    let found = portable_key(vk).map(|key| keyval(portable_key_to_gdk(key)));
    chord_to_gdk(ctrl, alt, shift, found)
}

#[test]
fn chord_to_gdk_maps_keys_and_modifiers() {
    // Ctrl+Alt+H -> keyval 'h' with Control+Mod1.
    let (key, mods) = chord(true, true, false, 0x48).unwrap();
    assert_eq!(key, u32::from(b'h'));
    assert!(mods & CONTROL_MASK != 0);
    assert!(mods & MOD1_MASK != 0);
    assert!(mods & SHIFT_MASK == 0);

    // A digit and Shift+F3.
    assert_eq!(chord(true, false, false, 0x31).unwrap().0, u32::from(b'1'));
    let (key, mods) = chord(false, false, true, 0x72).unwrap();
    assert_eq!(key, F3);
    assert!(mods & SHIFT_MASK != 0);

    // A named key resolves.
    assert_eq!(chord(true, false, false, 0x2E).unwrap().0, DELETE);

    // A layout-dependent OEM key has no portable mapping.
    assert!(chord(true, false, false, 0xBF).is_none());
}

#[test]
fn keys_are_found_by_their_names() {
    let names = [
        (PortableKey::Space, "space"),
        (PortableKey::Insert, "Insert"),
        (PortableKey::Delete, "Delete"),
        (PortableKey::Home, "Home"),
        (PortableKey::End, "End"),
        (PortableKey::PageUp, "Page_Up"),
        (PortableKey::PageDown, "Page_Down"),
        (PortableKey::Left, "Left"),
        (PortableKey::Right, "Right"),
        (PortableKey::Up, "Up"),
        (PortableKey::Down, "Down"),
        (PortableKey::Function(12), "F12"),
    ];
    for (key, name) in names {
        match portable_key_to_gdk(key) {
            GdkKey::Name(n) => assert_eq!(n, name),
            GdkKey::Value(_) => panic!("{name} is found by name"),
        }
    }
    assert_eq!(chord_to_gdk(true, false, false, Some(0)), None);
}

#[test]
fn a_key_whose_name_is_not_known_is_never_bound() {
    match portable_key_to_gdk(PortableKey::Function(36)) {
        GdkKey::Name(name) => assert_eq!(name, "F36"),
        GdkKey::Value(_) => panic!("a function key is found by name"),
    }
    assert_eq!(VOID_SYMBOL, 0xFFFFFF);
    assert_eq!(chord_to_gdk(true, true, true, Some(VOID_SYMBOL)), None);
    assert_eq!(chord_to_gdk(true, true, true, None), None);
    assert_eq!(chord_to_gdk(false, false, false, Some(0xFFFFFE)), Some((0xFFFFFE, 0)));
}

#[test]
fn messages_go_by_their_handle() {
    let (host, editor) = (0x1000, 0x2000);
    assert_eq!(plugin_dispatch(host, host, editor, false), MessageRoute::Host);
    assert_eq!(plugin_dispatch(editor, host, editor, true), MessageRoute::Editor);
    assert_eq!(plugin_dispatch(editor, host, editor, false), MessageRoute::EditorOnMain);
    assert_eq!(plugin_dispatch(0x3000, host, editor, true), MessageRoute::Refused);
    assert_eq!(plugin_dispatch(0, host, 0, true), MessageRoute::Refused);
    assert!(!is_valid_scintilla(0, 0));
}

#[test]
fn a_switch_made_by_a_plugin_binds_the_view() {
    let before = DispatchBefore { active: Some(0), modified: false, dirty: vec![false, false] };
    let mut after = DispatchAfter {
        active: Some(1),
        modified: false,
        dirty: vec![false, false],
        loading: vec![false, false],
        dock_changed: false,
    };
    follows(&before, &after, &[DispatchStep::Rebind]);
    // A tab whose file is being read is bound when that is done.
    after.loading[1] = true;
    follows(&before, &after, &[]);
    after.active = Some(0);
    after.dirty[1] = true;
    after.dock_changed = true;
    follows(&before, &after, &[DispatchStep::RefreshChrome, DispatchStep::ApplyLayout]);
    after.dock_changed = false;
    after.dirty = vec![false];
    follows(&before, &after, &[]);
    after.dirty = vec![false, false, false];
    follows(&before, &after, &[DispatchStep::RefreshChrome]);
    after.dirty = vec![false, false];
    after.modified = true;
    follows(&before, &after, &[DispatchStep::RefreshChrome]);
}

/// These steps follow, and then the dialogs.
fn follows(before: &DispatchBefore, after: &DispatchAfter, steps: &[DispatchStep]) {
    let mut expected = steps.to_vec();
    expected.push(DispatchStep::PresentDialogs);
    assert_eq!(dispatch_follow_up(before, after), expected);
}

#[test]
fn widgets_are_refused_for_each_of_the_reasons() {
    let (host, editor) = (0x1000, 0x2000);
    assert_eq!(refuse_host_handle(0, host, editor), Err(HandleRefusal::Null));
    assert_eq!(refuse_host_handle(host, host, editor), Err(HandleRefusal::HostHandle));
    assert_eq!(refuse_host_handle(editor, host, editor), Err(HandleRefusal::HostEditor));
    assert_eq!(refuse_host_handle(0x3000, host, editor), Ok(()));
    let good = WidgetReading { is_widget: true, is_toplevel: false, has_parent: false };
    assert_eq!(refuse_widget(good), Ok(()));
    let no_widget = WidgetReading { is_widget: false, is_toplevel: true, has_parent: true };
    assert_eq!(refuse_widget(no_widget), Err(HandleRefusal::NotAWidget));
    let window = WidgetReading { is_toplevel: true, has_parent: true, ..good };
    assert_eq!(refuse_widget(window), Err(HandleRefusal::Toplevel));
    let inside = WidgetReading { has_parent: true, ..good };
    assert_eq!(refuse_widget(inside), Err(HandleRefusal::HasParent));
    assert_eq!(HandleRefusal::Null.message(), "hClient is null");
    assert_eq!(
        HandleRefusal::HostHandle.message(),
        "hClient is the npp handle, not a widget"
    );
    assert_eq!(
        HandleRefusal::HostEditor.message(),
        "hClient is the host's own Scintilla view"
    );
}

#[test]
fn an_icon_needs_its_flag_and_a_pointer() {
    assert!(looks_at_icon(0b110, 0b010, 8));
    assert!(!looks_at_icon(0b101, 0b010, 8));
    assert!(!looks_at_icon(0b110, 0b010, 0));
}

#[test]
fn a_close_within_a_close_tells_nobody() {
    let mut telling = Latch::new();
    assert_eq!(close_plugin_panel(Some((7, None)), &mut telling), Some((7, None)));
    assert_eq!(close_plugin_panel(Some((8, Some(1))), &mut telling), None);
    telling.release();
    assert_eq!(close_plugin_panel(None, &mut telling), None);
    assert!(!telling.get());
    assert_eq!(close_plugin_panel(Some((8, Some(1))), &mut telling), Some((8, Some(1))));
}

#[test]
fn notices_about_destroyed_widgets_are_dropped() {
    let mut registry: PanelRegistry<u8> = PanelRegistry::new();
    let panel = DockPanel::Plugin(1);
    registry
        .register(
            PluginPanelSpec {
                panel,
                handle: 10,
                tb_data: 0,
                name: "A".to_string(),
                module_name: "a.so".to_string(),
                caller: None,
                initial_side: None,
            },
            4,
        )
        .unwrap();
    let notice = |handle: usize, code: u32| DockNotice { panel, handle, caller: None, code };
    let mut queue = DeliveryQueue::new();
    assert!(queue.start(vec![notice(11, 1), notice(10, 2), notice(12, 3)]));
    assert!(!queue.start(vec![notice(10, 4)]), "a delivery is under way");
    assert_eq!(next_dock_notice(&mut queue, &registry).map(|n| n.code), Some(2));
    assert_eq!(next_dock_notice(&mut queue, &registry).map(|n| n.code), Some(4));
    assert_eq!(next_dock_notice(&mut queue, &registry), None);
    assert!(queue.start(Vec::new()));
}

#[test]
fn a_delivery_sends_what_comes_in_on_the_way_and_skips_what_is_gone() {
    let mut registry: PanelRegistry<u8> = PanelRegistry::new();
    let panel = DockPanel::Plugin(1);
    let spec = PluginPanelSpec {
        panel,
        handle: 10,
        tb_data: 0,
        name: "A".to_string(),
        module_name: "a.so".to_string(),
        caller: None,
        initial_side: None,
    };
    let (token, _) = registry.register(spec, 4).unwrap();
    let notice = |code: u32| DockNotice { panel, handle: 10, caller: None, code };
    let mut queue = DeliveryQueue::new();
    assert!(queue.start(vec![notice(1), notice(2)]));
    let mut sent = Vec::new();
    while let Some(n) = next_dock_notice(&mut queue, &registry) {
        sent.push(n.code);
        if n.code == 1 {
            assert!(!queue.start(vec![notice(3), notice(4)]), "the giver delivers nothing");
        }
        if n.code == 3 {
            registry.mark_gone(token);
        }
    }
    assert_eq!(sent, vec![1, 2, 3]);
    assert_eq!(queue.next(), None);
}

#[test]
fn a_key_is_used_only_by_a_command() {
    assert!(chord_begins(false).is_empty());
    assert_eq!(chord_begins(true), vec![ChordStep::LoadPlugins, ChordStep::RebuildLater]);
    assert_eq!(chord_ends(Some(5)), (ChordStep::Run(5), true));
    assert_eq!(chord_ends(None), (ChordStep::Drain, false));
}

#[test]
fn labels_end_at_the_nul() {
    assert_eq!(funcitem_label(&vec![72, 105, 0, 33]), vec![72, 105]);
    assert_eq!(funcitem_label(&vec![72, 105]), vec![72, 105]);
    assert!(funcitem_label(&vec![0, 1]).is_empty());
    assert!(funcitem_label(&Vec::new()).is_empty());
}

#[test]
fn notifications_are_told_in_order_and_dialogs_come_last() {
    assert_eq!(
        deliver_notifications(2, 1),
        vec![NotifyStep::Tell(0), NotifyStep::Tell(1), NotifyStep::PresentDialogs]
    );
    assert!(deliver_notifications(0, 1).is_empty());
    assert!(deliver_notifications(1, 0).is_empty());
    assert_eq!(deliver_sync(), vec![NotifyStep::Tell(0), NotifyStep::PresentDialogs]);
}

fn reading(pending: Option<usize>, commit: Commit, unparked: bool) -> LoadReading {
    LoadReading { pending, commit, unparked }
}

#[test]
fn a_load_goes_from_the_first_plugin_to_the_last_panel() {
    let mut run = LoadRun::new();
    let nothing = reading(None, Commit::Failed, false);
    assert_eq!(run.step(nothing), LoadAction::FindNext);
    assert_eq!(run.step(reading(Some(4), Commit::Failed, false)), LoadAction::Execute(4));
    assert_eq!(run.step(nothing), LoadAction::Record(4));
    assert_eq!(run.step(reading(None, Commit::Ready, false)), LoadAction::FindNext);
    assert_eq!(run.step(reading(Some(6), Commit::Failed, false)), LoadAction::Execute(6));
    assert_eq!(run.step(nothing), LoadAction::Record(6));
    assert_eq!(run.step(reading(None, Commit::Failed, false)), LoadAction::FindNext);
    assert_eq!(run.loaded, vec![4]);
    assert_eq!(run.step(nothing), LoadAction::AfterLoads);
    assert_eq!(run.step(nothing), LoadAction::AbsorbCommands);
    assert_eq!(run.step(nothing), LoadAction::Unpark);
    assert_eq!(run.step(nothing), LoadAction::Capture);
    assert_eq!(run.step(reading(None, Commit::Failed, true)), LoadAction::ApplyLayout);
    assert_eq!(run.step(nothing), LoadAction::Notify);
    assert_eq!(run.step(nothing), LoadAction::CloseUnregistered);
    assert_eq!(run.step(nothing), LoadAction::ParkWithheld);
    assert_eq!(run.step(nothing), LoadAction::ParkUnsupplied);
    assert_eq!(run.step(nothing), LoadAction::Finished);
    assert_eq!(run.step(nothing), LoadAction::Finished);
}

#[test]
fn a_load_that_lost_the_state_loads_no_more() {
    let mut run = LoadRun::new();
    run.step(reading(None, Commit::Failed, false));
    run.step(reading(Some(1), Commit::Failed, false));
    run.step(reading(None, Commit::Failed, false));
    assert_eq!(run.step(reading(Some(2), Commit::Lost, false)), LoadAction::AfterLoads);
    assert!(run.loaded.is_empty());
}

fn record(panel: u32, may_run: bool, command: Option<i32>) -> PanelRecord {
    PanelRecord {
        panel: DockPanel::Plugin(panel),
        parked: false,
        has_command: true,
        may_run,
        command,
    }
}

#[test]
fn only_commands_that_may_run_are_run_and_each_once() {
    let records = vec![
        record(1, true, Some(70)),
        record(2, false, Some(71)),
        record(3, true, Some(70)),
        PanelRecord { parked: true, ..record(4, true, Some(72)) },
        PanelRecord { has_command: false, ..record(5, true, Some(73)) },
        record(6, true, None),
        record(7, true, Some(74)),
    ];
    let r = restore_plugin_panels(&records);
    assert_eq!(r.run, vec![70, 74]);
    assert_eq!(r.withheld, vec![DockPanel::Plugin(2)]);
    assert!(r.restore_fronts);
    let none = restore_plugin_panels(&vec![record(2, false, Some(71))]);
    assert!(none.run.is_empty() && !none.restore_fronts);
}

fn restored(panel: u32, registered: bool, visible: bool) -> RestoredPanel {
    RestoredPanel { panel: DockPanel::Plugin(panel), registered, visible }
}

#[test]
fn a_panel_that_nobody_fills_is_closed_or_set_aside() {
    let panels = vec![
        restored(1, false, true),
        restored(2, true, true),
        restored(3, false, false),
        restored(4, false, true),
    ];
    assert_eq!(
        close_unregistered_restored_panels(&panels, &vec![DockPanel::Plugin(4)]),
        vec![DockPanel::Plugin(1)]
    );
    assert_eq!(
        park_withheld_panels(&panels),
        vec![DockPanel::Plugin(1), DockPanel::Plugin(4)]
    );
    let open = vec![
        OpenPanel { panel: DockPanel::Plugin(8), registered: true },
        OpenPanel { panel: DockPanel::Plugin(9), registered: false },
    ];
    assert_eq!(park_unsupplied_plugin_panels(&open), vec![DockPanel::Plugin(9)]);
    let parked = vec![
        ParkedPanel { panel: DockPanel::Plugin(5), trusted: false },
        ParkedPanel { panel: DockPanel::Plugin(6), trusted: true },
    ];
    assert_eq!(unpark_loaded_plugins_panels(&parked), vec![DockPanel::Plugin(6)]);
}

#[test]
fn the_menu_without_plugins_says_so() {
    let lines = rebuild_menu(Vec::new(), &PluginChecks::default());
    assert_eq!(lines.len(), 4);
    assert!(matches!(lines[0], PluginLine::Placeholder("No plugins loaded")));
    assert!(matches!(lines[1], PluginLine::Separator));
    assert!(matches!(lines[2], PluginLine::Manager("_Plugin Manager…")));
    assert!(matches!(lines[3], PluginLine::Folder("_Open Plugin Folder")));
}

#[test]
fn a_submenu_shows_the_ticks() {
    let mut checks = PluginChecks::default();
    checks.absorb(vec![(1, true, true), (2, true, false)]);
    let row = |label: &str, cmd_id: i32, is_command: bool| PluginRow {
        label: label.to_string(),
        cmd_id,
        is_command,
    };
    let entries = vec![PluginEntry {
        name: "Tool".to_string(),
        rows: vec![row("Toggle", 1, true), row("", 0, false), row("Act", 2, true)],
    }];
    let lines = rebuild_menu(entries, &checks);
    assert_eq!(lines.len(), 4);
    match &lines[0] {
        PluginLine::Submenu { name, items } => {
            assert_eq!(name, "Tool");
            assert_eq!(items.len(), 3);
            match &items[0] {
                PluginItem::Command { label, cmd_id, mark } => {
                    assert_eq!((label.as_str(), *cmd_id, *mark), ("Toggle", 1, Some(true)));
                }
                PluginItem::Separator => panic!("the first row is a command"),
            }
            assert!(matches!(items[1], PluginItem::Separator));
            assert!(matches!(items[2], PluginItem::Command { cmd_id: 2, mark: None, .. }));
        }
        _ => panic!("the first line is the plugin's"),
    }
}

#[test]
fn a_tick_is_shown_on_the_item_that_is_there() {
    let check = LiveItem { is_check: true, active: false, position: Some(3) };
    let plain = LiveItem { is_check: false, active: false, position: Some(3) };
    assert_eq!(show_recorded_mark(None, Some(check)), MarkShow::Nothing);
    assert_eq!(show_recorded_mark(Some(true), None), MarkShow::Nothing);
    assert_eq!(show_recorded_mark(Some(true), Some(check)), MarkShow::SetActive(true));
    assert_eq!(show_recorded_mark(Some(false), Some(check)), MarkShow::Nothing);
    assert_eq!(
        show_recorded_mark(Some(false), Some(plain)),
        MarkShow::Replace { position: 3 }
    );
    let nowhere = LiveItem { position: None, ..plain };
    assert_eq!(show_recorded_mark(Some(true), Some(nowhere)), MarkShow::Nothing);
}

#[test]
fn setting_an_item_runs_nothing() {
    let echo = on_plugin_item_activated(true);
    assert!(!echo.run && !echo.show_mark);
    let click = on_plugin_item_activated(false);
    assert!(click.run && click.show_mark);
}

#[test]
fn the_list_of_plugins_says_what_became_of_each() {
    let plugin = |index: usize, loaded: bool, reason: Option<&str>, disabled: bool| {
        InstalledPlugin {
            index,
            name: format!("p{index}"),
            loaded,
            failed_reason: reason.map(|r| r.to_string()),
            disabled,
        }
    };
    let mut rows = manager_rows(&vec![
        plugin(0, true, None, false),
        plugin(1, false, Some("no setInfo"), false),
        plugin(2, false, None, true),
    ]);
    assert_eq!(rows[0].status, "Loaded");
    assert_eq!(rows[1].status, "Failed: no setInfo");
    assert_eq!(rows[2].status, "Not loaded");
    assert_eq!(rows[2].name, "p2");
    assert!(rows[0].enabled && !rows[2].enabled);
    assert_eq!(rows[0].toggle(), (0, true));
    assert!(!rows[0].enabled);
    assert_eq!(rows[0].toggle(), (0, false));
    assert!(rows[0].enabled);
}

#[test]
fn every_plugin_is_warned_before_the_end_is_told() {
    assert_eq!(notify_shutdown(), vec![ShutdownNotice::BeforeShutdown, ShutdownNotice::Shutdown]);
}
