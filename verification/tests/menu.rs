use ui_gtk::languages::{
    build_encoding_menu, build_language_menu, file_under, first_letter, language_marked, same_encoding_family,
    Encoding, LanguageLine,
};
use ui_gtk::menu::{
    accelerator, edit_menu, enabled, file_menu, help_menu, help_page, is_check, key_hint, label,
    menu_title,
    mnemonic, refreshes_chrome, search_menu, second_accelerator, settings_menu, view_menu, Accel,
    Command, FileMenuReading, MenuLine,
};
use ui_gtk::recent::{
    populate_open_files_menu, recent_region_items, NamedTab, OpenFiles, RecentSettings,
    RegionLine, RegionTracker,
};
use ui_gtk::toolbar::{build_toolbar, uses_double_icon, ButtonKind, ToolbarItem, ToolbarToggle};
use ui_gtk::view_settings::{
    apply_view_settings, refresh_view_indicators, toggle_view_setting, EditorSetting, ViewReading,
    ViewSettings, ViewToggle,
};

fn all_lines() -> Vec<MenuLine> {
    let mut lines = file_menu();
    lines.extend(edit_menu());
    lines.extend(search_menu());
    lines.extend(view_menu());
    lines.extend(settings_menu());
    lines.extend(help_menu());
    lines
}

fn commands() -> Vec<Command> {
    let mut out: Vec<Command> = Vec::new();
    for line in all_lines() {
        if let MenuLine::Item(c) = line {
            out.push(c);
        }
    }
    out.push(Command::RestoreRecent);
    out
}

#[test]
fn the_bar_has_nine_menus() {
    let titles: Vec<&str> = (0..9).map(|i| menu_title(i).unwrap()).collect();
    assert_eq!(
        titles,
        vec![
            "_File", "_Edit", "_Search", "_View", "E_ncoding", "_Language", "Se_ttings",
            "_Plugins", "?"
        ]
    );
    assert_eq!(menu_title(9), None);
}

#[test]
fn no_key_runs_two_commands() {
    let mut keys: Vec<(u32, bool, bool, bool)> = Vec::new();
    for c in commands() {
        for a in [accelerator(c), second_accelerator(c)].into_iter().flatten() {
            let key = if (0x41..=0x5a).contains(&a.key) { a.key + 0x20 } else { a.key };
            let key = (key, a.ctrl, a.shift, a.alt);
            assert!(!keys.contains(&key), "{c:?} shares its key");
            keys.push(key);
        }
    }
    assert_eq!(keys.len(), 30);
}

#[test]
fn no_command_stands_twice() {
    let all = commands();
    for (i, c) in all.iter().enumerate() {
        assert!(!all[i + 1..].contains(c), "{c:?} stands twice");
    }
}

#[test]
fn keys_are_the_usual_ones() {
    let ctrl = |key: char| Some(Accel { key: key as u32, ctrl: true, shift: false, alt: false });
    assert_eq!(accelerator(Command::New), ctrl('n'));
    assert_eq!(accelerator(Command::Save), ctrl('s'));
    assert_eq!(
        accelerator(Command::SaveAs),
        Some(Accel { key: 's' as u32, ctrl: true, shift: false, alt: true })
    );
    assert_eq!(
        accelerator(Command::SaveAll),
        Some(Accel { key: 'S' as u32, ctrl: true, shift: true, alt: false })
    );
    assert_eq!(accelerator(Command::Delete), None);
    assert_eq!(
        accelerator(Command::FindPrevious),
        Some(Accel { key: 0xffc0, ctrl: false, shift: true, alt: false })
    );
    assert_eq!(second_accelerator(Command::ZoomIn), ctrl('='));
    assert_eq!(key_hint(Command::Redo), Some("Ctrl+Y / Ctrl+Shift+Z"));
    assert_eq!(key_hint(Command::Cut), None);
}

#[test]
fn file_mnemonics_are_shared_by_nothing_but_new_and_print_now() {
    let mut seen: Vec<(char, Command)> = Vec::new();
    let mut shared: Vec<(Command, Command)> = Vec::new();
    let mut items: Vec<Command> = Vec::new();
    for line in file_menu() {
        if let MenuLine::Item(c) = line {
            items.push(c);
        }
    }
    items.push(Command::RecentFiles);
    items.push(Command::RestoreRecent);
    for c in items {
        let m = mnemonic(label(c)).unwrap().to_ascii_lowercase();
        if let Some((_, other)) = seen.iter().find(|(k, _)| *k == m) {
            shared.push((*other, c));
        }
        seen.push((m, c));
    }
    assert_eq!(shared, vec![(Command::New, Command::PrintNow)]);
    assert_eq!(mnemonic("plain"), None);
    assert_eq!(mnemonic("end_"), None);
    assert_eq!(mnemonic(""), None);
}

#[test]
fn the_file_menu_is_in_order() {
    let menu = file_menu();
    assert_eq!(menu[0], MenuLine::Item(Command::New));
    assert_eq!(menu[2], MenuLine::Item(Command::OpenContainingFolder));
    assert_eq!(menu[3], MenuLine::Item(Command::OpenInDefaultViewer));
    assert_eq!(menu[13], MenuLine::Item(Command::MoveToRecycleBin));
    assert_eq!(menu[14], MenuLine::Separator);
    assert_eq!(menu[20], MenuLine::RecentRegion);
    assert_eq!(menu.last(), Some(&MenuLine::Item(Command::Exit)));
}

#[test]
fn what_needs_a_file_is_greyed_without_one() {
    let without = FileMenuReading { has_path: false, has_parent: false, has_recents: false };
    let with = FileMenuReading { has_path: true, has_parent: true, has_recents: true };
    for c in [
        Command::MoveToRecycleBin,
        Command::OpenInDefaultViewer,
        Command::OpenContainingFolder,
        Command::EmptyRecent,
    ] {
        assert!(!enabled(c, without));
        assert!(enabled(c, with));
    }
    assert!(!enabled(Command::HelpManual, with));
    assert!(!enabled(Command::HelpUpdate, with));
    assert!(enabled(Command::Save, without));
    assert_eq!(help_page(Command::HelpHome), Some("https://code-plus-plus.org/"));
    assert_eq!(help_page(Command::About), None);
    assert!(refreshes_chrome(Command::Cut));
    assert!(!refreshes_chrome(Command::Copy));
}

fn region(names: &[&str], active: bool, in_submenu: bool) -> (Vec<String>, Vec<String>) {
    let names: Vec<String> = names.iter().map(|n| n.to_string()).collect();
    let r = recent_region_items(&names, RecentSettings { active, in_submenu });
    let show = |lines: Vec<RegionLine>| -> Vec<String> {
        lines
            .into_iter()
            .map(|l| match l {
                RegionLine::Separator => "-".to_string(),
                RegionLine::File { index, label } => format!("{index}/{label}"),
                RegionLine::Restore { enabled } => format!("restore {enabled}"),
                RegionLine::OpenAll { enabled } => format!("open {enabled}"),
                RegionLine::Empty { enabled } => format!("empty {enabled}"),
                RegionLine::Submenu => "submenu".to_string(),
            })
            .collect()
    };
    (show(r.top), show(r.nested))
}

#[test]
fn recent_files_stand_in_the_menu_or_in_a_submenu() {
    let body = vec!["0/1: a.txt", "1/2: b.txt", "-", "restore true", "open true", "empty true"];
    let (top, nested) = region(&["a.txt", "b.txt"], true, false);
    assert_eq!(top[0], "-");
    assert_eq!(top[1..].to_vec(), body);
    assert!(nested.is_empty());
    let (top, nested) = region(&["a.txt", "b.txt"], true, true);
    assert_eq!(top, vec!["-", "submenu"]);
    assert_eq!(nested, body);
    let (top, _) = region(&[], true, false);
    assert_eq!(top, vec!["-", "restore false", "open false", "empty false"]);
    let (top, nested) = region(&["a.txt"], false, true);
    assert!(top.is_empty() && nested.is_empty());
}

fn carry_out(menu: &[u64], remove: &[u64], insert: &[(u64, i32)]) -> Vec<u64> {
    let mut out: Vec<u64> = menu.iter().copied().filter(|w| !remove.contains(w)).collect();
    for (w, at) in insert {
        out.insert(*at as usize, *w);
    }
    out
}

#[test]
fn a_rebuild_touches_nothing_but_the_region() {
    let mut tracker = RegionTracker { items: Vec::new() };
    let menu = vec![1, 2, 9, 3];
    let plan = tracker.rebuild(&menu, Some(9), vec![50, 51]);
    let menu = carry_out(&menu, &plan.remove, &plan.insert);
    assert_eq!(menu, vec![1, 2, 50, 51, 9, 3]);
    let plan = tracker.rebuild(&menu, Some(9), vec![60]);
    assert_eq!(plan.remove, vec![50, 51]);
    let menu = carry_out(&menu, &plan.remove, &plan.insert);
    assert_eq!(menu, vec![1, 2, 60, 9, 3]);
    // Without the anchor the region goes and nothing comes.
    let plan = tracker.rebuild(&menu, None, vec![70]);
    assert_eq!(carry_out(&menu, &plan.remove, &plan.insert), vec![1, 2, 9, 3]);
    assert!(tracker.items.is_empty());
    let plan = tracker.rebuild(&vec![1, 2], Some(9), vec![80]);
    assert!(plan.insert.is_empty() && tracker.items.is_empty());
}

#[test]
fn open_files_are_listed_with_the_active_one_marked() {
    match populate_open_files_menu(Vec::new(), None) {
        OpenFiles::Nothing(text) => assert_eq!(text, "(no open files)"),
        OpenFiles::Rows(_) => panic!("there is no file"),
    }
    let tabs = vec![
        NamedTab { id: 4, name: "a".to_string() },
        NamedTab { id: 7, name: "b".to_string() },
    ];
    match populate_open_files_menu(tabs, Some(1)) {
        OpenFiles::Rows(rows) => {
            assert_eq!((rows[0].id, rows[0].name.as_str(), rows[0].active), (4, "a", false));
            assert_eq!((rows[1].id, rows[1].name.as_str(), rows[1].active), (7, "b", true));
        }
        OpenFiles::Nothing(_) => panic!("there are files"),
    }
}

#[test]
fn languages_that_share_a_letter_share_a_submenu() {
    let labels: Vec<String> = ["Normal Text", "Ada", "asp", "Batch", "C", "C#", "C++", "D"]
        .iter()
        .map(|s| s.to_string())
        .collect();
    assert_eq!(
        build_language_menu(&labels),
        vec![
            LanguageLine::Language(0),
            LanguageLine::Separator,
            LanguageLine::Letter { letter: 'A', from: 1, to: 3 },
            LanguageLine::Language(3),
            LanguageLine::Letter { letter: 'C', from: 4, to: 7 },
            LanguageLine::Language(7),
            LanguageLine::Separator,
            LanguageLine::UserDefined,
        ]
    );
    let alone = build_language_menu(&vec!["Normal Text".to_string()]);
    assert_eq!(alone.len(), 4);
    assert_eq!(first_letter("python"), 'P');
    assert_eq!(first_letter(""), ' ');
    assert_eq!(first_letter("éa"), 'é');
    assert_eq!(first_letter("#x"), ' ');
    assert_eq!(first_letter("4gl"), ' ');
    assert_eq!(first_letter("Zig"), 'Z');
    assert_eq!(first_letter("\u{2192}x"), ' ');
    assert_eq!(first_letter("\u{4E2D}"), '\u{4E2D}');
    assert_eq!(file_under('\u{2192}', true), '\u{2192}');
    assert_eq!(file_under('\u{2192}', false), ' ');
    assert_eq!(file_under('q', false), 'Q');
    assert_eq!(file_under('Q', false), 'Q');
    assert_eq!(file_under('4', true), ' ');
    assert!(language_marked(3, Some(3)));
    assert!(!language_marked(3, Some(4)));
    assert!(!language_marked(3, None));
}

#[test]
fn encodings_light_up_one_row() {
    let rows = build_encoding_menu();
    assert_eq!(rows.len(), 5);
    assert_eq!((rows[0].label, rows[0].encoding), ("_ANSI", None));
    assert_eq!(rows[4].encoding, Some(Encoding::Utf16BeBom));
    let marked = |active: Encoding| -> Vec<usize> {
        (0..rows.len())
            .filter(|i| rows[*i].encoding.is_some_and(|e| same_encoding_family(active, e)))
            .collect()
    };
    assert_eq!(marked(Encoding::Utf8), vec![1]);
    assert_eq!(marked(Encoding::Utf8Bom), vec![2]);
    assert_eq!(marked(Encoding::Utf16Le), vec![3]);
    assert_eq!(marked(Encoding::Utf16LeBom), vec![3]);
    assert_eq!(marked(Encoding::Utf16Be), vec![4]);
    assert_eq!(marked(Encoding::Utf16BeBom), vec![4]);
    assert!(marked(Encoding::Other).is_empty());
}

fn tell(reading: &mut ViewReading, messages: &[EditorSetting]) {
    for m in messages {
        match m {
            EditorSetting::IndentationGuides(on) => reading.guides = *on,
            EditorSetting::WrapMode(on) => reading.wraps = *on,
            EditorSetting::ScrollWidth(w) => assert_eq!(*w, 1),
            EditorSetting::ViewWhitespace(on) => reading.shows_whitespace = *on,
            EditorSetting::ViewEol(on) => reading.shows_eol = *on,
        }
    }
}

#[test]
fn the_items_show_what_the_editor_does() {
    let mut view = ViewSettings {
        word_wrap: false,
        show_whitespace: false,
        show_eol: true,
        indent_guide: false,
    };
    let mut editor =
        ViewReading { wraps: true, shows_whitespace: true, shows_eol: false, guides: true };
    tell(&mut editor, &apply_view_settings(view));
    let shown = refresh_view_indicators(editor);
    assert!(!shown.menu_word_wrap && !shown.tb_word_wrap && shown.menu_show_eol);
    assert!(!shown.tb_show_all_chars && !shown.tb_indent_guide);
    let told = toggle_view_setting(&mut view, false, ViewToggle::ShowAllChars, true).unwrap();
    tell(&mut editor, &told);
    assert!(view.show_whitespace && view.show_eol && !view.word_wrap);
    assert!(refresh_view_indicators(editor).tb_show_all_chars);
    let told = toggle_view_setting(&mut view, false, ViewToggle::WordWrap, true).unwrap();
    tell(&mut editor, &told);
    let shown = refresh_view_indicators(editor);
    assert!(shown.menu_word_wrap && shown.tb_word_wrap);
    // An echo of setting the items is no switch.
    let before = view;
    assert_eq!(toggle_view_setting(&mut view, true, ViewToggle::IndentGuide, true), None);
    assert_eq!(view, before);
    toggle_view_setting(&mut view, false, ViewToggle::IndentGuide, true);
    toggle_view_setting(&mut view, false, ViewToggle::ShowWhitespace, false);
    toggle_view_setting(&mut view, false, ViewToggle::ShowEol, false);
    assert_eq!(
        view,
        ViewSettings {
            word_wrap: true,
            show_whitespace: false,
            show_eol: false,
            indent_guide: true,
        }
    );
}

#[test]
fn the_toolbar_has_thirty_two_buttons_in_ten_groups() {
    let items = build_toolbar();
    let mut buttons = 0;
    let mut groups = 1;
    let mut pushes = 0;
    for item in &items {
        match item {
            ToolbarItem::Separator => groups += 1,
            ToolbarItem::Button { icon, tip, kind } => {
                assert!(!icon.is_empty() && !tip.is_empty());
                buttons += 1;
                if let ButtonKind::Push(c) = kind {
                    pushes += 1;
                    assert!(commands().contains(c));
                }
            }
        }
    }
    assert_eq!((buttons, groups, pushes), (32, 10, 15));
    assert!(items.iter().any(|i| matches!(
        i,
        ToolbarItem::Button {
            icon: "document-map",
            kind: ButtonKind::Toggle(ToolbarToggle::DocumentMap),
            ..
        }
    )));
    assert!(uses_double_icon(2) && !uses_double_icon(1));
}

#[test]
fn seven_items_carry_a_mark() {
    let all = [file_menu(), edit_menu(), search_menu(), view_menu(), settings_menu(), help_menu()];
    let mut marked = Vec::new();
    for line in all.into_iter().flatten() {
        if let MenuLine::Item(command) = line {
            if is_check(command) {
                marked.push(command);
            }
        }
    }
    let expected = vec![
        Command::BeginEndSelect,
        Command::BeginEndSelectColumn,
        Command::WordWrap,
        Command::ShowWhitespace,
        Command::ShowEol,
        Command::FolderAsWorkspace,
        Command::DocumentMap,
    ];
    assert_eq!(marked.len(), expected.len());
    assert!(expected.iter().all(|c| marked.contains(c)));
}
