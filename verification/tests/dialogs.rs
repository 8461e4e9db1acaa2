use ui_gtk::preferences::{
    build_content, close_dialog, page_of_row, page_title, range_hint, read_back, Limits,
    Preferences, RecentFileDisplayMode,
};
use ui_gtk::search::{goto_line, parse_number, FindReplaceDialog, SearchOutcome};
use ui_gtk::style_config::{
    apply_default_style, build_font_combo, read_styles, seed_colour, sorted_families, FontCombo,
    StyleControls, StyleEntry, StyleStep, Transparency, DEFAULT_BG, DEFAULT_FG,
};

const LIMITS: Limits = Limits { max_entries: 30, custom_max_length: 259 };

fn preferences() -> Preferences {
    Preferences {
        enabled: true,
        in_submenu: false,
        max_entries: 10,
        display_mode: RecentFileDisplayMode::FullPath,
        custom_max_length: 50,
        verify_panel_commands: true,
    }
}

fn samples() -> Vec<Preferences> {
    let flipped = Preferences {
        enabled: false,
        in_submenu: true,
        display_mode: RecentFileDisplayMode::OnlyFileName,
        max_entries: 0,
        custom_max_length: 1,
        verify_panel_commands: false,
    };
    let limits = Preferences {
        display_mode: RecentFileDisplayMode::CustomMaxLength,
        max_entries: 30,
        custom_max_length: 259,
        ..preferences()
    };
    vec![preferences(), flipped, limits]
}

#[test]
fn an_untouched_dialog_changes_nothing() {
    for prefs in samples() {
        let controls = build_content(prefs, LIMITS);
        assert_eq!(read_back(&controls), prefs);
        assert_eq!(close_dialog(&controls, &prefs), None);
        assert_eq!(
            controls.custom_length_enabled,
            prefs.display_mode == RecentFileDisplayMode::CustomMaxLength
        );
    }
}

#[test]
fn every_page_is_read_back_as_the_user_left_it() {
    let prior = preferences();
    let mut c = build_content(prior, LIMITS);
    c.verify = false;
    c.dont_check = true;
    c.in_submenu = true;
    c.full_path = false;
    c.custom = true;
    c.custom_length = 42;
    c.max_entries = 7;
    assert_eq!(
        close_dialog(&c, &prior),
        Some(Preferences {
            enabled: false,
            in_submenu: true,
            max_entries: 7,
            display_mode: RecentFileDisplayMode::CustomMaxLength,
            custom_max_length: 42,
            verify_panel_commands: false,
        })
    );
    c.max_entries = -3;
    c.custom_length = 0;
    c.only_name = true;
    let p = read_back(&c);
    assert_eq!((p.max_entries, p.custom_max_length), (0, 1));
    assert_eq!(p.display_mode, RecentFileDisplayMode::OnlyFileName);
}

#[test]
fn numbers_beyond_the_limits_are_shown_as_the_limits() {
    let far = Preferences { max_entries: 1000, custom_max_length: 0, ..preferences() };
    let c = build_content(far, LIMITS);
    assert_eq!((c.max_entries, c.custom_length), (30, 1));
    assert_eq!(range_hint(0, 30), "(0 - 30)");
}

#[test]
fn the_category_list_names_the_pages() {
    assert_eq!(page_title(0), Some("Recent Files History"));
    assert_eq!(page_title(1), Some("Security"));
    assert_eq!(page_title(2), None);
    assert_eq!(page_of_row(Some(1), 2), Some(1));
    assert_eq!(page_of_row(Some(2), 2), None);
    assert_eq!(page_of_row(Some(-1), 2), None);
    assert_eq!(page_of_row(None, 2), None);
}

#[test]
fn lines_are_typed_counted_from_one() {
    assert_eq!(goto_line(" 12 ", 12), Some(11));
    assert_eq!(goto_line("1", 12), Some(0));
    assert_eq!(goto_line("0", 12), None);
    assert_eq!(goto_line("", 12), None);
    assert_eq!(goto_line("1 2", 12), None);
    assert_eq!(goto_line("-3", 12), None);
    assert_eq!(goto_line("+3", 12), Some(2));
    assert_eq!(goto_line("12", 11), None);
    assert_eq!(goto_line("1", 0), None);
    assert_eq!(goto_line("1", -1), None);
}

#[test]
fn numbers_are_read_as_the_standard_library_reads_them() {
    let largest = format!("{}", usize::MAX);
    let too_large = format!("{largest}0");
    let just_too_large = "18446744073709551616";
    for text in [
        "", "+", "-", "0", "007", "+0", "-0", "++1", "12a", "a12", "١", "1_0", " 1", &largest,
        &too_large, just_too_large, "99999999999999999999999999",
    ] {
        assert_eq!(parse_number(text), text.parse::<usize>().ok(), "{text}");
    }
}

#[test]
fn a_selection_on_one_line_becomes_what_to_find() {
    let mut d = FindReplaceDialog::new();
    assert_eq!(d.title(), "Find");
    assert!(!d.can_search());
    d.open(true, Some("word".to_string()));
    assert_eq!((d.title(), d.query.as_str()), ("Replace", "word"));
    assert!(d.can_search());
    d.open(false, Some("two\nlines".to_string()));
    assert_eq!((d.title(), d.query.as_str()), ("Find", "word"));
    d.open(false, None);
    assert_eq!(d.query, "word");
    d.match_case = true;
    d.regex = true;
    let flags = d.flags();
    assert!(flags.match_case && !flags.whole_word && flags.regex);
}

#[test]
fn the_dialog_says_what_a_search_came_to() {
    let mut d = FindReplaceDialog::new();
    d.report(SearchOutcome::Find { found: false });
    assert_eq!(d.status, "Not found");
    d.report(SearchOutcome::Find { found: true });
    assert_eq!(d.status, "");
    d.report(SearchOutcome::Count { matches: 12 });
    assert_eq!(d.status, "12 matches");
    d.report(SearchOutcome::ReplaceOne { replaced: true });
    assert_eq!(d.status, "Replaced");
    d.report(SearchOutcome::ReplaceOne { replaced: false });
    assert_eq!(d.status, "Not found");
    d.report(SearchOutcome::ReplaceAll { count: 3 });
    assert_eq!(d.status, "3 replaced");
    d.report_repeat(true);
    assert_eq!(d.status, "3 replaced");
    d.report_repeat(false);
    assert_eq!(d.status, "Not found");
    d.open(false, None);
    assert_eq!(d.status, "");
}

fn controls() -> StyleControls {
    StyleControls {
        font: None,
        size: 200,
        bold: true,
        italic: false,
        underline: true,
        fg: (1, 2, 3),
        bg: (255, 255, 255),
        transparent: true,
        opacity: 3,
    }
}

#[test]
fn a_style_is_read_within_its_ranges() {
    let (entry, t) = read_styles(controls(), "Mono".to_string());
    assert_eq!((entry.font_name.as_str(), entry.font_size), ("Mono", 72));
    assert!(entry.bold && !entry.italic && entry.underline);
    assert_eq!((entry.fg, entry.bg), (Some((1, 2, 3)), Some((255, 255, 255))));
    assert_eq!(t, Transparency { enabled: true, percent: 20 });
    let small = StyleControls { font: Some("Sans".to_string()), size: 1, opacity: 101, ..controls() };
    let (entry, t) = read_styles(small, "Mono".to_string());
    assert_eq!((entry.font_name.as_str(), entry.font_size, t.percent), ("Sans", 5, 100));
}

fn entry(font: &str, fg: Option<(u8, u8, u8)>, bg: Option<(u8, u8, u8)>) -> StyleEntry {
    StyleEntry {
        font_name: font.to_string(),
        font_size: 11,
        bold: false,
        italic: true,
        underline: false,
        fg,
        bg,
    }
}

/// Open the dialog over these families and save at once.
fn save_untouched(entry: &StyleEntry, families: &[&str], t: Transparency) -> (StyleEntry, Transparency) {
    let fonts = build_font_combo(&names(families), &entry.font_name);
    let seeded = ui_gtk::style_config::build_content(entry, &fonts, t);
    read_styles(seeded, entry.font_name.clone())
}

#[test]
fn an_untouched_style_stays_as_it_is() {
    let t = Transparency { enabled: false, percent: 80 };
    let set = entry("Mono", Some((0, 0, 0)), Some((0xEE, 0xEE, 0xEE)));
    for families in [&["Sans", "Mono"][..], &["Sans"], &[]] {
        let (back, again) = save_untouched(&set, families, t);
        assert_eq!((back.font_name.as_str(), back.font_size, back.italic), ("Mono", 11, true));
        assert_eq!((back.fg, back.bg), (set.fg, set.bg));
        assert_eq!(again, t);
    }
}

#[test]
fn what_cannot_be_shown_is_saved_as_what_is_shown() {
    let t = Transparency { enabled: false, percent: 80 };
    let unset = entry("", None, None);
    let (back, _) = save_untouched(&unset, &["Sans", "Mono"], t);
    assert_eq!(back.font_name, "Mono");
    assert_eq!((back.fg, back.bg), (Some(DEFAULT_FG), Some(DEFAULT_BG)));
    assert_eq!((DEFAULT_FG, DEFAULT_BG), ((0, 0, 0), (0xFF, 0xFF, 0xFF)));
    assert_eq!(save_untouched(&unset, &[], t).0.font_name, "");
    let beyond = FontCombo { items: names(&["Sans"]), active: 1 };
    assert_eq!(ui_gtk::style_config::build_content(&unset, &beyond, t).font, None);
}

#[test]
fn a_style_is_applied_in_order() {
    let entry = entry("Mono", None, Some((0x10, 0x20, 0x30)));
    let t = Transparency { enabled: true, percent: 250 };
    let steps = apply_default_style(entry, t);
    assert_eq!(steps.len(), 11);
    assert!(matches!(&steps[0], StyleStep::Font(f) if f == "Mono"));
    assert!(matches!(steps[1], StyleStep::Size(11)));
    assert!(matches!(steps[2], StyleStep::Fore(0)));
    assert!(matches!(steps[3], StyleStep::Back(0x302010)));
    assert!(matches!(steps[5], StyleStep::Italic(true)));
    assert!(matches!(steps[7], StyleStep::ClearAll));
    assert!(matches!(steps[8], StyleStep::Predefined));
    assert!(matches!(steps[9], StyleStep::Opacity(100)));
    assert!(matches!(steps[10], StyleStep::Colourise));
    assert_eq!(seed_colour(None, (1, 2, 3)), (1, 2, 3));
    assert_eq!(seed_colour(Some((4, 5, 6)), (1, 2, 3)), (4, 5, 6));
}

fn names(list: &[&str]) -> Vec<String> {
    list.iter().map(|s| s.to_string()).collect()
}

#[test]
fn families_are_sorted_as_the_standard_library_sorts_them() {
    let mixed = names(&["Mono", "sans", "Ärial", "Mono", "A", "Ab", "", "monos", "Sans", "日本"]);
    let mut expected = mixed.clone();
    expected.sort_unstable();
    expected.dedup();
    assert_eq!(sorted_families(&mixed), expected);
    assert!(sorted_families(&Vec::new()).is_empty());
}

#[test]
fn the_current_font_is_chosen() {
    let families = names(&["Sans", "Mono", "Serif", "Mono"]);
    let listed = build_font_combo(&families, &"Sans".to_string());
    assert_eq!(listed.items, names(&["Mono", "Sans", "Serif"]));
    assert_eq!(listed.active, 1);
    let extra = build_font_combo(&families, &"Zapf".to_string());
    assert_eq!(extra.items, names(&["Zapf", "Mono", "Sans", "Serif"]));
    assert_eq!(extra.active, 0);
    let none = build_font_combo(&families, &String::new());
    assert_eq!((none.items.len(), none.active), (3, 0));
}
