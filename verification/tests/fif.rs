use ui_gtk::fif::{
    build_dock, divider_position, drain_into_dock, filter_patterns, push_file_rows, row_activated,
    run_search, FifDock, FifEvent, FifInputs, FifMatch, FifStats, JumpTarget, OpenBufferOutcome,
    OpenFileOutcome, PendingFile, Terminal,
};
use ui_gtk::paths::same_path;
use ui_gtk::text::to_text;

fn inputs(query: &str, directory: &str, filters: &str) -> FifInputs {
    FifInputs {
        query: query.to_string(),
        replacement: None,
        match_case: true,
        whole_word: false,
        regex: true,
        directory: directory.to_string(),
        filters: filters.to_string(),
        recurse: true,
        hidden: false,
    }
}

#[test]
fn a_search_needs_a_term_a_directory_and_filters_that_are_supported() {
    assert_eq!(run_search(inputs("", "", "!x")).err().as_deref(), Some("Enter a search term"));
    assert_eq!(
        run_search(inputs("x", "  \t", "!x")).err().as_deref(),
        Some("Enter a directory to search")
    );
    assert_eq!(
        run_search(inputs("x", "/tmp", "*.rs !*.txt")).err().as_deref(),
        Some("filters: '!' negation is not supported — remove those tokens")
    );
}

#[test]
fn a_search_is_what_the_page_says() {
    let r = run_search(inputs("needle", "  /src dir ", "*.rs  **/*.toml *")).ok().unwrap();
    assert_eq!(r.query, "needle");
    assert_eq!(r.root, "/src dir");
    assert_eq!(r.includes, vec!["**/*.rs", "**/*.toml"]);
    assert!(r.flags.match_case && !r.flags.whole_word && r.flags.regex);
    assert!(r.recurse && !r.hidden);
    assert_eq!(r.replacement, None);
}

#[test]
fn filters_for_everything_are_no_filters() {
    assert_eq!(filter_patterns("*.* *"), Ok(Vec::new()));
    assert_eq!(filter_patterns(""), Ok(Vec::new()));
    assert_eq!(filter_patterns("a"), Ok(vec!["**/a".to_string()]));
    assert!(filter_patterns("a !").is_err());
}

fn hit(line_no: u32) -> FifMatch {
    FifMatch { line_no, col_start: 2, col_end: 5, line_text: format!("line {line_no}") }
}

fn found(job: u64, name: &str, lines: &[u32], truncated: bool) -> FifEvent {
    FifEvent::FileMatches {
        job,
        file: PendingFile {
            path: name.as_bytes().to_vec(),
            display: name.to_string(),
            matches: lines.iter().map(|l| hit(*l)).collect(),
            truncated,
        },
    }
}

fn stats() -> FifStats {
    FifStats {
        total_matches: 3,
        files_with_matches: 2,
        files_scanned: 40,
        total_replacements: 5,
        files_modified: 2,
        global_cap_hit: false,
        depth_cap_hit: false,
    }
}

fn running(is_replace: bool) -> FifDock {
    let mut dock = build_dock();
    assert_eq!(dock.header, "Find in Files");
    dock.begin_job(7, is_replace);
    dock
}

#[test]
fn matches_become_rows_when_the_job_is_done() {
    let mut dock = running(false);
    assert_eq!(dock.header, "Searching…");
    assert!(dock.cancel_enabled);
    drain_into_dock(&mut dock, vec![found(7, "a.rs", &[3, 9], false), found(6, "old", &[1], false)]);
    assert_eq!(dock.header, "Searching… 2 matches in 1 files");
    assert!(dock.rows.is_empty());
    drain_into_dock(&mut dock, vec![
        found(7, "b.rs", &[1], true),
        FifEvent::Other,
        FifEvent::Done { job: 7, stats: stats() },
    ]);
    assert_eq!(dock.header, "3 matches in 2 files (40 scanned)");
    assert!(!dock.cancel_enabled);
    assert_eq!(dock.active_job, None);
    let shown: Vec<(String, String, String)> =
        dock.rows.iter().map(|r| (r.file.clone(), r.line.clone(), r.text.clone())).collect();
    assert_eq!(shown[0], ("a.rs".to_string(), "3".to_string(), "line 3".to_string()));
    assert_eq!(shown[2].0, "b.rs (truncated)");
    assert_eq!(dock.rows[1].target.line_no, 9);
    // Nothing runs: events are dropped.
    drain_into_dock(&mut dock, vec![found(7, "c.rs", &[1], false)]);
    assert_eq!(dock.rows.len(), 3);
}

#[test]
fn events_of_other_jobs_do_not_count() {
    let mut dock = running(false);
    drain_into_dock(&mut dock, vec![
        found(1, "a", &[1], false),
        FifEvent::Cancelled { job: 1 },
        FifEvent::Done { job: 2, stats: stats() },
    ]);
    assert_eq!(dock.active_job, Some(7));
    assert_eq!(dock.header, "Searching… 0 matches in 0 files");
}

#[test]
fn a_replace_counts_open_buffers() {
    let mut dock = running(true);
    let open = |outcome: OpenBufferOutcome, replaced: usize| FifEvent::ReplacedInOpenBuffer {
        job: 7,
        replaced,
        outcome,
    };
    drain_into_dock(&mut dock, vec![
        open(OpenBufferOutcome::Replaced, 4),
        open(OpenBufferOutcome::SkippedDirty, 9),
        open(OpenBufferOutcome::TabClosed, 9),
        FifEvent::Done { job: 7, stats: FifStats { global_cap_hit: true, ..stats() } },
    ]);
    assert_eq!(
        dock.header,
        "Replaced 9 occurrences in 2 files on disk, 4 in open buffers (skipped 1 open file(s) \
         with unsaved changes) — results incomplete, some content was not searched"
    );
}

#[test]
fn a_cancelled_job_says_what_it_found() {
    let mut dock = running(true);
    drain_into_dock(&mut dock, vec![
        found(7, "a", &[1, 2], false),
        FifEvent::ReplacedInOpenBuffer {
            job: 7,
            replaced: 3,
            outcome: OpenBufferOutcome::Replaced,
        },
        FifEvent::Cancelled { job: 7 },
    ]);
    assert_eq!(
        dock.header,
        "Cancelled — 2 matches in 1 files so far, 3 replaced in open buffers"
    );
    assert_eq!(dock.rows.len(), 2);
    let quiet = running(false);
    assert_eq!(quiet.summary(&Terminal::Cancelled), "Cancelled — 0 matches in 0 files so far");
}

#[test]
fn a_dock_comes_up_with_the_height_it_asks_for() {
    assert_eq!(divider_position(false, 600), Some(440));
    assert_eq!(divider_position(false, 320), None);
    assert_eq!(divider_position(true, 600), None);
}

#[test]
fn closing_the_dock_cancels_what_runs() {
    let mut dock = running(false);
    let (rows, job) = (dock.rows.len(), dock.active_job);
    dock.cancel();
    assert_eq!(dock.header, "Cancelling…");
    assert_eq!((dock.rows.len(), dock.active_job), (rows, job));
    assert!(dock.close());
    assert!(!dock.close());
}

#[test]
fn a_result_leads_to_its_match() {
    let mut dock = running(false);
    dock.pending_jump = Some(JumpTarget {
        path: "/tmp/a".to_string(),
        line_no: 12,
        col_start: 4,
        col_end: 9,
    });
    assert_eq!(dock.jump_line(&None), None);
    assert_eq!(dock.jump_line(&Some(b"/tmp/b".to_vec())), None);
    assert_eq!(dock.jump_line(&Some(b"tmp/a".to_vec())), None);
    for path in [&b"/tmp/a"[..], b"/tmp//a", b"//tmp/./a", b"/tmp/a/", b"/tmp/a/."] {
        assert_eq!(dock.jump_line(&Some(path.to_vec())), Some(11));
    }
    assert_eq!(dock.take_jump(100), Some((104, 109)));
    assert_eq!(dock.take_jump(100), None);
    dock.pending_jump =
        Some(JumpTarget { path: String::new(), line_no: 0, col_start: 1, col_end: 2 });
    assert_eq!(dock.jump_line(&Some(Vec::new())), Some(0));
    assert_eq!(dock.take_jump(-1), Some((1, 2)));
}

#[test]
fn a_jump_waits_for_a_file_that_is_being_read() {
    let existing = row_activated(OpenFileOutcome::SwitchedToExisting);
    assert!(existing.rebind && existing.jump && !existing.forget);
    let active = row_activated(OpenFileOutcome::AlreadyActive);
    assert!(!active.rebind && active.jump && !active.forget);
    let loading = row_activated(OpenFileOutcome::Loading);
    assert!(!loading.rebind && !loading.jump && !loading.forget);
    let rejected = row_activated(OpenFileOutcome::Rejected);
    assert!(!rejected.rebind && !rejected.jump && rejected.forget);
}

#[test]
fn paths_are_compared_as_the_standard_library_compares_them() {
    let paths = [
        "", "/", "//", ".", "./", "./.", "..", "../", "a", "./a", "a/", "a/.", "a//b", "a/b",
        "a/./b", "a/../b", "/a", "/./a", "//a", "/a/b/", "/a//b", ".a", "a.", "...", "/.", "/..",
    ];
    for a in paths {
        for b in paths {
            let same = std::path::Path::new(a) == std::path::Path::new(b);
            assert_eq!(same_path(a.as_bytes(), b.as_bytes()), same, "{a:?} and {b:?}");
        }
    }
}

#[test]
fn a_row_keeps_a_path_as_text() {
    let mut dock = running(false);
    drain_into_dock(&mut dock, vec![
        found(7, "/tmp/\u{e4}", &[1], false),
        FifEvent::FileMatches {
            job: 7,
            file: PendingFile {
                path: b"/tmp/\xff".to_vec(),
                display: "x".to_string(),
                matches: vec![hit(2)],
                truncated: false,
            },
        },
        FifEvent::Cancelled { job: 7 },
    ]);
    assert_eq!(dock.rows[0].target.path, "/tmp/\u{e4}");
    assert_eq!(dock.rows[1].target.path, "/tmp/\u{fffd}");
    assert_eq!(to_text(&b"ab".to_vec()), "ab");
    let mut rows = Vec::new();
    let file = PendingFile {
        path: Vec::new(),
        display: "shown".to_string(),
        matches: vec![hit(3)],
        truncated: true,
    };
    push_file_rows(&mut rows, &file, &"kept".to_string());
    assert_eq!((rows[0].file.as_str(), rows[0].line.as_str()), ("shown (truncated)", "3"));
    assert_eq!((rows[0].target.path.as_str(), rows[0].target.line_no), ("kept", 3));
}
