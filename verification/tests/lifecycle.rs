use ui_gtk::delivery::{DeliveryQueue, DrainFreeze, Latch};
use ui_gtk::error::GtkUiError;
use ui_gtk::startup::{StartupRun, StartupStep, StepFailure};
use ui_gtk::state::{install, uninstall, with_state, StateSlot};
use ui_gtk::tabs::{label_press, tab_icon, TabInfo, TabStrip};
use ui_gtk::text::{decimal_text, split_text, split_words, trim_text, white};

#[test]
fn white_space_is_what_the_standard_library_says() {
    for code in 0..=0x10FFFFu32 {
        if let Some(c) = char::from_u32(code) {
            assert_eq!(white(c), c.is_whitespace(), "{code:x}");
        }
    }
}

#[test]
fn texts_are_built_and_taken_apart() {
    assert_eq!(decimal_text(0), "0");
    assert_eq!(decimal_text(u64::MAX), u64::MAX.to_string());
    assert_eq!(trim_text(" \u{3000}a b\t\n"), "a b");
    assert_eq!(split_text("a,,b", ','), vec!["a", "", "b"]);
    assert_eq!(split_words("  a \t b\u{a0}c "), vec!["a", "b", "c"]);
    assert!(split_words(" \n").is_empty());
}

#[test]
fn a_state_is_lent_to_one_at_a_time() {
    let mut slot: StateSlot<Vec<i32>> = StateSlot::new();
    assert_eq!(with_state(&mut slot, |s| (s, 1)), None);
    install(&mut slot, vec![1]);
    assert_eq!(
        with_state(&mut slot, |mut s| {
            s.push(2);
            let n = s.len();
            (s, n)
        }),
        Some(2)
    );
    let loan = slot.borrow_state().unwrap();
    assert_eq!(loan.state, vec![1, 2]);
    assert!(slot.borrow_state().is_none());
    assert_eq!(with_state(&mut slot, |s| (s, 1)), None);
    // Another state was put in its place meanwhile: the old one is dropped.
    install(&mut slot, vec![9]);
    assert_eq!(slot.give_back(loan), Some(vec![1, 2]));
    assert_eq!(with_state(&mut slot, |s| (s.clone(), s)), Some(vec![9]));
    uninstall(&mut slot);
    assert!(!slot.is_installed());
}

#[test]
fn deliveries_do_not_nest() {
    let mut queue = DeliveryQueue::new();
    assert!(queue.start(vec![1, 2]));
    assert_eq!(queue.next(), Some(1));
    assert!(!queue.start(vec![3]));
    assert_eq!(queue.next(), Some(2));
    assert_eq!(queue.next(), Some(3));
    assert_eq!(queue.next(), None);
    assert!(queue.start(vec![4]));
    queue.abandon();
    assert!(queue.start(Vec::new()));
    assert_eq!(queue.next(), Some(4));
}

#[test]
fn an_inner_hold_does_not_lift_the_outer_one() {
    let mut freeze = DrainFreeze::new();
    assert!(!freeze.active());
    freeze.hold();
    freeze.hold();
    freeze.lift();
    assert!(freeze.active());
    freeze.lift();
    assert!(!freeze.active());
    freeze.lift();
    assert!(!freeze.active());
    let mut latch = Latch::new();
    assert!(latch.try_set());
    assert!(!latch.try_set());
    latch.release();
    assert!(!latch.get());
}

#[test]
fn failures_are_named() {
    assert_eq!(
        GtkUiError::GtkInit.message(),
        "failed to initialise GTK — is a display available? (DISPLAY / WAYLAND_DISPLAY unset \
         when running headless)"
    );
    assert_eq!(GtkUiError::ScintillaCreate.message(), "scintilla_new() returned null");
    assert_eq!(
        GtkUiError::DirectCallCapture.message(),
        "Scintilla did not return a direct-call function/instance pair"
    );
    assert_eq!(
        GtkUiError::Shell("no inotify".to_string()).message(),
        "failed to start the shell: no inotify"
    );
}

#[test]
fn a_start_takes_its_steps_in_order() {
    let mut run = StartupRun::new();
    let mut steps = Vec::new();
    while let Some(step) = run.step(Ok(())).ok().unwrap() {
        steps.push(step);
    }
    assert_eq!(steps.len(), 25);
    let place = |s: StartupStep| steps.iter().position(|x| *x == s).unwrap();
    assert!(place(StartupStep::CaptureEditor) < place(StartupStep::InstallState));
    assert!(place(StartupStep::InstallState) < place(StartupStep::ConnectHandlers));
    assert!(place(StartupStep::RestoreSession) < place(StartupStep::ApplyViewSettings));
    assert!(place(StartupStep::RestoreSession) < place(StartupStep::RestoreDocMap));
    assert!(place(StartupStep::RunMainLoop) < place(StartupStep::UninstallState));
}

#[test]
fn a_step_that_fails_ends_the_start() {
    for (failure, text) in [
        (StepFailure::Toolkit, GtkUiError::GtkInit.message()),
        (StepFailure::NoWidget, GtkUiError::ScintillaCreate.message()),
        (StepFailure::NoDirectCall, GtkUiError::DirectCallCapture.message()),
        (StepFailure::Shell("x".to_string()), "failed to start the shell: x".to_string()),
    ] {
        let mut run = StartupRun::new();
        assert!(run.step(Ok(())).is_ok());
        assert_eq!(run.step(Err(failure)).err().unwrap().message(), text);
        assert_eq!(run.step(Ok(())).ok().unwrap(), None);
    }
}

fn tab(id: i32, dirty: bool) -> TabInfo {
    TabInfo { id, name: format!("t{id}"), dirty }
}

#[test]
fn a_strip_in_step_gains_and_loses_nothing() {
    let mut strip = TabStrip::new();
    let first = strip.sync(5, vec![tab(1, false), tab(2, true)], Some(0), 1);
    assert_eq!((first.append, first.remove), (0, 3));
    strip.synced(vec![70, 71]);
    let second = strip.sync(2, vec![tab(1, false), tab(2, true)], Some(0), 1);
    assert_eq!((second.append, second.remove, second.select), (0, 0, first.select));
    assert_eq!(second.labels[1].name, first.labels[1].name);
}

#[test]
fn the_strip_follows_the_tabs() {
    let mut strip = TabStrip::new();
    assert!(!strip.is_suppressed());
    let plan = strip.sync(1, vec![tab(4, false), tab(5, true)], Some(1), 2);
    assert!(strip.is_suppressed());
    assert_eq!((plan.append, plan.remove, plan.select), (1, 0, Some(1)));
    assert_eq!((plan.labels[1].id, plan.labels[1].name.as_str()), (5, "t5"));
    assert_eq!(plan.labels[1].icon, tab_icon(true, 2));
    assert_eq!(plan.labels[0].icon, tab_icon(false, 3));
    assert_ne!(tab_icon(false, 1), tab_icon(false, 2));
    strip.synced(vec![70, 71]);
    assert!(!strip.is_suppressed());
    assert_eq!(strip.index_before_reorder(71), Some(1));
    assert_eq!(strip.index_before_reorder(99), None);
    let plan = strip.sync(2, vec![tab(4, false)], Some(3), 1);
    assert_eq!((plan.append, plan.remove, plan.select), (0, 1, None));
    strip.synced(vec![70]);
    assert!(label_press(2));
    assert!(!label_press(1));
}
