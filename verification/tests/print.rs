use ui_gtk::print::{
    page_count, page_start, page_text, paginate, print_report, prints, PrintOutcome, MAX_PAGES,
};

#[test]
fn paginate_records_each_page_start() {
    // A measurer that fits 10 characters per page over a 35-char doc.
    let starts = paginate(35, |cp| cp + 10);
    assert_eq!(starts, vec![0, 10, 20, 30]);
}

#[test]
fn paginate_empty_document_is_one_page() {
    let starts = paginate(0, |cp| cp + 10);
    assert_eq!(starts, vec![0]);
}

#[test]
fn paginate_breaks_on_a_non_advancing_measure() {
    // A measurer that never advances must not loop forever — it yields a
    // single page instead.
    let starts = paginate(100, |cp| cp);
    assert_eq!(starts, vec![0]);
}

#[test]
fn paginate_is_capped_at_max_pages() {
    // One character per page over an effectively unbounded document stops
    // at the cap rather than allocating without limit.
    let starts = paginate(isize::MAX, |cp| cp + 1);
    assert_eq!(starts.len(), MAX_PAGES);
}

#[test]
fn a_document_that_fits_exactly_has_no_page_more() {
    assert_eq!(paginate(20, |cp| cp + 10), vec![0, 10]);
    assert_eq!(paginate(-5, |cp| cp + 10), vec![0]);
    // A measure that goes back ends the search.
    assert_eq!(paginate(100, |cp| if cp == 0 { 40 } else { 10 }), vec![0, 40]);
}

#[test]
fn pages_are_asked_for_by_number() {
    let starts = vec![0, 10, 20];
    assert_eq!(page_start(&starts, 1), (1, 10));
    assert_eq!(page_start(&starts, -1), (0, 0));
    assert_eq!(page_start(&starts, 9), (9, 0));
    assert_eq!(page_count(&starts), 3);
    assert_eq!(page_text(2, 3), "Page 2 of 3");
}

#[test]
fn printing_at_once_needs_something_to_print() {
    assert!(!prints(true, 0));
    assert!(prints(false, 0));
    assert!(prints(true, 1));
}

#[test]
fn a_print_without_a_printer_is_reported_where_nobody_cancelled() {
    assert_eq!(print_report(PrintOutcome::Done, true), None);
    assert_eq!(print_report(PrintOutcome::Cancelled, false), None);
    assert_eq!(
        print_report(PrintOutcome::Cancelled, true).as_deref(),
        Some("No printer is installed, or the default printer could not be opened.")
    );
    assert_eq!(
        print_report(PrintOutcome::Failed("no paper".to_string()), false).as_deref(),
        Some("no paper")
    );
}
