use ui_gtk::status::format_thousands;

#[test]
fn thousands_separator_matches_win32_formatting() {
    assert_eq!(format_thousands(0), "0");
    assert_eq!(format_thousands(999), "999");
    assert_eq!(format_thousands(1000), "1,000");
    assert_eq!(format_thousands(1_234_567), "1,234,567");
    // A separator never leads.
    assert_eq!(format_thousands(100), "100");
}
