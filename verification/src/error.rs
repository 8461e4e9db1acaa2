//! What can go wrong while the window is brought up.
use vstd::prelude::*;

verus! {

/// A failure that ends the program before it has a window.
#[derive(Debug)]
pub enum GtkUiError {
    /// The toolkit would not start, mostly for want of a display.
    GtkInit,
    /// The editor component made no widget.
    ScintillaCreate,
    /// The editor widget has no function to call it by.
    DirectCallCapture,
    /// The shell would not start, for the reason given.
    Shell(String),
}

impl GtkUiError {
    pub open spec fn text(&self) -> Seq<char> {
        match self {
            GtkUiError::GtkInit =>
                "failed to initialise GTK — is a display available? (DISPLAY / WAYLAND_DISPLAY unset when running headless)"@,
            GtkUiError::ScintillaCreate => "scintilla_new() returned null"@,
            GtkUiError::DirectCallCapture =>
                "Scintilla did not return a direct-call function/instance pair"@,
            GtkUiError::Shell(e) => "failed to start the shell: "@ + e@,
        }
    }

    /// The failure in words.
    pub fn message(&self) -> (r: String)
        ensures
            r@ == self.text(),
    {
        match self {
            GtkUiError::GtkInit => String::from_str(
                "failed to initialise GTK — is a display available? (DISPLAY / WAYLAND_DISPLAY unset when running headless)",
            ),
            GtkUiError::ScintillaCreate => String::from_str("scintilla_new() returned null"),
            GtkUiError::DirectCallCapture => String::from_str(
                "Scintilla did not return a direct-call function/instance pair",
            ),
            GtkUiError::Shell(e) => {
                let mut out: String = String::from_str("failed to start the shell: ");
                out.append(e.as_str());
                out
            },
        }
    }
}

/// Each failure is told in words of its own, and that of the shell with its
/// reason.
pub proof fn a_failure_is_told_in_its_words(reason: String)
    ensures
        GtkUiError::GtkInit.text()
            == "failed to initialise GTK — is a display available? (DISPLAY / WAYLAND_DISPLAY unset when running headless)"@,
        GtkUiError::ScintillaCreate.text() == "scintilla_new() returned null"@,
        GtkUiError::DirectCallCapture.text()
            == "Scintilla did not return a direct-call function/instance pair"@,
        GtkUiError::Shell(reason).text() == "failed to start the shell: "@ + reason@,
{
}

} // verus!
