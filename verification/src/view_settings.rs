//! The settings of the View menu, and the items that show them.
//!
//! The editor is asked what it does, and every item that stands for a setting
//! is set to that, whichever of them the user used.
use vstd::prelude::*;

verus! {

/// The settings that the user can switch.
#[derive(Copy, Clone, PartialEq, Eq, Structural, Debug)]
pub struct ViewSettings {
    pub word_wrap: bool,
    pub show_whitespace: bool,
    pub show_eol: bool,
    pub indent_guide: bool,
}

/// What the user can switch.
#[derive(Copy, Clone, PartialEq, Eq, Structural, Debug)]
pub enum ViewToggle {
    WordWrap,
    ShowWhitespace,
    ShowEol,
    /// White space and line ends together.
    ShowAllChars,
    IndentGuide,
}

/// The settings after a switch.
pub open spec fn switched(view: ViewSettings, toggle: ViewToggle, on: bool) -> ViewSettings {
    match toggle {
        ViewToggle::WordWrap => ViewSettings { word_wrap: on, ..view },
        ViewToggle::ShowWhitespace => ViewSettings { show_whitespace: on, ..view },
        ViewToggle::ShowEol => ViewSettings { show_eol: on, ..view },
        ViewToggle::ShowAllChars => ViewSettings { show_whitespace: on, show_eol: on, ..view },
        ViewToggle::IndentGuide => ViewSettings { indent_guide: on, ..view },
    }
}

/// Something to tell the editor.
#[derive(Copy, Clone, PartialEq, Eq, Structural, Debug)]
pub enum EditorSetting {
    /// Guides at the indentation, in empty lines too, or none.
    IndentationGuides(bool),
    /// Wrap at words, or not at all.
    WrapMode(bool),
    /// Forget how wide the text has been, so that it is measured again.
    ScrollWidth(usize),
    /// White space visible everywhere, or nowhere.
    ViewWhitespace(bool),
    ViewEol(bool),
}

/// What the editor is told for some settings, in order.
pub open spec fn messages_of(view: ViewSettings) -> Seq<EditorSetting> {
    seq![
        EditorSetting::IndentationGuides(view.indent_guide),
        EditorSetting::WrapMode(view.word_wrap),
        EditorSetting::ScrollWidth(1),
        EditorSetting::ViewWhitespace(view.show_whitespace),
        EditorSetting::ViewEol(view.show_eol),
    ]
}

/// Work out what to tell the editor for some settings.
pub fn apply_view_settings(view: ViewSettings) -> (r: Vec<EditorSetting>)
    ensures
        r@ == messages_of(view),
{
    vec![
        EditorSetting::IndentationGuides(view.indent_guide),
        EditorSetting::WrapMode(view.word_wrap),
        EditorSetting::ScrollWidth(1),
        EditorSetting::ViewWhitespace(view.show_whitespace),
        EditorSetting::ViewEol(view.show_eol),
    ]
}

/// Handle a switch. While the items are being set (`refreshing`) it is no
/// switch at all, but the echo of setting them: nothing is to be told then.
pub fn toggle_view_setting(
    view: &mut ViewSettings,
    refreshing: bool,
    toggle: ViewToggle,
    on: bool,
) -> (r: Option<Vec<EditorSetting>>)
    ensures
        refreshing ==> r is None && *final(view) == *old(view),
        !refreshing ==> {
            &&& *final(view) == switched(*old(view), toggle, on)
            &&& r is Some
            &&& r->Some_0@ == messages_of(*final(view))
        },
{
    if refreshing {
        return None;
    }
    match toggle {
        ViewToggle::WordWrap => {
            view.word_wrap = on;
        },
        ViewToggle::ShowWhitespace => {
            view.show_whitespace = on;
        },
        ViewToggle::ShowEol => {
            view.show_eol = on;
        },
        ViewToggle::ShowAllChars => {
            view.show_whitespace = on;
            view.show_eol = on;
        },
        ViewToggle::IndentGuide => {
            view.indent_guide = on;
        },
    }
    Some(apply_view_settings(*view))
}

/// What the editor says it does.
#[derive(Copy, Clone, PartialEq, Eq, Structural, Debug)]
pub struct ViewReading {
    pub wraps: bool,
    pub shows_whitespace: bool,
    pub shows_eol: bool,
    pub guides: bool,
}

/// How the items that stand for the settings look: three in the View menu, and
/// three in the toolbar.
#[derive(Copy, Clone, PartialEq, Eq, Structural, Debug)]
pub struct ViewIndicators {
    pub menu_word_wrap: bool,
    pub menu_show_whitespace: bool,
    pub menu_show_eol: bool,
    pub tb_word_wrap: bool,
    pub tb_show_all_chars: bool,
    pub tb_indent_guide: bool,
}

/// How the items look while the editor does what it says.
pub open spec fn indicators_of(e: ViewReading) -> ViewIndicators {
    ViewIndicators {
        menu_word_wrap: e.wraps,
        menu_show_whitespace: e.shows_whitespace,
        menu_show_eol: e.shows_eol,
        tb_word_wrap: e.wraps,
        tb_show_all_chars: e.shows_whitespace && e.shows_eol,
        tb_indent_guide: e.guides,
    }
}

/// Work out how the items look.
pub fn refresh_view_indicators(e: ViewReading) -> (r: ViewIndicators)
    ensures
        r == indicators_of(e),
{
    ViewIndicators {
        menu_word_wrap: e.wraps,
        menu_show_whitespace: e.shows_whitespace,
        menu_show_eol: e.shows_eol,
        tb_word_wrap: e.wraps,
        tb_show_all_chars: e.shows_whitespace && e.shows_eol,
        tb_indent_guide: e.guides,
    }
}

/// What the editor says it does once it was told something.
pub open spec fn told(e: ViewReading, m: EditorSetting) -> ViewReading {
    match m {
        EditorSetting::IndentationGuides(on) => ViewReading { guides: on, ..e },
        EditorSetting::WrapMode(on) => ViewReading { wraps: on, ..e },
        EditorSetting::ScrollWidth(width) => e,
        EditorSetting::ViewWhitespace(on) => ViewReading { shows_whitespace: on, ..e },
        EditorSetting::ViewEol(on) => ViewReading { shows_eol: on, ..e },
    }
}

/// What the editor says it does once it was told all of something.
pub open spec fn told_all(e: ViewReading, messages: Seq<EditorSetting>) -> ViewReading {
    messages.fold_left(e, |e: ViewReading, m: EditorSetting| told(e, m))
}

/// Whatever the editor did before, once it was told the settings the items show
/// the settings, in the menu and in the toolbar alike.
pub proof fn indicators_show_the_settings(e: ViewReading, view: ViewSettings)
    ensures
        indicators_of(told_all(e, messages_of(view))) == (ViewIndicators {
            menu_word_wrap: view.word_wrap,
            menu_show_whitespace: view.show_whitespace,
            menu_show_eol: view.show_eol,
            tb_word_wrap: view.word_wrap,
            tb_show_all_chars: view.show_whitespace && view.show_eol,
            tb_indent_guide: view.indent_guide,
        }),
{
    reveal_with_fuel(Seq::fold_left, 6);
    let f = |e: ViewReading, m: EditorSetting| told(e, m);
    let m = messages_of(view);
    let m4 = m.drop_last();
    let m3 = m4.drop_last();
    let m2 = m3.drop_last();
    let m1 = m2.drop_last();
    assert(m.last() == EditorSetting::ViewEol(view.show_eol));
    assert(m4.last() == EditorSetting::ViewWhitespace(view.show_whitespace));
    assert(m3.last() == EditorSetting::ScrollWidth(1));
    assert(m2.last() == EditorSetting::WrapMode(view.word_wrap));
    assert(m1.last() == EditorSetting::IndentationGuides(view.indent_guide));
    assert(m1.drop_last().len() == 0);
}

/// A switch changes what it stands for and nothing else, and switching back
/// brings back what was, except that white space and line ends, switched
/// together, end up alike.
pub proof fn switching_back_restores(view: ViewSettings, toggle: ViewToggle)
    ensures
        toggle is WordWrap ==> switched(switched(view, toggle, !view.word_wrap), toggle, view.word_wrap)
            == view,
        toggle is ShowWhitespace ==> switched(
            switched(view, toggle, !view.show_whitespace),
            toggle,
            view.show_whitespace,
        ) == view,
        toggle is ShowEol ==> switched(switched(view, toggle, !view.show_eol), toggle, view.show_eol)
            == view,
        toggle is IndentGuide ==> switched(
            switched(view, toggle, !view.indent_guide),
            toggle,
            view.indent_guide,
        ) == view,
        toggle is ShowAllChars && view.show_whitespace == view.show_eol ==> switched(
            switched(view, toggle, !view.show_eol),
            toggle,
            view.show_eol,
        ) == view,
{
}

/// A switch sets what it stands for, and nothing else: white space and line
/// ends together for all characters, and one setting for every other.
pub proof fn a_switch_sets_what_it_stands_for(view: ViewSettings, toggle: ViewToggle, on: bool)
    ensures
        ({
            let now = switched(view, toggle, on);
            &&& now.word_wrap == if toggle == ViewToggle::WordWrap {
                on
            } else {
                view.word_wrap
            }
            &&& now.show_whitespace == if toggle == ViewToggle::ShowWhitespace || toggle
                == ViewToggle::ShowAllChars {
                on
            } else {
                view.show_whitespace
            }
            &&& now.show_eol == if toggle == ViewToggle::ShowEol || toggle
                == ViewToggle::ShowAllChars {
                on
            } else {
                view.show_eol
            }
            &&& now.indent_guide == if toggle == ViewToggle::IndentGuide {
                on
            } else {
                view.indent_guide
            }
        }),
{
}

/// The editor is told every setting, and to measure the text anew once it wraps
/// or not.
pub proof fn the_editor_is_told_every_setting(view: ViewSettings)
    ensures
        messages_of(view).len() == 5,
        messages_of(view)[0] == EditorSetting::IndentationGuides(view.indent_guide),
        messages_of(view)[1] == EditorSetting::WrapMode(view.word_wrap),
        messages_of(view)[2] == EditorSetting::ScrollWidth(1),
        messages_of(view)[3] == EditorSetting::ViewWhitespace(view.show_whitespace),
        messages_of(view)[4] == EditorSetting::ViewEol(view.show_eol),
{
}

/// The items show what the editor does, each its own setting, and that for all
/// characters only if white space and line ends both show.
pub proof fn the_items_show_what_the_editor_does(e: ViewReading, r: ViewIndicators)
    requires
        call_ensures(refresh_view_indicators, (e,), r),
    ensures
        r.menu_word_wrap == e.wraps,
        r.menu_show_whitespace == e.shows_whitespace,
        r.menu_show_eol == e.shows_eol,
        r.tb_word_wrap == e.wraps,
        r.tb_show_all_chars <==> e.shows_whitespace && e.shows_eol,
        r.tb_indent_guide == e.guides,
{
}

/// Setting the items is no switch: the settings stay and nothing is told.
pub proof fn an_echo_is_no_switch(toggle: ViewToggle, on: bool, r: Option<Vec<EditorSetting>>)
    ensures
        forall|view: &mut ViewSettings| #[trigger]
            call_ensures(toggle_view_setting, (view, true, toggle, on), r) ==> r is None && *final(
                view) == *view,
{
}

} // verus!
