//! The preferences dialog: what its controls show, and what they mean.
use vstd::prelude::*;
use crate::text::{decimal, push_decimal};

verus! {

/// How recent files are named in the menu.
#[derive(Copy, Clone, PartialEq, Eq, Structural, Debug)]
pub enum RecentFileDisplayMode {
    OnlyFileName,
    FullPath,
    CustomMaxLength,
}

/// What the user can choose.
#[derive(Copy, Clone, PartialEq, Eq, Structural, Debug)]
pub struct Preferences {
    /// Recent files are kept at all.
    pub enabled: bool,
    pub in_submenu: bool,
    pub max_entries: u32,
    pub display_mode: RecentFileDisplayMode,
    pub custom_max_length: u32,
    /// Only commands that were signed are run for plugins' panels.
    pub verify_panel_commands: bool,
}

/// The largest numbers that can be chosen.
#[derive(Copy, Clone, PartialEq, Eq, Structural, Debug)]
pub struct Limits {
    pub max_entries: i32,
    pub custom_max_length: i32,
}

impl Limits {
    /// There is something to choose.
    pub open spec fn wf(&self) -> bool {
        self.max_entries >= 0 && self.custom_max_length >= 1
    }
}

/// Preferences that the controls can show.
pub open spec fn in_range(p: Preferences, limits: Limits) -> bool {
    &&& p.max_entries <= limits.max_entries
    &&& 1 <= p.custom_max_length <= limits.custom_max_length
}

/// The controls of the dialog. The first box is checked when recent files are
/// not kept.
#[derive(Copy, Clone, PartialEq, Eq, Structural, Debug)]
pub struct Controls {
    pub dont_check: bool,
    pub max_entries: i32,
    pub in_submenu: bool,
    pub only_name: bool,
    pub full_path: bool,
    pub custom: bool,
    pub custom_length: i32,
    /// The length can be changed.
    pub custom_length_enabled: bool,
    pub verify: bool,
}

/// A number, brought into a range.
pub open spec fn clamped(n: int, low: int, high: int) -> int {
    if n < low {
        low
    } else if n > high {
        high
    } else {
        n
    }
}

/// The controls as the dialog opens with them.
pub open spec fn seeded_controls(p: Preferences, limits: Limits) -> Controls {
    Controls {
        dont_check: !p.enabled,
        max_entries: clamped(p.max_entries as int, 0, limits.max_entries as int) as i32,
        in_submenu: p.in_submenu,
        only_name: p.display_mode == RecentFileDisplayMode::OnlyFileName,
        full_path: p.display_mode == RecentFileDisplayMode::FullPath,
        custom: p.display_mode == RecentFileDisplayMode::CustomMaxLength,
        custom_length: clamped(
            p.custom_max_length as int,
            1,
            limits.custom_max_length as int,
        ) as i32,
        custom_length_enabled: p.display_mode == RecentFileDisplayMode::CustomMaxLength,
        verify: p.verify_panel_commands,
    }
}

fn spin_value(n: u32, low: i32, high: i32) -> (r: i32)
    requires
        0 <= low <= high,
    ensures
        r == clamped(n as int, low as int, high as int),
{
    if n < low as u32 {
        low
    } else if n > high as u32 {
        high
    } else {
        n as i32
    }
}

/// Set the controls as the dialog opens with them.
pub fn build_content(p: Preferences, limits: Limits) -> (c: Controls)
    requires
        limits.wf(),
    ensures
        c == seeded_controls(p, limits),
{
    let only_name: bool = p.display_mode == RecentFileDisplayMode::OnlyFileName;
    let full_path: bool = p.display_mode == RecentFileDisplayMode::FullPath;
    let custom: bool = p.display_mode == RecentFileDisplayMode::CustomMaxLength;
    Controls {
        dont_check: !p.enabled,
        max_entries: spin_value(p.max_entries, 0, limits.max_entries),
        in_submenu: p.in_submenu,
        only_name,
        full_path,
        custom,
        custom_length: spin_value(p.custom_max_length, 1, limits.custom_max_length),
        custom_length_enabled: custom,
        verify: p.verify_panel_commands,
    }
}

/// What the controls mean.
pub open spec fn meaning(c: Controls) -> Preferences {
    Preferences {
        enabled: !c.dont_check,
        in_submenu: c.in_submenu,
        max_entries: (if c.max_entries < 0 {
            0
        } else {
            c.max_entries as int
        }) as u32,
        display_mode: if c.only_name {
            RecentFileDisplayMode::OnlyFileName
        } else if c.custom {
            RecentFileDisplayMode::CustomMaxLength
        } else {
            RecentFileDisplayMode::FullPath
        },
        custom_max_length: (if c.custom_length < 1 {
            1
        } else {
            c.custom_length as int
        }) as u32,
        verify_panel_commands: c.verify,
    }
}

/// Read the controls of every page, shown or not.
pub fn read_back(c: &Controls) -> (p: Preferences)
    ensures
        p == meaning(*c),
{
    let max_entries: u32 = if c.max_entries < 0 {
        0
    } else {
        c.max_entries as u32
    };
    let custom_max_length: u32 = if c.custom_length < 1 {
        1
    } else {
        c.custom_length as u32
    };
    let display_mode: RecentFileDisplayMode = if c.only_name {
        RecentFileDisplayMode::OnlyFileName
    } else if c.custom {
        RecentFileDisplayMode::CustomMaxLength
    } else {
        RecentFileDisplayMode::FullPath
    };
    Preferences {
        enabled: !c.dont_check,
        in_submenu: c.in_submenu,
        max_entries,
        display_mode,
        custom_max_length,
        verify_panel_commands: c.verify,
    }
}

/// What closing the dialog comes to: the new preferences, if anything changed.
pub fn close_dialog(c: &Controls, current: &Preferences) -> (r: Option<Preferences>)
    ensures
        r == if meaning(*c) != *current {
            Some(meaning(*c))
        } else {
            None
        },
{
    let updated: Preferences = read_back(c);
    if updated != *current {
        Some(updated)
    } else {
        None
    }
}

/// Opening the dialog and closing it again changes nothing.
pub proof fn an_untouched_dialog_changes_nothing(p: Preferences, limits: Limits)
    requires
        in_range(p, limits),
    ensures
        meaning(seeded_controls(p, limits)) == p,
{
}

/// One way of naming files is chosen as the dialog opens, and exactly one.
pub proof fn one_display_mode_is_chosen(p: Preferences, limits: Limits)
    ensures
        ({
            let c = seeded_controls(p, limits);
            &&& c.only_name || c.full_path || c.custom
            &&& !(c.only_name && c.full_path) && !(c.only_name && c.custom) && !(c.full_path
                && c.custom)
        }),
{
}

/// What the dialog says about the range of a number.
pub fn range_hint(low: u32, high: u32) -> (r: String)
    ensures
        r@ == "("@ + decimal(low as nat) + " - "@ + decimal(high as nat) + ")"@,
{
    let mut out: String = String::from_str("(");
    push_decimal(&mut out, low as u64);
    out.append(" - ");
    push_decimal(&mut out, high as u64);
    out.append(")");
    out
}

/// The pages of the dialog, in order.
pub open spec fn page_titles() -> Seq<Seq<char>> {
    seq!["Recent Files History"@, "Security"@]
}

/// The title of a page.
pub fn page_title(index: usize) -> (r: Option<&'static str>)
    ensures
        match r {
            Some(title) => index < page_titles().len() && title@ == page_titles()[index as int],
            None => index >= page_titles().len(),
        },
{
    match index {
        0 => Some("Recent Files History"),
        1 => Some("Security"),
        _ => None,
    }
}

/// The page that a row of the list shows: the one at its place, if there is
/// one.
pub fn page_of_row(row: Option<i32>, pages: usize) -> (r: Option<usize>)
    ensures
        r == match row {
            Some(i) if 0 <= i < pages => Some(i as usize),
            _ => None,
        },
{
    match row {
        Some(i) => if i >= 0 && (i as usize) < pages {
            Some(i as usize)
        } else {
            None
        },
        None => None,
    }
}

/// The dialog opens with what is set: a number is shown as it is if it can be
/// chosen, and else as the nearest that can be.
pub proof fn the_dialog_opens_with_what_is_set(p: Preferences, limits: Limits)
    requires
        limits.max_entries >= 0,
        limits.custom_max_length >= 1,
    ensures
        ({
            let c = seeded_controls(p, limits);
            &&& c.dont_check <==> !p.enabled
            &&& c.in_submenu == p.in_submenu
            &&& c.verify == p.verify_panel_commands
            &&& c.only_name <==> p.display_mode == RecentFileDisplayMode::OnlyFileName
            &&& c.full_path <==> p.display_mode == RecentFileDisplayMode::FullPath
            &&& c.custom <==> p.display_mode == RecentFileDisplayMode::CustomMaxLength
            &&& c.custom_length_enabled <==> c.custom
            &&& p.max_entries <= limits.max_entries ==> c.max_entries == p.max_entries
            &&& p.max_entries > limits.max_entries ==> c.max_entries == limits.max_entries
            &&& p.custom_max_length == 0 ==> c.custom_length == 1
            &&& 1 <= p.custom_max_length <= limits.custom_max_length ==> c.custom_length
                == p.custom_max_length
            &&& p.custom_max_length > limits.custom_max_length ==> c.custom_length
                == limits.custom_max_length
        }),
{
}

/// The controls mean what they show, each for itself.
pub proof fn the_controls_mean_what_they_show(c: Controls)
    ensures
        ({
            let p = meaning(c);
            &&& p.enabled <==> !c.dont_check
            &&& p.in_submenu == c.in_submenu
            &&& c.max_entries >= 0 ==> p.max_entries == c.max_entries
            &&& c.max_entries < 0 ==> p.max_entries == 0
            &&& c.custom_length >= 1 ==> p.custom_max_length == c.custom_length
            &&& c.custom_length < 1 ==> p.custom_max_length == 1
            &&& p.verify_panel_commands == c.verify
            &&& p.display_mode == RecentFileDisplayMode::OnlyFileName <==> c.only_name
            &&& p.display_mode == RecentFileDisplayMode::CustomMaxLength <==> !c.only_name
                && c.custom
            &&& p.display_mode == RecentFileDisplayMode::FullPath <==> !c.only_name && !c.custom
        }),
{
}

/// Closing the dialog gives new preferences exactly if they differ from those
/// there are, and then the ones the controls show.
pub proof fn only_a_change_is_saved(
    p: Preferences,
    limits: Limits,
    current: Preferences,
    c: Controls,
    r: Option<Preferences>,
)
    requires
        p.max_entries <= limits.max_entries,
        1 <= p.custom_max_length <= limits.custom_max_length,
        call_ensures(build_content, (p, limits), c),
        call_ensures(close_dialog, (&c, &current), r),
    ensures
        p == current ==> r is None,
        p != current ==> r == Some(p),
{
}

/// The pages of the dialog, and the row that shows each.
pub proof fn a_row_shows_its_page(i: i32, pages: usize, r: Option<usize>)
    requires
        call_ensures(page_of_row, (Some(i), pages), r),
    ensures
        r is Some <==> 0 <= i < pages,
        r matches Some(page) ==> page == i,
        page_titles().len() == 2,
        page_titles()[0] == "Recent Files History"@,
        page_titles()[1] == "Security"@,
{
}

} // verus!
