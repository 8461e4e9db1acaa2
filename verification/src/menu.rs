//! The menu bar: what stands in each menu, and under which keys.
use vstd::prelude::*;
use crate::text::chars_of;

verus! {

/// What a menu item does.
#[derive(Copy, Clone, PartialEq, Eq, Structural, Debug)]
pub enum Command {
    /// A new untitled file.
    New,
    /// Open files.
    Open,
    /// The submenu of [`ContainingAction`]s.
    OpenContainingFolder,
    /// Hand the file to the application it belongs to.
    OpenInDefaultViewer,
    /// Choose a folder for the workspace panel.
    OpenFolderAsWorkspace,
    /// Read the file again.
    ReloadFromDisk,
    /// Save the file.
    Save,
    /// Save the file under a name to choose.
    SaveAs,
    /// Save every file.
    SaveAll,
    /// Give the file or the untitled buffer another name.
    Rename,
    /// Close the active tab.
    Close,
    /// Close every tab.
    CloseAll,
    /// The submenu of [`CloseMultiKind`]s.
    CloseMultiple,
    /// Move the file to the trash and close it.
    MoveToRecycleBin,
    /// Open the files of a session file.
    LoadSession,
    /// Write a session file.
    SaveSession,
    /// Print, after a dialog.
    Print,
    /// Print without a dialog.
    PrintNow,
    /// The submenu of recent files.
    RecentFiles,
    /// Open the file that was closed last.
    RestoreRecent,
    /// Open all recent files.
    OpenAllRecent,
    /// Forget the recent files.
    EmptyRecent,
    /// Leave.
    Exit,
    /// Undo the last change.
    Undo,
    /// Make an undone change again.
    Redo,
    /// Cut the selection.
    Cut,
    /// Copy the selection.
    Copy,
    /// Paste the clipboard.
    Paste,
    /// Delete the selection.
    Delete,
    /// Select all.
    SelectAll,
    /// Begin or end a selection.
    BeginEndSelect,
    /// Begin or end a selection of a rectangle.
    BeginEndSelectColumn,
    /// Find in the file.
    Find,
    /// Replace in the file.
    Replace,
    /// Find in files.
    FindInFiles,
    /// Find the next match.
    FindNext,
    /// Find the match before.
    FindPrevious,
    /// Go to a line.
    GoTo,
    /// Larger text.
    ZoomIn,
    /// Smaller text.
    ZoomOut,
    /// Text of the usual size.
    ZoomReset,
    /// Wrap long lines.
    WordWrap,
    /// Show white space.
    ShowWhitespace,
    /// Show line ends.
    ShowEol,
    /// Show the workspace panel.
    FolderAsWorkspace,
    /// Show the document map.
    DocumentMap,
    /// Bring the window back to its default size.
    RestoreWindowSize,
    /// The preferences.
    Preferences,
    /// The style configurator.
    StyleConfigurator,
    /// The home page.
    HelpHome,
    /// The project page.
    HelpProject,
    /// The forum.
    HelpCommunity,
    /// The manual, which does not exist yet.
    HelpManual,
    /// An update, which does not exist yet.
    HelpUpdate,
    /// The about box.
    About,
}

/// A key with the modifiers held down with it. The key is a GDK key value.
#[derive(Copy, Clone, PartialEq, Eq, Structural, Debug)]
pub struct Accel {
    pub key: u32,
    pub ctrl: bool,
    pub shift: bool,
    pub alt: bool,
}

/// A line of a menu.
#[derive(Copy, Clone, PartialEq, Eq, Structural, Debug)]
pub enum MenuLine {
    Item(Command),
    Separator,
    /// Where the recent files go.
    RecentRegion,
}

/// The titles of the menu bar, from left to right.
pub open spec fn menu_titles() -> Seq<Seq<char>> {
    seq![
        "_File"@,
        "_Edit"@,
        "_Search"@,
        "_View"@,
        "E_ncoding"@,
        "_Language"@,
        "Se_ttings"@,
        "_Plugins"@,
        "?"@,
    ]
}

/// The title of the menu at a position of the bar.
pub fn menu_title(index: usize) -> (r: Option<&'static str>)
    ensures
        match r {
            Some(title) => index < menu_titles().len() && title@ == menu_titles()[index as int],
            None => index >= menu_titles().len(),
        },
{
    match index {
        0 => Some("_File"),
        1 => Some("_Edit"),
        2 => Some("_Search"),
        3 => Some("_View"),
        4 => Some("E_ncoding"),
        5 => Some("_Language"),
        6 => Some("Se_ttings"),
        7 => Some("_Plugins"),
        8 => Some("?"),
        _ => None,
    }
}

/// What a command's menu item says; the letter after the underscore is its
/// mnemonic.
pub open spec fn label_text(c: Command) -> Seq<char> {
    match c {
        Command::New => "_New"@,
        Command::Open => "_Open…"@,
        Command::OpenContainingFolder => "Open Containin_g Folder"@,
        Command::OpenInDefaultViewer => "Open in Default Vi_ewer"@,
        Command::OpenFolderAsWorkspace => "Open Folder as _Workspace…"@,
        Command::ReloadFromDisk => "_Reload from Disk"@,
        Command::Save => "_Save"@,
        Command::SaveAs => "Save _As…"@,
        Command::SaveAll => "Sa_ve All"@,
        Command::Rename => "Rena_me…"@,
        Command::Close => "_Close"@,
        Command::CloseAll => "Close A_ll"@,
        Command::CloseMultiple => "Close M_ultiple Documents"@,
        Command::MoveToRecycleBin => "Move to Recycle _Bin"@,
        Command::LoadSession => "Loa_d Session…"@,
        Command::SaveSession => "Save Sess_ion…"@,
        Command::Print => "_Print…"@,
        Command::PrintNow => "Print _Now"@,
        Command::RecentFiles => "Recent _Files"@,
        Command::RestoreRecent => "Res_tore Recent Closed File"@,
        Command::OpenAllRecent => "Open All Recent Files"@,
        Command::EmptyRecent => "Empty Recent Files List"@,
        Command::Exit => "E_xit"@,
        Command::Undo => "_Undo"@,
        Command::Redo => "_Redo"@,
        Command::Cut => "Cu_t"@,
        Command::Copy => "_Copy"@,
        Command::Paste => "_Paste"@,
        Command::Delete => "_Delete"@,
        Command::SelectAll => "Select _All"@,
        Command::BeginEndSelect => "_Begin/End Select"@,
        Command::BeginEndSelectColumn => "Begin/End Select in Column _Mode"@,
        Command::Find => "_Find…"@,
        Command::Replace => "_Replace…"@,
        Command::FindInFiles => "Find in _Files…"@,
        Command::FindNext => "Find _Next"@,
        Command::FindPrevious => "Find _Previous"@,
        Command::GoTo => "_Go to…"@,
        Command::ZoomIn => "Zoom _In"@,
        Command::ZoomOut => "Zoom _Out"@,
        Command::ZoomReset => "_Restore Default Zoom"@,
        Command::WordWrap => "_Word Wrap"@,
        Command::ShowWhitespace => "Show White_space"@,
        Command::ShowEol => "Show _End of Line"@,
        Command::FolderAsWorkspace => "Folder as Works_pace"@,
        Command::DocumentMap => "Document _Map"@,
        Command::RestoreWindowSize => "Restore _Default Window Size"@,
        Command::Preferences => "_Preferences…"@,
        Command::StyleConfigurator => "_Style Configurator…"@,
        Command::HelpHome => "Code++ _Home"@,
        Command::HelpProject => "Code++ _Project Page"@,
        Command::HelpCommunity => "Code++ _Community (Forum)"@,
        Command::HelpManual => "Code++ Online User _Manual"@,
        Command::HelpUpdate => "_Update Code++"@,
        Command::About => "_About Code++"@,
    }
}

/// What a command's menu item says.
pub fn label(c: Command) -> (r: &'static str)
    ensures
        r@ == label_text(c),
{
    match c {
        Command::New => "_New",
        Command::Open => "_Open…",
        Command::OpenContainingFolder => "Open Containin_g Folder",
        Command::OpenInDefaultViewer => "Open in Default Vi_ewer",
        Command::OpenFolderAsWorkspace => "Open Folder as _Workspace…",
        Command::ReloadFromDisk => "_Reload from Disk",
        Command::Save => "_Save",
        Command::SaveAs => "Save _As…",
        Command::SaveAll => "Sa_ve All",
        Command::Rename => "Rena_me…",
        Command::Close => "_Close",
        Command::CloseAll => "Close A_ll",
        Command::CloseMultiple => "Close M_ultiple Documents",
        Command::MoveToRecycleBin => "Move to Recycle _Bin",
        Command::LoadSession => "Loa_d Session…",
        Command::SaveSession => "Save Sess_ion…",
        Command::Print => "_Print…",
        Command::PrintNow => "Print _Now",
        Command::RecentFiles => "Recent _Files",
        Command::RestoreRecent => "Res_tore Recent Closed File",
        Command::OpenAllRecent => "Open All Recent Files",
        Command::EmptyRecent => "Empty Recent Files List",
        Command::Exit => "E_xit",
        Command::Undo => "_Undo",
        Command::Redo => "_Redo",
        Command::Cut => "Cu_t",
        Command::Copy => "_Copy",
        Command::Paste => "_Paste",
        Command::Delete => "_Delete",
        Command::SelectAll => "Select _All",
        Command::BeginEndSelect => "_Begin/End Select",
        Command::BeginEndSelectColumn => "Begin/End Select in Column _Mode",
        Command::Find => "_Find…",
        Command::Replace => "_Replace…",
        Command::FindInFiles => "Find in _Files…",
        Command::FindNext => "Find _Next",
        Command::FindPrevious => "Find _Previous",
        Command::GoTo => "_Go to…",
        Command::ZoomIn => "Zoom _In",
        Command::ZoomOut => "Zoom _Out",
        Command::ZoomReset => "_Restore Default Zoom",
        Command::WordWrap => "_Word Wrap",
        Command::ShowWhitespace => "Show White_space",
        Command::ShowEol => "Show _End of Line",
        Command::FolderAsWorkspace => "Folder as Works_pace",
        Command::DocumentMap => "Document _Map",
        Command::RestoreWindowSize => "Restore _Default Window Size",
        Command::Preferences => "_Preferences…",
        Command::StyleConfigurator => "_Style Configurator…",
        Command::HelpHome => "Code++ _Home",
        Command::HelpProject => "Code++ _Project Page",
        Command::HelpCommunity => "Code++ _Community (Forum)",
        Command::HelpManual => "Code++ Online User _Manual",
        Command::HelpUpdate => "_Update Code++",
        Command::About => "_About Code++",
    }
}

/// A key with modifiers, in the order Ctrl, Shift, Alt.
pub open spec fn chord(key: u32, ctrl: bool, shift: bool, alt: bool) -> Option<Accel> {
    Some(Accel { key, ctrl, shift, alt })
}

/// The key that runs a command, if it has one.
pub open spec fn accel_of(c: Command) -> Option<Accel> {
    match c {
        Command::New => chord(0x6e, true, false, false),
        Command::Open => chord(0x6f, true, false, false),
        Command::ReloadFromDisk => chord(0x72, true, false, false),
        Command::Save => chord(0x73, true, false, false),
        Command::SaveAs => chord(0x73, true, false, true),
        Command::SaveAll => chord(0x53, true, true, false),
        Command::Close => chord(0x77, true, false, false),
        Command::CloseAll => chord(0x57, true, true, false),
        Command::Print => chord(0x70, true, false, false),
        Command::RestoreRecent => chord(0x54, true, true, false),
        Command::Exit => chord(0xffc1, false, false, true),
        Command::Undo => chord(0x7a, true, false, false),
        Command::Redo => chord(0x79, true, false, false),
        Command::Cut => chord(0x78, true, false, false),
        Command::Copy => chord(0x63, true, false, false),
        Command::Paste => chord(0x76, true, false, false),
        Command::SelectAll => chord(0x61, true, false, false),
        Command::BeginEndSelect => chord(0x62, true, true, false),
        Command::BeginEndSelectColumn => chord(0x62, false, true, true),
        Command::Find => chord(0x66, true, false, false),
        Command::Replace => chord(0x68, true, false, false),
        Command::FindInFiles => chord(0x66, true, true, false),
        Command::FindNext => chord(0xffc0, false, false, false),
        Command::FindPrevious => chord(0xffc0, false, true, false),
        Command::GoTo => chord(0x67, true, false, false),
        Command::ZoomIn => chord(0x2b, true, false, false),
        Command::ZoomOut => chord(0x2d, true, false, false),
        Command::ZoomReset => chord(0x30, true, false, false),
        Command::About => chord(0xffbe, false, false, false),
        _ => None,
    }
}

/// The key that runs a command, if it has one.
pub fn accelerator(c: Command) -> (r: Option<Accel>)
    ensures
        r == accel_of(c),
{
    let (key, ctrl, shift, alt): (u32, bool, bool, bool) = match c {
        Command::New => (0x6e, true, false, false),
        Command::Open => (0x6f, true, false, false),
        Command::ReloadFromDisk => (0x72, true, false, false),
        Command::Save => (0x73, true, false, false),
        Command::SaveAs => (0x73, true, false, true),
        Command::SaveAll => (0x53, true, true, false),
        Command::Close => (0x77, true, false, false),
        Command::CloseAll => (0x57, true, true, false),
        Command::Print => (0x70, true, false, false),
        Command::RestoreRecent => (0x54, true, true, false),
        Command::Exit => (0xffc1, false, false, true),
        Command::Undo => (0x7a, true, false, false),
        Command::Redo => (0x79, true, false, false),
        Command::Cut => (0x78, true, false, false),
        Command::Copy => (0x63, true, false, false),
        Command::Paste => (0x76, true, false, false),
        Command::SelectAll => (0x61, true, false, false),
        Command::BeginEndSelect => (0x62, true, true, false),
        Command::BeginEndSelectColumn => (0x62, false, true, true),
        Command::Find => (0x66, true, false, false),
        Command::Replace => (0x68, true, false, false),
        Command::FindInFiles => (0x66, true, true, false),
        Command::FindNext => (0xffc0, false, false, false),
        Command::FindPrevious => (0xffc0, false, true, false),
        Command::GoTo => (0x67, true, false, false),
        Command::ZoomIn => (0x2b, true, false, false),
        Command::ZoomOut => (0x2d, true, false, false),
        Command::ZoomReset => (0x30, true, false, false),
        Command::About => (0xffbe, false, false, false),
        _ => {
            return None;
        },
    };
    Some(Accel { key, ctrl, shift, alt })
}

/// A second key for a command: Ctrl and the equals sign also zoom in, since
/// that is where many keyboards have the plus sign.
pub open spec fn second_accel_of(c: Command) -> Option<Accel> {
    match c {
        Command::ZoomIn => chord(0x3d, true, false, false),
        _ => None,
    }
}

/// A second key for a command, if it has one.
pub fn second_accelerator(c: Command) -> (r: Option<Accel>)
    ensures
        r == second_accel_of(c),
{
    match c {
        Command::ZoomIn => Some(Accel { key: 0x3d, ctrl: true, shift: false, alt: false }),
        _ => None,
    }
}

/// Two commands show a hint of their own in place of their key, as each has
/// two.
pub open spec fn hint_of(c: Command) -> Option<Seq<char>> {
    match c {
        Command::Undo => Some("Ctrl+Z / Alt+Backspace"@),
        Command::Redo => Some("Ctrl+Y / Ctrl+Shift+Z"@),
        _ => None,
    }
}

/// The hint that a command shows in place of its key, if any.
pub fn key_hint(c: Command) -> (r: Option<&'static str>)
    ensures
        match r {
            Some(hint) => hint_of(c) == Some(hint@),
            None => hint_of(c) is None,
        },
{
    match c {
        Command::Undo => Some("Ctrl+Z / Alt+Backspace"),
        Command::Redo => Some("Ctrl+Y / Ctrl+Shift+Z"),
        _ => None,
    }
}

/// A key value with letters in lower case, as keys are matched.
pub open spec fn folded(key: u32) -> u32 {
    if 0x41 <= key <= 0x5a {
        (key + 0x20) as u32
    } else {
        key
    }
}

/// A command answers to a key.
pub open spec fn answers(c: Command, a: Accel) -> bool {
    ||| accel_of(c) matches Some(own) && folded(own.key) == folded(a.key) && own.ctrl == a.ctrl
        && own.shift == a.shift && own.alt == a.alt
    ||| second_accel_of(c) matches Some(own) && folded(own.key) == folded(a.key) && own.ctrl
        == a.ctrl && own.shift == a.shift && own.alt == a.alt
}

/// No key runs two commands.
pub proof fn no_key_is_taken_twice(c: Command, d: Command, a: Accel)
    requires
        answers(c, a),
        answers(d, a),
    ensures
        c == d,
{
}

/// The File menu, from top to bottom.
pub open spec fn file_menu_lines() -> Seq<MenuLine> {
    seq![
        MenuLine::Item(Command::New),
        MenuLine::Item(Command::Open),
        MenuLine::Item(Command::OpenContainingFolder),
        MenuLine::Item(Command::OpenInDefaultViewer),
        MenuLine::Item(Command::OpenFolderAsWorkspace),
        MenuLine::Item(Command::ReloadFromDisk),
        MenuLine::Item(Command::Save),
        MenuLine::Item(Command::SaveAs),
        MenuLine::Item(Command::SaveAll),
        MenuLine::Item(Command::Rename),
        MenuLine::Item(Command::Close),
        MenuLine::Item(Command::CloseAll),
        MenuLine::Item(Command::CloseMultiple),
        MenuLine::Item(Command::MoveToRecycleBin),
        MenuLine::Separator,
        MenuLine::Item(Command::LoadSession),
        MenuLine::Item(Command::SaveSession),
        MenuLine::Separator,
        MenuLine::Item(Command::Print),
        MenuLine::Item(Command::PrintNow),
        MenuLine::RecentRegion,
        MenuLine::Separator,
        MenuLine::Item(Command::Exit),
    ]
}

/// The File menu, from top to bottom.
pub fn file_menu() -> (r: Vec<MenuLine>)
    ensures
        r@ == file_menu_lines(),
{
    vec![
        MenuLine::Item(Command::New),
        MenuLine::Item(Command::Open),
        MenuLine::Item(Command::OpenContainingFolder),
        MenuLine::Item(Command::OpenInDefaultViewer),
        MenuLine::Item(Command::OpenFolderAsWorkspace),
        MenuLine::Item(Command::ReloadFromDisk),
        MenuLine::Item(Command::Save),
        MenuLine::Item(Command::SaveAs),
        MenuLine::Item(Command::SaveAll),
        MenuLine::Item(Command::Rename),
        MenuLine::Item(Command::Close),
        MenuLine::Item(Command::CloseAll),
        MenuLine::Item(Command::CloseMultiple),
        MenuLine::Item(Command::MoveToRecycleBin),
        MenuLine::Separator,
        MenuLine::Item(Command::LoadSession),
        MenuLine::Item(Command::SaveSession),
        MenuLine::Separator,
        MenuLine::Item(Command::Print),
        MenuLine::Item(Command::PrintNow),
        MenuLine::RecentRegion,
        MenuLine::Separator,
        MenuLine::Item(Command::Exit),
    ]
}

/// The Edit menu, from top to bottom.
pub open spec fn edit_menu_lines() -> Seq<MenuLine> {
    seq![
        MenuLine::Item(Command::Undo),
        MenuLine::Item(Command::Redo),
        MenuLine::Separator,
        MenuLine::Item(Command::Cut),
        MenuLine::Item(Command::Copy),
        MenuLine::Item(Command::Paste),
        MenuLine::Item(Command::Delete),
        MenuLine::Item(Command::SelectAll),
        MenuLine::Item(Command::BeginEndSelect),
        MenuLine::Item(Command::BeginEndSelectColumn),
    ]
}

/// The Edit menu, from top to bottom.
pub fn edit_menu() -> (r: Vec<MenuLine>)
    ensures
        r@ == edit_menu_lines(),
{
    vec![
        MenuLine::Item(Command::Undo),
        MenuLine::Item(Command::Redo),
        MenuLine::Separator,
        MenuLine::Item(Command::Cut),
        MenuLine::Item(Command::Copy),
        MenuLine::Item(Command::Paste),
        MenuLine::Item(Command::Delete),
        MenuLine::Item(Command::SelectAll),
        MenuLine::Item(Command::BeginEndSelect),
        MenuLine::Item(Command::BeginEndSelectColumn),
    ]
}

/// The Search menu, from top to bottom.
pub open spec fn search_menu_lines() -> Seq<MenuLine> {
    seq![
        MenuLine::Item(Command::Find),
        MenuLine::Item(Command::Replace),
        MenuLine::Item(Command::FindInFiles),
        MenuLine::Item(Command::FindNext),
        MenuLine::Item(Command::FindPrevious),
        MenuLine::Item(Command::GoTo),
    ]
}

/// The Search menu, from top to bottom.
pub fn search_menu() -> (r: Vec<MenuLine>)
    ensures
        r@ == search_menu_lines(),
{
    vec![
        MenuLine::Item(Command::Find),
        MenuLine::Item(Command::Replace),
        MenuLine::Item(Command::FindInFiles),
        MenuLine::Item(Command::FindNext),
        MenuLine::Item(Command::FindPrevious),
        MenuLine::Item(Command::GoTo),
    ]
}

/// The View menu, from top to bottom.
pub open spec fn view_menu_lines() -> Seq<MenuLine> {
    seq![
        MenuLine::Item(Command::ZoomIn),
        MenuLine::Item(Command::ZoomOut),
        MenuLine::Item(Command::ZoomReset),
        MenuLine::Separator,
        MenuLine::Item(Command::WordWrap),
        MenuLine::Item(Command::ShowWhitespace),
        MenuLine::Item(Command::ShowEol),
        MenuLine::Separator,
        MenuLine::Item(Command::FolderAsWorkspace),
        MenuLine::Item(Command::DocumentMap),
        MenuLine::Separator,
        MenuLine::Item(Command::RestoreWindowSize),
    ]
}

/// The View menu, from top to bottom.
pub fn view_menu() -> (r: Vec<MenuLine>)
    ensures
        r@ == view_menu_lines(),
{
    vec![
        MenuLine::Item(Command::ZoomIn),
        MenuLine::Item(Command::ZoomOut),
        MenuLine::Item(Command::ZoomReset),
        MenuLine::Separator,
        MenuLine::Item(Command::WordWrap),
        MenuLine::Item(Command::ShowWhitespace),
        MenuLine::Item(Command::ShowEol),
        MenuLine::Separator,
        MenuLine::Item(Command::FolderAsWorkspace),
        MenuLine::Item(Command::DocumentMap),
        MenuLine::Separator,
        MenuLine::Item(Command::RestoreWindowSize),
    ]
}

/// The Settings menu, from top to bottom.
pub open spec fn settings_menu_lines() -> Seq<MenuLine> {
    seq![
        MenuLine::Item(Command::Preferences),
        MenuLine::Item(Command::StyleConfigurator),
    ]
}

/// The Settings menu, from top to bottom.
pub fn settings_menu() -> (r: Vec<MenuLine>)
    ensures
        r@ == settings_menu_lines(),
{
    vec![
        MenuLine::Item(Command::Preferences),
        MenuLine::Item(Command::StyleConfigurator),
    ]
}

/// The Help menu, from top to bottom.
pub open spec fn help_menu_lines() -> Seq<MenuLine> {
    seq![
        MenuLine::Item(Command::HelpHome),
        MenuLine::Item(Command::HelpProject),
        MenuLine::Item(Command::HelpCommunity),
        MenuLine::Item(Command::HelpManual),
        MenuLine::Separator,
        MenuLine::Item(Command::HelpUpdate),
        MenuLine::Separator,
        MenuLine::Item(Command::About),
    ]
}

/// The Help menu, from top to bottom.
pub fn help_menu() -> (r: Vec<MenuLine>)
    ensures
        r@ == help_menu_lines(),
{
    vec![
        MenuLine::Item(Command::HelpHome),
        MenuLine::Item(Command::HelpProject),
        MenuLine::Item(Command::HelpCommunity),
        MenuLine::Item(Command::HelpManual),
        MenuLine::Separator,
        MenuLine::Item(Command::HelpUpdate),
        MenuLine::Separator,
        MenuLine::Item(Command::About),
    ]
}

/// What decides which items of the File menu can be used.
#[derive(Copy, Clone, PartialEq, Eq, Structural, Debug)]
pub struct FileMenuReading {
    /// The active tab has a file.
    pub has_path: bool,
    /// That file has a folder.
    pub has_parent: bool,
    /// There are recent files.
    pub has_recents: bool,
}

/// Whether a command can be used. What needs a file is greyed without one,
/// and two items of the Help menu have nothing behind them yet.
pub open spec fn is_enabled(c: Command, reading: FileMenuReading) -> bool {
    match c {
        Command::MoveToRecycleBin | Command::OpenInDefaultViewer => reading.has_path,
        Command::OpenContainingFolder => reading.has_parent,
        Command::RestoreRecent | Command::OpenAllRecent | Command::EmptyRecent =>
            reading.has_recents,
        Command::HelpManual | Command::HelpUpdate => false,
        _ => true,
    }
}

/// Whether a command can be used.
pub fn enabled(c: Command, reading: FileMenuReading) -> (r: bool)
    ensures
        r == is_enabled(c, reading),
{
    match c {
        Command::MoveToRecycleBin | Command::OpenInDefaultViewer => reading.has_path,
        Command::OpenContainingFolder => reading.has_parent,
        Command::RestoreRecent | Command::OpenAllRecent | Command::EmptyRecent =>
            reading.has_recents,
        Command::HelpManual | Command::HelpUpdate => false,
        _ => true,
    }
}

/// The pages that the Help menu opens.
pub open spec fn page_of(c: Command) -> Option<Seq<char>> {
    match c {
        Command::HelpHome => Some("https://code-plus-plus.org/"@),
        Command::HelpProject => Some("https://github.com/TheFlipside/code-plus-plus"@),
        Command::HelpCommunity => Some("https://community.code-plus-plus.org/"@),
        _ => None,
    }
}

/// The page that a command opens, if it opens one. Only these ever are.
pub fn help_page(c: Command) -> (r: Option<&'static str>)
    ensures
        match r {
            Some(page) => page_of(c) == Some(page@),
            None => page_of(c) is None,
        },
{
    match c {
        Command::HelpHome => Some("https://code-plus-plus.org/"),
        Command::HelpProject => Some("https://github.com/TheFlipside/code-plus-plus"),
        Command::HelpCommunity => Some("https://community.code-plus-plus.org/"),
        _ => None,
    }
}

/// Whether a command changes the buffer, so that the tab's marks have to be
/// brought up to date after it.
pub open spec fn is_edit(c: Command) -> bool {
    c is Undo || c is Redo || c is Cut || c is Paste || c is Delete
}

/// Whether the tab's marks have to be brought up to date after a command to
/// the editor.
pub fn refreshes_chrome(c: Command) -> (r: bool)
    ensures
        r == is_edit(c),
{
    match c {
        Command::Undo | Command::Redo | Command::Cut | Command::Paste | Command::Delete => true,
        _ => false,
    }
}

/// A command whose item carries a mark.
pub open spec fn carries_mark(c: Command) -> bool {
    ||| c is BeginEndSelect
    ||| c is BeginEndSelectColumn
    ||| c is WordWrap
    ||| c is ShowWhitespace
    ||| c is ShowEol
    ||| c is FolderAsWorkspace
    ||| c is DocumentMap
}

/// Whether a command's item carries a mark.
pub fn is_check(c: Command) -> (r: bool)
    ensures
        r == carries_mark(c),
{
    match c {
        Command::BeginEndSelect
        | Command::BeginEndSelectColumn
        | Command::WordWrap
        | Command::ShowWhitespace
        | Command::ShowEol
        | Command::FolderAsWorkspace
        | Command::DocumentMap => true,
        _ => false,
    }
}

/// The mnemonic of a label: the letter after the first underscore.
pub open spec fn mnemonic_of(s: Seq<char>) -> Option<char>
    decreases s.len(),
{
    if s.len() < 2 {
        None
    } else if s[0] == '_' {
        Some(s[1])
    } else {
        mnemonic_of(s.skip(1))
    }
}

/// Find the mnemonic of a label.
pub fn mnemonic(text: &str) -> (r: Option<char>)
    ensures
        r == mnemonic_of(text@),
{
    let chars: Vec<char> = chars_of(text);
    let mut i: usize = 0;
    assert(chars@.skip(0) =~= chars@);
    while i < chars.len() && chars.len() - i >= 2
        invariant
            i <= chars@.len(),
            mnemonic_of(chars@.skip(i as int)) == mnemonic_of(text@),
        decreases chars.len() - i,
    {
        assert(chars@.skip(i as int).skip(1) =~= chars@.skip(i + 1));
        if chars[i] == '_' {
            return Some(chars[i + 1]);
        }
        i += 1;
    }
    None
}

proof fn mnemonic_at(s: Seq<char>, i: int)
    requires
        0 <= i < s.len() - 1,
        s[i] == '_',
        forall|j: int| 0 <= j < i ==> s[j] != '_',
    ensures
        mnemonic_of(s) == Some(s[i + 1]),
    decreases i,
{
    if i > 0 {
        assert(s.skip(1)[i - 1] == s[i]);
        mnemonic_at(s.skip(1), i - 1);
    }
}

/// A letter in lower case, as mnemonics are matched.
pub open spec fn folded_letter(c: char) -> char {
    if 'A' <= c <= 'Z' {
        ((c as u32) + 32) as char
    } else {
        c
    }
}

/// The File menu's mnemonics.
pub open spec fn file_mnemonic(c: Command) -> Option<char> {
    match c {
        Command::New => Some('n'),
        Command::Open => Some('o'),
        Command::OpenContainingFolder => Some('g'),
        Command::OpenInDefaultViewer => Some('e'),
        Command::OpenFolderAsWorkspace => Some('w'),
        Command::ReloadFromDisk => Some('r'),
        Command::Save => Some('s'),
        Command::SaveAs => Some('a'),
        Command::SaveAll => Some('v'),
        Command::Rename => Some('m'),
        Command::Close => Some('c'),
        Command::CloseAll => Some('l'),
        Command::CloseMultiple => Some('u'),
        Command::MoveToRecycleBin => Some('b'),
        Command::LoadSession => Some('d'),
        Command::SaveSession => Some('i'),
        Command::Print => Some('p'),
        Command::PrintNow => Some('n'),
        Command::Exit => Some('x'),
        Command::RecentFiles => Some('f'),
        Command::RestoreRecent => Some('t'),
        _ => None,
    }
}

proof fn file_mnemonic_is_right(c: Command)
    requires
        file_mnemonic(c) is Some,
    ensures
        mnemonic_of(label_text(c)) is Some,
        file_mnemonic(c) == Some(folded_letter(mnemonic_of(label_text(c))->Some_0)),
{
    match c {
        Command::New => {
            reveal_strlit("_New");
            mnemonic_at("_New"@, 0);
        },
        Command::Open => {
            reveal_strlit("_Open…");
            mnemonic_at("_Open…"@, 0);
        },
        Command::OpenContainingFolder => {
            reveal_strlit("Open Containin_g Folder");
            mnemonic_at("Open Containin_g Folder"@, 14);
        },
        Command::OpenInDefaultViewer => {
            reveal_strlit("Open in Default Vi_ewer");
            mnemonic_at("Open in Default Vi_ewer"@, 18);
        },
        Command::OpenFolderAsWorkspace => {
            reveal_strlit("Open Folder as _Workspace…");
            mnemonic_at("Open Folder as _Workspace…"@, 15);
        },
        Command::ReloadFromDisk => {
            reveal_strlit("_Reload from Disk");
            mnemonic_at("_Reload from Disk"@, 0);
        },
        Command::Save => {
            reveal_strlit("_Save");
            mnemonic_at("_Save"@, 0);
        },
        Command::SaveAs => {
            reveal_strlit("Save _As…");
            mnemonic_at("Save _As…"@, 5);
        },
        Command::SaveAll => {
            reveal_strlit("Sa_ve All");
            mnemonic_at("Sa_ve All"@, 2);
        },
        Command::Rename => {
            reveal_strlit("Rena_me…");
            mnemonic_at("Rena_me…"@, 4);
        },
        Command::Close => {
            reveal_strlit("_Close");
            mnemonic_at("_Close"@, 0);
        },
        Command::CloseAll => {
            reveal_strlit("Close A_ll");
            mnemonic_at("Close A_ll"@, 7);
        },
        Command::CloseMultiple => {
            reveal_strlit("Close M_ultiple Documents");
            mnemonic_at("Close M_ultiple Documents"@, 7);
        },
        Command::MoveToRecycleBin => {
            reveal_strlit("Move to Recycle _Bin");
            mnemonic_at("Move to Recycle _Bin"@, 16);
        },
        Command::LoadSession => {
            reveal_strlit("Loa_d Session…");
            mnemonic_at("Loa_d Session…"@, 3);
        },
        Command::SaveSession => {
            reveal_strlit("Save Sess_ion…");
            mnemonic_at("Save Sess_ion…"@, 9);
        },
        Command::Print => {
            reveal_strlit("_Print…");
            mnemonic_at("_Print…"@, 0);
        },
        Command::PrintNow => {
            reveal_strlit("Print _Now");
            mnemonic_at("Print _Now"@, 6);
        },
        Command::Exit => {
            reveal_strlit("E_xit");
            mnemonic_at("E_xit"@, 1);
        },
        Command::RecentFiles => {
            reveal_strlit("Recent _Files");
            mnemonic_at("Recent _Files"@, 7);
        },
        Command::RestoreRecent => {
            reveal_strlit("Res_tore Recent Closed File");
            mnemonic_at("Res_tore Recent Closed File"@, 3);
        },
        _ => {},
    }
}

/// A command is one of the File menu, the recent files included.
pub open spec fn in_file_menu(c: Command) -> bool {
    ||| file_menu_lines().contains(MenuLine::Item(c))
    ||| c is RecentFiles
    ||| c is RestoreRecent
    ||| c is OpenAllRecent
    ||| c is EmptyRecent
}

/// In the File menu each letter leads to one item. The one exception is N,
/// which both a new file and printing at once go by.
pub proof fn file_mnemonics_are_distinct(c: Command, d: Command)
    requires
        in_file_menu(c),
        in_file_menu(d),
        c != d,
        mnemonic_of(label_text(c)) is Some,
        mnemonic_of(label_text(d)) is Some,
        !(c is New && d is PrintNow),
        !(c is PrintNow && d is New),
    ensures
        folded_letter(mnemonic_of(label_text(c))->Some_0) != folded_letter(
            mnemonic_of(label_text(d))->Some_0,
        ),
{
    file_menu_has_mnemonics(c);
    file_menu_has_mnemonics(d);
}

proof fn file_menu_has_mnemonics(c: Command)
    requires
        in_file_menu(c),
        mnemonic_of(label_text(c)) is Some,
    ensures
        file_mnemonic(c) == Some(folded_letter(mnemonic_of(label_text(c))->Some_0)),
{
    if file_mnemonic(c) is Some {
        file_mnemonic_is_right(c);
    } else {
        reveal_strlit("Open All Recent Files");
        reveal_strlit("Empty Recent Files List");
        if c is OpenAllRecent {
            no_mnemonic("Open All Recent Files"@);
        } else if c is EmptyRecent {
            no_mnemonic("Empty Recent Files List"@);
        }
    }
}

proof fn no_mnemonic(s: Seq<char>)
    requires
        forall|j: int| 0 <= j < s.len() ==> s[j] != '_',
    ensures
        mnemonic_of(s) is None,
    decreases s.len(),
{
    if s.len() > 0 {
        no_mnemonic(s.skip(1));
    }
}

/// The keys that the commands go by, as they are written on a keyboard.
pub proof fn a_command_goes_by_its_key(c: Command)
    ensures
        ({
            let plain = |letter: char| accel_of(c) == Some(
                Accel { key: letter as u32, ctrl: true, shift: false, alt: false },
            );
            let shifted = |letter: char| accel_of(c) == Some(
                Accel { key: letter as u32, ctrl: true, shift: true, alt: false },
            );
            match c {
                Command::New => plain('n'),
                Command::Open => plain('o'),
                Command::ReloadFromDisk => plain('r'),
                Command::Save => plain('s'),
                Command::Close => plain('w'),
                Command::Print => plain('p'),
                Command::Undo => plain('z'),
                Command::Redo => plain('y'),
                Command::Cut => plain('x'),
                Command::Copy => plain('c'),
                Command::Paste => plain('v'),
                Command::SelectAll => plain('a'),
                Command::Find => plain('f'),
                Command::Replace => plain('h'),
                Command::GoTo => plain('g'),
                Command::ZoomIn => plain('+'),
                Command::ZoomOut => plain('-'),
                Command::ZoomReset => plain('0'),
                Command::SaveAll => shifted('S'),
                Command::CloseAll => shifted('W'),
                Command::RestoreRecent => shifted('T'),
                Command::BeginEndSelect => shifted('b'),
                Command::FindInFiles => shifted('f'),
                Command::SaveAs => accel_of(c) == Some(
                    Accel { key: 's' as u32, ctrl: true, shift: false, alt: true },
                ),
                Command::BeginEndSelectColumn => accel_of(c) == Some(
                    Accel { key: 'b' as u32, ctrl: false, shift: true, alt: true },
                ),
                Command::FindNext => accel_of(c) == Some(
                    Accel { key: 0xffc0, ctrl: false, shift: false, alt: false },
                ),
                Command::FindPrevious => accel_of(c) == Some(
                    Accel { key: 0xffc0, ctrl: false, shift: true, alt: false },
                ),
                Command::Exit => accel_of(c) == Some(
                    Accel { key: 0xffc1, ctrl: false, shift: false, alt: true },
                ),
                Command::About => accel_of(c) == Some(
                    Accel { key: 0xffbe, ctrl: false, shift: false, alt: false },
                ),
                _ => accel_of(c) is None,
            }
        }),
        second_accel_of(c) is Some <==> c is ZoomIn,
        second_accel_of(Command::ZoomIn) == Some(
            Accel { key: '=' as u32, ctrl: true, shift: false, alt: false },
        ),
{
}

/// No command stands twice in a menu.
pub proof fn a_menu_offers_a_command_once(c: Command)
    ensures
        forall|i: int, j: int|
            0 <= i < j < file_menu_lines().len() && #[trigger] file_menu_lines()[i]
                == MenuLine::Item(c) ==> #[trigger] file_menu_lines()[j] != MenuLine::Item(c),
        forall|i: int, j: int|
            0 <= i < j < edit_menu_lines().len() && #[trigger] edit_menu_lines()[i]
                == MenuLine::Item(c) ==> #[trigger] edit_menu_lines()[j] != MenuLine::Item(c),
        forall|i: int, j: int|
            0 <= i < j < search_menu_lines().len() && #[trigger] search_menu_lines()[i]
                == MenuLine::Item(c) ==> #[trigger] search_menu_lines()[j] != MenuLine::Item(c),
        forall|i: int, j: int|
            0 <= i < j < view_menu_lines().len() && #[trigger] view_menu_lines()[i]
                == MenuLine::Item(c) ==> #[trigger] view_menu_lines()[j] != MenuLine::Item(c),
        forall|i: int, j: int|
            0 <= i < j < help_menu_lines().len() && #[trigger] help_menu_lines()[i]
                == MenuLine::Item(c) ==> #[trigger] help_menu_lines()[j] != MenuLine::Item(c),
{
}

/// Every command stands in a menu, but for those of the recent files, which
/// have a place of their own in the File menu.
pub proof fn every_command_is_offered(c: Command)
    requires
        !(c is RecentFiles || c is RestoreRecent || c is OpenAllRecent || c is EmptyRecent),
    ensures
        file_menu_lines().contains(MenuLine::Item(c)) || edit_menu_lines().contains(
            MenuLine::Item(c),
        ) || search_menu_lines().contains(MenuLine::Item(c)) || view_menu_lines().contains(
            MenuLine::Item(c),
        ) || settings_menu_lines().contains(MenuLine::Item(c)) || help_menu_lines().contains(
            MenuLine::Item(c),
        ),
        file_menu_lines().contains(MenuLine::RecentRegion),
{
    let file = file_menu_lines();
    let edit = edit_menu_lines();
    let search = search_menu_lines();
    let view = view_menu_lines();
    let settings = settings_menu_lines();
    let help = help_menu_lines();
    assert(file[20] == MenuLine::RecentRegion);
    match c {
        Command::New => { assert(file[0] == MenuLine::Item(c)); },
        Command::Open => { assert(file[1] == MenuLine::Item(c)); },
        Command::OpenContainingFolder => { assert(file[2] == MenuLine::Item(c)); },
        Command::OpenInDefaultViewer => { assert(file[3] == MenuLine::Item(c)); },
        Command::OpenFolderAsWorkspace => { assert(file[4] == MenuLine::Item(c)); },
        Command::ReloadFromDisk => { assert(file[5] == MenuLine::Item(c)); },
        Command::Save => { assert(file[6] == MenuLine::Item(c)); },
        Command::SaveAs => { assert(file[7] == MenuLine::Item(c)); },
        Command::SaveAll => { assert(file[8] == MenuLine::Item(c)); },
        Command::Rename => { assert(file[9] == MenuLine::Item(c)); },
        Command::Close => { assert(file[10] == MenuLine::Item(c)); },
        Command::CloseAll => { assert(file[11] == MenuLine::Item(c)); },
        Command::CloseMultiple => { assert(file[12] == MenuLine::Item(c)); },
        Command::MoveToRecycleBin => { assert(file[13] == MenuLine::Item(c)); },
        Command::LoadSession => { assert(file[15] == MenuLine::Item(c)); },
        Command::SaveSession => { assert(file[16] == MenuLine::Item(c)); },
        Command::Print => { assert(file[18] == MenuLine::Item(c)); },
        Command::PrintNow => { assert(file[19] == MenuLine::Item(c)); },
        Command::Exit => { assert(file[22] == MenuLine::Item(c)); },
        Command::Undo => { assert(edit[0] == MenuLine::Item(c)); },
        Command::Redo => { assert(edit[1] == MenuLine::Item(c)); },
        Command::Cut => { assert(edit[3] == MenuLine::Item(c)); },
        Command::Copy => { assert(edit[4] == MenuLine::Item(c)); },
        Command::Paste => { assert(edit[5] == MenuLine::Item(c)); },
        Command::Delete => { assert(edit[6] == MenuLine::Item(c)); },
        Command::SelectAll => { assert(edit[7] == MenuLine::Item(c)); },
        Command::BeginEndSelect => { assert(edit[8] == MenuLine::Item(c)); },
        Command::BeginEndSelectColumn => { assert(edit[9] == MenuLine::Item(c)); },
        Command::Find => { assert(search[0] == MenuLine::Item(c)); },
        Command::Replace => { assert(search[1] == MenuLine::Item(c)); },
        Command::FindInFiles => { assert(search[2] == MenuLine::Item(c)); },
        Command::FindNext => { assert(search[3] == MenuLine::Item(c)); },
        Command::FindPrevious => { assert(search[4] == MenuLine::Item(c)); },
        Command::GoTo => { assert(search[5] == MenuLine::Item(c)); },
        Command::ZoomIn => { assert(view[0] == MenuLine::Item(c)); },
        Command::ZoomOut => { assert(view[1] == MenuLine::Item(c)); },
        Command::ZoomReset => { assert(view[2] == MenuLine::Item(c)); },
        Command::WordWrap => { assert(view[4] == MenuLine::Item(c)); },
        Command::ShowWhitespace => { assert(view[5] == MenuLine::Item(c)); },
        Command::ShowEol => { assert(view[6] == MenuLine::Item(c)); },
        Command::FolderAsWorkspace => { assert(view[8] == MenuLine::Item(c)); },
        Command::DocumentMap => { assert(view[9] == MenuLine::Item(c)); },
        Command::RestoreWindowSize => { assert(view[11] == MenuLine::Item(c)); },
        Command::Preferences => { assert(settings[0] == MenuLine::Item(c)); },
        Command::StyleConfigurator => { assert(settings[1] == MenuLine::Item(c)); },
        Command::HelpHome => { assert(help[0] == MenuLine::Item(c)); },
        Command::HelpProject => { assert(help[1] == MenuLine::Item(c)); },
        Command::HelpCommunity => { assert(help[2] == MenuLine::Item(c)); },
        Command::HelpManual => { assert(help[3] == MenuLine::Item(c)); },
        Command::HelpUpdate => { assert(help[5] == MenuLine::Item(c)); },
        Command::About => { assert(help[7] == MenuLine::Item(c)); },
        _ => {},
    }
}

/// What needs a file, a folder or recent files is greyed exactly without them;
/// two items of the Help menu always are, and nothing else ever is.
pub proof fn a_command_is_greyed_for_want(c: Command, r: FileMenuReading)
    ensures
        is_enabled(Command::MoveToRecycleBin, r) <==> r.has_path,
        is_enabled(Command::OpenInDefaultViewer, r) <==> r.has_path,
        is_enabled(Command::OpenContainingFolder, r) <==> r.has_parent,
        is_enabled(Command::RestoreRecent, r) <==> r.has_recents,
        is_enabled(Command::OpenAllRecent, r) <==> r.has_recents,
        is_enabled(Command::EmptyRecent, r) <==> r.has_recents,
        r.has_path && r.has_parent && r.has_recents ==> (is_enabled(c, r) <==> !(c is HelpManual)
            && !(c is HelpUpdate)),
        !is_enabled(c, r) ==> c is MoveToRecycleBin || c is OpenInDefaultViewer
            || c is OpenContainingFolder || c is RestoreRecent || c is OpenAllRecent
            || c is EmptyRecent || c is HelpManual || c is HelpUpdate,
{
}

/// Three items of the Help menu open a page, each its own; no other command
/// opens any.
pub proof fn a_help_item_opens_its_page(c: Command)
    ensures
        page_of(c) is Some <==> c is HelpHome || c is HelpProject || c is HelpCommunity,
        page_of(Command::HelpHome) == Some("https://code-plus-plus.org/"@),
        page_of(Command::HelpProject) == Some("https://github.com/TheFlipside/code-plus-plus"@),
        page_of(Command::HelpCommunity) == Some("https://community.code-plus-plus.org/"@),
        hint_of(c) is Some <==> c is Undo || c is Redo,
        hint_of(Command::Undo) == Some("Ctrl+Z / Alt+Backspace"@),
        hint_of(Command::Redo) == Some("Ctrl+Y / Ctrl+Shift+Z"@),
{
}

/// A command that changes the text has the tab's marks looked at again; a copy,
/// a selection and a search do not.
pub proof fn only_edits_are_looked_at_again(c: Command, r: bool, check: bool)
    requires
        call_ensures(refreshes_chrome, (c,), r),
        call_ensures(is_check, (c,), check),
    ensures
        r <==> c == Command::Undo || c == Command::Redo || c == Command::Cut || c == Command::Paste
            || c == Command::Delete,
        check <==> c == Command::BeginEndSelect || c == Command::BeginEndSelectColumn || c
            == Command::WordWrap || c == Command::ShowWhitespace || c == Command::ShowEol || c
            == Command::FolderAsWorkspace || c == Command::DocumentMap,
{
}

/// The mnemonic of a label is the character after its first underscore, if
/// there is one after it; a label without an underscore has none.
pub proof fn the_mnemonic_follows_the_underscore(s: Seq<char>, i: int)
    ensures
        0 <= i < s.len() - 1 && s[i] == '_' && (forall|j: int| 0 <= j < i ==> s[j] != '_')
            ==> mnemonic_of(s) == Some(s[i + 1]),
        (forall|j: int| 0 <= j < s.len() ==> s[j] != '_') ==> mnemonic_of(s) is None,
{
    if 0 <= i < s.len() - 1 && s[i] == '_' && (forall|j: int| 0 <= j < i ==> s[j] != '_') {
        mnemonic_at(s, i);
    }
    if forall|j: int| 0 <= j < s.len() ==> s[j] != '_' {
        no_mnemonic(s);
    }
}

/// The menus stand in this order, from File to Help.
pub proof fn the_menus_stand_in_order()
    ensures
        menu_titles().len() == 9,
        menu_titles()[0] == "_File"@,
        menu_titles()[1] == "_Edit"@,
        menu_titles()[2] == "_Search"@,
        menu_titles()[3] == "_View"@,
        menu_titles()[4] == "E_ncoding"@,
        menu_titles()[5] == "_Language"@,
        menu_titles()[6] == "Se_ttings"@,
        menu_titles()[7] == "_Plugins"@,
        menu_titles()[8] == "?"@,
{
}

/// What the items of the File menu say.
pub proof fn what_the_file_menu_says()
    ensures
        label_text(Command::New) == "_New"@,
        label_text(Command::Open) == "_Open…"@,
        label_text(Command::OpenContainingFolder) == "Open Containin_g Folder"@,
        label_text(Command::OpenInDefaultViewer) == "Open in Default Vi_ewer"@,
        label_text(Command::OpenFolderAsWorkspace) == "Open Folder as _Workspace…"@,
        label_text(Command::ReloadFromDisk) == "_Reload from Disk"@,
        label_text(Command::Save) == "_Save"@,
        label_text(Command::SaveAs) == "Save _As…"@,
        label_text(Command::SaveAll) == "Sa_ve All"@,
        label_text(Command::Rename) == "Rena_me…"@,
        label_text(Command::Close) == "_Close"@,
        label_text(Command::CloseAll) == "Close A_ll"@,
        label_text(Command::CloseMultiple) == "Close M_ultiple Documents"@,
        label_text(Command::MoveToRecycleBin) == "Move to Recycle _Bin"@,
        label_text(Command::LoadSession) == "Loa_d Session…"@,
        label_text(Command::SaveSession) == "Save Sess_ion…"@,
        label_text(Command::Print) == "_Print…"@,
        label_text(Command::PrintNow) == "Print _Now"@,
        label_text(Command::RecentFiles) == "Recent _Files"@,
        label_text(Command::RestoreRecent) == "Res_tore Recent Closed File"@,
        label_text(Command::OpenAllRecent) == "Open All Recent Files"@,
        label_text(Command::EmptyRecent) == "Empty Recent Files List"@,
        label_text(Command::Exit) == "E_xit"@,
{
}

/// What the items of the Edit and the Search menu say.
pub proof fn what_the_edit_and_search_menus_say()
    ensures
        label_text(Command::Undo) == "_Undo"@,
        label_text(Command::Redo) == "_Redo"@,
        label_text(Command::Cut) == "Cu_t"@,
        label_text(Command::Copy) == "_Copy"@,
        label_text(Command::Paste) == "_Paste"@,
        label_text(Command::Delete) == "_Delete"@,
        label_text(Command::SelectAll) == "Select _All"@,
        label_text(Command::BeginEndSelect) == "_Begin/End Select"@,
        label_text(Command::BeginEndSelectColumn) == "Begin/End Select in Column _Mode"@,
        label_text(Command::Find) == "_Find…"@,
        label_text(Command::Replace) == "_Replace…"@,
        label_text(Command::FindInFiles) == "Find in _Files…"@,
        label_text(Command::FindNext) == "Find _Next"@,
        label_text(Command::FindPrevious) == "Find _Previous"@,
        label_text(Command::GoTo) == "_Go to…"@,
{
}

/// What the items of the View, the Settings and the Help menu say.
pub proof fn what_the_other_menus_say()
    ensures
        label_text(Command::ZoomIn) == "Zoom _In"@,
        label_text(Command::ZoomOut) == "Zoom _Out"@,
        label_text(Command::ZoomReset) == "_Restore Default Zoom"@,
        label_text(Command::WordWrap) == "_Word Wrap"@,
        label_text(Command::ShowWhitespace) == "Show White_space"@,
        label_text(Command::ShowEol) == "Show _End of Line"@,
        label_text(Command::FolderAsWorkspace) == "Folder as Works_pace"@,
        label_text(Command::DocumentMap) == "Document _Map"@,
        label_text(Command::RestoreWindowSize) == "Restore _Default Window Size"@,
        label_text(Command::Preferences) == "_Preferences…"@,
        label_text(Command::StyleConfigurator) == "_Style Configurator…"@,
        label_text(Command::HelpHome) == "Code++ _Home"@,
        label_text(Command::HelpProject) == "Code++ _Project Page"@,
        label_text(Command::HelpCommunity) == "Code++ _Community (Forum)"@,
        label_text(Command::HelpManual) == "Code++ Online User _Manual"@,
        label_text(Command::HelpUpdate) == "_Update Code++"@,
        label_text(Command::About) == "_About Code++"@,
{
}

} // verus!
