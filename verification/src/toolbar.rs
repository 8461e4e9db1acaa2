//! The toolbar: thirty-two buttons in ten groups.
//!
//! A button that stands for a menu item runs the same command. A button whose
//! feature is not there yet is greyed.
use vstd::prelude::*;
use crate::menu::Command;

verus! {

/// The size of an icon, in pixels.
pub const ICON_LOGICAL_PX: i32 = 24;

/// What a button that stays down stands for.
#[derive(Copy, Clone, PartialEq, Eq, Structural, Debug)]
pub enum ToolbarToggle {
    WordWrap,
    ShowAllChars,
    DocumentMap,
    Workspace,
}

/// What a button is.
#[derive(Copy, Clone, PartialEq, Eq, Structural, Debug)]
pub enum ButtonKind {
    /// It runs a command.
    Push(Command),
    /// It does nothing.
    Greyed,
    /// It stays down.
    Toggle(ToolbarToggle),
    /// It would stay down, but does nothing.
    GreyedToggle,
}

/// An item of the toolbar.
#[derive(Copy, Clone, Debug)]
pub enum ToolbarItem {
    Button { icon: &'static str, tip: &'static str, kind: ButtonKind },
    Separator,
}

/// [`ToolbarItem`] as a value.
pub enum ToolbarItemView {
    Button { icon: Seq<char>, tip: Seq<char>, kind: ButtonKind },
    Separator,
}

impl ToolbarItem {
    pub open spec fn view(&self) -> ToolbarItemView {
        match *self {
            ToolbarItem::Button { icon, tip, kind } => ToolbarItemView::Button {
                icon: icon@,
                tip: tip@,
                kind,
            },
            ToolbarItem::Separator => ToolbarItemView::Separator,
        }
    }
}

/// A button as a value.
pub open spec fn button_view(icon: Seq<char>, tip: Seq<char>, kind: ButtonKind) -> ToolbarItemView {
    ToolbarItemView::Button { icon, tip, kind }
}

/// The toolbar, from left to right.
pub open spec fn toolbar_items() -> Seq<ToolbarItemView> {
    seq![
        button_view("new"@, "New"@, ButtonKind::Push(Command::New)),
        button_view("open"@, "Open…"@, ButtonKind::Push(Command::Open)),
        button_view("save"@, "Save"@, ButtonKind::Push(Command::Save)),
        button_view("save-all"@, "Save All"@, ButtonKind::Push(Command::SaveAll)),
        button_view("close"@, "Close"@, ButtonKind::Push(Command::Close)),
        button_view("close-all"@, "Close All"@, ButtonKind::Push(Command::CloseAll)),
        button_view("print"@, "Print"@, ButtonKind::Greyed),
        ToolbarItemView::Separator,
        button_view("cut"@, "Cut"@, ButtonKind::Push(Command::Cut)),
        button_view("copy"@, "Copy"@, ButtonKind::Push(Command::Copy)),
        button_view("paste"@, "Paste"@, ButtonKind::Push(Command::Paste)),
        ToolbarItemView::Separator,
        button_view("undo"@, "Undo"@, ButtonKind::Push(Command::Undo)),
        button_view("redo"@, "Redo"@, ButtonKind::Push(Command::Redo)),
        ToolbarItemView::Separator,
        button_view("find"@, "Find…"@, ButtonKind::Push(Command::Find)),
        button_view("replace"@, "Replace…"@, ButtonKind::Push(Command::Replace)),
        ToolbarItemView::Separator,
        button_view(
            "zoom-in"@,
            "Zoom In (Ctrl + Mouse Wheel Up)"@,
            ButtonKind::Push(Command::ZoomIn),
        ),
        button_view(
            "zoom-out"@,
            "Zoom Out (Ctrl + Mouse Wheel Down)"@,
            ButtonKind::Push(Command::ZoomOut),
        ),
        ToolbarItemView::Separator,
        button_view(
            "sync-scroll-vertical"@,
            "Synchronize Vertical Scrolling"@,
            ButtonKind::GreyedToggle,
        ),
        button_view(
            "sync-scroll-horizontal"@,
            "Synchronize Horizontal Scrolling"@,
            ButtonKind::GreyedToggle,
        ),
        ToolbarItemView::Separator,
        button_view("word-wrap"@, "Word Wrap"@, ButtonKind::Toggle(ToolbarToggle::WordWrap)),
        button_view(
            "show-all-chars"@,
            "Show All Characters"@,
            ButtonKind::Toggle(ToolbarToggle::ShowAllChars),
        ),
        button_view("show-indent-guide"@, "Show Indent Guide"@, ButtonKind::GreyedToggle),
        ToolbarItemView::Separator,
        button_view("define-language"@, "Define your language…"@, ButtonKind::Greyed),
        button_view(
            "document-map"@,
            "Document Map"@,
            ButtonKind::Toggle(ToolbarToggle::DocumentMap),
        ),
        button_view("document-list"@, "Document List"@, ButtonKind::GreyedToggle),
        button_view("function-list"@, "Function List"@, ButtonKind::GreyedToggle),
        button_view(
            "folder-workspace"@,
            "Folder as Workspace"@,
            ButtonKind::Toggle(ToolbarToggle::Workspace),
        ),
        ToolbarItemView::Separator,
        button_view("monitoring"@, "Monitoring (tail -f)"@, ButtonKind::Greyed),
        ToolbarItemView::Separator,
        button_view("macro-record"@, "Start Recording"@, ButtonKind::Greyed),
        button_view("macro-stop"@, "Stop Recording"@, ButtonKind::Greyed),
        button_view("macro-play"@, "Playback"@, ButtonKind::Greyed),
        button_view("run"@, "Run a Macro Multiple Times…"@, ButtonKind::Greyed),
        button_view("save-macro"@, "Save Current Recorded Macro…"@, ButtonKind::Greyed),
    ]
}

fn button(icon: &'static str, tip: &'static str, kind: ButtonKind) -> (b: ToolbarItem)
    ensures
        b@ == button_view(icon@, tip@, kind),
{
    ToolbarItem::Button { icon, tip, kind }
}

/// Make the toolbar.
pub fn build_toolbar() -> (r: Vec<ToolbarItem>)
    ensures
        r@.len() == toolbar_items().len(),
        forall|i: int| 0 <= i < r@.len() ==> (#[trigger] r@[i])@ == toolbar_items()[i],
{
    let mut items: Vec<ToolbarItem> = Vec::new();
    items.push(button("new", "New", ButtonKind::Push(Command::New)));
    items.push(button("open", "Open…", ButtonKind::Push(Command::Open)));
    items.push(button("save", "Save", ButtonKind::Push(Command::Save)));
    items.push(button("save-all", "Save All", ButtonKind::Push(Command::SaveAll)));
    items.push(button("close", "Close", ButtonKind::Push(Command::Close)));
    items.push(button("close-all", "Close All", ButtonKind::Push(Command::CloseAll)));
    items.push(button("print", "Print", ButtonKind::Greyed));
    items.push(ToolbarItem::Separator);
    items.push(button("cut", "Cut", ButtonKind::Push(Command::Cut)));
    items.push(button("copy", "Copy", ButtonKind::Push(Command::Copy)));
    items.push(button("paste", "Paste", ButtonKind::Push(Command::Paste)));
    items.push(ToolbarItem::Separator);
    items.push(button("undo", "Undo", ButtonKind::Push(Command::Undo)));
    items.push(button("redo", "Redo", ButtonKind::Push(Command::Redo)));
    items.push(ToolbarItem::Separator);
    items.push(button("find", "Find…", ButtonKind::Push(Command::Find)));
    items.push(button("replace", "Replace…", ButtonKind::Push(Command::Replace)));
    items.push(ToolbarItem::Separator);
    items.push(
        button("zoom-in", "Zoom In (Ctrl + Mouse Wheel Up)", ButtonKind::Push(Command::ZoomIn)),
    );
    items.push(
        button("zoom-out", "Zoom Out (Ctrl + Mouse Wheel Down)", ButtonKind::Push(Command::ZoomOut)),
    );
    items.push(ToolbarItem::Separator);
    items.push(
        button("sync-scroll-vertical", "Synchronize Vertical Scrolling", ButtonKind::GreyedToggle),
    );
    items.push(
        button("sync-scroll-horizontal", "Synchronize Horizontal Scrolling", ButtonKind::GreyedToggle),
    );
    items.push(ToolbarItem::Separator);
    items.push(button("word-wrap", "Word Wrap", ButtonKind::Toggle(ToolbarToggle::WordWrap)));
    items.push(
        button("show-all-chars", "Show All Characters", ButtonKind::Toggle(ToolbarToggle::ShowAllChars)),
    );
    items.push(button("show-indent-guide", "Show Indent Guide", ButtonKind::GreyedToggle));
    items.push(ToolbarItem::Separator);
    items.push(button("define-language", "Define your language…", ButtonKind::Greyed));
    items.push(
        button("document-map", "Document Map", ButtonKind::Toggle(ToolbarToggle::DocumentMap)),
    );
    items.push(button("document-list", "Document List", ButtonKind::GreyedToggle));
    items.push(button("function-list", "Function List", ButtonKind::GreyedToggle));
    items.push(
        button("folder-workspace", "Folder as Workspace", ButtonKind::Toggle(ToolbarToggle::Workspace)),
    );
    items.push(ToolbarItem::Separator);
    items.push(button("monitoring", "Monitoring (tail -f)", ButtonKind::Greyed));
    items.push(ToolbarItem::Separator);
    items.push(button("macro-record", "Start Recording", ButtonKind::Greyed));
    items.push(button("macro-stop", "Stop Recording", ButtonKind::Greyed));
    items.push(button("macro-play", "Playback", ButtonKind::Greyed));
    items.push(button("run", "Run a Macro Multiple Times…", ButtonKind::Greyed));
    items.push(button("save-macro", "Save Current Recorded Macro…", ButtonKind::Greyed));
    items
}

/// The number of buttons among some items.
pub open spec fn buttons_in(items: Seq<ToolbarItemView>) -> nat
    decreases items.len(),
{
    if items.len() == 0 {
        0
    } else {
        buttons_in(items.drop_last()) + (if items.last() is Button {
            1nat
        } else {
            0
        })
    }
}

/// There are thirty-two buttons in ten groups, with one separator between each
/// two groups.
pub proof fn thirty_two_buttons_in_ten_groups()
    ensures
        buttons_in(toolbar_items()) == 32,
        toolbar_items().len() - buttons_in(toolbar_items()) == 9,
        toolbar_items()[0] is Button,
        toolbar_items().last() is Button,
        forall|i: int|
            0 <= i < toolbar_items().len() - 1 ==> !(#[trigger] toolbar_items()[i] is Separator
                && toolbar_items()[i + 1] is Separator),
{
    let items = toolbar_items();
    count_buttons(items, items.len() as int);
}

/// The places of the separators.
spec fn separator_at(i: int) -> bool {
    i == 7 || i == 11 || i == 14 || i == 17 || i == 20 || i == 23 || i == 27 || i == 33 || i == 35
}

/// The number of separators before a place.
spec fn separators_before(i: int) -> int {
    if i <= 7 {
        0
    } else if i <= 11 {
        1
    } else if i <= 14 {
        2
    } else if i <= 17 {
        3
    } else if i <= 20 {
        4
    } else if i <= 23 {
        5
    } else if i <= 27 {
        6
    } else if i <= 33 {
        7
    } else if i <= 35 {
        8
    } else {
        9
    }
}

proof fn count_buttons(items: Seq<ToolbarItemView>, n: int)
    requires
        items == toolbar_items(),
        0 <= n <= items.len(),
    ensures
        buttons_in(items.take(n)) == n - separators_before(n),
        items.take(items.len() as int) == items,
    decreases n,
{
    assert(items.take(items.len() as int) =~= items);
    if n > 0 {
        count_buttons(items, n - 1);
        assert(items.take(n).drop_last() =~= items.take(n - 1));
        assert(items.take(n).last() == items[n - 1]);
        separators_stand_there(n - 1);
    }
}

proof fn separators_stand_there(i: int)
    requires
        0 <= i < toolbar_items().len(),
    ensures
        toolbar_items()[i] is Separator <==> separator_at(i),
{
}

/// A screen that is twice as fine gets the icon of twice the size.
pub fn uses_double_icon(scale: i32) -> (r: bool)
    ensures
        r == (scale >= 2),
{
    scale >= 2
}

/// A button that runs a command carries that command's icon and words, and so
/// does one that stays down for what it stands for.
pub proof fn a_button_carries_its_own_icon(i: int)
    requires
        0 <= i < toolbar_items().len(),
    ensures
        toolbar_items()[i] matches ToolbarItemView::Button {
            icon,
            tip,
            kind: ButtonKind::Push(c),
        } ==> match c {
            Command::New => icon == "new"@ && tip == "New"@,
            Command::Open => icon == "open"@ && tip == "Open…"@,
            Command::Save => icon == "save"@ && tip == "Save"@,
            Command::SaveAll => icon == "save-all"@ && tip == "Save All"@,
            Command::Close => icon == "close"@ && tip == "Close"@,
            Command::CloseAll => icon == "close-all"@ && tip == "Close All"@,
            Command::Cut => icon == "cut"@ && tip == "Cut"@,
            Command::Copy => icon == "copy"@ && tip == "Copy"@,
            Command::Paste => icon == "paste"@ && tip == "Paste"@,
            Command::Undo => icon == "undo"@ && tip == "Undo"@,
            Command::Redo => icon == "redo"@ && tip == "Redo"@,
            Command::Find => icon == "find"@ && tip == "Find…"@,
            Command::Replace => icon == "replace"@ && tip == "Replace…"@,
            Command::ZoomIn => icon == "zoom-in"@ && tip == "Zoom In (Ctrl + Mouse Wheel Up)"@,
            Command::ZoomOut => icon == "zoom-out"@ && tip == "Zoom Out (Ctrl + Mouse Wheel Down)"@,
            _ => false,
        },
        toolbar_items()[i] matches ToolbarItemView::Button {
            icon,
            tip,
            kind: ButtonKind::Toggle(t),
        } ==> match t {
            ToolbarToggle::WordWrap => icon == "word-wrap"@ && tip == "Word Wrap"@,
            ToolbarToggle::ShowAllChars => icon == "show-all-chars"@ && tip
                == "Show All Characters"@,
            ToolbarToggle::DocumentMap => icon == "document-map"@ && tip == "Document Map"@,
            ToolbarToggle::Workspace => icon == "folder-workspace"@ && tip
                == "Folder as Workspace"@,
        },
{
}

/// The buttons that run a command stand in this order, and no command has two.
pub proof fn the_buttons_stand_in_order()
    ensures
        ({
            let runs = |i: int, c: Command| toolbar_items()[i] matches ToolbarItemView::Button {
                icon,
                tip,
                kind,
            } && kind == ButtonKind::Push(c);
            &&& runs(0, Command::New)
            &&& runs(1, Command::Open)
            &&& runs(2, Command::Save)
            &&& runs(3, Command::SaveAll)
            &&& runs(4, Command::Close)
            &&& runs(5, Command::CloseAll)
            &&& runs(8, Command::Cut)
            &&& runs(9, Command::Copy)
            &&& runs(10, Command::Paste)
            &&& runs(12, Command::Undo)
            &&& runs(13, Command::Redo)
            &&& runs(15, Command::Find)
            &&& runs(16, Command::Replace)
            &&& runs(18, Command::ZoomIn)
            &&& runs(19, Command::ZoomOut)
        }),
{
}

/// The buttons whose features are not there yet are greyed; those of them that
/// would stay down are greyed as such.
pub proof fn what_is_not_there_is_greyed()
    ensures
        ({
            let at = |i: int, icon: Seq<char>, tip: Seq<char>, kind: ButtonKind| toolbar_items()[i]
                == (ToolbarItemView::Button { icon, tip, kind });
            &&& at(6, "print"@, "Print"@, ButtonKind::Greyed)
            &&& at(
                21,
                "sync-scroll-vertical"@,
                "Synchronize Vertical Scrolling"@,
                ButtonKind::GreyedToggle,
            )
            &&& at(
                22,
                "sync-scroll-horizontal"@,
                "Synchronize Horizontal Scrolling"@,
                ButtonKind::GreyedToggle,
            )
            &&& at(26, "show-indent-guide"@, "Show Indent Guide"@, ButtonKind::GreyedToggle)
            &&& at(28, "define-language"@, "Define your language…"@, ButtonKind::Greyed)
            &&& at(30, "document-list"@, "Document List"@, ButtonKind::GreyedToggle)
            &&& at(31, "function-list"@, "Function List"@, ButtonKind::GreyedToggle)
            &&& at(34, "monitoring"@, "Monitoring (tail -f)"@, ButtonKind::Greyed)
            &&& at(36, "macro-record"@, "Start Recording"@, ButtonKind::Greyed)
            &&& at(37, "macro-stop"@, "Stop Recording"@, ButtonKind::Greyed)
            &&& at(38, "macro-play"@, "Playback"@, ButtonKind::Greyed)
            &&& at(39, "run"@, "Run a Macro Multiple Times…"@, ButtonKind::Greyed)
            &&& at(40, "save-macro"@, "Save Current Recorded Macro…"@, ButtonKind::Greyed)
        }),
{
}

} // verus!
