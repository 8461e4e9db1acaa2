//! The Plugins menu and the list of installed plugins.
use vstd::prelude::*;
use crate::plugin_checks::PluginChecks;

verus! {

/// A row as a plugin publishes it.
pub struct PluginRow {
    pub label: String,
    pub cmd_id: i32,
    /// A command, and no separator.
    pub is_command: bool,
}

/// A loaded plugin with its rows.
pub struct PluginEntry {
    pub name: String,
    pub rows: Vec<PluginRow>,
}

/// An item of a plugin's submenu.
pub enum PluginItem {
    Separator,
    /// A command. An item whose command has a tick, set or unset, is a check
    /// item; any other is a plain one.
    Command { label: String, cmd_id: i32, mark: Option<bool> },
}

/// A line of the Plugins menu.
pub enum PluginLine {
    /// A greyed line.
    Placeholder(&'static str),
    Submenu { name: String, items: Vec<PluginItem> },
    Separator,
    /// A line that opens the list of plugins.
    Manager(&'static str),
    /// A line that opens the folder of plugins.
    Folder(&'static str),
}

/// An item is that of a row.
pub open spec fn item_shows(item: PluginItem, row: PluginRow, checks: PluginChecks) -> bool {
    match item {
        PluginItem::Separator => !row.is_command,
        PluginItem::Command { label, cmd_id, mark } => row.is_command && label@ == row.label@
            && cmd_id == row.cmd_id && mark == checks.mark(row.cmd_id),
    }
}

/// A line is that of a plugin.
pub open spec fn line_shows(line: PluginLine, entry: PluginEntry, checks: PluginChecks) -> bool {
    match line {
        PluginLine::Submenu { name, items } => {
            &&& name == entry.name
            &&& items@.len() == entry.rows@.len()
            &&& forall|i: int|
                0 <= i < items@.len() ==> item_shows(#[trigger] items@[i], entry.rows@[i], checks)
        },
        _ => false,
    }
}

fn items_of(rows: &Vec<PluginRow>, checks: &PluginChecks) -> (r: Vec<PluginItem>)
    ensures
        r@.len() == rows@.len(),
        forall|i: int|
            0 <= i < r@.len() ==> item_shows(#[trigger] r@[i], rows@[i], *checks),
{
    let mut items: Vec<PluginItem> = Vec::new();
    let mut i: usize = 0;
    while i < rows.len()
        invariant
            i <= rows@.len(),
            items@.len() == i,
            forall|j: int| 0 <= j < i ==> item_shows(#[trigger] items@[j], rows@[j], *checks),
        decreases rows.len() - i,
    {
        let row: &PluginRow = &rows[i];
        if row.is_command {
            items.push(
                PluginItem::Command {
                    label: row.label.clone(),
                    cmd_id: row.cmd_id,
                    mark: checks.get(row.cmd_id),
                },
            );
        } else {
            items.push(PluginItem::Separator);
        }
        i += 1;
    }
    items
}

/// Make the Plugins menu: a submenu for each plugin, or a line that says there
/// is none; then, after a separator, the list of plugins and their folder.
pub fn rebuild_menu(entries: Vec<PluginEntry>, checks: &PluginChecks) -> (r: Vec<PluginLine>)
    ensures
        ({
            let shown: int = if entries@.len() == 0 {
                1
            } else {
                entries@.len() as int
            };
            &&& r@.len() == shown + 3
            &&& entries@.len() == 0 ==> (r@[0] matches PluginLine::Placeholder(text) && text@
                == "No plugins loaded"@)
            &&& forall|i: int|
                0 <= i < entries@.len() ==> line_shows(#[trigger] r@[i], entries@[i], *checks)
            &&& r@[shown] is Separator
            &&& r@[shown + 1] matches PluginLine::Manager(text) && text@ == "_Plugin Manager…"@
            &&& r@[shown + 2] matches PluginLine::Folder(text) && text@ == "_Open Plugin Folder"@
        }),
{
    let ghost all = entries@;
    let mut lines: Vec<PluginLine> = Vec::new();
    if entries.len() == 0 {
        lines.push(PluginLine::Placeholder("No plugins loaded"));
    } else {
        for entry in it: entries
            invariant
                it.seq() == all,
                lines@.len() == it.index(),
                forall|i: int|
                    0 <= i < it.index() ==> line_shows(#[trigger] lines@[i], all[i], *checks),
        {
            let items: Vec<PluginItem> = items_of(&entry.rows, checks);
            lines.push(PluginLine::Submenu { name: entry.name, items });
        }
    }
    lines.push(PluginLine::Separator);
    lines.push(PluginLine::Manager("_Plugin Manager…"));
    lines.push(PluginLine::Folder("_Open Plugin Folder"));
    lines
}

/// The item that stands in the menu for a command.
#[derive(Copy, Clone, PartialEq, Eq, Structural, Debug)]
pub struct LiveItem {
    /// It is a check item.
    pub is_check: bool,
    /// It is ticked.
    pub active: bool,
    /// Its place in its menu, if it stands in one.
    pub position: Option<usize>,
}

/// What showing a tick takes.
#[derive(Copy, Clone, PartialEq, Eq, Structural, Debug)]
pub enum MarkShow {
    Nothing,
    /// Tick or untick the item.
    SetActive(bool),
    /// Put a check item in its place.
    Replace { position: i32 },
}

/// What it takes to make the item of a command show its tick: nothing without a
/// tick, without an item or if it shows it already; else a check item is set,
/// and a plain one is replaced by a check item at its place.
pub open spec fn mark_show_of(mark: Option<bool>, live: Option<LiveItem>) -> MarkShow {
    match (mark, live) {
        (Some(mark), Some(item)) => if item.is_check {
            if item.active != mark {
                MarkShow::SetActive(mark)
            } else {
                MarkShow::Nothing
            }
        } else {
            match item.position {
                Some(at) => MarkShow::Replace {
                    position: if at <= i32::MAX {
                        at as i32
                    } else {
                        -1i32
                    },
                },
                None => MarkShow::Nothing,
            }
        },
        _ => MarkShow::Nothing,
    }
}

/// Work out what it takes to make the item of a command show its tick.
pub fn show_recorded_mark(mark: Option<bool>, live: Option<LiveItem>) -> (r: MarkShow)
    ensures
        r == mark_show_of(mark, live),
{
    match (mark, live) {
        (Some(mark), Some(item)) => {
            if item.is_check {
                if item.active != mark {
                    MarkShow::SetActive(mark)
                } else {
                    MarkShow::Nothing
                }
            } else {
                match item.position {
                    Some(at) => MarkShow::Replace {
                        position: if at <= i32::MAX as usize {
                            at as i32
                        } else {
                            -1
                        },
                    },
                    None => MarkShow::Nothing,
                }
            }
        },
        _ => MarkShow::Nothing,
    }
}

/// An item after a click on it: a check item is ticked or unticked by it.
pub open spec fn clicked(item: LiveItem) -> LiveItem {
    if item.is_check {
        LiveItem { active: !item.active, ..item }
    } else {
        item
    }
}

/// The tick that is to be seen on an item, once what showing it takes is done.
/// A check item that is put in place shows the tick that there is.
pub open spec fn tick_seen(item: LiveItem, show: MarkShow, mark: Option<bool>) -> Option<bool> {
    match show {
        MarkShow::Nothing => if item.is_check {
            Some(item.active)
        } else {
            None
        },
        MarkShow::SetActive(on) => Some(on),
        MarkShow::Replace { position } => mark,
    }
}

/// A click does not change a tick: whatever it did to an item in a menu, the
/// item shows the plugin's tick afterwards.
pub proof fn clicks_do_not_tick(item: LiveItem, mark: bool)
    requires
        item.is_check || item.position is Some,
    ensures
        tick_seen(
            clicked(item),
            mark_show_of(Some(mark), Some(clicked(item))),
            Some(mark),
        ) == Some(mark),
{
}

/// What activating an item does, in order.
#[derive(Copy, Clone, PartialEq, Eq, Structural, Debug)]
pub struct ItemActivation {
    /// Run the command.
    pub run: bool,
    /// Show the tick again.
    pub show_mark: bool,
}

/// What activating an item does: nothing while the host sets items itself, for
/// then it was no click.
pub fn on_plugin_item_activated(syncing: bool) -> (r: ItemActivation)
    ensures
        r.run == !syncing,
        r.show_mark == !syncing,
{
    ItemActivation { run: !syncing, show_mark: !syncing }
}

/// An installed plugin.
pub struct InstalledPlugin {
    pub index: usize,
    pub name: String,
    pub loaded: bool,
    /// Why it could not be loaded.
    pub failed_reason: Option<String>,
    pub disabled: bool,
}

/// What the list of plugins says of one.
pub open spec fn status_of(p: InstalledPlugin) -> Seq<char> {
    if p.loaded {
        "Loaded"@
    } else {
        match p.failed_reason {
            Some(reason) => "Failed: "@ + reason@,
            None => "Not loaded"@,
        }
    }
}

/// What the list of plugins says of one.
pub fn plugin_status(p: &InstalledPlugin) -> (r: String)
    ensures
        r@ == status_of(*p),
{
    if p.loaded {
        return String::from_str("Loaded");
    }
    match &p.failed_reason {
        Some(reason) => {
            let mut out: String = String::from_str("Failed: ");
            out.append(reason.as_str());
            out
        },
        None => String::from_str("Not loaded"),
    }
}

/// A row of the list of plugins.
pub struct ManagerRow {
    pub enabled: bool,
    pub name: String,
    pub status: String,
    pub index: usize,
}

/// Make the list of plugins.
pub fn manager_rows(installed: &Vec<InstalledPlugin>) -> (r: Vec<ManagerRow>)
    ensures
        r@.len() == installed@.len(),
        forall|i: int|
            0 <= i < r@.len() ==> {
                let row = #[trigger] r@[i];
                let p = installed@[i];
                row.enabled == !p.disabled && row.name@ == p.name@ && row.status@ == status_of(p)
                    && row.index == p.index
            },
{
    let mut rows: Vec<ManagerRow> = Vec::new();
    let mut i: usize = 0;
    while i < installed.len()
        invariant
            i <= installed@.len(),
            rows@.len() == i,
            forall|j: int|
                0 <= j < i ==> {
                    let row = #[trigger] rows@[j];
                    let p = installed@[j];
                    row.enabled == !p.disabled && row.name@ == p.name@ && row.status@ == status_of(
                        p,
                    ) && row.index == p.index
                },
        decreases installed.len() - i,
    {
        let p: &InstalledPlugin = &installed[i];
        rows.push(
            ManagerRow {
                enabled: !p.disabled,
                name: p.name.clone(),
                status: plugin_status(p),
                index: p.index,
            },
        );
        i += 1;
    }
    rows
}

impl ManagerRow {
    /// Switch a plugin on or off. Returns its number and whether it is
    /// disabled from now on.
    pub fn toggle(&mut self) -> (r: (usize, bool))
        ensures
            r.0 == old(self).index,
            r.1 == old(self).enabled,
            *final(self) == (ManagerRow { enabled: !old(self).enabled, ..*old(self) }),
    {
        let was_enabled: bool = self.enabled;
        self.enabled = !was_enabled;
        (self.index, was_enabled)
    }
}

/// A submenu has its plugin's name and shows its rows in order: a command by
/// its own label and number and with the tick that is recorded for it, and
/// everything else as a separator.
pub proof fn a_submenu_shows_its_plugin(
    entries: Vec<PluginEntry>,
    checks: PluginChecks,
    r: Vec<PluginLine>,
    i: int,
    j: int,
)
    requires
        call_ensures(rebuild_menu, (entries, &checks), r),
        0 <= i < entries@.len(),
        0 <= j < entries@[i].rows@.len(),
    ensures
        r@[i] matches PluginLine::Submenu { name, items } && name@ == entries@[i].name@
            && items@.len() == entries@[i].rows@.len() && {
            let row = entries@[i].rows@[j];
            &&& items@[j] is Separator <==> !row.is_command
            &&& items@[j] matches PluginItem::Command { label, cmd_id, mark } ==> label@
                == row.label@ && cmd_id == row.cmd_id && mark == checks.mark(row.cmd_id)
        },
{
    assert(line_shows(r@[i], entries@[i], checks));
    if let PluginLine::Submenu { name, items } = r@[i] {
        assert(item_shows(items@[j], entries@[i].rows@[j], checks));
    }
}

/// An item is set exactly if it is a check item that does not show the tick,
/// and replaced exactly if it is a plain one that has a tick to show and stands
/// in a menu; then it is replaced where it stands.
pub proof fn an_item_comes_to_show_its_tick(mark: bool, item: LiveItem)
    ensures
        mark_show_of(None, Some(item)) == MarkShow::Nothing,
        mark_show_of(Some(mark), None) == MarkShow::Nothing,
        item.is_check && item.active != mark ==> mark_show_of(Some(mark), Some(item))
            == MarkShow::SetActive(mark),
        item.is_check && item.active == mark ==> mark_show_of(Some(mark), Some(item))
            == MarkShow::Nothing,
        !item.is_check && item.position is None ==> mark_show_of(Some(mark), Some(item))
            == MarkShow::Nothing,
        !item.is_check && item.position is Some ==> (mark_show_of(
            Some(mark),
            Some(item),
        ) matches MarkShow::Replace { position } && (item.position->0 <= i32::MAX ==> position
            == item.position->0) && (item.position->0 > i32::MAX ==> position == -1)),
{
}

/// A click runs the command and shows the tick again; what the host does to an
/// item itself does neither.
pub proof fn only_a_click_runs(syncing: bool, r: ItemActivation)
    requires
        call_ensures(on_plugin_item_activated, (syncing,), r),
    ensures
        r.run <==> !syncing,
        r.show_mark <==> !syncing,
{
}

/// The list says of a plugin that it is loaded, or why it failed, or that it is
/// not loaded.
pub proof fn the_list_tells_how_a_plugin_fares(p: InstalledPlugin)
    ensures
        p.loaded ==> status_of(p) == "Loaded"@,
        !p.loaded && p.failed_reason is None ==> status_of(p) == "Not loaded"@,
        !p.loaded && p.failed_reason is Some ==> status_of(p) == "Failed: "@ + p.failed_reason->0@,
{
}

/// The list has a row for each plugin, in order, which is enabled exactly if
/// the plugin is not disabled.
pub proof fn every_plugin_has_its_row(installed: Vec<InstalledPlugin>, r: Vec<ManagerRow>, i: int)
    requires
        call_ensures(manager_rows, (&installed,), r),
        0 <= i < installed@.len(),
    ensures
        r@.len() == installed@.len(),
        r@[i].enabled <==> !installed@[i].disabled,
        r@[i].name@ == installed@[i].name@,
        r@[i].index == installed@[i].index,
        installed@[i].loaded ==> r@[i].status@ == "Loaded"@,
{
}

/// To switch a plugin twice leaves it as it was; each time it is told whether it
/// is disabled from then on.
pub proof fn switching_twice_changes_nothing(first: (usize, bool), second: (usize, bool))
    ensures
        forall|a: &mut ManagerRow, b: &mut ManagerRow|
            (#[trigger] call_ensures(ManagerRow::toggle, (a,), first) && #[trigger] call_ensures(
                ManagerRow::toggle,
                (b,),
                second,
            ) && *b == *final(a)) ==> {
                &&& *final(b) == *a
                &&& first.0 == a.index && second.0 == a.index
                &&& first.1 == a.enabled
                &&& second.1 == !a.enabled
                &&& first.1 == !final(a).enabled
            },
{
}

} // verus!
