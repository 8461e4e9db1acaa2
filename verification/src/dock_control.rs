//! Showing, hiding and closing docked panels.
use vstd::prelude::*;
use crate::dock_geometry::DockPanel;

verus! {

/// The size of a tab's icon, in pixels.
pub const DOCK_TAB_ICON_PX: i32 = 16;

/// Where a tab's icon comes from.
#[derive(Copy, Clone, PartialEq, Eq, Structural, Debug)]
pub enum IconSource {
    /// The plugin's own.
    Own,
    /// One that comes along, at twice the size or not.
    Stock { stock: StockIcon, double: bool },
}

/// An icon that comes along.
#[derive(Copy, Clone, PartialEq, Eq, Structural, Debug)]
pub enum StockIcon {
    FolderWorkspace,
    DocumentMap,
    PluginPanel,
}

/// The icon of a panel that comes along.
pub open spec fn stock_icon(panel: DockPanel) -> StockIcon {
    match panel {
        DockPanel::Workspace => StockIcon::FolderWorkspace,
        DockPanel::DocMap => StockIcon::DocumentMap,
        DockPanel::Plugin(_) => StockIcon::PluginPanel,
    }
}

/// The icon of a panel's tab: where it comes from, and its size on a screen of
/// this scale. A plugin's own icon goes before any other.
pub fn panel_icon(panel: DockPanel, has_own: bool, scale: i32) -> (r: (IconSource, i32))
    requires
        scale <= i32::MAX / DOCK_TAB_ICON_PX,
    ensures
        r.0 == if has_own {
            IconSource::Own
        } else {
            IconSource::Stock { stock: stock_icon(panel), double: scale >= 2 }
        },
        r.1 == DOCK_TAB_ICON_PX * (if scale < 1 {
            1
        } else {
            scale as int
        }),
{
    let factor: i32 = if scale < 1 {
        1
    } else {
        scale
    };
    let source: IconSource = if has_own {
        IconSource::Own
    } else {
        let stock: StockIcon = match panel {
            DockPanel::Workspace => StockIcon::FolderWorkspace,
            DockPanel::DocMap => StockIcon::DocumentMap,
            DockPanel::Plugin(_) => StockIcon::PluginPanel,
        };
        IconSource::Stock { stock, double: scale >= 2 }
    };
    (source, DOCK_TAB_ICON_PX * factor)
}

/// A part of bringing the panels in step with the layout.
#[derive(Copy, Clone, PartialEq, Eq, Structural, Debug)]
pub enum LayoutStep {
    /// Take note that there is nothing left to catch up with.
    ClearDirty,
    Reconcile,
    Relayout,
    /// Bind the document map to the active tab.
    SyncDocMap,
    Indicators,
    /// Hand the layout to the session.
    Session,
    /// Tell plugins where their panels are now.
    Notices,
}

/// The parts of bringing the panels in step with the layout, in order.
pub open spec fn layout_steps(docmap_visible: bool) -> Seq<LayoutStep> {
    seq![LayoutStep::ClearDirty, LayoutStep::Reconcile, LayoutStep::Relayout] + (
    if docmap_visible {
        seq![LayoutStep::SyncDocMap]
    } else {
        Seq::empty()
    }) + seq![LayoutStep::Indicators, LayoutStep::Session, LayoutStep::Notices]
}

/// The parts of bringing the panels in step with the layout. Plugins are told
/// last, so that they find everything settled.
pub fn apply_layout(docmap_visible: bool) -> (r: Vec<LayoutStep>)
    ensures
        r@ == layout_steps(docmap_visible),
{
    let mut steps: Vec<LayoutStep> = Vec::new();
    steps.push(LayoutStep::ClearDirty);
    steps.push(LayoutStep::Reconcile);
    steps.push(LayoutStep::Relayout);
    if docmap_visible {
        steps.push(LayoutStep::SyncDocMap);
    }
    steps.push(LayoutStep::Indicators);
    steps.push(LayoutStep::Session);
    steps.push(LayoutStep::Notices);
    assert(steps@ =~= layout_steps(docmap_visible));
    steps
}

/// What showing or hiding a panel does to the layout.
#[derive(Copy, Clone, PartialEq, Eq, Structural, Debug)]
pub enum PanelEdit {
    /// Show it, or bring it to the front if it is shown.
    Show,
    Hide,
    /// Nothing, and nothing follows.
    Nothing,
}

/// What showing or hiding a panel does to the layout: a panel that is hidden
/// is not hidden again.
pub fn set_panel_visible(was_visible: bool, visible: bool) -> (r: PanelEdit)
    ensures
        visible ==> r == PanelEdit::Show,
        !visible && was_visible ==> r == PanelEdit::Hide,
        !visible && !was_visible ==> r == PanelEdit::Nothing,
{
    if visible {
        PanelEdit::Show
    } else if was_visible {
        PanelEdit::Hide
    } else {
        PanelEdit::Nothing
    }
}

/// What is done with the workspace panel of last time.
#[derive(Copy, Clone, PartialEq, Eq, Structural, Debug)]
pub struct RestoredWorkspace {
    /// Hide it in the layout before that is used.
    pub hide: bool,
    /// It is to be seen then.
    pub visible: bool,
    /// Open its folder again.
    pub open_root: bool,
}

/// What is done with the workspace panel of last time: without a folder that
/// still exists there is nothing to show.
pub fn restore_workspace(root_exists: bool, visible: bool) -> (r: RestoredWorkspace)
    ensures
        r.hide == (!root_exists && visible),
        r.visible == (root_exists && visible),
        r.open_root == root_exists,
{
    RestoredWorkspace {
        hide: !root_exists && visible,
        visible: root_exists && visible,
        open_root: root_exists,
    }
}

/// Whom a close goes to.
#[derive(Copy, Clone, PartialEq, Eq, Structural, Debug)]
pub enum CloseRoute {
    Workspace,
    DocMap,
    /// By way of the plugin, which is told first.
    Plugin,
}

/// Whom the close of a panel goes to, so that it does what hiding the panel
/// from the menu does.
pub fn close_panel(panel: DockPanel) -> (r: CloseRoute)
    ensures
        r == match panel {
            DockPanel::Workspace => CloseRoute::Workspace,
            DockPanel::DocMap => CloseRoute::DocMap,
            DockPanel::Plugin(_) => CloseRoute::Plugin,
        },
{
    match panel {
        DockPanel::Workspace => CloseRoute::Workspace,
        DockPanel::DocMap => CloseRoute::DocMap,
        DockPanel::Plugin(_) => CloseRoute::Plugin,
    }
}

/// Whether the layout still reaches the session.
pub struct SessionGate {
    frozen: bool,
}

impl SessionGate {
    /// It does not any more.
    pub closed spec fn frozen(&self) -> bool {
        self.frozen
    }

    /// The layout reaches the session.
    pub fn new() -> (g: SessionGate)
        ensures
            !g.frozen(),
    {
        SessionGate { frozen: false }
    }

    /// Whether the layout is handed to the session.
    pub fn syncs(&self) -> (r: bool)
        ensures
            r == !self.frozen(),
    {
        !self.frozen
    }

    /// From now on it is not: what plugins do to their panels on the way out
    /// is not what the user left.
    pub fn freeze_session(&mut self)
        ensures
            final(self).frozen(),
    {
        self.frozen = true;
    }
}

/// A tab's icon is sixteen pixels large for every step of the screen's scale,
/// and for one step at least. A plugin's own icon is always used; without one
/// the panel's stock icon is, at twice the size from a scale of two on.
pub proof fn an_icon_fits_the_screen(
    panel: DockPanel,
    has_own: bool,
    scale: i32,
    r: (IconSource, i32),
)
    requires
        scale <= i32::MAX / 16,
        call_ensures(panel_icon, (panel, has_own, scale), r),
    ensures
        scale >= 1 ==> r.1 == 16 * scale,
        scale < 1 ==> r.1 == 16,
        has_own <==> r.0 == IconSource::Own,
        r.0 matches IconSource::Stock { stock, double } ==> {
            &&& double <==> scale >= 2
            &&& stock == StockIcon::FolderWorkspace <==> panel == DockPanel::Workspace
            &&& stock == StockIcon::DocumentMap <==> panel == DockPanel::DocMap
            &&& stock == StockIcon::PluginPanel <==> panel is Plugin
        },
{
}

/// The panels are brought in step from the layout outwards: what is to be
/// caught up with is taken note of first, plugins hear of it last, and the
/// document map is bound in between exactly if it is to be seen.
pub proof fn the_layout_goes_out_in_order(docmap_visible: bool)
    ensures
        layout_steps(docmap_visible)[0] == LayoutStep::ClearDirty,
        layout_steps(docmap_visible)[1] == LayoutStep::Reconcile,
        layout_steps(docmap_visible)[2] == LayoutStep::Relayout,
        docmap_visible <==> layout_steps(docmap_visible).contains(LayoutStep::SyncDocMap),
        docmap_visible ==> layout_steps(docmap_visible).len() == 7 && layout_steps(
            docmap_visible,
        )[3] == LayoutStep::SyncDocMap,
        !docmap_visible ==> layout_steps(docmap_visible).len() == 6,
        ({
            let steps = layout_steps(docmap_visible);
            let n = steps.len();
            steps[n - 3] == LayoutStep::Indicators && steps[n - 2] == LayoutStep::Session && steps[n
                - 1] == LayoutStep::Notices
        }),
{
    let steps = layout_steps(docmap_visible);
    if docmap_visible {
        assert(steps[3] == LayoutStep::SyncDocMap);
    }
}

/// A close goes the way of the panel it is about, and that of a plugin's panel
/// goes by way of the plugin, whichever plugin that is.
pub proof fn a_close_goes_to_its_panel(panel: DockPanel, r: CloseRoute)
    requires
        call_ensures(close_panel, (panel,), r),
    ensures
        r == CloseRoute::Workspace <==> panel == DockPanel::Workspace,
        r == CloseRoute::DocMap <==> panel == DockPanel::DocMap,
        r == CloseRoute::Plugin <==> panel is Plugin,
{
}

/// To show a panel always has an effect, and to hide one has one exactly if it
/// was to be seen; so hiding twice is hiding once.
pub proof fn hiding_twice_is_hiding_once(first: PanelEdit, second: PanelEdit, shown: PanelEdit, was: bool)
    requires
        call_ensures(set_panel_visible, (true, false), first),
        call_ensures(set_panel_visible, (false, false), second),
        call_ensures(set_panel_visible, (was, true), shown),
    ensures
        first == PanelEdit::Hide,
        second == PanelEdit::Nothing,
        shown == PanelEdit::Show,
{
}

/// A workspace whose folder is gone is not shown, and one whose folder exists is
/// opened and shown as it was.
pub proof fn a_workspace_needs_its_folder(root_exists: bool, visible: bool, r: RestoredWorkspace)
    requires
        call_ensures(restore_workspace, (root_exists, visible), r),
    ensures
        r.open_root <==> root_exists,
        root_exists ==> r.visible == visible && !r.hide,
        !root_exists ==> !r.visible && r.hide == visible,
{
}

/// The layout reaches the session until that is ended, and never after.
pub proof fn the_session_stays_shut(fresh: SessionGate, before: bool, after: bool)
    requires
        call_ensures(SessionGate::new, (), fresh),
        call_ensures(SessionGate::syncs, (&fresh,), before),
    ensures
        before,
        forall|g: &mut SessionGate| #[trigger]
            call_ensures(SessionGate::freeze_session, (g,), ()) && call_ensures(
                SessionGate::syncs,
                (final(g),),
                after,
            ) ==> !after,
{
}

} // verus!
