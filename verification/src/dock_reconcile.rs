//! Making the dock's widgets match its layout.
//!
//! The widgets of a group are made once and then only moved: between the dock
//! area and a floating window, as the layout says. A floating window that is
//! not needed goes to a pool and is used again. [`reconcile`] works out what
//! has to move; the caller moves it.
use vstd::multiset::Multiset;
use vstd::prelude::*;
use crate::dock_geometry::{DockLocation, DockPanel, DockRect, DockSide};
use crate::dock_panels::contains_panel;

verus! {

/// A group of the layout.
pub struct GroupReading {
    pub id: u32,
    pub panels: Vec<DockPanel>,
    /// The index of the panel in front.
    pub active: usize,
    pub location: DockLocation,
}

/// The widgets of a group, and the floating window they are in, if any.
#[derive(Clone, Copy, PartialEq, Eq, Structural, Debug)]
pub struct GroupWidget {
    pub id: u32,
    pub float: Option<u64>,
}

/// The widgets there are: the groups', the floating windows that wait for
/// use, and how many floating windows were made. A window is known by the
/// number of windows made before it.
pub struct WidgetTree {
    pub groups: Vec<GroupWidget>,
    pub pool: Vec<u64>,
    pub made: u64,
}

/// [`WidgetTree`] as a value.
#[verifier::ext_equal]
pub struct TreeView {
    pub groups: Seq<GroupWidget>,
    pub pool: Seq<u64>,
    pub made: nat,
}

/// How a group's frame changes its place.
#[derive(Clone, Copy, PartialEq, Eq, Structural, Debug)]
pub enum Rehost {
    /// It was in the dock area, or is new, and belongs there.
    StaysDocked,
    /// It leaves this floating window for the dock area.
    Docked(u64),
    /// It goes into this floating window, made for it if `fresh`, which is
    /// put at the rectangle.
    Floated { window: u64, fresh: bool, rect: DockRect },
    /// It stays in this floating window, which is put at the rectangle.
    FloatMoved { window: u64, rect: DockRect },
}

/// A panel's content in a group's slot, and whether it shows.
#[derive(Clone, Copy, PartialEq, Eq, Structural, Debug)]
pub struct SlotPlan {
    pub panel: DockPanel,
    pub shown: bool,
}

/// A tab, and whether it is the one in front, which alone shows its label.
#[derive(Clone, Copy, PartialEq, Eq, Structural, Debug)]
pub struct TabPlan {
    pub panel: DockPanel,
    pub active: bool,
}

/// What is done for one group of the layout.
pub struct GroupStep {
    pub id: u32,
    pub rehost: Rehost,
    pub slots: Vec<SlotPlan>,
    /// The tabs of the tab bar; none, and no bar, for a single panel.
    pub tabs: Vec<TabPlan>,
}

/// What there is to do, in this order.
pub struct ReconcilePlan {
    /// Groups to take apart: their panels are parked and their windows
    /// pooled.
    pub dismantled: Vec<GroupWidget>,
    /// Groups to build.
    pub built: Vec<u32>,
    pub steps: Vec<GroupStep>,
    /// Panels whose content goes to the parking box.
    pub parked: Vec<DockPanel>,
    /// Whether each side's splitter shows, in the order left, right, top,
    /// bottom.
    pub splitters: [bool; 4],
}

/// Some group of the layout has this id.
pub open spec fn in_layout(layout: Seq<GroupReading>, id: u32) -> bool {
    exists|i: int| 0 <= i < layout.len() && (#[trigger] layout[i]).id == id
}

/// Some group has widgets under this id.
pub open spec fn has_widgets(groups: Seq<GroupWidget>, id: u32) -> bool {
    exists|i: int| 0 <= i < groups.len() && (#[trigger] groups[i]).id == id
}

/// The first widgets under an id, where there are any.
pub open spec fn widget_index(groups: Seq<GroupWidget>, id: u32) -> int {
    choose|i: int|
        0 <= i < groups.len() && (#[trigger] groups[i]).id == id && forall|j: int|
            0 <= j < i ==> (#[trigger] groups[j]).id != id
}

/// The groups that the layout still has, or those it has no more.
pub open spec fn sorted_out(
    groups: Seq<GroupWidget>,
    layout: Seq<GroupReading>,
    kept: bool,
) -> Seq<GroupWidget>
    decreases groups.len(),
{
    if groups.len() == 0 {
        Seq::empty()
    } else {
        let before = sorted_out(groups.drop_last(), layout, kept);
        if in_layout(layout, groups.last().id) == kept {
            before.push(groups.last())
        } else {
            before
        }
    }
}

/// The windows of a row of groups, in order.
pub open spec fn windows_of(groups: Seq<GroupWidget>) -> Seq<u64>
    decreases groups.len(),
{
    if groups.len() == 0 {
        Seq::empty()
    } else {
        let before = windows_of(groups.drop_last());
        match groups.last().float {
            Some(w) => before.push(w),
            None => before,
        }
    }
}

/// The tree after the groups that the layout has lost were taken apart.
pub open spec fn after_dismantling(t: TreeView, layout: Seq<GroupReading>) -> TreeView {
    TreeView {
        groups: sorted_out(t.groups, layout, true),
        pool: t.pool + windows_of(sorted_out(t.groups, layout, false)),
        made: t.made,
    }
}

/// The ids of the layout that have no widgets yet, each once, in order.
pub open spec fn missing_ids(layout: Seq<GroupReading>, groups: Seq<GroupWidget>) -> Seq<u32>
    decreases layout.len(),
{
    if layout.len() == 0 {
        Seq::empty()
    } else {
        let before = missing_ids(layout.drop_last(), groups);
        let id = layout.last().id;
        if !has_widgets(groups, id) && !before.contains(id) {
            before.push(id)
        } else {
            before
        }
    }
}

/// The widgets of groups that were just built.
pub open spec fn new_widgets(ids: Seq<u32>) -> Seq<GroupWidget> {
    Seq::new(ids.len(), |i: int| GroupWidget { id: ids[i], float: None })
}

/// The tree after the groups that the layout has gained were built.
pub open spec fn after_building(t: TreeView, layout: Seq<GroupReading>) -> TreeView {
    TreeView {
        groups: t.groups + new_widgets(missing_ids(layout, t.groups)),
        pool: t.pool,
        made: t.made,
    }
}

/// The tree and the move of the frame when the widgets at `i` go to
/// `location`.
pub open spec fn rehosted(t: TreeView, i: int, location: DockLocation) -> (TreeView, Rehost) {
    let g = t.groups[i];
    match (location, g.float) {
        (DockLocation::Side(_), None) => (t, Rehost::StaysDocked),
        (DockLocation::Side(_), Some(w)) => (
            TreeView {
                groups: t.groups.update(i, GroupWidget { id: g.id, float: None }),
                pool: t.pool.push(w),
                made: t.made,
            },
            Rehost::Docked(w),
        ),
        (DockLocation::Floating(rect), Some(w)) => (t, Rehost::FloatMoved { window: w, rect }),
        (DockLocation::Floating(rect), None) => if t.pool.len() > 0 {
            (
                TreeView {
                    groups: t.groups.update(
                        i,
                        GroupWidget { id: g.id, float: Some(t.pool.last()) },
                    ),
                    pool: t.pool.drop_last(),
                    made: t.made,
                },
                Rehost::Floated { window: t.pool.last(), fresh: false, rect },
            )
        } else {
            (
                TreeView {
                    groups: t.groups.update(
                        i,
                        GroupWidget { id: g.id, float: Some(t.made as u64) },
                    ),
                    pool: t.pool,
                    made: t.made + 1,
                },
                Rehost::Floated { window: t.made as u64, fresh: true, rect },
            )
        },
    }
}

/// The tree after the groups of `layout` were put in their places, in order.
pub open spec fn after_rehosting(t: TreeView, layout: Seq<GroupReading>) -> TreeView
    decreases layout.len(),
{
    if layout.len() == 0 {
        t
    } else {
        let before = after_rehosting(t, layout.drop_last());
        let g = layout.last();
        rehosted(before, widget_index(before.groups, g.id), g.location).0
    }
}

/// How the frame of the group at `k` moves, when the groups before it have
/// been put in their places.
pub open spec fn rehost_at(t: TreeView, layout: Seq<GroupReading>, k: int) -> Rehost {
    let before = after_rehosting(t, layout.take(k));
    rehosted(before, widget_index(before.groups, layout[k].id), layout[k].location).1
}

/// The tree after a reconcile with `layout`.
pub open spec fn reconciled(t: TreeView, layout: Seq<GroupReading>) -> TreeView {
    after_rehosting(after_building(after_dismantling(t, layout), layout), layout)
}

/// Whether there is content to show for a panel: a built-in one always has
/// some, a plugin's while its widget is registered.
pub open spec fn has_content(panel: DockPanel, supplied: Seq<DockPanel>) -> bool {
    match panel {
        DockPanel::Plugin(_) => supplied.contains(panel),
        _ => true,
    }
}

/// What goes into a group's slot: the panels with content, of which the one
/// in front shows.
pub open spec fn slots_spec(
    panels: Seq<DockPanel>,
    active: int,
    supplied: Seq<DockPanel>,
) -> Seq<SlotPlan>
    decreases panels.len(),
{
    if panels.len() == 0 {
        Seq::empty()
    } else {
        let before = slots_spec(panels.drop_last(), active, supplied);
        if has_content(panels.last(), supplied) {
            before.push(SlotPlan { panel: panels.last(), shown: panels.len() - 1 == active })
        } else {
            before
        }
    }
}

/// A group's tabs: one for every panel, if there are two or more.
pub open spec fn tabs_spec(panels: Seq<DockPanel>, active: int) -> Seq<TabPlan> {
    if panels.len() < 2 {
        Seq::empty()
    } else {
        Seq::new(panels.len(), |i: int| TabPlan { panel: panels[i], active: i == active })
    }
}

/// The panels whose content is parked: those of the built-in and the supplied
/// ones that are not open.
pub open spec fn parked_spec(hosted: Seq<DockPanel>, visible: Seq<DockPanel>) -> Seq<DockPanel>
    decreases hosted.len(),
{
    if hosted.len() == 0 {
        Seq::empty()
    } else {
        let before = parked_spec(hosted.drop_last(), visible);
        if !visible.contains(hosted.last()) {
            before.push(hosted.last())
        } else {
            before
        }
    }
}

/// Some group of the layout is docked on this side.
pub open spec fn occupied(layout: Seq<GroupReading>, side: DockSide) -> bool {
    exists|i: int|
        0 <= i < layout.len() && (#[trigger] layout[i]).location == DockLocation::Side(side)
}

/// The step for the group at `k` is the right one.
pub open spec fn step_is(
    step: GroupStep,
    t: TreeView,
    layout: Seq<GroupReading>,
    k: int,
    supplied: Seq<DockPanel>,
) -> bool {
    &&& step.id == layout[k].id
    &&& step.rehost == rehost_at(t, layout, k)
    &&& step.slots@ == slots_spec(layout[k].panels@, layout[k].active as int, supplied)
    &&& step.tabs@ == tabs_spec(layout[k].panels@, layout[k].active as int)
}

impl WidgetTree {
    pub open spec fn view(&self) -> TreeView {
        TreeView { groups: self.groups@, pool: self.pool@, made: self.made as nat }
    }

    /// No widgets yet.
    pub fn new() -> (t: WidgetTree)
        ensures
            t@ == (TreeView { groups: Seq::empty(), pool: Seq::empty(), made: 0 }),
    {
        WidgetTree { groups: Vec::new(), pool: Vec::new(), made: 0 }
    }

    fn index_of(&self, id: u32) -> (r: usize)
        requires
            has_widgets(self.groups@, id),
        ensures
            r < self.groups@.len(),
            r == widget_index(self.groups@, id),
            self.groups@[r as int].id == id,
    {
        let mut i: usize = 0;
        while self.groups[i].id != id
            invariant
                i < self.groups@.len(),
                has_widgets(self.groups@, id),
                forall|j: int| 0 <= j < i ==> (#[trigger] self.groups@[j]).id != id,
            decreases self.groups.len() - i,
        {
            proof {
                let k = choose|k: int|
                    0 <= k < self.groups@.len() && (#[trigger] self.groups@[k]).id == id;
                assert(k > i);
            }
            i += 1;
        }
        proof {
            let s = self.groups@;
            assert(s[i as int].id == id && forall|j: int|
                0 <= j < i ==> (#[trigger] s[j]).id != id);
            let w = widget_index(s, id);
            assert(0 <= w < s.len() && s[w].id == id);
            if w < i {
                assert(s[w].id != id);
            }
            if i < w {
                assert(s[i as int].id != id);
            }
        }
        i
    }

    fn has(&self, id: u32) -> (r: bool)
        ensures
            r == has_widgets(self.groups@, id),
    {
        let mut i: usize = 0;
        while i < self.groups.len()
            invariant
                i <= self.groups@.len(),
                forall|j: int| 0 <= j < i ==> (#[trigger] self.groups@[j]).id != id,
            decreases self.groups.len() - i,
        {
            if self.groups[i].id == id {
                assert(self.groups@[i as int].id == id);
                return true;
            }
            i += 1;
        }
        false
    }

    /// Take the groups apart that the layout has no more.
    fn dismantle(&mut self, layout: &Vec<GroupReading>) -> (gone: Vec<GroupWidget>)
        ensures
            gone@ == sorted_out(old(self).groups@, layout@, false),
            final(self)@ == after_dismantling(old(self)@, layout@),
    {
        let ghost all = self.groups@;
        let ghost pool = self.pool@;
        let mut gone: Vec<GroupWidget> = Vec::new();
        let ghost mut k: int = 0;
        let mut i: usize = 0;
        while i < self.groups.len()
            invariant
                0 <= k <= all.len(),
                i <= self.groups@.len(),
                i == sorted_out(all.take(k), layout@, true).len(),
                self.groups@ =~= sorted_out(all.take(k), layout@, true) + all.skip(k),
                gone@ == sorted_out(all.take(k), layout@, false),
                self.pool@ == pool + windows_of(gone@),
                self.made == old(self).made,
            decreases all.len() - k,
        {
            proof {
                assert(all.take(k + 1).drop_last() =~= all.take(k));
                assert(self.groups@[i as int] == all[k]);
            }
            if layout_has(layout, self.groups[i].id) {
                i += 1;
            } else {
                let g: GroupWidget = self.groups.remove(i);
                gone.push(g);
                assert(gone@.drop_last() =~= sorted_out(all.take(k), layout@, false));
                if let Some(w) = g.float {
                    self.pool.push(w);
                }
                assert(self.pool@ =~= pool + windows_of(gone@));
            }
            proof {
                k = k + 1;
            }
        }
        proof {
            assert(all.take(k) =~= all);
            assert(self.groups@ =~= sorted_out(all, layout@, true));
        }
        gone
    }

    /// Build the groups that the layout has gained.
    fn build(&mut self, layout: &Vec<GroupReading>) -> (ids: Vec<u32>)
        ensures
            ids@ == missing_ids(layout@, old(self).groups@),
            final(self)@ == after_building(old(self)@, layout@),
    {
        let ghost before = self.groups@;
        let mut ids: Vec<u32> = Vec::new();
        let mut k: usize = 0;
        while k < layout.len()
            invariant
                k <= layout@.len(),
                ids@ == missing_ids(layout@.take(k as int), before),
                self.groups@ =~= before + new_widgets(ids@),
                self.pool@ == old(self).pool@,
                self.made == old(self).made,
            decreases layout.len() - k,
        {
            assert(layout@.take(k + 1).drop_last() =~= layout@.take(k as int));
            let id: u32 = layout[k].id;
            let ghost now = self.groups@;
            let ghost had = ids@;
            proof {
                if has_widgets(before, id) {
                    let j = choose|j: int| 0 <= j < before.len() && (#[trigger] before[j]).id == id;
                    assert(now[j] == before[j]);
                }
                if had.contains(id) {
                    let j = choose|j: int| 0 <= j < had.len() && had[j] == id;
                    assert(now[before.len() + j].id == id);
                }
                if has_widgets(now, id) {
                    let j = choose|j: int| 0 <= j < now.len() && (#[trigger] now[j]).id == id;
                    if j < before.len() {
                        assert(before[j].id == id);
                    } else {
                        assert(had[j - before.len()] == id);
                    }
                }
                assert(has_widgets(now, id) == (has_widgets(before, id) || had.contains(id)));
            }
            if !self.has(id) {
                self.groups.push(GroupWidget { id, float: None });
                ids.push(id);
            }
            k += 1;
        }
        assert(layout@.take(k as int) =~= layout@);
        ids
    }

    /// Put the frame at `i` where `location` says.
    fn rehost(&mut self, i: usize, location: DockLocation) -> (r: Rehost)
        requires
            i < old(self).groups@.len(),
            old(self).made < u64::MAX,
        ensures
            (final(self)@, r) == rehosted(old(self)@, i as int, location),
    {
        let g: GroupWidget = self.groups[i];
        match location {
            DockLocation::Side(_) => match g.float {
                None => Rehost::StaysDocked,
                Some(w) => {
                    self.groups.set(i, GroupWidget { id: g.id, float: None });
                    self.pool.push(w);
                    Rehost::Docked(w)
                },
            },
            DockLocation::Floating(rect) => match g.float {
                Some(w) => Rehost::FloatMoved { window: w, rect },
                None => match self.pool.pop() {
                    Some(w) => {
                        self.groups.set(i, GroupWidget { id: g.id, float: Some(w) });
                        Rehost::Floated { window: w, fresh: false, rect }
                    },
                    None => {
                        let w: u64 = self.made;
                        self.groups.set(i, GroupWidget { id: g.id, float: Some(w) });
                        self.made = w + 1;
                        Rehost::Floated { window: w, fresh: true, rect }
                    },
                },
            },
        }
    }
}

/// Whether the layout has a group of this id.
fn layout_has(layout: &Vec<GroupReading>, id: u32) -> (r: bool)
    ensures
        r == in_layout(layout@, id),
{
    let mut i: usize = 0;
    while i < layout.len()
        invariant
            i <= layout@.len(),
            forall|j: int| 0 <= j < i ==> (#[trigger] layout@[j]).id != id,
        decreases layout.len() - i,
    {
        if layout[i].id == id {
            assert(layout@[i as int].id == id);
            return true;
        }
        i += 1;
    }
    false
}

fn side_occupied(layout: &Vec<GroupReading>, side: DockSide) -> (r: bool)
    ensures
        r == occupied(layout@, side),
{
    let mut i: usize = 0;
    while i < layout.len()
        invariant
            i <= layout@.len(),
            forall|j: int|
                0 <= j < i ==> (#[trigger] layout@[j]).location != DockLocation::Side(side),
        decreases layout.len() - i,
    {
        if let DockLocation::Side(s) = layout[i].location {
            if s == side {
                assert(layout@[i as int].location == DockLocation::Side(side));
                return true;
            }
        }
        i += 1;
    }
    false
}

fn fill_slots(panels: &Vec<DockPanel>, active: usize, supplied: &Vec<DockPanel>) -> (r: Vec<SlotPlan>)
    ensures
        r@ == slots_spec(panels@, active as int, supplied@),
{
    let mut out: Vec<SlotPlan> = Vec::new();
    let mut i: usize = 0;
    while i < panels.len()
        invariant
            i <= panels@.len(),
            out@ == slots_spec(panels@.take(i as int), active as int, supplied@),
        decreases panels.len() - i,
    {
        assert(panels@.take(i + 1).drop_last() =~= panels@.take(i as int));
        let panel: DockPanel = panels[i];
        let content: bool = match panel {
            DockPanel::Plugin(_) => contains_panel(supplied, panel),
            _ => true,
        };
        if content {
            out.push(SlotPlan { panel, shown: i == active });
        }
        i += 1;
    }
    assert(panels@.take(i as int) =~= panels@);
    out
}

fn fill_tabs(panels: &Vec<DockPanel>, active: usize) -> (r: Vec<TabPlan>)
    ensures
        r@ == tabs_spec(panels@, active as int),
{
    let mut out: Vec<TabPlan> = Vec::new();
    if panels.len() < 2 {
        return out;
    }
    let mut i: usize = 0;
    while i < panels.len()
        invariant
            i <= panels@.len(),
            panels@.len() >= 2,
            out@ =~= tabs_spec(panels@, active as int).take(i as int),
        decreases panels.len() - i,
    {
        out.push(TabPlan { panel: panels[i], active: i == active });
        i += 1;
    }
    out
}

fn park_hidden(hosted: &Vec<DockPanel>, visible: &Vec<DockPanel>) -> (r: Vec<DockPanel>)
    ensures
        r@ == parked_spec(hosted@, visible@),
{
    let mut out: Vec<DockPanel> = Vec::new();
    let mut i: usize = 0;
    while i < hosted.len()
        invariant
            i <= hosted@.len(),
            out@ == parked_spec(hosted@.take(i as int), visible@),
        decreases hosted.len() - i,
    {
        assert(hosted@.take(i + 1).drop_last() =~= hosted@.take(i as int));
        if !contains_panel(visible, hosted[i]) {
            out.push(hosted[i]);
        }
        i += 1;
    }
    assert(hosted@.take(i as int) =~= hosted@);
    out
}

/// Put the groups of the layout in their places, and fill them.
fn place_groups(
    tree: &mut WidgetTree,
    layout: &Vec<GroupReading>,
    supplied: &Vec<DockPanel>,
) -> (steps: Vec<GroupStep>)
    requires
        old(tree).made + layout@.len() <= u64::MAX,
        forall|i: int|
            0 <= i < layout@.len() ==> has_widgets(old(tree).groups@, (#[trigger] layout@[i]).id),
    ensures
        final(tree)@ == after_rehosting(old(tree)@, layout@),
        steps@.len() == layout@.len(),
        forall|k: int|
            0 <= k < layout@.len() ==> step_is(
                #[trigger] steps@[k],
                old(tree)@,
                layout@,
                k,
                supplied@,
            ),
{
    let ghost ready = tree@;
    let mut steps: Vec<GroupStep> = Vec::new();
    let mut k: usize = 0;
    while k < layout.len()
        invariant
            k <= layout@.len(),
            tree@ == after_rehosting(ready, layout@.take(k as int)),
            tree.made + (layout@.len() - k) <= u64::MAX,
            tree.groups@.len() == ready.groups.len(),
            forall|i: int|
                0 <= i < ready.groups.len() ==> (#[trigger] tree.groups@[i]).id
                    == ready.groups[i].id,
            forall|i: int|
                0 <= i < layout@.len() ==> has_widgets(ready.groups, (#[trigger] layout@[i]).id),
            steps@.len() == k,
            forall|i: int|
                0 <= i < k ==> step_is(#[trigger] steps@[i], ready, layout@, i, supplied@),
        decreases layout.len() - k,
    {
        let id: u32 = layout[k].id;
        let ghost placed = tree@;
        proof {
            assert(layout@.take(k + 1).drop_last() =~= layout@.take(k as int));
            assert(layout@.take(k + 1).last() == layout@[k as int]);
            assert(has_widgets(ready.groups, layout@[k as int].id));
            let j = choose|j: int|
                0 <= j < ready.groups.len() && (#[trigger] ready.groups[j]).id == id;
            assert(tree.groups@[j].id == id);
        }
        let at: usize = tree.index_of(id);
        let rehost: Rehost = tree.rehost(at, layout[k].location);
        proof {
            assert(tree@ == after_rehosting(ready, layout@.take(k + 1)));
            assert forall|i: int| 0 <= i < ready.groups.len() implies (#[trigger] tree.groups@[i]).id
                == ready.groups[i].id by {
                assert(placed.groups[i].id == ready.groups[i].id);
            }
        }
        let step: GroupStep = GroupStep {
            id,
            rehost,
            slots: fill_slots(&layout[k].panels, layout[k].active, supplied),
            tabs: fill_tabs(&layout[k].panels, layout[k].active),
        };
        assert(step_is(step, ready, layout@, k as int, supplied@));
        steps.push(step);
        k += 1;
    }
    assert(layout@.take(k as int) =~= layout@);
    steps
}

/// Bring the widgets in line with `layout`. `supplied` are the plugin panels
/// whose widgets are registered, in order; `visible` are the open panels.
pub fn reconcile(
    tree: &mut WidgetTree,
    layout: &Vec<GroupReading>,
    supplied: &Vec<DockPanel>,
    visible: &Vec<DockPanel>,
) -> (plan: ReconcilePlan)
    requires
        old(tree).made + layout@.len() <= u64::MAX,
    ensures
        final(tree)@ == reconciled(old(tree)@, layout@),
        plan.dismantled@ == sorted_out(old(tree).groups@, layout@, false),
        plan.built@ == missing_ids(layout@, sorted_out(old(tree).groups@, layout@, true)),
        plan.steps@.len() == layout@.len(),
        forall|k: int|
            0 <= k < layout@.len() ==> step_is(
                #[trigger] plan.steps@[k],
                after_building(after_dismantling(old(tree)@, layout@), layout@),
                layout@,
                k,
                supplied@,
            ),
        plan.parked@ == parked_spec(
            seq![DockPanel::Workspace, DockPanel::DocMap] + supplied@,
            visible@,
        ),
        plan.splitters[0] == occupied(layout@, DockSide::Left),
        plan.splitters[1] == occupied(layout@, DockSide::Right),
        plan.splitters[2] == occupied(layout@, DockSide::Top),
        plan.splitters[3] == occupied(layout@, DockSide::Bottom),
{
    let dismantled: Vec<GroupWidget> = tree.dismantle(layout);
    let built: Vec<u32> = tree.build(layout);
    proof {
        every_group_has_widgets(after_dismantling(old(tree)@, layout@), layout@);
    }
    let steps: Vec<GroupStep> = place_groups(tree, layout, supplied);
    let mut hosted: Vec<DockPanel> = vec![DockPanel::Workspace, DockPanel::DocMap];
    let mut i: usize = 0;
    while i < supplied.len()
        invariant
            i <= supplied@.len(),
            hosted@ =~= seq![DockPanel::Workspace, DockPanel::DocMap] + supplied@.take(i as int),
        decreases supplied.len() - i,
    {
        hosted.push(supplied[i]);
        i += 1;
    }
    assert(hosted@ =~= seq![DockPanel::Workspace, DockPanel::DocMap] + supplied@);
    let parked: Vec<DockPanel> = park_hidden(&hosted, visible);
    let splitters: [bool; 4] = [
        side_occupied(layout, DockSide::Left),
        side_occupied(layout, DockSide::Right),
        side_occupied(layout, DockSide::Top),
        side_occupied(layout, DockSide::Bottom),
    ];
    ReconcilePlan { dismantled, built, steps, parked, splitters }
}

proof fn missing_are_all(layout: Seq<GroupReading>, groups: Seq<GroupWidget>, i: int)
    requires
        0 <= i < layout.len(),
    ensures
        has_widgets(groups, layout[i].id) || missing_ids(layout, groups).contains(layout[i].id),
    decreases layout.len(),
{
    let before = missing_ids(layout.drop_last(), groups);
    let all = missing_ids(layout, groups);
    let id = layout[i].id;
    if i < layout.len() - 1 {
        missing_are_all(layout.drop_last(), groups, i);
        if before.contains(id) {
            let k = choose|k: int| 0 <= k < before.len() && before[k] == id;
            assert(all[k] == id);
        }
    } else if !has_widgets(groups, id) && !before.contains(id) {
        assert(all[all.len() - 1] == id);
    }
}

proof fn every_group_has_widgets(t: TreeView, layout: Seq<GroupReading>)
    ensures
        forall|i: int|
            0 <= i < layout.len() ==> has_widgets(
                after_building(t, layout).groups,
                (#[trigger] layout[i]).id,
            ),
{
    let built = after_building(t, layout).groups;
    let ids = missing_ids(layout, t.groups);
    assert forall|i: int| 0 <= i < layout.len() implies has_widgets(
        built,
        (#[trigger] layout[i]).id,
    ) by {
        missing_are_all(layout, t.groups, i);
        let id = layout[i].id;
        if has_widgets(t.groups, id) {
            let k = choose|k: int| 0 <= k < t.groups.len() && (#[trigger] t.groups[k]).id == id;
            assert(built[k].id == id);
        } else {
            let k = choose|k: int| 0 <= k < ids.len() && ids[k] == id;
            assert(built[t.groups.len() + k].id == id);
        }
    }
}

/// A band as the frame computation carves it: its splitter, and the rectangle
/// of each of its groups.
pub struct BandPlan {
    pub side: DockSide,
    pub splitter: DockRect,
    pub groups: Vec<(u32, DockRect)>,
}

/// A child of the dock area.
#[derive(Clone, Copy, PartialEq, Eq, Structural, Debug)]
pub enum Placed {
    Editor,
    Splitter(DockSide),
    Group(u32),
}

/// Some group under this id has its widgets in the dock area.
pub open spec fn docked_widgets(groups: Seq<GroupWidget>, id: u32) -> bool {
    exists|i: int| 0 <= i < groups.len() && (#[trigger] groups[i]).id == id && groups[i].float is None
}

/// The rectangles of a band's groups, without the groups that float.
pub open spec fn group_placements(
    groups: Seq<GroupWidget>,
    rects: Seq<(u32, DockRect)>,
) -> Seq<(Placed, DockRect)>
    decreases rects.len(),
{
    if rects.len() == 0 {
        Seq::empty()
    } else {
        let before = group_placements(groups, rects.drop_last());
        if docked_widgets(groups, rects.last().0) {
            before.push((Placed::Group(rects.last().0), rects.last().1))
        } else {
            before
        }
    }
}

/// The rectangles of the bands: each splitter, followed by its band's groups.
pub open spec fn band_placements(
    groups: Seq<GroupWidget>,
    bands: Seq<BandPlan>,
) -> Seq<(Placed, DockRect)>
    decreases bands.len(),
{
    if bands.len() == 0 {
        Seq::empty()
    } else {
        let band = bands.last();
        band_placements(groups, bands.drop_last()).push((Placed::Splitter(band.side), band.splitter))
            + group_placements(groups, band.groups@)
    }
}

/// The rectangle of every child of a dock area of this size: nothing while
/// the area has no extent, else the editor cell and then the bands.
pub fn placements(
    tree: &WidgetTree,
    area: (i32, i32),
    editor: DockRect,
    bands: &Vec<BandPlan>,
) -> (r: Vec<(Placed, DockRect)>)
    ensures
        r@ == if area.0 <= 0 || area.1 <= 0 {
            Seq::empty()
        } else {
            seq![(Placed::Editor, editor)] + band_placements(tree.groups@, bands@)
        },
{
    let mut out: Vec<(Placed, DockRect)> = Vec::new();
    if area.0 <= 0 || area.1 <= 0 {
        return out;
    }
    out.push((Placed::Editor, editor));
    let mut b: usize = 0;
    while b < bands.len()
        invariant
            b <= bands@.len(),
            out@ =~= seq![(Placed::Editor, editor)] + band_placements(
                tree.groups@,
                bands@.take(b as int),
            ),
        decreases bands.len() - b,
    {
        assert(bands@.take(b + 1).drop_last() =~= bands@.take(b as int));
        let ghost before = out@;
        out.push((Placed::Splitter(bands[b].side), bands[b].splitter));
        let ghost mid = out@;
        let rects: &Vec<(u32, DockRect)> = &bands[b].groups;
        let mut i: usize = 0;
        while i < rects.len()
            invariant
                i <= rects@.len(),
                out@ =~= mid + group_placements(tree.groups@, rects@.take(i as int)),
            decreases rects.len() - i,
        {
            assert(rects@.take(i + 1).drop_last() =~= rects@.take(i as int));
            if is_docked(tree, rects[i].0) {
                out.push((Placed::Group(rects[i].0), rects[i].1));
            }
            i += 1;
        }
        assert(rects@.take(i as int) =~= rects@);
        b += 1;
    }
    assert(bands@.take(b as int) =~= bands@);
    out
}

fn is_docked(tree: &WidgetTree, id: u32) -> (r: bool)
    ensures
        r == docked_widgets(tree.groups@, id),
{
    let mut i: usize = 0;
    while i < tree.groups.len()
        invariant
            i <= tree.groups@.len(),
            forall|j: int|
                0 <= j < i ==> !((#[trigger] tree.groups@[j]).id == id && tree.groups@[j].float is None),
        decreases tree.groups.len() - i,
    {
        if tree.groups[i].id == id && tree.groups[i].float.is_none() {
            assert(tree.groups@[i as int].id == id);
            return true;
        }
        i += 1;
    }
    false
}

/// The group whose widgets are in this floating window, if any.
pub fn group_in_window(tree: &WidgetTree, window: u64) -> (r: Option<u32>)
    ensures
        match r {
            Some(id) => exists|i: int|
                0 <= i < tree.groups@.len() && (#[trigger] tree.groups@[i]).id == id
                    && tree.groups@[i].float == Some(window) && forall|j: int|
                    0 <= j < i ==> (#[trigger] tree.groups@[j]).float != Some(window),
            None => forall|j: int|
                0 <= j < tree.groups@.len() ==> (#[trigger] tree.groups@[j]).float != Some(window),
        },
{
    let mut i: usize = 0;
    while i < tree.groups.len()
        invariant
            i <= tree.groups@.len(),
            forall|j: int| 0 <= j < i ==> (#[trigger] tree.groups@[j]).float != Some(window),
        decreases tree.groups.len() - i,
    {
        if let Some(w) = tree.groups[i].float {
            if w == window {
                assert(tree.groups@[i as int].float == Some(window));
                return Some(tree.groups[i].id);
            }
        }
        i += 1;
    }
    None
}

/// Every floating window that was ever made, once each.
pub open spec fn all_windows(made: nat) -> Multiset<u64> {
    Seq::new(made, |i: int| i as u64).to_multiset()
}

/// Where the floating windows are: in the pool and in use.
pub open spec fn window_places(t: TreeView) -> Multiset<u64> {
    t.pool.to_multiset().add(windows_of(t.groups).to_multiset())
}

/// Every window that was made is in exactly one place.
pub open spec fn windows_accounted(t: TreeView) -> bool {
    window_places(t) == all_windows(t.made)
}

/// No two groups have widgets under the same id.
pub open spec fn distinct_ids(groups: Seq<GroupWidget>) -> bool {
    forall|i: int, j: int|
        #![trigger groups[i], groups[j]]
        0 <= i < j < groups.len() ==> groups[i].id != groups[j].id
}

/// No two groups of the layout share an id.
pub open spec fn distinct_layout(layout: Seq<GroupReading>) -> bool {
    forall|i: int, j: int|
        #![trigger layout[i], layout[j]]
        0 <= i < j < layout.len() ==> layout[i].id != layout[j].id
}

proof fn windows_of_concat(a: Seq<GroupWidget>, b: Seq<GroupWidget>)
    ensures
        windows_of(a + b) == windows_of(a) + windows_of(b),
    decreases b.len(),
{
    if b.len() == 0 {
        assert(a + b =~= a);
        assert(windows_of(a) + windows_of(b) =~= windows_of(a));
    } else {
        windows_of_concat(a, b.drop_last());
        assert((a + b).drop_last() =~= a + b.drop_last());
        assert(windows_of(a + b) =~= windows_of(a) + windows_of(b));
    }
}

proof fn windows_of_update(groups: Seq<GroupWidget>, i: int, g: GroupWidget)
    requires
        0 <= i < groups.len(),
    ensures
        windows_of(groups.update(i, g)).to_multiset().add(windows_of(seq![groups[i]]).to_multiset())
            == windows_of(groups).to_multiset().add(windows_of(seq![g]).to_multiset()),
{
    let head = groups.take(i);
    let tail = groups.skip(i + 1);
    assert(groups =~= head + seq![groups[i]] + tail);
    assert(groups.update(i, g) =~= head + seq![g] + tail);
    windows_of_concat(head + seq![groups[i]], tail);
    windows_of_concat(head, seq![groups[i]]);
    windows_of_concat(head + seq![g], tail);
    windows_of_concat(head, seq![g]);
    let (h, t) = (windows_of(head), windows_of(tail));
    let (x, y) = (windows_of(seq![groups[i]]), windows_of(seq![g]));
    vstd::seq_lib::lemma_multiset_commutative(h, x);
    vstd::seq_lib::lemma_multiset_commutative(h + x, t);
    vstd::seq_lib::lemma_multiset_commutative(h, y);
    vstd::seq_lib::lemma_multiset_commutative(h + y, t);
    assert((h + y + t).to_multiset().add(x.to_multiset()) =~= (h + x + t).to_multiset().add(
        y.to_multiset(),
    ));
}

proof fn windows_of_one(g: GroupWidget)
    ensures
        windows_of(seq![g]) == match g.float {
            Some(w) => seq![w],
            None => Seq::empty(),
        },
{
    assert(seq![g].drop_last() =~= Seq::<GroupWidget>::empty());
    assert(windows_of(Seq::<GroupWidget>::empty()) =~= Seq::<u64>::empty());
    assert(windows_of(seq![g]) =~= match g.float {
        Some(w) => seq![w],
        None => Seq::empty(),
    });
}

proof fn one_more_window(made: nat)
    ensures
        all_windows(made + 1) == all_windows(made).insert(made as u64),
{
    broadcast use vstd::seq_lib::group_to_multiset_ensures;

    let s = Seq::new(made, |i: int| i as u64);
    assert(Seq::new(made + 1, |i: int| i as u64) =~= s.push(made as u64));
}

proof fn rehosting_accounts(t: TreeView, i: int, location: DockLocation)
    requires
        0 <= i < t.groups.len(),
        windows_accounted(t),
    ensures
        windows_accounted(rehosted(t, i, location).0),
        rehosted(t, i, location).0.groups.len() == t.groups.len(),
        forall|j: int|
            0 <= j < t.groups.len() ==> (#[trigger] rehosted(t, i, location).0.groups[j]).id
                == t.groups[j].id,
        forall|j: int|
            0 <= j < t.groups.len() && j != i ==> #[trigger] rehosted(t, i, location).0.groups[j]
                == t.groups[j],
        rehosted(t, i, location).0.groups[i].float is Some <==> location is Floating,
{
    broadcast use vstd::seq_lib::group_to_multiset_ensures;
    broadcast use vstd::multiset::group_multiset_axioms;

    let g = t.groups[i];
    let next = rehosted(t, i, location).0;
    if next != t {
        let g2 = next.groups[i];
        windows_of_update(t.groups, i, g2);
        windows_of_one(g);
        windows_of_one(g2);
        let empty = Seq::<u64>::empty();
        assert(empty.to_multiset() =~= Multiset::empty());
        let (old_in, new_in) = (windows_of(t.groups).to_multiset(), windows_of(next.groups).to_multiset());
        match (location, g.float) {
            (DockLocation::Side(_), Some(w)) => {
                assert(seq![w] =~= empty.push(w));
                assert(seq![w].to_multiset() =~= Multiset::empty().insert(w));
                assert(new_in.add(Multiset::empty().insert(w)) =~= new_in.insert(w));
                assert(old_in.add(Multiset::empty()) =~= old_in);
                assert(new_in.insert(w) =~= old_in);
                assert(window_places(next) =~= window_places(t));
            },
            (DockLocation::Floating(_), None) => {
                let w = g2.float->Some_0;
                assert(seq![w] =~= empty.push(w));
                assert(seq![w].to_multiset() =~= Multiset::empty().insert(w));
                assert(old_in.add(Multiset::empty().insert(w)) =~= old_in.insert(w));
                assert(new_in.add(Multiset::empty()) =~= new_in);
                assert(new_in =~= old_in.insert(w));
                if t.pool.len() > 0 {
                    assert(t.pool =~= next.pool.push(w));
                    assert(window_places(next) =~= window_places(t));
                } else {
                    one_more_window(t.made);
                    assert(window_places(next) =~= window_places(t).insert(w));
                }
            },
            _ => {},
        }
    }
}

proof fn sorting_keeps_windows(groups: Seq<GroupWidget>, layout: Seq<GroupReading>)
    ensures
        windows_of(groups).to_multiset() == windows_of(sorted_out(groups, layout, true)).to_multiset().add(
            windows_of(sorted_out(groups, layout, false)).to_multiset(),
        ),
    decreases groups.len(),
{
    broadcast use vstd::seq_lib::group_to_multiset_ensures;
    broadcast use vstd::multiset::group_multiset_axioms;

    if groups.len() == 0 {
        assert(Seq::<u64>::empty().to_multiset() =~= Multiset::empty());
        assert(Multiset::<u64>::empty().add(Multiset::empty()) =~= Multiset::empty());
    } else {
        let head = groups.drop_last();
        let kept = in_layout(layout, groups.last().id);
        sorting_keeps_windows(head, layout);
        let same = sorted_out(groups, layout, kept);
        assert(same.drop_last() =~= sorted_out(head, layout, kept));
        assert(windows_of(groups).to_multiset() =~= windows_of(
            sorted_out(groups, layout, true),
        ).to_multiset().add(windows_of(sorted_out(groups, layout, false)).to_multiset()));
    }
}

proof fn new_widgets_have_no_windows(ids: Seq<u32>)
    ensures
        windows_of(new_widgets(ids)).len() == 0,
    decreases ids.len(),
{
    if ids.len() > 0 {
        new_widgets_have_no_windows(ids.drop_last());
        assert(new_widgets(ids).drop_last() =~= new_widgets(ids.drop_last()));
    }
}

proof fn preparing_accounts(t: TreeView, layout: Seq<GroupReading>)
    requires
        windows_accounted(t),
    ensures
        windows_accounted(after_building(after_dismantling(t, layout), layout)),
{
    let d = after_dismantling(t, layout);
    let gone = windows_of(sorted_out(t.groups, layout, false));
    sorting_keeps_windows(t.groups, layout);
    vstd::seq_lib::lemma_multiset_commutative(t.pool, gone);
    assert(window_places(d) =~= window_places(t));
    let ids = missing_ids(layout, d.groups);
    new_widgets_have_no_windows(ids);
    windows_of_concat(d.groups, new_widgets(ids));
    assert(windows_of(after_building(d, layout).groups) =~= windows_of(d.groups));
}

proof fn sorting_keeps_ids_apart(groups: Seq<GroupWidget>, layout: Seq<GroupReading>)
    requires
        distinct_ids(groups),
    ensures
        distinct_ids(sorted_out(groups, layout, true)),
        forall|i: int|
            0 <= i < sorted_out(groups, layout, true).len() ==> in_layout(
                layout,
                (#[trigger] sorted_out(groups, layout, true)[i]).id,
            ),
        forall|i: int|
            0 <= i < sorted_out(groups, layout, true).len() ==> has_widgets(
                groups,
                (#[trigger] sorted_out(groups, layout, true)[i]).id,
            ),
    decreases groups.len(),
{
    if groups.len() > 0 {
        let head = groups.drop_last();
        assert forall|i: int, j: int|
            #![trigger head[i], head[j]]
            0 <= i < j < head.len() implies head[i].id != head[j].id by {
            assert(groups[i] == head[i] && groups[j] == head[j]);
        }
        sorting_keeps_ids_apart(head, layout);
        let f = sorted_out(groups, layout, true);
        let hf = sorted_out(head, layout, true);
        assert forall|i: int| 0 <= i < f.len() implies has_widgets(groups, (#[trigger] f[i]).id) by {
            if i < hf.len() {
                assert(has_widgets(head, hf[i].id));
                let k = choose|k: int| 0 <= k < head.len() && (#[trigger] head[k]).id == hf[i].id;
                assert(groups[k].id == f[i].id);
            } else {
                assert(groups[groups.len() - 1].id == f[i].id);
            }
        }
        assert forall|i: int, j: int|
            #![trigger f[i], f[j]]
            0 <= i < j < f.len() implies f[i].id != f[j].id by {
            if j < hf.len() {
                assert(f[i] == hf[i] && f[j] == hf[j]);
            } else {
                assert(has_widgets(head, hf[i].id));
                let k = choose|k: int| 0 <= k < head.len() && (#[trigger] head[k]).id == hf[i].id;
                assert(groups[k].id == f[i].id);
                assert(groups[groups.len() - 1].id == f[j].id);
            }
        }
        assert forall|i: int| 0 <= i < f.len() implies in_layout(layout, (#[trigger] f[i]).id) by {
            if i < hf.len() {
                assert(in_layout(layout, hf[i].id));
            }
        }
    }
}

proof fn missing_ids_are_new(layout: Seq<GroupReading>, groups: Seq<GroupWidget>)
    ensures
        forall|i: int|
            0 <= i < missing_ids(layout, groups).len() ==> !has_widgets(
                groups,
                #[trigger] missing_ids(layout, groups)[i],
            ) && in_layout(layout, missing_ids(layout, groups)[i]),
        missing_ids(layout, groups).no_duplicates(),
    decreases layout.len(),
{
    if layout.len() > 0 {
        let head = layout.drop_last();
        missing_ids_are_new(head, groups);
        let ids = missing_ids(layout, groups);
        let before = missing_ids(head, groups);
        assert forall|i: int| 0 <= i < ids.len() implies !has_widgets(groups, #[trigger] ids[i])
            && in_layout(layout, ids[i]) by {
            if i < before.len() {
                assert(in_layout(head, before[i]));
                let k = choose|k: int| 0 <= k < head.len() && (#[trigger] head[k]).id == before[i];
                assert(layout[k].id == ids[i]);
            } else {
                assert(layout[layout.len() - 1].id == ids[i]);
            }
        }
    }
}

proof fn preparing_matches_ids(t: TreeView, layout: Seq<GroupReading>)
    requires
        distinct_ids(t.groups),
    ensures
        ({
            let ready = after_building(after_dismantling(t, layout), layout);
            &&& distinct_ids(ready.groups)
            &&& forall|id: u32| has_widgets(ready.groups, id) <==> in_layout(layout, id)
        }),
{
    let d = after_dismantling(t, layout);
    let ready = after_building(d, layout);
    let ids = missing_ids(layout, d.groups);
    sorting_keeps_ids_apart(t.groups, layout);
    missing_ids_are_new(layout, d.groups);
    every_group_has_widgets(d, layout);
    let n = d.groups.len();
    assert forall|i: int, j: int|
        #![trigger ready.groups[i], ready.groups[j]]
        0 <= i < j < ready.groups.len() implies ready.groups[i].id != ready.groups[j].id by {
        if j < n {
            assert(ready.groups[i] == d.groups[i] && ready.groups[j] == d.groups[j]);
        } else if i < n {
            assert(ready.groups[i] == d.groups[i]);
            assert(!has_widgets(d.groups, ids[j - n]));
        } else {
            assert(ids[i - n] != ids[j - n]);
        }
    }
    assert forall|id: u32| has_widgets(ready.groups, id) <==> in_layout(layout, id) by {
        if has_widgets(ready.groups, id) {
            let k = choose|k: int| 0 <= k < ready.groups.len() && (#[trigger] ready.groups[k]).id == id;
            if k < n {
                assert(in_layout(layout, d.groups[k].id));
            } else {
                assert(in_layout(layout, ids[k - n]));
            }
        }
        if in_layout(layout, id) {
            let k = choose|k: int| 0 <= k < layout.len() && (#[trigger] layout[k]).id == id;
            assert(has_widgets(ready.groups, layout[k].id));
        }
    }
}

proof fn the_index_is_unique(groups: Seq<GroupWidget>, id: u32, i: int)
    requires
        distinct_ids(groups),
        0 <= i < groups.len(),
        groups[i].id == id,
    ensures
        widget_index(groups, id) == i,
{
    assert forall|j: int| 0 <= j < i implies (#[trigger] groups[j]).id != id by {
        assert(groups[i].id == id);
    }
    assert(0 <= i < groups.len() && (#[trigger] groups[i]).id == id && forall|j: int|
        0 <= j < i ==> (#[trigger] groups[j]).id != id);
    let w = widget_index(groups, id);
    assert(0 <= w < groups.len() && groups[w].id == id);
}

proof fn rehosting_all(t: TreeView, layout: Seq<GroupReading>)
    requires
        windows_accounted(t),
        distinct_ids(t.groups),
        distinct_layout(layout),
        forall|k: int| 0 <= k < layout.len() ==> has_widgets(t.groups, (#[trigger] layout[k]).id),
    ensures
        ({
            let after = after_rehosting(t, layout);
            &&& windows_accounted(after)
            &&& after.groups.len() == t.groups.len()
            &&& forall|j: int| 0 <= j < t.groups.len() ==> (#[trigger] after.groups[j]).id == t.groups[j].id
            &&& forall|k: int, j: int|
                #![trigger layout[k], after.groups[j]]
                0 <= k < layout.len() && 0 <= j < t.groups.len() && t.groups[j].id == layout[k].id
                    ==> (after.groups[j].float is Some <==> layout[k].location is Floating)
        }),
    decreases layout.len(),
{
    if layout.len() > 0 {
        let head = layout.drop_last();
        assert forall|i: int, j: int|
            #![trigger head[i], head[j]]
            0 <= i < j < head.len() implies head[i].id != head[j].id by {
            assert(layout[i] == head[i] && layout[j] == head[j]);
        }
        assert forall|k: int| 0 <= k < head.len() implies has_widgets(
            t.groups,
            (#[trigger] head[k]).id,
        ) by {
            assert(layout[k] == head[k]);
        }
        rehosting_all(t, head);
        let before = after_rehosting(t, head);
        let g = layout.last();
        let n = layout.len() - 1;
        assert(layout[n] == g);
        assert(has_widgets(t.groups, g.id));
        let at = choose|i: int| 0 <= i < t.groups.len() && (#[trigger] t.groups[i]).id == g.id;
        assert(distinct_ids(before.groups)) by {
            assert forall|i: int, j: int|
                #![trigger before.groups[i], before.groups[j]]
                0 <= i < j < before.groups.len() implies before.groups[i].id != before.groups[j].id by {
                assert(t.groups[i].id != t.groups[j].id);
            }
        }
        the_index_is_unique(before.groups, g.id, at);
        rehosting_accounts(before, at, g.location);
        let after = after_rehosting(t, layout);
        assert forall|j: int| 0 <= j < t.groups.len() implies (#[trigger] after.groups[j]).id
            == t.groups[j].id by {
            assert(before.groups[j].id == t.groups[j].id);
        }
        assert forall|k: int, j: int|
            #![trigger layout[k], after.groups[j]]
            0 <= k < layout.len() && 0 <= j < t.groups.len() && t.groups[j].id == layout[k].id
                implies (after.groups[j].float is Some <==> layout[k].location is Floating) by {
            if k < n {
                assert(head[k] == layout[k]);
                assert(layout[k].id != layout[n].id);
                assert(j != at);
                assert(after.groups[j] == before.groups[j]);
            } else {
                if j < at {
                    assert(t.groups[j].id != t.groups[at].id);
                } else if at < j {
                    assert(t.groups[at].id != t.groups[j].id);
                }
            }
        }
    }
}

/// After a reconcile the widgets are those of the layout's groups and no
/// others, each floating exactly if its group does; and every floating window
/// that was ever made is still there, in one place.
pub proof fn reconciling_matches_the_layout(t: TreeView, layout: Seq<GroupReading>)
    requires
        windows_accounted(t),
        distinct_ids(t.groups),
        distinct_layout(layout),
    ensures
        ({
            let after = reconciled(t, layout);
            &&& windows_accounted(after)
            &&& distinct_ids(after.groups)
            &&& forall|id: u32| has_widgets(after.groups, id) <==> in_layout(layout, id)
            &&& forall|k: int, j: int|
                #![trigger layout[k], after.groups[j]]
                0 <= k < layout.len() && 0 <= j < after.groups.len() && after.groups[j].id
                    == layout[k].id ==> (after.groups[j].float is Some
                    <==> layout[k].location is Floating)
        }),
{
    let ready = after_building(after_dismantling(t, layout), layout);
    preparing_accounts(t, layout);
    preparing_matches_ids(t, layout);
    assert forall|k: int| 0 <= k < layout.len() implies has_widgets(
        ready.groups,
        (#[trigger] layout[k]).id,
    ) by {
        assert(in_layout(layout, layout[k].id));
    }
    rehosting_all(ready, layout);
    let after = reconciled(t, layout);
    assert forall|i: int, j: int|
        #![trigger after.groups[i], after.groups[j]]
        0 <= i < j < after.groups.len() implies after.groups[i].id != after.groups[j].id by {
        assert(ready.groups[i].id != ready.groups[j].id);
    }
    assert forall|id: u32| has_widgets(after.groups, id) <==> in_layout(layout, id) by {
        if has_widgets(after.groups, id) {
            let k = choose|k: int| 0 <= k < after.groups.len() && (#[trigger] after.groups[k]).id == id;
            assert(ready.groups[k].id == id);
        }
        if in_layout(layout, id) {
            assert(has_widgets(ready.groups, id));
            let k = choose|k: int| 0 <= k < ready.groups.len() && (#[trigger] ready.groups[k]).id == id;
            assert(after.groups[k].id == id);
        }
    }
}

/// A tree with nothing in it accounts for its windows.
pub proof fn an_empty_tree_accounts()
    ensures
        windows_accounted(TreeView { groups: Seq::empty(), pool: Seq::empty(), made: 0 }),
        distinct_ids(Seq::empty()),
{
    let t = TreeView { groups: Seq::<GroupWidget>::empty(), pool: Seq::<u64>::empty(), made: 0 };
    assert(Seq::new(0, |i: int| i as u64) =~= Seq::<u64>::empty());
    assert(windows_of(t.groups) =~= Seq::<u64>::empty());
    broadcast use vstd::seq_lib::group_to_multiset_ensures;
    broadcast use vstd::multiset::group_multiset_axioms;

    assert(Seq::<u64>::empty().to_multiset() =~= Multiset::empty());
    assert(window_places(t) =~= all_windows(0));
}

/// A panel whose content a group can show: a built-in one, or one that a
/// plugin supplies.
spec fn can_show(panel: DockPanel, supplied: Seq<DockPanel>) -> bool {
    panel == DockPanel::Workspace || panel == DockPanel::DocMap || supplied.contains(panel)
}

proof fn slots_follow_panels(panels: Seq<DockPanel>, active: int, supplied: Seq<DockPanel>)
    requires
        panels.no_duplicates(),
    ensures
        ({
            let slots = slots_spec(panels, active, supplied);
            &&& forall|s: int|
                0 <= s < slots.len() ==> panels.contains((#[trigger] slots[s]).panel)
                    && can_show(slots[s].panel, supplied)
            &&& forall|s: int, i: int|
                #![trigger slots[s], panels[i]]
                0 <= s < slots.len() && 0 <= i < panels.len() && slots[s].panel == panels[i] ==> (
                slots[s].shown <==> i == active)
            &&& forall|i: int|
                0 <= i < panels.len() && can_show(#[trigger] panels[i], supplied)
                    ==> exists|s: int| 0 <= s < slots.len() && (#[trigger] slots[s]).panel == panels[i]
            &&& forall|s1: int, s2: int, i1: int, i2: int|
                #![trigger slots[s1], slots[s2], panels[i1], panels[i2]]
                0 <= s1 < s2 < slots.len() && 0 <= i1 < panels.len() && 0 <= i2 < panels.len()
                    && slots[s1].panel == panels[i1] && slots[s2].panel == panels[i2] ==> i1 < i2
        }),
    decreases panels.len(),
{
    if panels.len() > 0 {
        let head = panels.drop_last();
        let last = panels.last();
        let n = panels.len() - 1;
        assert(head.no_duplicates());
        slots_follow_panels(head, active, supplied);
        let before = slots_spec(head, active, supplied);
        let slots = slots_spec(panels, active, supplied);
        assert(panels[n] == last);
        assert forall|s: int| 0 <= s < slots.len() implies panels.contains(
            (#[trigger] slots[s]).panel,
        ) && can_show(slots[s].panel, supplied) by {
            if s < before.len() {
                assert(slots[s] == before[s]);
                assert(head.contains(before[s].panel));
                let j = choose|j: int| 0 <= j < head.len() && head[j] == before[s].panel;
                assert(panels[j] == before[s].panel);
            }
        }
        assert forall|s: int, i: int|
            #![trigger slots[s], panels[i]]
            0 <= s < slots.len() && 0 <= i < panels.len() && slots[s].panel == panels[i] implies (
        slots[s].shown <==> i == active) by {
            if s < before.len() {
                assert(slots[s] == before[s]);
                assert(head.contains(before[s].panel));
                let j = choose|j: int| 0 <= j < head.len() && head[j] == before[s].panel;
                assert(panels[j] == panels[i]);
                assert(head[i] == before[s].panel);
            } else {
                assert(panels[i] == panels[n]);
            }
        }
        assert forall|i: int| 0 <= i < panels.len() && can_show(
            #[trigger] panels[i],
            supplied,
        ) implies exists|s: int| 0 <= s < slots.len() && (#[trigger] slots[s]).panel == panels[i] by {
            if i < n {
                assert(can_show(head[i], supplied));
                let s = choose|s: int|
                    0 <= s < before.len() && (#[trigger] before[s]).panel == head[i];
                assert(slots[s] == before[s]);
            } else {
                assert(slots[slots.len() - 1].panel == panels[i]);
            }
        }
        assert forall|s1: int, s2: int, i1: int, i2: int|
            #![trigger slots[s1], slots[s2], panels[i1], panels[i2]]
            0 <= s1 < s2 < slots.len() && 0 <= i1 < panels.len() && 0 <= i2 < panels.len()
                && slots[s1].panel == panels[i1] && slots[s2].panel == panels[i2] implies i1 < i2 by {
            assert(slots[s1] == before[s1]);
            assert(head.contains(before[s1].panel));
            let j1 = choose|j: int| 0 <= j < head.len() && head[j] == before[s1].panel;
            assert(panels[j1] == panels[i1]);
            if s2 < before.len() {
                assert(slots[s2] == before[s2]);
                assert(head.contains(before[s2].panel));
                let j2 = choose|j: int| 0 <= j < head.len() && head[j] == before[s2].panel;
                assert(panels[j2] == panels[i2]);
                assert(head[i1] == before[s1].panel && head[i2] == before[s2].panel);
            } else {
                assert(panels[i2] == panels[n]);
            }
        }
    }
}

/// In a group's slot the panel in front shows and no other. Every panel that
/// has content has its place there, once and in the order of the group, and
/// nothing else has one. A group of two or more panels has a tab for each, in
/// order, of which the one of the panel in front is marked; a group of one has
/// no tabs.
pub proof fn the_panel_in_front_shows(
    step: GroupStep,
    t: TreeView,
    layout: Seq<GroupReading>,
    k: int,
    supplied: Seq<DockPanel>,
)
    requires
        0 <= k < layout.len(),
        step_is(step, t, layout, k, supplied),
        layout[k].panels@.no_duplicates(),
        layout[k].active < layout[k].panels@.len(),
    ensures
        ({
            let panels = layout[k].panels@;
            let front = panels[layout[k].active as int];
            let slots = step.slots@;
            let tabs = step.tabs@;
            &&& step.id == layout[k].id
            &&& forall|s: int|
                0 <= s < slots.len() ==> ((#[trigger] slots[s]).shown <==> slots[s].panel == front)
            &&& forall|s: int|
                0 <= s < slots.len() ==> panels.contains((#[trigger] slots[s]).panel) && (
                slots[s].panel == DockPanel::Workspace || slots[s].panel == DockPanel::DocMap
                    || supplied.contains(slots[s].panel))
            &&& forall|i: int|
                0 <= i < panels.len() && (#[trigger] panels[i] == DockPanel::Workspace || panels[i]
                    == DockPanel::DocMap || supplied.contains(panels[i])) ==> exists|s: int|
                    0 <= s < slots.len() && (#[trigger] slots[s]).panel == panels[i]
            &&& forall|s1: int, s2: int, i1: int, i2: int|
                #![trigger slots[s1], slots[s2], panels[i1], panels[i2]]
                0 <= s1 < s2 < slots.len() && 0 <= i1 < panels.len() && 0 <= i2 < panels.len()
                    && slots[s1].panel == panels[i1] && slots[s2].panel == panels[i2] ==> i1 < i2
            &&& panels.len() == 1 ==> tabs.len() == 0
            &&& panels.len() >= 2 ==> tabs.len() == panels.len() && forall|i: int|
                0 <= i < panels.len() ==> (#[trigger] tabs[i]).panel == panels[i] && (tabs[i].active
                    <==> panels[i] == front)
        }),
{
    let panels = layout[k].panels@;
    let active = layout[k].active as int;
    let slots = step.slots@;
    let tabs = step.tabs@;
    slots_follow_panels(panels, active, supplied);
    assert forall|s: int| 0 <= s < slots.len() implies ((#[trigger] slots[s]).shown
        <==> slots[s].panel == panels[active]) by {
        assert(panels.contains(slots[s].panel));
        let i = choose|i: int| 0 <= i < panels.len() && panels[i] == slots[s].panel;
        assert(slots[s].shown <==> i == active);
    }
    assert forall|i: int| 0 <= i < panels.len() && (#[trigger] panels[i] == DockPanel::Workspace
        || panels[i] == DockPanel::DocMap || supplied.contains(panels[i])) implies exists|s: int|
        0 <= s < slots.len() && (#[trigger] slots[s]).panel == panels[i] by {
        assert(can_show(panels[i], supplied));
    }
    if panels.len() >= 2 {
        assert forall|i: int| 0 <= i < panels.len() implies (#[trigger] tabs[i]).panel == panels[i]
            && (tabs[i].active <==> panels[i] == panels[active]) by {}
    }
}

/// A frame goes where its group is. In the dock area it is in no window, and
/// the window it left is free. Floating, it is in a window that is put at the
/// group's rectangle: the one it was in, or one that was free, or a new one
/// that counts as made. No other group's widgets move.
pub proof fn a_frame_goes_where_its_group_is(t: TreeView, i: int, location: DockLocation)
    requires
        0 <= i < t.groups.len(),
        t.made < u64::MAX,
    ensures
        ({
            let (after, r) = rehosted(t, i, location);
            let (was, now) = (t.groups[i].float, after.groups[i].float);
            &&& after.groups.len() == t.groups.len()
            &&& after.groups[i].id == t.groups[i].id
            &&& forall|j: int|
                0 <= j < t.groups.len() && j != i ==> #[trigger] after.groups[j] == t.groups[j]
            &&& location is Side ==> now is None && after.made == t.made
            &&& location is Side && was is None ==> r == Rehost::StaysDocked && after.pool == t.pool
            &&& location is Side && was is Some ==> r == Rehost::Docked(was->0) && after.pool
                == t.pool.push(was->0)
            &&& location matches DockLocation::Floating(rect) ==> {
                &&& now is Some
                &&& was is Some ==> now == was && after.pool == t.pool && after.made == t.made && r
                    == (Rehost::FloatMoved { window: was->0, rect })
                &&& was is None && t.pool.len() > 0 ==> now == Some(t.pool.last()) && after.pool
                    == t.pool.drop_last() && after.made == t.made && r == (Rehost::Floated {
                    window: t.pool.last(),
                    fresh: false,
                    rect,
                })
                &&& was is None && t.pool.len() == 0 ==> now == Some(t.made as u64)
                    && after.pool.len() == 0 && after.made == t.made + 1 && r == (Rehost::Floated {
                    window: t.made as u64,
                    fresh: true,
                    rect,
                })
            }
        }),
{
}

proof fn sorted_out_holds(
    groups: Seq<GroupWidget>,
    layout: Seq<GroupReading>,
    kept: bool,
    g: GroupWidget,
)
    ensures
        sorted_out(groups, layout, kept).contains(g) <==> groups.contains(g) && in_layout(
            layout,
            g.id,
        ) == kept,
    decreases groups.len(),
{
    let all = sorted_out(groups, layout, kept);
    if groups.len() > 0 {
        let head = groups.drop_last();
        let before = sorted_out(head, layout, kept);
        sorted_out_holds(head, layout, kept, g);
        if all.contains(g) {
            let k = choose|k: int| 0 <= k < all.len() && all[k] == g;
            if k < before.len() {
                assert(before[k] == g);
                let j = choose|j: int| 0 <= j < head.len() && head[j] == g;
                assert(groups[j] == g);
            } else {
                assert(groups[groups.len() - 1] == g);
            }
        }
        if groups.contains(g) && in_layout(layout, g.id) == kept {
            let j = choose|j: int| 0 <= j < groups.len() && groups[j] == g;
            if j < head.len() {
                assert(head[j] == g);
                let k = choose|k: int| 0 <= k < before.len() && before[k] == g;
                assert(all[k] == g);
            } else {
                assert(all[all.len() - 1] == g);
            }
        }
    }
}

/// What a reconcile takes apart are the widgets of groups that the layout has
/// no more, and what it builds are the groups of the layout that have none, each
/// once.
pub proof fn what_is_taken_apart_and_built(t: TreeView, layout: Seq<GroupReading>)
    ensures
        forall|g: GroupWidget| #[trigger]
            sorted_out(t.groups, layout, false).contains(g) <==> t.groups.contains(g) && forall|
                k: int,
            |
                0 <= k < layout.len() ==> (#[trigger] layout[k]).id != g.id,
        ({
            let built = missing_ids(layout, sorted_out(t.groups, layout, true));
            &&& built.no_duplicates()
            &&& forall|id: u32| #[trigger]
                built.contains(id) <==> (exists|k: int|
                    0 <= k < layout.len() && (#[trigger] layout[k]).id == id) && forall|j: int|
                    0 <= j < t.groups.len() ==> (#[trigger] t.groups[j]).id != id
        }),
{
    let kept = sorted_out(t.groups, layout, true);
    let built = missing_ids(layout, kept);
    missing_ids_are_new(layout, kept);
    assert forall|g: GroupWidget| #[trigger]
        sorted_out(t.groups, layout, false).contains(g) <==> t.groups.contains(g) && forall|k: int|
            0 <= k < layout.len() ==> (#[trigger] layout[k]).id != g.id by {
        sorted_out_holds(t.groups, layout, false, g);
    }
    assert forall|id: u32| #[trigger] built.contains(id) <==> (exists|k: int|
        0 <= k < layout.len() && (#[trigger] layout[k]).id == id) && forall|j: int|
        0 <= j < t.groups.len() ==> (#[trigger] t.groups[j]).id != id by {
        if in_layout(layout, id) {
            let k = choose|k: int| 0 <= k < layout.len() && (#[trigger] layout[k]).id == id;
            missing_are_all(layout, kept, k);
        }
        if built.contains(id) {
            let b = choose|b: int| 0 <= b < built.len() && built[b] == id;
            assert(!has_widgets(kept, built[b]) && in_layout(layout, built[b]));
            assert forall|j: int| 0 <= j < t.groups.len() implies (#[trigger] t.groups[j]).id != id by {
                if t.groups[j].id == id {
                    sorted_out_holds(t.groups, layout, true, t.groups[j]);
                    assert(t.groups.contains(t.groups[j]));
                    assert(kept.contains(t.groups[j]));
                    let q = choose|q: int| 0 <= q < kept.len() && kept[q] == t.groups[j];
                    assert(kept[q].id == id);
                }
            }
        }
        if has_widgets(kept, id) {
            let q = choose|q: int| 0 <= q < kept.len() && (#[trigger] kept[q]).id == id;
            sorted_out_holds(t.groups, layout, true, kept[q]);
            assert(kept.contains(kept[q]));
            let j = choose|j: int| 0 <= j < t.groups.len() && t.groups[j] == kept[q];
            assert(t.groups[j].id == id);
        }
    }
}

/// What is parked are the panels that have content and are not open: the two
/// built-in ones and those that plugins supply.
pub proof fn what_is_not_open_is_parked(
    supplied: Seq<DockPanel>,
    visible: Seq<DockPanel>,
    panel: DockPanel,
)
    ensures
        parked_spec(seq![DockPanel::Workspace, DockPanel::DocMap] + supplied, visible).contains(panel)
            <==> (panel == DockPanel::Workspace || panel == DockPanel::DocMap || supplied.contains(
            panel,
        )) && !visible.contains(panel),
{
    let built_in = seq![DockPanel::Workspace, DockPanel::DocMap];
    let hosted = built_in + supplied;
    parked_holds(hosted, visible, panel);
    assert(hosted[0] == DockPanel::Workspace && hosted[1] == DockPanel::DocMap);
    if supplied.contains(panel) {
        let k = choose|k: int| 0 <= k < supplied.len() && supplied[k] == panel;
        assert(hosted[k + 2] == panel);
    }
    if hosted.contains(panel) {
        let k = choose|k: int| 0 <= k < hosted.len() && hosted[k] == panel;
        if k >= 2 {
            assert(supplied[k - 2] == panel);
        }
    }
}

proof fn parked_holds(hosted: Seq<DockPanel>, visible: Seq<DockPanel>, panel: DockPanel)
    ensures
        parked_spec(hosted, visible).contains(panel) <==> hosted.contains(panel)
            && !visible.contains(panel),
    decreases hosted.len(),
{
    let all = parked_spec(hosted, visible);
    if hosted.len() > 0 {
        let head = hosted.drop_last();
        let before = parked_spec(head, visible);
        parked_holds(head, visible, panel);
        if all.contains(panel) {
            let k = choose|k: int| 0 <= k < all.len() && all[k] == panel;
            if k < before.len() {
                assert(before[k] == panel);
                let j = choose|j: int| 0 <= j < head.len() && head[j] == panel;
                assert(hosted[j] == panel);
            } else {
                assert(hosted[hosted.len() - 1] == panel);
            }
        }
        if hosted.contains(panel) && !visible.contains(panel) {
            let j = choose|j: int| 0 <= j < hosted.len() && hosted[j] == panel;
            if j < head.len() {
                assert(head[j] == panel);
                let k = choose|k: int| 0 <= k < before.len() && before[k] == panel;
                assert(all[k] == panel);
            } else {
                assert(all[all.len() - 1] == panel);
            }
        }
    }
}

proof fn group_places_hold(
    groups: Seq<GroupWidget>,
    rects: Seq<(u32, DockRect)>,
    id: u32,
    rect: DockRect,
)
    ensures
        group_placements(groups, rects).contains((Placed::Group(id), rect)) <==> rects.contains(
            (id, rect),
        ) && exists|i: int|
            0 <= i < groups.len() && (#[trigger] groups[i]).id == id && groups[i].float is None,
        forall|p: (Placed, DockRect)| #[trigger]
            group_placements(groups, rects).contains(p) ==> p.0 is Group,
    decreases rects.len(),
{
    let all = group_placements(groups, rects);
    if rects.len() > 0 {
        let head = rects.drop_last();
        let before = group_placements(groups, head);
        group_places_hold(groups, head, id, rect);
        let p = (Placed::Group(id), rect);
        assert forall|q: (Placed, DockRect)| #[trigger] all.contains(q) implies q.0 is Group by {
            let k = choose|k: int| 0 <= k < all.len() && all[k] == q;
            if k < before.len() {
                assert(before.contains(before[k]));
            }
        }
        if all.contains(p) {
            let k = choose|k: int| 0 <= k < all.len() && all[k] == p;
            if k < before.len() {
                assert(before[k] == p);
                let j = choose|j: int| 0 <= j < head.len() && head[j] == (id, rect);
                assert(rects[j] == (id, rect));
            } else {
                assert(rects[rects.len() - 1] == (id, rect));
            }
        }
        if rects.contains((id, rect)) && docked_widgets(groups, id) {
            let j = choose|j: int| 0 <= j < rects.len() && rects[j] == (id, rect);
            if j < head.len() {
                assert(head[j] == (id, rect));
                let k = choose|k: int| 0 <= k < before.len() && before[k] == p;
                assert(all[k] == p);
            } else {
                assert(all[all.len() - 1] == p);
            }
        }
    }
}

/// Each band's splitter gets its rectangle, and each group of a band gets its
/// own if its widgets are in the dock area; a group that floats gets none.
pub proof fn every_child_gets_its_place(
    groups: Seq<GroupWidget>,
    bands: Seq<BandPlan>,
    id: u32,
    side: DockSide,
    rect: DockRect,
)
    ensures
        band_placements(groups, bands).contains((Placed::Splitter(side), rect)) <==> exists|b: int|
            0 <= b < bands.len() && (#[trigger] bands[b]).side == side && bands[b].splitter == rect,
        band_placements(groups, bands).contains((Placed::Group(id), rect)) <==> (exists|b: int|
            0 <= b < bands.len() && (#[trigger] bands[b]).groups@.contains((id, rect))) && exists|
            i: int,
        |
            0 <= i < groups.len() && (#[trigger] groups[i]).id == id && groups[i].float is None,
    decreases bands.len(),
{
    let all = band_placements(groups, bands);
    let s = (Placed::Splitter(side), rect);
    let g = (Placed::Group(id), rect);
    if bands.len() > 0 {
        let head = bands.drop_last();
        let band = bands.last();
        let n = bands.len() - 1;
        assert(bands[n] == band);
        let before = band_placements(groups, head);
        let own = group_placements(groups, band.groups@);
        every_child_gets_its_place(groups, head, id, side, rect);
        group_places_hold(groups, band.groups@, id, rect);
        let mid = before.push((Placed::Splitter(band.side), band.splitter));
        assert(all == mid + own);
        assert forall|p: (Placed, DockRect)| #[trigger] all.contains(p) <==> before.contains(p) || p
            == (Placed::Splitter(band.side), band.splitter) || own.contains(p) by {
            if all.contains(p) {
                let k = choose|k: int| 0 <= k < all.len() && all[k] == p;
                if k < before.len() {
                    assert(before[k] == p);
                } else if k >= mid.len() {
                    assert(own[k - mid.len()] == p);
                }
            }
            if before.contains(p) {
                let k = choose|k: int| 0 <= k < before.len() && before[k] == p;
                assert(all[k] == p);
            }
            if own.contains(p) {
                let k = choose|k: int| 0 <= k < own.len() && own[k] == p;
                assert(all[mid.len() + k] == p);
            }
            assert(all[before.len() as int] == (Placed::Splitter(band.side), band.splitter));
        }
        assert(all.contains(s) <==> before.contains(s) || (band.side == side && band.splitter == rect));
        if all.contains(s) {
            if before.contains(s) {
                let b = choose|b: int|
                    0 <= b < head.len() && (#[trigger] head[b]).side == side && head[b].splitter
                        == rect;
                assert(bands[b] == head[b]);
            }
        }
        if exists|b: int|
            0 <= b < bands.len() && (#[trigger] bands[b]).side == side && bands[b].splitter == rect {
            let b = choose|b: int|
                0 <= b < bands.len() && (#[trigger] bands[b]).side == side && bands[b].splitter
                    == rect;
            if b < n {
                assert(head[b] == bands[b]);
            }
        }
        if all.contains(g) {
            if before.contains(g) {
                let b = choose|b: int|
                    0 <= b < head.len() && (#[trigger] head[b]).groups@.contains((id, rect));
                assert(bands[b] == head[b]);
            }
        }
        if docked_widgets(groups, id) && exists|b: int|
            0 <= b < bands.len() && (#[trigger] bands[b]).groups@.contains((id, rect)) {
            let b = choose|b: int|
                0 <= b < bands.len() && (#[trigger] bands[b]).groups@.contains((id, rect));
            if b < n {
                assert(head[b] == bands[b]);
            }
        }
    }
}

/// What a step says of a group's frame is what its group asks for: a docked
/// group stays in the dock area or comes back to it, and a floating one has its
/// window put at its rectangle.
pub proof fn a_step_follows_the_location(t: TreeView, layout: Seq<GroupReading>, k: int)
    ensures
        layout[k].location is Side ==> rehost_at(t, layout, k) is StaysDocked || rehost_at(
            t,
            layout,
            k,
        ) is Docked,
        layout[k].location matches DockLocation::Floating(place) ==> match rehost_at(t, layout, k) {
            Rehost::Floated { rect, .. } => rect == place,
            Rehost::FloatMoved { rect, .. } => rect == place,
            _ => false,
        },
{
}

/// The widgets meant by an id are the first that have it.
pub proof fn the_first_widgets_are_meant(groups: Seq<GroupWidget>, id: u32, i: int)
    requires
        0 <= i < groups.len(),
        groups[i].id == id,
        forall|j: int| 0 <= j < i ==> (#[trigger] groups[j]).id != id,
    ensures
        widget_index(groups, id) == i,
{
    let w = widget_index(groups, id);
    assert(0 <= w < groups.len() && groups[w].id == id && forall|j: int|
        0 <= j < w ==> (#[trigger] groups[j]).id != id);
    if w < i {
        assert(groups[w].id != id);
    } else if i < w {
        assert(groups[i].id != id);
    }
}

/// A group's slot is filled panel by panel: each that has content goes in
/// behind those before it, shown exactly if its place in the group is the one
/// in front; a plugin's panel has content exactly while it is supplied. Of two
/// or more panels each has its tab, marked exactly if it is in front.
pub proof fn a_slot_is_filled_panel_by_panel(
    panels: Seq<DockPanel>,
    p: DockPanel,
    active: int,
    supplied: Seq<DockPanel>,
    i: int,
)
    ensures
        slots_spec(Seq::<DockPanel>::empty(), active, supplied).len() == 0,
        ({
            let before = slots_spec(panels, active, supplied);
            let after = slots_spec(panels.push(p), active, supplied);
            if p is Plugin && !supplied.contains(p) {
                after == before
            } else {
                &&& after.len() == before.len() + 1
                &&& after.drop_last() == before
                &&& after.last().panel == p
                &&& after.last().shown <==> panels.len() == active
            }
        }),
        panels.len() < 2 ==> tabs_spec(panels, active).len() == 0,
        panels.len() >= 2 ==> tabs_spec(panels, active).len() == panels.len(),
        panels.len() >= 2 && 0 <= i < panels.len() ==> tabs_spec(panels, active)[i].panel
            == panels[i] && (tabs_spec(panels, active)[i].active <==> i == active),
{
    assert(panels.push(p).drop_last() =~= panels);
    let before = slots_spec(panels, active, supplied);
    let after = slots_spec(panels.push(p), active, supplied);
    if !(p is Plugin && !supplied.contains(p)) {
        assert(after.drop_last() =~= before);
    }
}

/// Groups are sorted out one by one and keep their order: a group is kept
/// exactly if the layout has its id. Those it has no more leave their windows to
/// be used again, behind those that are free already.
pub proof fn groups_are_sorted_out_one_by_one(
    t: TreeView,
    g: GroupWidget,
    layout: Seq<GroupReading>,
)
    ensures
        ({
            let wanted = exists|i: int| 0 <= i < layout.len() && (#[trigger] layout[i]).id == g.id;
            let kept = sorted_out(t.groups, layout, true);
            let lost = sorted_out(t.groups, layout, false);
            &&& sorted_out(t.groups.push(g), layout, true) == if wanted {
                kept.push(g)
            } else {
                kept
            }
            &&& sorted_out(t.groups.push(g), layout, false) == if wanted {
                lost
            } else {
                lost.push(g)
            }
            &&& after_dismantling(t, layout).groups == kept
            &&& after_dismantling(t, layout).pool == t.pool + windows_of(lost)
            &&& after_dismantling(t, layout).made == t.made
        }),
        windows_of(t.groups.push(g)) == if g.float is Some {
            windows_of(t.groups).push(g.float->0)
        } else {
            windows_of(t.groups)
        },
        windows_of(Seq::<GroupWidget>::empty()).len() == 0,
        sorted_out(Seq::<GroupWidget>::empty(), layout, true).len() == 0,
{
    assert(t.groups.push(g).drop_last() =~= t.groups);
}

/// The groups that are missing are built behind those there are, in the order
/// of the layout and docked at first.
pub proof fn missing_groups_are_built_in_order(t: TreeView, layout: Seq<GroupReading>, r: GroupReading, k: int)
    ensures
        ({
            let before = missing_ids(layout, t.groups);
            let there = exists|i: int|
                0 <= i < t.groups.len() && (#[trigger] t.groups[i]).id == r.id;
            missing_ids(layout.push(r), t.groups) == if there || before.contains(r.id) {
                before
            } else {
                before.push(r.id)
            }
        }),
        missing_ids(Seq::<GroupReading>::empty(), t.groups).len() == 0,
        ({
            let built = after_building(t, layout);
            let ids = missing_ids(layout, t.groups);
            &&& built.groups.len() == t.groups.len() + ids.len()
            &&& built.groups.take(t.groups.len() as int) == t.groups
            &&& 0 <= k < ids.len() ==> built.groups[t.groups.len() + k].id == ids[k]
                && built.groups[t.groups.len() + k].float is None
            &&& built.pool == t.pool
            &&& built.made == t.made
        }),
{
    assert(layout.push(r).drop_last() =~= layout);
    let built = after_building(t, layout);
    assert(built.groups.take(t.groups.len() as int) =~= t.groups);
}

/// The groups are put in their places one after the other, in the order of the
/// layout, each by the widgets that have its id; what a step says of a frame is
/// what became of it then.
pub proof fn groups_are_placed_one_by_one(
    t: TreeView,
    layout: Seq<GroupReading>,
    g: GroupReading,
    i: int,
)
    requires
        ({
            let before = after_rehosting(t, layout);
            &&& 0 <= i < before.groups.len()
            &&& before.groups[i].id == g.id
            &&& forall|j: int| 0 <= j < i ==> (#[trigger] before.groups[j]).id != g.id
        }),
    ensures
        ({
            let before = after_rehosting(t, layout);
            &&& after_rehosting(t, layout.push(g)) == rehosted(before, i, g.location).0
            &&& rehost_at(t, layout.push(g), layout.len() as int) == rehosted(
                before,
                i,
                g.location,
            ).1
        }),
        after_rehosting(t, Seq::<GroupReading>::empty()) == t,
        reconciled(t, layout) == after_rehosting(
            after_building(after_dismantling(t, layout), layout),
            layout,
        ),
{
    assert(layout.push(g).drop_last() =~= layout);
    assert(layout.push(g).take(layout.len() as int) =~= layout);
    the_first_widgets_are_meant(after_rehosting(t, layout).groups, g.id, i);
}

/// A side has a splitter exactly if some group is docked on it.
pub proof fn a_side_in_use_has_a_splitter(layout: Seq<GroupReading>, side: DockSide)
    ensures
        occupied(layout, side) <==> exists|i: int|
            0 <= i < layout.len() && ((#[trigger] layout[i]).location matches DockLocation::Side(s)
                && s == side),
{
    if occupied(layout, side) {
        let i = choose|i: int|
            0 <= i < layout.len() && (#[trigger] layout[i]).location == DockLocation::Side(side);
        assert(layout[i].location matches DockLocation::Side(s) && s == side);
    }
    if exists|i: int|
        0 <= i < layout.len() && ((#[trigger] layout[i]).location matches DockLocation::Side(s) && s
            == side) {
        let i = choose|i: int|
            0 <= i < layout.len() && ((#[trigger] layout[i]).location matches DockLocation::Side(s)
                && s == side);
        assert(layout[i].location == DockLocation::Side(side));
    }
}

/// Panels are parked one by one and in order, each that is not open.
pub proof fn panels_are_parked_one_by_one(
    hosted: Seq<DockPanel>,
    p: DockPanel,
    visible: Seq<DockPanel>,
)
    ensures
        parked_spec(hosted.push(p), visible) == if visible.contains(p) {
            parked_spec(hosted, visible)
        } else {
            parked_spec(hosted, visible).push(p)
        },
        parked_spec(Seq::<DockPanel>::empty(), visible).len() == 0,
{
    assert(hosted.push(p).drop_last() =~= hosted);
}

/// The children of the dock area are placed in order: the editor, and then band
/// by band its splitter and its groups; nothing while the area has no extent.
pub proof fn children_are_placed_in_order(
    groups: Seq<GroupWidget>,
    bands: Seq<BandPlan>,
    band: BandPlan,
    rects: Seq<(u32, DockRect)>,
    id: u32,
    rect: DockRect,
)
    ensures
        band_placements(groups, Seq::<BandPlan>::empty()).len() == 0,
        band_placements(groups, bands.push(band)) == band_placements(groups, bands) + seq![
            (Placed::Splitter(band.side), band.splitter),
        ] + group_placements(groups, band.groups@),
        group_placements(groups, Seq::<(u32, DockRect)>::empty()).len() == 0,
        ({
            let before = group_placements(groups, rects);
            let docked = exists|i: int|
                0 <= i < groups.len() && (#[trigger] groups[i]).id == id && groups[i].float is None;
            group_placements(groups, rects.push((id, rect))) == if docked {
                before.push((Placed::Group(id), rect))
            } else {
                before
            }
        }),
{
    assert(bands.push(band).drop_last() =~= bands);
    assert(rects.push((id, rect)).drop_last() =~= rects);
    assert(band_placements(groups, bands.push(band)) =~= band_placements(groups, bands) + seq![
        (Placed::Splitter(band.side), band.splitter),
    ] + group_placements(groups, band.groups@));
}

/// A dock area without extent places nothing, and any other the editor first.
pub proof fn the_editor_is_placed_first(
    tree: WidgetTree,
    area: (i32, i32),
    editor: DockRect,
    bands: Vec<BandPlan>,
    r: Vec<(Placed, DockRect)>,
)
    requires
        call_ensures(placements, (&tree, area, editor, &bands), r),
    ensures
        area.0 <= 0 || area.1 <= 0 ==> r@.len() == 0,
        area.0 > 0 && area.1 > 0 ==> r@[0] == (Placed::Editor, editor) && r@.skip(1)
            == band_placements(tree.groups@, bands@),
{
    if area.0 > 0 && area.1 > 0 {
        assert(r@.skip(1) =~= band_placements(tree.groups@, bands@));
    }
}

} // verus!
