//! The tab strip: a row of pages that stand for the tabs, in the same order.
//!
//! Pages are interchangeable. Whatever happened to their order, labelling them
//! by place brings the strip back in step with the tabs.
use vstd::prelude::*;

verus! {

/// How wide a label is, in characters, and how large its icon is, in pixels.
pub const LABEL_MIN_CHARS: i32 = 10;

pub const LABEL_MAX_CHARS: i32 = 24;

pub const ICON_LOGICAL_PX: i32 = 16;

/// The button that closes the tab it is pressed on.
pub const MIDDLE_BUTTON: u32 = 2;

/// The icon of a tab.
#[derive(Copy, Clone, PartialEq, Eq, Structural, Debug)]
pub struct TabIcon {
    /// For a buffer with unsaved changes.
    pub dirty: bool,
    /// At twice the size, for a screen that is as fine.
    pub double: bool,
}

/// Choose the icon of a tab.
pub fn tab_icon(dirty: bool, scale: i32) -> (r: TabIcon)
    ensures
        r.dirty == dirty,
        r.double == (scale >= 2),
{
    TabIcon { dirty, double: scale >= 2 }
}

/// What a tab brings to the strip.
pub struct TabInfo {
    pub id: i32,
    pub name: String,
    pub dirty: bool,
}

/// The label of a page: what it shows, and the tab it closes.
pub struct TabLabel {
    pub id: i32,
    pub name: String,
    pub icon: TabIcon,
}

/// What it takes to bring the strip in step with the tabs.
pub struct SyncPlan {
    /// Pages to put at the end.
    pub append: usize,
    /// Pages to take from the end.
    pub remove: usize,
    /// The labels of the pages, from the first one on.
    pub labels: Vec<TabLabel>,
    /// The page to select.
    pub select: Option<u32>,
}

/// The number of pages after a plan was carried out.
pub open spec fn pages_after(pages: int, plan: SyncPlan) -> int {
    pages + plan.append - plan.remove
}

/// A label that shows a tab.
pub open spec fn shows(label: TabLabel, tab: TabInfo, scale: i32) -> bool {
    &&& label.id == tab.id
    &&& label.name == tab.name
    &&& label.icon == (TabIcon { dirty: tab.dirty, double: scale >= 2 })
}

/// A plan that makes as many pages as there are tabs, labels them in order,
/// and selects the active one if it is there.
pub open spec fn brings_in_step(
    plan: SyncPlan,
    pages: int,
    tabs: Seq<TabInfo>,
    active: Option<usize>,
    scale: i32,
) -> bool {
    &&& plan.append == 0 || plan.remove == 0
    &&& pages_after(pages, plan) == tabs.len()
    &&& plan.labels@.len() == tabs.len()
    &&& forall|i: int| 0 <= i < tabs.len() ==> shows(#[trigger] plan.labels@[i], tabs[i], scale)
    &&& plan.select == match active {
        Some(i) if i < tabs.len() && i <= u32::MAX => Some(i as u32),
        _ => None,
    }
}

/// The strip: the order its pages were in after it was last brought in step,
/// and whether that is going on.
pub struct TabStrip {
    order: Vec<u64>,
    suppressed: bool,
}

impl TabStrip {
    /// The pages in order, as they were after the last time.
    pub closed spec fn order(&self) -> Seq<u64> {
        self.order@
    }

    /// What the strip reports is its own doing.
    pub closed spec fn suppressed(&self) -> bool {
        self.suppressed
    }

    /// An empty strip.
    pub fn new() -> (s: TabStrip)
        ensures
            s.order().len() == 0,
            !s.suppressed(),
    {
        TabStrip { order: Vec::new(), suppressed: false }
    }

    /// Whether what the strip reports is its own doing.
    pub fn is_suppressed(&self) -> (r: bool)
        ensures
            r == self.suppressed(),
    {
        self.suppressed
    }

    /// Begin to bring a strip of `pages` pages in step with the tabs: as many
    /// pages as tabs, labelled in order, and the active one selected if it is
    /// there. Until [`TabStrip::synced`] what the strip reports is its own
    /// doing.
    pub fn sync(&mut self, pages: usize, tabs: Vec<TabInfo>, active: Option<usize>, scale: i32) -> (
    plan: SyncPlan)
        requires
            !old(self).suppressed(),
        ensures
            final(self).suppressed(),
            final(self).order() == old(self).order(),
            brings_in_step(plan, pages as int, tabs@, active, scale),
    {
        self.suppressed = true;
        let wanted: usize = tabs.len();
        let append: usize = if pages < wanted {
            wanted - pages
        } else {
            0
        };
        let remove: usize = if pages > wanted {
            pages - wanted
        } else {
            0
        };
        let ghost all = tabs@;
        let mut labels: Vec<TabLabel> = Vec::new();
        for tab in it: tabs
            invariant
                it.seq() == all,
                labels@.len() == it.index(),
                forall|i: int|
                    0 <= i < it.index() ==> shows(#[trigger] labels@[i], all[i], scale),
        {
            labels.push(
                TabLabel { id: tab.id, name: tab.name, icon: tab_icon(tab.dirty, scale) },
            );
        }
        let select: Option<u32> = match active {
            Some(i) => if i < wanted && i <= u32::MAX as usize {
                Some(i as u32)
            } else {
                None
            },
            None => None,
        };
        SyncPlan { append, remove, labels, select }
    }

    /// The strip is in step, with its pages in this order.
    pub fn synced(&mut self, order: Vec<u64>)
        ensures
            final(self).order() == order@,
            !final(self).suppressed(),
    {
        self.order = order;
        self.suppressed = false;
    }

    /// Where a page was before the user moved it.
    pub fn index_before_reorder(&self, page: u64) -> (r: Option<usize>)
        ensures
            match r {
                Some(i) => {
                    &&& i < self.order().len()
                    &&& self.order()[i as int] == page
                    &&& forall|j: int| 0 <= j < i ==> self.order()[j] != page
                },
                None => !self.order().contains(page),
            },
    {
        let mut i: usize = 0;
        while i < self.order.len()
            invariant
                i <= self.order@.len(),
                forall|j: int| 0 <= j < i ==> self.order@[j] != page,
            decreases self.order.len() - i,
        {
            if self.order[i] == page {
                return Some(i);
            }
            i += 1;
        }
        None
    }
}

/// A press on a label: the middle button closes its tab, and any other is left
/// to the strip.
pub fn label_press(button: u32) -> (closes: bool)
    ensures
        closes == (button == MIDDLE_BUTTON),
{
    button == MIDDLE_BUTTON
}

/// A strip that is in step stays as it is: bringing it in step again adds and
/// takes no page, and leaves every label and the selection alone.
pub proof fn a_strip_in_step_stays(
    first: SyncPlan,
    second: SyncPlan,
    pages: int,
    tabs: Seq<TabInfo>,
    active: Option<usize>,
    scale: i32,
)
    requires
        brings_in_step(first, pages, tabs, active, scale),
        brings_in_step(second, pages_after(pages, first), tabs, active, scale),
    ensures
        second.append == 0,
        second.remove == 0,
        second.labels@ == first.labels@,
        second.select == first.select,
{
    assert forall|i: int| 0 <= i < tabs.len() implies second.labels@[i] == first.labels@[i] by {
        assert(shows(first.labels@[i], tabs[i], scale));
        assert(shows(second.labels@[i], tabs[i], scale));
    }
    assert(second.labels@ =~= first.labels@);
}

/// A strip as it shows: the labels of its pages, and the page in front.
pub struct ShownStrip {
    pub labels: Seq<TabLabel>,
    pub current: Option<int>,
}

/// A strip that a plan was carried out on: the labels are the plan's, and the
/// page in front is the one that the plan selects. Without one it is `kept`,
/// which the notebook settles.
pub open spec fn carried_out(plan: SyncPlan, kept: Option<int>) -> ShownStrip {
    ShownStrip {
        labels: plan.labels@,
        current: match plan.select {
            Some(page) => Some(page as int),
            None => kept,
        },
    }
}

/// A strip that was brought in step shows the tabs: a page for each, labelled
/// as the tab is, and the active one in front if it is there. Bringing it in
/// step once more leaves it as it is. The notebook numbers its pages in
/// thirty-two bits, so only a tab that has such a number can be in front.
pub proof fn a_strip_in_step_shows_the_tabs(
    first: SyncPlan,
    second: SyncPlan,
    pages: int,
    tabs: Seq<TabInfo>,
    active: Option<usize>,
    scale: i32,
    kept: Option<int>,
)
    requires
        brings_in_step(first, pages, tabs, active, scale),
        brings_in_step(second, pages_after(pages, first), tabs, active, scale),
    ensures
        ({
            let strip = carried_out(first, kept);
            &&& pages_after(pages, first) == tabs.len()
            &&& strip.labels.len() == tabs.len()
            &&& forall|i: int|
                0 <= i < tabs.len() ==> shows(#[trigger] strip.labels[i], tabs[i], scale)
            &&& active matches Some(a) ==> (a < tabs.len() && a <= u32::MAX ==> strip.current
                == Some(a as int))
            &&& carried_out(second, strip.current) == strip
            &&& pages_after(pages_after(pages, first), second) == tabs.len()
        }),
{
    a_strip_in_step_stays(first, second, pages, tabs, active, scale);
}

/// The place of a page in a strip where every page stands once.
pub open spec fn stands_once(order: Seq<u64>) -> bool {
    forall|i: int, j: int| 0 <= i < j < order.len() ==> order[i] != order[j]
}

/// A page that was moved is found at the place it was moved from, whatever
/// order the pages are in by then.
pub proof fn a_moved_page_is_found_where_it_was(order: Seq<u64>, from: int, found: int)
    requires
        stands_once(order),
        0 <= from < order.len(),
        0 <= found < order.len(),
        order[found] == order[from],
    ensures
        found == from,
{
}

/// The measures of the strip.
pub proof fn the_measures_of_the_strip()
    ensures
        LABEL_MIN_CHARS == 10,
        LABEL_MAX_CHARS == 24,
        ICON_LOGICAL_PX == 16,
        MIDDLE_BUTTON == 2,
{
}

/// A strip is brought in step by putting pages at its end or taking some from
/// there, as many as it is short or over, and by labelling every page as its
/// tab: by its id, its name and whether it has unsaved changes. The active tab
/// is selected if it is there.
pub proof fn every_page_is_labelled_as_its_tab(
    pages: usize,
    tabs: Vec<TabInfo>,
    active: Option<usize>,
    scale: i32,
    plan: SyncPlan,
    i: int,
)
    requires
        brings_in_step(plan, pages as int, tabs@, active, scale),
    ensures
        pages <= tabs@.len() ==> plan.append == tabs@.len() - pages && plan.remove == 0,
        pages >= tabs@.len() ==> plan.remove == pages - tabs@.len() && plan.append == 0,
        plan.labels@.len() == tabs@.len(),
        0 <= i < tabs@.len() ==> {
            &&& plan.labels@[i].id == tabs@[i].id
            &&& plan.labels@[i].name@ == tabs@[i].name@
            &&& plan.labels@[i].icon.dirty == tabs@[i].dirty
            &&& plan.labels@[i].icon.double <==> scale >= 2
        },
        active matches Some(a) ==> (a < tabs@.len() && a <= u32::MAX ==> (
        plan.select matches Some(page) && page == a)),
        active matches Some(a) ==> (a >= tabs@.len() ==> plan.select is None),
        active is None ==> plan.select is None,
{
    if 0 <= i < tabs@.len() {
        assert(shows(plan.labels@[i], tabs@[i], scale));
    }
}

/// The middle button closes a tab, and no other does.
pub proof fn the_middle_button_closes(button: u32, closes: bool)
    requires
        call_ensures(label_press, (button,), closes),
    ensures
        closes <==> button == 2,
{
}

/// What the strip reports while it is brought in step is its own doing, and what
/// it reports once it is, is not.
pub proof fn a_strip_knows_its_own_doing(order: Vec<u64>, own: bool)
    ensures
        forall|s: &mut TabStrip| #[trigger]
            call_ensures(TabStrip::synced, (s, order), ()) ==> final(s).order() == order@ && (
            call_ensures(TabStrip::is_suppressed, (final(s),), own) ==> !own),
{
}

/// A page is found where it stood when the strip was last in step.
pub proof fn a_page_is_found_where_it_stood(strip: TabStrip, k: int, r: Option<usize>)
    requires
        0 <= k < strip.order().len(),
        forall|j: int| 0 <= j < k ==> strip.order()[j] != strip.order()[k],
        call_ensures(TabStrip::index_before_reorder, (&strip, strip.order()[k]), r),
    ensures
        r matches Some(i) && i == k,
{
    if let Some(i) = r {
        if i > k {
            assert(strip.order()[k] != strip.order()[k]);
        } else if i < k {
            assert(strip.order()[i as int] != strip.order()[k]);
        }
    } else {
        assert(strip.order().contains(strip.order()[k]));
    }
}

} // verus!
