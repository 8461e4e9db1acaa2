//! The registry of plugin dock panels.
//!
//! A plugin registers a widget as a panel's content and addresses it from
//! then on by the widget's handle. A registration stands until the plugin
//! destroys the widget. The registry answers every lookup from the standing
//! registrations only, and remembers which container each plugin was last
//! told its panel is in.
//!
//! The layout that the panels live in is edited elsewhere. An operation that
//! changes it returns the edits to make, in order, and marks the layout as
//! changed.
use vstd::prelude::*;
use crate::dock_geometry::{DockPanel, DockSide};
use crate::text::{optional_text, same_text};

verus! {

/// One registration. `C` is what the layout calls a container.
pub struct PluginPanel<C> {
    pub panel: DockPanel,
    /// The handle that the plugin addresses the panel by.
    pub handle: usize,
    /// The plugin's description block, read again when the plugin asks.
    pub tb_data: usize,
    pub name: String,
    pub module_name: String,
    /// The plugin that registered the panel, if one was being called.
    pub caller: Option<usize>,
    /// The container that the plugin was last told.
    pub told: Option<C>,
    /// Tells this registration from every other one of the session.
    pub token: u64,
    /// Set once the plugin has destroyed the widget.
    pub gone: bool,
}

impl<C> PluginPanel<C> {
    /// Whether the registration still stands for a live widget.
    pub open spec fn live(&self) -> bool {
        !self.gone
    }
}

/// What a plugin asks to register.
pub struct PluginPanelSpec {
    pub panel: DockPanel,
    pub handle: usize,
    pub tb_data: usize,
    pub name: String,
    pub module_name: String,
    pub caller: Option<usize>,
    /// Where the plugin wants the panel to open the first time.
    pub initial_side: Option<DockSide>,
}

/// Why a registration is refused.
#[derive(Clone, Copy, PartialEq, Eq, Structural, Debug)]
pub enum Refusal {
    WidgetRegistered,
    PanelRegistered,
    CapReached,
    Busy,
}

impl Refusal {
    pub open spec fn text(self) -> Seq<char> {
        match self {
            Refusal::WidgetRegistered => "that widget is already registered"@,
            Refusal::PanelRegistered => "that panel is already registered"@,
            Refusal::CapReached => "the plugin panel cap is reached"@,
            Refusal::Busy => "the dock is busy (a re-entrant registration)"@,
        }
    }

    /// The reason in words.
    pub fn message(self) -> (r: &'static str)
        ensures
            r@ == self.text(),
    {
        match self {
            Refusal::WidgetRegistered => "that widget is already registered",
            Refusal::PanelRegistered => "that panel is already registered",
            Refusal::CapReached => "the plugin panel cap is reached",
            Refusal::Busy => "the dock is busy (a re-entrant registration)",
        }
    }
}

/// One change to the layout.
#[derive(Clone, Copy, PartialEq, Eq, Structural, Debug)]
pub enum LayoutEdit {
    Show(DockPanel),
    Activate(DockPanel),
    Hide(DockPanel),
    SetInitialSide(DockPanel, DockSide),
    Unpark(DockPanel),
}

/// Where a panel's container stands now, against what its plugin was told:
/// the container, the notification code for it, and whether it is the same
/// one that the registration has recorded.
pub struct Reading<C> {
    pub container: C,
    pub code: u32,
    pub same_as_told: bool,
}

/// A notification to send about a panel's container.
#[derive(Clone, Copy, PartialEq, Eq, Structural, Debug)]
pub struct DockNotice {
    pub panel: DockPanel,
    pub handle: usize,
    pub caller: Option<usize>,
    pub code: u32,
}

/// Every registration of the session, in order, and whether the layout has
/// changed since the widgets last caught up with it.
pub struct PanelRegistry<C> {
    pub entries: Vec<PluginPanel<C>>,
    pub dirty: bool,
    pub next_token: u64,
}

/// The standing registrations of a row, in order.
pub open spec fn live_entries<C>(s: Seq<PluginPanel<C>>) -> Seq<PluginPanel<C>> {
    s.filter(|p: PluginPanel<C>| p.live())
}

/// How many registrations of a row stand.
pub open spec fn live_count<C>(s: Seq<PluginPanel<C>>) -> nat
    decreases s.len(),
{
    if s.len() == 0 {
        0
    } else {
        live_count(s.drop_last()) + if s.last().live() {
            1nat
        } else {
            0nat
        }
    }
}

/// Some standing registration has this handle.
pub open spec fn handle_taken<C>(s: Seq<PluginPanel<C>>, handle: usize) -> bool {
    exists|i: int| 0 <= i < s.len() && (#[trigger] s[i]).live() && s[i].handle == handle
}

/// Some standing registration is for this panel.
pub open spec fn panel_taken<C>(s: Seq<PluginPanel<C>>, panel: DockPanel) -> bool {
    exists|i: int| 0 <= i < s.len() && (#[trigger] s[i]).live() && s[i].panel == panel
}

/// `i` is the first standing registration that `pred` picks.
pub open spec fn is_first<C>(
    s: Seq<PluginPanel<C>>,
    pred: spec_fn(PluginPanel<C>) -> bool,
    i: int,
) -> bool {
    &&& 0 <= i < s.len()
    &&& s[i].live()
    &&& pred(s[i])
    &&& forall|j: int| 0 <= j < i ==> !((#[trigger] s[j]).live() && pred(s[j]))
}

/// No standing registration is picked by `pred`.
pub open spec fn none_is<C>(
    s: Seq<PluginPanel<C>>,
    pred: spec_fn(PluginPanel<C>) -> bool,
) -> bool {
    forall|j: int| 0 <= j < s.len() ==> !((#[trigger] s[j]).live() && pred(s[j]))
}

/// `r` is the first standing registration that `pred` picks, or `None` where
/// there is none.
pub open spec fn finds<C>(
    s: Seq<PluginPanel<C>>,
    pred: spec_fn(PluginPanel<C>) -> bool,
    r: Option<usize>,
) -> bool {
    match r {
        Some(i) => is_first(s, pred, i as int),
        None => none_is(s, pred),
    }
}

/// Picks the registration that a plugin addresses by `handle`; a null handle
/// addresses none.
pub open spec fn addressed<C>(handle: usize) -> spec_fn(PluginPanel<C>) -> bool {
    |p: PluginPanel<C>| handle != 0 && p.handle == handle
}

/// Picks the registration of `panel`.
pub open spec fn of_panel<C>(panel: DockPanel) -> spec_fn(PluginPanel<C>) -> bool {
    |p: PluginPanel<C>| p.panel == panel
}

/// Picks a registration by its name, and by its module's where one is given.
pub open spec fn named<C>(
    name: Seq<char>,
    module: Option<Seq<char>>,
) -> spec_fn(PluginPanel<C>) -> bool {
    |p: PluginPanel<C>| p.name@ == name && (module matches Some(m) ==> p.module_name@ == m)
}

/// Why `spec` would be refused, given the registrations so far.
pub open spec fn refusal_spec<C>(
    s: Seq<PluginPanel<C>>,
    handle: usize,
    panel: DockPanel,
    cap: usize,
) -> Option<Refusal> {
    if handle_taken(s, handle) {
        Some(Refusal::WidgetRegistered)
    } else if panel_taken(s, panel) {
        Some(Refusal::PanelRegistered)
    } else if live_count(s) >= cap {
        Some(Refusal::CapReached)
    } else {
        None
    }
}

/// The edits that follow a registration.
pub open spec fn registration_edits(panel: DockPanel, side: Option<DockSide>) -> Seq<LayoutEdit> {
    match side {
        Some(s) => seq![LayoutEdit::SetInitialSide(panel, s), LayoutEdit::Unpark(panel)],
        None => seq![LayoutEdit::Unpark(panel)],
    }
}

/// The panels of the registrations that no longer stand, each once, in the
/// order in which they first occur.
pub open spec fn gone_panels<C>(s: Seq<PluginPanel<C>>) -> Seq<DockPanel>
    decreases s.len(),
{
    if s.len() == 0 {
        Seq::empty()
    } else {
        let before = gone_panels(s.drop_last());
        if s.last().gone && !before.contains(s.last().panel) {
            before.push(s.last().panel)
        } else {
            before
        }
    }
}

/// The edits that close the panels in `gone`: those that are open and that
/// nothing in `live` has taken over.
pub open spec fn closing_edits<C>(
    gone: Seq<DockPanel>,
    live: Seq<PluginPanel<C>>,
    visible: Seq<DockPanel>,
) -> Seq<LayoutEdit>
    decreases gone.len(),
{
    if gone.len() == 0 {
        Seq::empty()
    } else {
        let before = closing_edits(gone.drop_last(), live, visible);
        let panel = gone.last();
        if !panel_taken(live, panel) && visible.contains(panel) {
            before.push(LayoutEdit::Hide(panel))
        } else {
            before
        }
    }
}

/// A registration with `now` recorded as the container its plugin was told.
pub open spec fn told_now<C>(p: PluginPanel<C>, now: C) -> PluginPanel<C> {
    PluginPanel { told: Some(now), ..p }
}

/// The registrations after the containers in `readings` were recorded for the
/// ones that stand.
pub open spec fn after_recording<C>(
    s: Seq<PluginPanel<C>>,
    readings: Seq<Reading<C>>,
) -> Seq<PluginPanel<C>> {
    Seq::new(
        s.len(),
        |i: int|
            if s[i].live() {
                told_now(s[i], readings[i].container)
            } else {
                s[i]
            },
    )
}

/// Whether the plugin of `p` already knows of the container in `reading`.
pub open spec fn already_told<C>(p: PluginPanel<C>, reading: Reading<C>) -> bool {
    p.told is Some && reading.same_as_told
}

/// The notices that `readings` call for: one for each standing registration
/// whose plugin does not know of its container yet, in order.
pub open spec fn notices_spec<C>(
    s: Seq<PluginPanel<C>>,
    readings: Seq<Reading<C>>,
) -> Seq<DockNotice>
    decreases s.len(),
{
    if s.len() == 0 {
        Seq::empty()
    } else {
        let before = notices_spec(s.drop_last(), readings);
        let p = s.last();
        let reading = readings[s.len() - 1];
        if p.live() && !already_told(p, reading) {
            before.push(
                DockNotice {
                    panel: p.panel,
                    handle: p.handle,
                    caller: p.caller,
                    code: reading.code,
                },
            )
        } else {
            before
        }
    }
}

impl<C: Copy> PanelRegistry<C> {
    /// The registrations.
    pub open spec fn view(&self) -> Seq<PluginPanel<C>> {
        self.entries@
    }

    /// No two standing registrations share a handle or a panel, and each
    /// registration has a token of its own.
    pub open spec fn wf(&self) -> bool {
        &&& forall|i: int, j: int|
            #![trigger self@[i], self@[j]]
            0 <= i < j < self@.len() && self@[i].live() && self@[j].live() ==> self@[i].handle
                != self@[j].handle && self@[i].panel != self@[j].panel
        &&& forall|i: int| 0 <= i < self@.len() ==> (#[trigger] self@[i]).token < self.next_token
        &&& forall|i: int, j: int|
            #![trigger self@[i], self@[j]]
            0 <= i < j < self@.len() ==> self@[i].token != self@[j].token
    }

    /// A registry with nothing in it.
    pub fn new() -> (r: PanelRegistry<C>)
        ensures
            r.wf(),
            r@.len() == 0,
            !r.dirty,
            r.next_token == 0,
    {
        PanelRegistry { entries: Vec::new(), dirty: false, next_token: 0 }
    }

    /// The standing registration that a plugin addresses by `handle`.
    fn index_by_handle(&self, handle: usize) -> (r: Option<usize>)
        ensures
            finds(self@, addressed::<C>(handle), r),
    {
        if handle == 0 {
            return None;
        }
        let mut i: usize = 0;
        while i < self.entries.len()
            invariant
                handle != 0,
                i <= self.entries@.len(),
                forall|j: int|
                    0 <= j < i ==> !((#[trigger] self@[j]).live() && addressed::<C>(handle)(
                        self@[j],
                    )),
            decreases self.entries.len() - i,
        {
            if !self.entries[i].gone && self.entries[i].handle == handle {
                return Some(i);
            }
            i += 1;
        }
        None
    }

    /// The standing registration of `panel`.
    fn index_by_panel(&self, panel: DockPanel) -> (r: Option<usize>)
        ensures
            finds(self@, of_panel::<C>(panel), r),
    {
        let mut i: usize = 0;
        while i < self.entries.len()
            invariant
                i <= self.entries@.len(),
                forall|j: int|
                    0 <= j < i ==> !((#[trigger] self@[j]).live() && of_panel::<C>(panel)(self@[j])),
            decreases self.entries.len() - i,
        {
            if !self.entries[i].gone && self.entries[i].panel == panel {
                return Some(i);
            }
            i += 1;
        }
        None
    }

    /// The first standing registration with this name, and of this module
    /// where one is given.
    fn index_by_name(&self, name: &str, module: Option<&str>) -> (r: Option<usize>)
        ensures
            finds(self@, named::<C>(name@, optional_text(module)), r),
    {
        let ghost key: Option<Seq<char>> = optional_text(module);
        let mut i: usize = 0;
        while i < self.entries.len()
            invariant
                i <= self.entries@.len(),
                key == optional_text(module),
                forall|j: int|
                    0 <= j < i ==> !((#[trigger] self@[j]).live() && named::<C>(name@, key)(
                        self@[j],
                    )),
            decreases self.entries.len() - i,
        {
            if !self.entries[i].gone && same_text(self.entries[i].name.as_str(), name) {
                let module_fits: bool = match module {
                    None => true,
                    Some(m) => same_text(m, self.entries[i].module_name.as_str()),
                };
                if module_fits {
                    return Some(i);
                }
            }
            i += 1;
        }
        None
    }

    /// Why a registration of `panel` under `handle` would be refused.
    pub fn refusal(&self, handle: usize, panel: DockPanel, cap: usize) -> (r: Option<Refusal>)
        ensures
            r == refusal_spec(self@, handle, panel, cap),
    {
        let mut standing: usize = 0;
        let mut widget_taken: bool = false;
        let mut panel_taken_: bool = false;
        let mut i: usize = 0;
        while i < self.entries.len()
            invariant
                i <= self.entries@.len(),
                standing <= i,
                standing == live_count(self@.take(i as int)),
                widget_taken == handle_taken(self@.take(i as int), handle),
                panel_taken_ == panel_taken(self@.take(i as int), panel),
            decreases self.entries.len() - i,
        {
            let ghost before = self@.take(i as int);
            let ghost after = self@.take(i + 1);
            assert(after.drop_last() =~= before);
            assert(after =~= before.push(self@[i as int]));
            proof {
                if handle_taken(before, handle) {
                    let k = choose|k: int|
                        0 <= k < before.len() && (#[trigger] before[k]).live() && before[k].handle
                            == handle;
                    assert(after[k].live() && after[k].handle == handle);
                }
                if panel_taken(before, panel) {
                    let k = choose|k: int|
                        0 <= k < before.len() && (#[trigger] before[k]).live() && before[k].panel
                            == panel;
                    assert(after[k].live() && after[k].panel == panel);
                }
                assert(after[i as int] == self@[i as int]);
                assert forall|k: int| 0 <= k < i implies after[k] == before[k] by {}
            }
            if !self.entries[i].gone {
                standing += 1;
                if self.entries[i].handle == handle {
                    widget_taken = true;
                }
                if self.entries[i].panel == panel {
                    panel_taken_ = true;
                }
            }
            i += 1;
        }
        assert(self@.take(i as int) =~= self@);
        if widget_taken {
            Some(Refusal::WidgetRegistered)
        } else if panel_taken_ {
            Some(Refusal::PanelRegistered)
        } else if standing >= cap {
            Some(Refusal::CapReached)
        } else {
            None
        }
    }

    /// Register a widget as a panel's content. Refused registrations change
    /// nothing. One that is accepted comes last, with its plugin told
    /// nothing yet; the result is its token and the edits to make to the
    /// layout.
    pub fn register(&mut self, spec: PluginPanelSpec, cap: usize) -> (r: Result<
        (u64, Vec<LayoutEdit>),
        Refusal,
    >)
        requires
            old(self).wf(),
            old(self).next_token < u64::MAX,
        ensures
            final(self).wf(),
            match refusal_spec(old(self)@, spec.handle, spec.panel, cap) {
                Some(why) => r == Err::<(u64, Vec<LayoutEdit>), Refusal>(why) && *final(self)
                    == *old(self),
                None => {
                    &&& r is Ok
                    &&& r->Ok_0.0 == old(self).next_token
                    &&& r->Ok_0.1@ == registration_edits(spec.panel, spec.initial_side)
                    &&& final(self).dirty
                    &&& final(self).next_token == old(self).next_token + 1
                    &&& final(self)@ == old(self)@.push(
                        PluginPanel {
                            panel: spec.panel,
                            handle: spec.handle,
                            tb_data: spec.tb_data,
                            name: spec.name,
                            module_name: spec.module_name,
                            caller: spec.caller,
                            told: None,
                            token: old(self).next_token,
                            gone: false,
                        },
                    )
                },
            },
    {
        match self.refusal(spec.handle, spec.panel, cap) {
            Some(why) => Err(why),
            None => {
                let token: u64 = self.next_token;
                let mut edits: Vec<LayoutEdit> = Vec::new();
                if let Some(side) = spec.initial_side {
                    edits.push(LayoutEdit::SetInitialSide(spec.panel, side));
                }
                edits.push(LayoutEdit::Unpark(spec.panel));
                assert(edits@ =~= registration_edits(spec.panel, spec.initial_side));
                let ghost before = self@;
                assert(!handle_taken(before, spec.handle));
                assert(!panel_taken(before, spec.panel));
                self.entries.push(
                    PluginPanel {
                        panel: spec.panel,
                        handle: spec.handle,
                        tb_data: spec.tb_data,
                        name: spec.name,
                        module_name: spec.module_name,
                        caller: spec.caller,
                        told: None,
                        token,
                        gone: false,
                    },
                );
                self.next_token = token + 1;
                self.dirty = true;
                assert forall|i: int, j: int|
                    #![trigger self@[i], self@[j]]
                    0 <= i < j < self@.len() && self@[i].live() && self@[j].live() implies self@[i].handle
                    != self@[j].handle && self@[i].panel != self@[j].panel by {
                    if j == before.len() {
                        assert(self@[i] == before[i]);
                        assert(before[i].live());
                    }
                }
                Ok((token, edits))
            },
        }
    }

    /// Record that the widget of one registration was destroyed. `false` if
    /// the registration is not there any more.
    pub fn mark_gone(&mut self, token: u64) -> (found: bool)
        requires
            old(self).wf(),
        ensures
            final(self).wf(),
            final(self).dirty == old(self).dirty,
            final(self).next_token == old(self).next_token,
            final(self)@.len() == old(self)@.len(),
            found == exists|i: int| 0 <= i < old(self)@.len() && (#[trigger] old(self)@[i]).token == token,
            forall|i: int|
                0 <= i < old(self)@.len() ==> #[trigger] final(self)@[i] == if old(self)@[i].token
                    == token {
                    PluginPanel { gone: true, ..old(self)@[i] }
                } else {
                    old(self)@[i]
                },
    {
        let mut i: usize = 0;
        while i < self.entries.len()
            invariant
                i <= self.entries@.len(),
                *self == *old(self),
                old(self).wf(),
                forall|j: int| 0 <= j < i ==> (#[trigger] self@[j]).token != token,
            decreases self.entries.len() - i,
        {
            if self.entries[i].token == token {
                self.entries[i].gone = true;
                return true;
            }
            i += 1;
        }
        false
    }

    /// Show the panel addressed by `handle` in front of its group. `None`,
    /// and no change, for a handle that addresses nothing.
    pub fn show_plugin_panel(&mut self, handle: usize) -> (r: Option<Vec<LayoutEdit>>)
        requires
            old(self).wf(),
        ensures
            final(self).wf(),
            final(self)@ == old(self)@,
            final(self).next_token == old(self).next_token,
            r is None <==> none_is(old(self)@, addressed::<C>(handle)),
            r is None ==> final(self).dirty == old(self).dirty,
            r matches Some(edits) ==> {
                &&& final(self).dirty
                &&& exists|i: int| #[trigger]
                    is_first(old(self)@, addressed::<C>(handle), i) && edits@ == seq![
                        LayoutEdit::Show(old(self)@[i].panel),
                        LayoutEdit::Activate(old(self)@[i].panel),
                    ]
            },
    {
        match self.index_by_handle(handle) {
            None => None,
            Some(i) => {
                let panel: DockPanel = self.entries[i].panel;
                self.dirty = true;
                assert(is_first(old(self)@, addressed::<C>(handle), i as int));
                Some(vec![LayoutEdit::Show(panel), LayoutEdit::Activate(panel)])
            },
        }
    }

    /// Hide the panel addressed by `handle`; its registration stays.
    pub fn hide_plugin_panel(&mut self, handle: usize) -> (r: Option<Vec<LayoutEdit>>)
        requires
            old(self).wf(),
        ensures
            final(self).wf(),
            final(self)@ == old(self)@,
            final(self).next_token == old(self).next_token,
            r is None <==> none_is(old(self)@, addressed::<C>(handle)),
            r is None ==> final(self).dirty == old(self).dirty,
            r matches Some(edits) ==> {
                &&& final(self).dirty
                &&& exists|i: int| #[trigger]
                    is_first(old(self)@, addressed::<C>(handle), i) && edits@ == seq![
                        LayoutEdit::Hide(old(self)@[i].panel),
                    ]
            },
    {
        match self.index_by_handle(handle) {
            None => None,
            Some(i) => {
                let panel: DockPanel = self.entries[i].panel;
                self.dirty = true;
                assert(is_first(old(self)@, addressed::<C>(handle), i as int));
                Some(vec![LayoutEdit::Hide(panel)])
            },
        }
    }

    /// Show the panel registered under `name` in front of its group.
    pub fn view_plugin_panel(&mut self, name: &str) -> (r: Option<Vec<LayoutEdit>>)
        requires
            old(self).wf(),
        ensures
            final(self).wf(),
            final(self)@ == old(self)@,
            final(self).next_token == old(self).next_token,
            r is None <==> none_is(old(self)@, named::<C>(name@, None)),
            r is None ==> final(self).dirty == old(self).dirty,
            r matches Some(edits) ==> {
                &&& final(self).dirty
                &&& exists|i: int| #[trigger]
                    is_first(old(self)@, named::<C>(name@, None), i) && edits@ == seq![
                        LayoutEdit::Show(old(self)@[i].panel),
                        LayoutEdit::Activate(old(self)@[i].panel),
                    ]
            },
    {
        match self.index_by_name(name, None) {
            None => None,
            Some(i) => {
                let panel: DockPanel = self.entries[i].panel;
                self.dirty = true;
                assert(is_first(old(self)@, named::<C>(name@, None), i as int));
                Some(vec![LayoutEdit::Show(panel), LayoutEdit::Activate(panel)])
            },
        }
    }

    /// The handle registered under `name`, and under `module` where given.
    pub fn plugin_panel_handle(&self, name: &str, module: Option<&str>) -> (r: Option<usize>)
        ensures
            match r {
                Some(handle) => exists|i: int| #[trigger]
                    is_first(self@, named::<C>(name@, optional_text(module)), i) && handle
                        == self@[i].handle,
                None => none_is(self@, named::<C>(name@, optional_text(module))),
            },
    {
        match self.index_by_name(name, module) {
            None => None,
            Some(i) => {
                assert(is_first(self@, named::<C>(name@, optional_text(module)), i as int));
                Some(self.entries[i].handle)
            },
        }
    }

    /// The description block that the panel addressed by `handle` was
    /// registered with.
    pub fn plugin_panel_tb_data(&self, handle: usize) -> (r: Option<usize>)
        ensures
            match r {
                Some(tb_data) => exists|i: int| #[trigger]
                    is_first(self@, addressed::<C>(handle), i) && tb_data == self@[i].tb_data,
                None => none_is(self@, addressed::<C>(handle)),
            },
    {
        match self.index_by_handle(handle) {
            None => None,
            Some(i) => {
                assert(is_first(self@, addressed::<C>(handle), i as int));
                Some(self.entries[i].tb_data)
            },
        }
    }

    /// Take new lookup names for the standing registration of `handle`.
    /// Nothing else about it changes, its panel included.
    pub fn rename_plugin_panel(&mut self, handle: usize, name: String, module_name: String)
        requires
            old(self).wf(),
        ensures
            final(self).wf(),
            final(self).dirty == old(self).dirty,
            final(self).next_token == old(self).next_token,
            final(self)@.len() == old(self)@.len(),
            forall|i: int|
                0 <= i < old(self)@.len() ==> #[trigger] final(self)@[i] == if old(self)@[i].live()
                    && old(self)@[i].handle == handle {
                    PluginPanel { name, module_name, ..old(self)@[i] }
                } else {
                    old(self)@[i]
                },
    {
        let mut i: usize = 0;
        while i < self.entries.len()
            invariant
                i <= self.entries@.len(),
                *self == *old(self),
                old(self).wf(),
                forall|j: int|
                    0 <= j < i ==> !((#[trigger] self@[j]).live() && self@[j].handle == handle),
            decreases self.entries.len() - i,
        {
            if !self.entries[i].gone && self.entries[i].handle == handle {
                self.entries[i].name = name;
                self.entries[i].module_name = module_name;
                return ;
            }
            i += 1;
        }
    }

    /// Whether the layout changed since the mark was last cleared; clears it.
    pub fn take_dirty(&mut self) -> (r: bool)
        ensures
            r == old(self).dirty,
            !final(self).dirty,
            final(self)@ == old(self)@,
            final(self).next_token == old(self).next_token,
    {
        let was: bool = self.dirty;
        self.dirty = false;
        was
    }

    /// Whom to tell about `panel`: its handle and its registrant.
    pub fn plugin_panel_notify_target(&self, panel: DockPanel) -> (r: Option<
        (usize, Option<usize>),
    >)
        ensures
            match r {
                Some((handle, caller)) => exists|i: int| #[trigger]
                    is_first(self@, of_panel::<C>(panel), i) && handle == self@[i].handle && caller
                        == self@[i].caller,
                None => !panel_taken(self@, panel),
            },
    {
        match self.index_by_panel(panel) {
            None => None,
            Some(i) => {
                assert(is_first(self@, of_panel::<C>(panel), i as int));
                Some((self.entries[i].handle, self.entries[i].caller))
            },
        }
    }

    /// Whether a registration stands for `panel`.
    pub fn is_plugin_panel_registered(&self, panel: DockPanel) -> (r: bool)
        ensures
            r == panel_taken(self@, panel),
    {
        match self.index_by_panel(panel) {
            None => false,
            Some(i) => {
                assert(self@[i as int].live() && self@[i as int].panel == panel);
                true
            },
        }
    }

    /// Whether a registration stands for `panel` under this very `handle`.
    pub fn plugin_panel_is_live(&self, panel: DockPanel, handle: usize) -> (r: bool)
        ensures
            r == exists|i: int|
                0 <= i < self@.len() && (#[trigger] self@[i]).live() && self@[i].panel == panel
                    && self@[i].handle == handle,
    {
        let mut i: usize = 0;
        while i < self.entries.len()
            invariant
                i <= self.entries@.len(),
                forall|j: int|
                    0 <= j < i ==> !((#[trigger] self@[j]).live() && self@[j].panel == panel
                        && self@[j].handle == handle),
            decreases self.entries.len() - i,
        {
            if !self.entries[i].gone && self.entries[i].panel == panel && self.entries[i].handle
                == handle {
                assert(self@[i as int].live());
                return true;
            }
            i += 1;
        }
        false
    }

    /// Drop the registrations whose widgets were destroyed. `None` if there
    /// is none; otherwise the edits that close their panels: each panel
    /// once, if it is open (`visible`) and has not been registered again.
    pub fn forget_destroyed_plugin_panels(&mut self, visible: &Vec<DockPanel>) -> (r: Option<
        Vec<LayoutEdit>,
    >)
        requires
            old(self).wf(),
        ensures
            final(self).wf(),
            final(self).dirty == old(self).dirty,
            final(self).next_token == old(self).next_token,
            final(self)@ == live_entries(old(self)@),
            r is None <==> forall|i: int|
                0 <= i < old(self)@.len() ==> (#[trigger] old(self)@[i]).live(),
            r matches Some(edits) ==> edits@ == closing_edits(
                gone_panels(old(self)@),
                live_entries(old(self)@),
                visible@,
            ),
    {
        let gone: Vec<DockPanel> = self.collect_gone();
        self.drop_gone();
        proof {
            live_entries_keep_wf(*old(self), *self);
            gone_panels_nonempty(old(self)@);
        }
        if gone.len() == 0 {
            return None;
        }
        let mut edits: Vec<LayoutEdit> = Vec::new();
        let mut i: usize = 0;
        while i < gone.len()
            invariant
                i <= gone@.len(),
                edits@ == closing_edits(gone@.take(i as int), self@, visible@),
            decreases gone.len() - i,
        {
            assert(gone@.take(i + 1).drop_last() =~= gone@.take(i as int));
            let panel: DockPanel = gone[i];
            if !self.is_plugin_panel_registered(panel) && contains_panel(visible, panel) {
                edits.push(LayoutEdit::Hide(panel));
            }
            i += 1;
        }
        assert(gone@.take(i as int) =~= gone@);
        Some(edits)
    }

    fn collect_gone(&self) -> (gone: Vec<DockPanel>)
        ensures
            gone@ == gone_panels(self@),
    {
        let mut gone: Vec<DockPanel> = Vec::new();
        let mut i: usize = 0;
        while i < self.entries.len()
            invariant
                i <= self.entries@.len(),
                gone@ == gone_panels(self@.take(i as int)),
            decreases self.entries.len() - i,
        {
            assert(self@.take(i + 1).drop_last() =~= self@.take(i as int));
            if self.entries[i].gone && !contains_panel(&gone, self.entries[i].panel) {
                gone.push(self.entries[i].panel);
            }
            i += 1;
        }
        assert(self@.take(i as int) =~= self@);
        gone
    }

    fn drop_gone(&mut self)
        ensures
            final(self)@ == live_entries(old(self)@),
            final(self).dirty == old(self).dirty,
            final(self).next_token == old(self).next_token,
    {
        let ghost all = self@;
        let ghost mut k: int = 0;
        let mut i: usize = 0;
        while i < self.entries.len()
            invariant
                0 <= k <= all.len(),
                i <= self.entries@.len(),
                i == live_entries(all.take(k)).len(),
                self@ =~= live_entries(all.take(k)) + all.skip(k),
                self.dirty == old(self).dirty,
                self.next_token == old(self).next_token,
            decreases all.len() - k,
        {
            proof {
                assert(all.take(k + 1).drop_last() =~= all.take(k));
                assert(self@[i as int] == all[k]);
                reveal(Seq::filter);
            }
            if self.entries[i].gone {
                let _ = self.entries.remove(i);
            } else {
                i += 1;
            }
            proof {
                k = k + 1;
            }
        }
        proof {
            assert(all.take(k) =~= all);
        }
    }

    /// Record, for every registration that stands, the container its panel
    /// is in now, and return a notice for each whose plugin does not know of
    /// that container yet. Everything is recorded by the time there is
    /// anything to send.
    pub fn container_notices(&mut self, readings: &Vec<Reading<C>>) -> (notices: Vec<DockNotice>)
        requires
            old(self).wf(),
            readings@.len() == old(self)@.len(),
        ensures
            final(self).wf(),
            final(self).dirty == old(self).dirty,
            final(self).next_token == old(self).next_token,
            final(self)@ == after_recording(old(self)@, readings@),
            notices@ == notices_spec(old(self)@, readings@),
    {
        let ghost all = self@;
        let mut notices: Vec<DockNotice> = Vec::new();
        let mut i: usize = 0;
        while i < self.entries.len()
            invariant
                readings@.len() == all.len() == self@.len(),
                i <= all.len(),
                self.dirty == old(self).dirty,
                self.next_token == old(self).next_token,
                forall|j: int| 0 <= j < i ==> #[trigger] self@[j] == after_recording(all, readings@)[j],
                forall|j: int| i <= j < all.len() ==> #[trigger] self@[j] == all[j],
                notices@ == notices_spec(all.take(i as int), readings@),
            decreases all.len() - i,
        {
            assert(all.take(i + 1).drop_last() =~= all.take(i as int));
            if !self.entries[i].gone {
                let now: C = readings[i].container;
                let told: bool = self.entries[i].told.is_some() && readings[i].same_as_told;
                self.entries[i].told = Some(now);
                if !told {
                    notices.push(
                        DockNotice {
                            panel: self.entries[i].panel,
                            handle: self.entries[i].handle,
                            caller: self.entries[i].caller,
                            code: readings[i].code,
                        },
                    );
                }
            }
            i += 1;
        }
        assert(all.take(i as int) =~= all);
        assert(self@ =~= after_recording(all, readings@));
        notices
    }
}

/// Whether `panels` has `panel` in it.
pub fn contains_panel(panels: &Vec<DockPanel>, panel: DockPanel) -> (r: bool)
    ensures
        r == panels@.contains(panel),
{
    let mut i: usize = 0;
    while i < panels.len()
        invariant
            i <= panels@.len(),
            forall|j: int| 0 <= j < i ==> panels@[j] != panel,
        decreases panels.len() - i,
    {
        if panels[i] == panel {
            assert(panels@[i as int] == panel);
            return true;
        }
        i += 1;
    }
    false
}

proof fn gone_panels_nonempty<C>(s: Seq<PluginPanel<C>>)
    ensures
        gone_panels(s).len() == 0 <==> forall|i: int| 0 <= i < s.len() ==> (#[trigger] s[i]).live(),
    decreases s.len(),
{
    if s.len() > 0 {
        let t = s.drop_last();
        gone_panels_nonempty(t);
        if gone_panels(s).len() == 0 {
            assert forall|i: int| 0 <= i < s.len() implies (#[trigger] s[i]).live() by {
                if i < t.len() {
                    assert(t[i].live());
                }
            }
        }
        if forall|i: int| 0 <= i < s.len() ==> (#[trigger] s[i]).live() {
            assert forall|i: int| 0 <= i < t.len() implies (#[trigger] t[i]).live() by {
                assert(s[i].live());
            }
            assert(s[s.len() - 1].live());
        }
    }
}

proof fn kept_from<C>(s: Seq<PluginPanel<C>>, i: int) -> (k: int)
    requires
        0 <= i < live_entries(s).len(),
    ensures
        0 <= k < s.len(),
        live_entries(s)[i] == s[k],
        s[k].live(),
    decreases s.len(),
{
    reveal(Seq::filter);
    let t = s.drop_last();
    if i < live_entries(t).len() {
        kept_from(t, i)
    } else {
        s.len() - 1
    }
}

proof fn kept_pairs<C>(
    s: Seq<PluginPanel<C>>,
    rel: spec_fn(PluginPanel<C>, PluginPanel<C>) -> bool,
)
    requires
        forall|i: int, j: int|
            #![trigger s[i], s[j]]
            0 <= i < j < s.len() && s[i].live() && s[j].live() ==> rel(s[i], s[j]),
    ensures
        forall|i: int, j: int|
            #![trigger live_entries(s)[i], live_entries(s)[j]]
            0 <= i < j < live_entries(s).len() ==> rel(live_entries(s)[i], live_entries(s)[j]),
    decreases s.len(),
{
    reveal(Seq::filter);
    if s.len() > 0 {
        let t = s.drop_last();
        assert forall|i: int, j: int|
            #![trigger t[i], t[j]]
            0 <= i < j < t.len() && t[i].live() && t[j].live() implies rel(t[i], t[j]) by {
            assert(s[i] == t[i] && s[j] == t[j]);
        }
        kept_pairs(t, rel);
        let f = live_entries(s);
        assert forall|i: int, j: int|
            #![trigger f[i], f[j]]
            0 <= i < j < f.len() implies rel(f[i], f[j]) by {
            if j < live_entries(t).len() {
                assert(f[i] == live_entries(t)[i] && f[j] == live_entries(t)[j]);
            } else {
                let k = kept_from(t, i);
                assert(f[i] == s[k]);
                assert(f[j] == s[s.len() - 1]);
            }
        }
    }
}

proof fn live_entries_keep_wf<C: Copy>(before: PanelRegistry<C>, after: PanelRegistry<C>)
    requires
        before.wf(),
        after@ == live_entries(before@),
        after.next_token == before.next_token,
    ensures
        after.wf(),
{
    let apart = |p: PluginPanel<C>, q: PluginPanel<C>|
        p.handle != q.handle && p.panel != q.panel && p.token != q.token;
    kept_pairs(before@, apart);
    assert forall|i: int, j: int|
        #![trigger after@[i], after@[j]]
        0 <= i < j < after@.len() implies apart(after@[i], after@[j]) by {}
    assert forall|i: int| 0 <= i < after@.len() implies (#[trigger] after@[i]).token
        < after.next_token by {
        let k = kept_from(before@, i);
        assert(before@[k].token < before.next_token);
    }
}

proof fn live_entries_of_live<C>(s: Seq<PluginPanel<C>>)
    requires
        forall|i: int| 0 <= i < s.len() ==> (#[trigger] s[i]).live(),
    ensures
        live_entries(s) == s,
    decreases s.len(),
{
    reveal(Seq::filter);
    if s.len() > 0 {
        let t = s.drop_last();
        assert forall|i: int| 0 <= i < t.len() implies (#[trigger] t[i]).live() by {
            assert(s[i].live());
        }
        live_entries_of_live(t);
        assert(s[s.len() - 1].live());
        assert(s =~= t.push(s.last()));
    }
}

/// Forgetting leaves only registrations that stand, so forgetting a second
/// time finds nothing to do.
pub proof fn forgetting_is_complete<C>(s: Seq<PluginPanel<C>>)
    ensures
        forall|i: int| 0 <= i < live_entries(s).len() ==> (#[trigger] live_entries(s)[i]).live(),
        live_entries(live_entries(s)) == live_entries(s),
        gone_panels(live_entries(s)).len() == 0,
{
    let f = live_entries(s);
    assert forall|i: int| 0 <= i < f.len() implies (#[trigger] f[i]).live() by {
        let k = kept_from(s, i);
    }
    live_entries_of_live(f);
    gone_panels_nonempty(f);
}

/// A panel that was registered again before its destroyed widget was
/// forgotten is not closed: every edit closes a panel that was open, lost its
/// widget and has no other.
pub proof fn a_replacement_is_not_closed<C>(
    gone: Seq<DockPanel>,
    live: Seq<PluginPanel<C>>,
    visible: Seq<DockPanel>,
    i: int,
)
    requires
        0 <= i < closing_edits(gone, live, visible).len(),
    ensures
        closing_edits(gone, live, visible)[i] matches LayoutEdit::Hide(panel) && gone.contains(panel)
            && visible.contains(panel) && !panel_taken(live, panel),
    decreases gone.len(),
{
    let t = gone.drop_last();
    if i < closing_edits(t, live, visible).len() {
        a_replacement_is_not_closed(t, live, visible, i);
        let panel = closing_edits(t, live, visible)[i]->Hide_0;
        let k = choose|k: int| 0 <= k < t.len() && t[k] == panel;
        assert(gone[k] == panel);
    } else {
        assert(gone[gone.len() - 1] == gone.last());
    }
}

/// What a registration was accepted under is found again by its handle, and
/// so is everything that stood before it.
pub proof fn a_registration_is_found<C>(
    s: Seq<PluginPanel<C>>,
    p: PluginPanel<C>,
    handle: usize,
    i: int,
)
    requires
        p.live(),
        !handle_taken(s, p.handle),
    ensures
        p.handle != 0 ==> is_first(s.push(p), addressed::<C>(p.handle), s.len() as int),
        is_first(s, addressed::<C>(handle), i) ==> is_first(s.push(p), addressed::<C>(handle), i),
{
    let t = s.push(p);
    assert(t[s.len() as int] == p);
    assert forall|j: int| 0 <= j < s.len() implies !((#[trigger] t[j]).live() && addressed::<C>(
        p.handle,
    )(t[j])) by {
        assert(t[j] == s[j]);
        if s[j].live() && s[j].handle == p.handle {
            assert(handle_taken(s, p.handle));
        }
    }
    if is_first(s, addressed::<C>(handle), i) {
        assert(t[i] == s[i]);
        assert forall|j: int| 0 <= j < i implies !((#[trigger] t[j]).live() && addressed::<C>(
            handle,
        )(t[j])) by {
            assert(t[j] == s[j]);
        }
    }
}

/// Registrations that stand never outnumber the cap: one that is accepted
/// finds room, and adds one.
pub proof fn the_cap_holds<C>(s: Seq<PluginPanel<C>>, p: PluginPanel<C>, cap: usize)
    requires
        p.live(),
        refusal_spec(s, p.handle, p.panel, cap) is None,
    ensures
        live_count(s.push(p)) == live_count(s) + 1,
        live_count(s.push(p)) <= cap,
{
    assert(s.push(p).drop_last() =~= s);
}

/// A container that was recorded is not told again: once a pass has run, a
/// pass that finds every panel in the container recorded for it sends
/// nothing and changes nothing but the record, whatever was sent in between.
pub proof fn nothing_is_told_twice<C>(
    s: Seq<PluginPanel<C>>,
    first: Seq<Reading<C>>,
    second: Seq<Reading<C>>,
)
    requires
        first.len() == s.len(),
        second.len() == s.len(),
        forall|i: int| 0 <= i < s.len() ==> (#[trigger] second[i]).same_as_told,
        forall|i: int| 0 <= i < s.len() ==> (#[trigger] second[i]).container == first[i].container,
    ensures
        notices_spec(after_recording(s, first), second).len() == 0,
        after_recording(after_recording(s, first), second) == after_recording(s, first),
{
    let t = after_recording(s, first);
    no_notices(t, second);
    assert(after_recording(t, second) =~= t) by {
        assert forall|i: int| 0 <= i < t.len() implies after_recording(t, second)[i] == t[i] by {
            assert(second[i].container == first[i].container);
        }
    }
}

proof fn no_notices<C>(s: Seq<PluginPanel<C>>, readings: Seq<Reading<C>>)
    requires
        readings.len() >= s.len(),
        forall|i: int| 0 <= i < s.len() && s[i].live() ==> already_told(#[trigger] s[i], readings[i]),
    ensures
        notices_spec(s, readings).len() == 0,
    decreases s.len(),
{
    if s.len() > 0 {
        let t = s.drop_last();
        assert forall|i: int| 0 <= i < t.len() && t[i].live() implies already_told(
            #[trigger] t[i],
            readings[i],
        ) by {
            assert(s[i] == t[i]);
        }
        no_notices(t, readings);
        assert(s[s.len() - 1] == s.last());
    }
}

/// A plugin that was told nothing yet hears of its panel in the next pass,
/// wherever the panel is.
pub proof fn a_fresh_registration_is_told<C>(
    s: Seq<PluginPanel<C>>,
    readings: Seq<Reading<C>>,
    i: int,
)
    requires
        readings.len() == s.len(),
        0 <= i < s.len(),
        s[i].live(),
        s[i].told is None,
    ensures
        notices_spec(s, readings).contains(
            DockNotice {
                panel: s[i].panel,
                handle: s[i].handle,
                caller: s[i].caller,
                code: readings[i].code,
            },
        ),
{
    notice_for(s, readings, i);
}

proof fn notice_for<C>(s: Seq<PluginPanel<C>>, readings: Seq<Reading<C>>, i: int)
    requires
        readings.len() >= s.len(),
        0 <= i < s.len(),
        s[i].live(),
        !already_told(s[i], readings[i]),
    ensures
        notices_spec(s, readings).contains(
            DockNotice {
                panel: s[i].panel,
                handle: s[i].handle,
                caller: s[i].caller,
                code: readings[i].code,
            },
        ),
    decreases s.len(),
{
    let notice = DockNotice {
        panel: s[i].panel,
        handle: s[i].handle,
        caller: s[i].caller,
        code: readings[i].code,
    };
    let all = notices_spec(s, readings);
    if i == s.len() - 1 {
        assert(all[all.len() - 1] == notice);
    } else {
        let t = s.drop_last();
        assert(t[i] == s[i]);
        notice_for(t, readings, i);
        let before = notices_spec(t, readings);
        let k = choose|k: int| 0 <= k < before.len() && before[k] == notice;
        assert(all[k] == notice);
    }
}

/// A registration is refused for its widget, then for its panel, then for want
/// of room, and each exactly if it has to be: some registration that is not gone
/// has the widget, or the panel, or as many as there may be are not gone.
pub proof fn a_registration_is_refused_for_cause<C>(
    s: Seq<PluginPanel<C>>,
    handle: usize,
    panel: DockPanel,
    cap: usize,
)
    ensures
        ({
            let r = refusal_spec(s, handle, panel, cap);
            let widget = exists|i: int|
                0 <= i < s.len() && !(#[trigger] s[i]).gone && s[i].handle == handle;
            let taken = exists|i: int|
                0 <= i < s.len() && !(#[trigger] s[i]).gone && s[i].panel == panel;
            &&& r == Some(Refusal::WidgetRegistered) <==> widget
            &&& r == Some(Refusal::PanelRegistered) <==> !widget && taken
            &&& r == Some(Refusal::CapReached) <==> !widget && !taken && s.filter(
                |p: PluginPanel<C>| !p.gone,
            ).len() >= cap
            &&& r is None <==> !widget && !taken && s.filter(
                |p: PluginPanel<C>| !p.gone,
            ).len() < cap
        }),
{
    count_is_of_those_not_gone(s);
    if handle_taken(s, handle) {
        let k = choose|k: int|
            0 <= k < s.len() && (#[trigger] s[k]).live() && s[k].handle == handle;
        assert(!s[k].gone && s[k].handle == handle);
    }
    if exists|i: int| 0 <= i < s.len() && !(#[trigger] s[i]).gone && s[i].handle == handle {
        let k = choose|i: int| 0 <= i < s.len() && !(#[trigger] s[i]).gone && s[i].handle == handle;
        assert(s[k].live());
    }
    if panel_taken(s, panel) {
        let k = choose|k: int|
            0 <= k < s.len() && (#[trigger] s[k]).live() && s[k].panel == panel;
        assert(!s[k].gone && s[k].panel == panel);
    }
    if exists|i: int| 0 <= i < s.len() && !(#[trigger] s[i]).gone && s[i].panel == panel {
        let k = choose|i: int| 0 <= i < s.len() && !(#[trigger] s[i]).gone && s[i].panel == panel;
        assert(s[k].live());
    }
}

proof fn count_is_of_those_not_gone<C>(s: Seq<PluginPanel<C>>)
    ensures
        live_count(s) == s.filter(|p: PluginPanel<C>| !p.gone).len(),
    decreases s.len(),
{
    reveal(Seq::filter);
    if s.len() > 0 {
        count_is_of_those_not_gone(s.drop_last());
    }
}

/// What stands is what is not gone, in order.
pub proof fn what_stands_is_not_gone<C>(s: Seq<PluginPanel<C>>)
    ensures
        live_entries(s) == s.filter(|p: PluginPanel<C>| !p.gone),
    decreases s.len(),
{
    reveal(Seq::filter);
    if s.len() > 0 {
        what_stands_is_not_gone(s.drop_last());
    }
}

/// A registration opens the panel's place again, on the side that the plugin
/// wants it on if it wants one.
pub proof fn a_registration_opens_its_place(panel: DockPanel, side: DockSide)
    ensures
        registration_edits(panel, None) == seq![LayoutEdit::Unpark(panel)],
        registration_edits(panel, Some(side)) == seq![
            LayoutEdit::SetInitialSide(panel, side),
            LayoutEdit::Unpark(panel),
        ],
{
}

/// The panels that lost their widgets are those of the registrations that are
/// gone, each of them once.
pub proof fn lost_panels_are_told_once<C>(s: Seq<PluginPanel<C>>, panel: DockPanel)
    ensures
        gone_panels(s).contains(panel) <==> exists|i: int|
            0 <= i < s.len() && (#[trigger] s[i]).gone && s[i].panel == panel,
        gone_panels(s).no_duplicates(),
    decreases s.len(),
{
    if s.len() > 0 {
        let t = s.drop_last();
        let before = gone_panels(t);
        let all = gone_panels(s);
        lost_panels_are_told_once(t, panel);
        lost_panels_are_told_once(t, s.last().panel);
        assert(s[s.len() - 1] == s.last());
        if before.contains(panel) {
            let k = choose|k: int| 0 <= k < before.len() && before[k] == panel;
            assert(all[k] == panel);
            let i = choose|i: int|
                0 <= i < t.len() && (#[trigger] t[i]).gone && t[i].panel == panel;
            assert(s[i].gone && s[i].panel == panel);
        }
        if s.last().gone && s.last().panel == panel && !before.contains(panel) {
            assert(all[before.len() as int] == panel);
        }
        if all.contains(panel) && !before.contains(panel) {
            let k = choose|k: int| 0 <= k < all.len() && all[k] == panel;
            if k < before.len() {
                assert(before[k] == panel);
            }
        }
        if exists|i: int| 0 <= i < s.len() && (#[trigger] s[i]).gone && s[i].panel == panel {
            let i = choose|i: int|
                0 <= i < s.len() && (#[trigger] s[i]).gone && s[i].panel == panel;
            if i < t.len() {
                assert(t[i].gone && t[i].panel == panel);
            }
        }
    }
}

/// A panel is closed exactly if it lost its widget, is open, and no
/// registration that is not gone has taken it over; and panels close in the
/// order in which they lost their widgets.
pub proof fn a_lost_panel_is_closed<C>(
    gone: Seq<DockPanel>,
    live: Seq<PluginPanel<C>>,
    visible: Seq<DockPanel>,
    panel: DockPanel,
)
    ensures
        closing_edits(gone, live, visible).contains(LayoutEdit::Hide(panel)) <==> gone.contains(
            panel,
        ) && visible.contains(panel) && !exists|i: int|
            0 <= i < live.len() && !(#[trigger] live[i]).gone && live[i].panel == panel,
        closing_edits(gone.push(panel), live, visible) == closing_edits(gone, live, visible) + (
        if visible.contains(panel) && !exists|i: int|
            0 <= i < live.len() && !(#[trigger] live[i]).gone && live[i].panel == panel {
            seq![LayoutEdit::Hide(panel)]
        } else {
            seq![]
        }),
    decreases gone.len(),
{
    let edits = closing_edits(gone, live, visible);
    assert(panel_taken(live, panel) <==> exists|i: int|
        0 <= i < live.len() && !(#[trigger] live[i]).gone && live[i].panel == panel) by {
        if panel_taken(live, panel) {
            let k = choose|k: int|
                0 <= k < live.len() && (#[trigger] live[k]).live() && live[k].panel == panel;
            assert(!live[k].gone);
        }
        if exists|i: int| 0 <= i < live.len() && !(#[trigger] live[i]).gone && live[i].panel == panel {
            let k = choose|i: int|
                0 <= i < live.len() && !(#[trigger] live[i]).gone && live[i].panel == panel;
            assert(live[k].live());
        }
    }
    assert(gone.push(panel).drop_last() =~= gone);
    assert(closing_edits(gone.push(panel), live, visible) =~= edits + (if visible.contains(panel)
        && !panel_taken(live, panel) {
        seq![LayoutEdit::Hide(panel)]
    } else {
        seq![]
    }));
    if gone.len() > 0 {
        let t = gone.drop_last();
        let before = closing_edits(t, live, visible);
        a_lost_panel_is_closed(t, live, visible, panel);
        assert(gone[gone.len() - 1] == gone.last());
        if before.contains(LayoutEdit::Hide(panel)) {
            let k = choose|k: int| 0 <= k < before.len() && before[k] == LayoutEdit::Hide(panel);
            assert(edits[k] == LayoutEdit::Hide(panel));
        }
        if edits.contains(LayoutEdit::Hide(panel)) {
            let k = choose|k: int| 0 <= k < edits.len() && edits[k] == LayoutEdit::Hide(panel);
            if k < before.len() {
                assert(before[k] == LayoutEdit::Hide(panel));
                let j = choose|j: int| 0 <= j < t.len() && t[j] == panel;
                assert(gone[j] == panel);
            }
        }
        if gone.contains(panel) {
            let j = choose|j: int| 0 <= j < gone.len() && gone[j] == panel;
            if j < t.len() {
                assert(t[j] == panel);
            } else if visible.contains(panel) && !panel_taken(live, panel) {
                assert(edits[before.len() as int] == LayoutEdit::Hide(panel));
            }
        }
    }
}

/// A pass over the containers records each one for the registration it is
/// about, and changes nothing else of it; registrations that are gone stay as
/// they were.
pub proof fn a_pass_records_every_container<C>(
    s: Seq<PluginPanel<C>>,
    readings: Seq<Reading<C>>,
    i: int,
)
    requires
        0 <= i < s.len(),
    ensures
        after_recording(s, readings).len() == s.len(),
        s[i].gone ==> after_recording(s, readings)[i] == s[i],
        !s[i].gone ==> {
            let now = after_recording(s, readings)[i];
            &&& now.told == Some(readings[i].container)
            &&& now.panel == s[i].panel
            &&& now.handle == s[i].handle
            &&& now.tb_data == s[i].tb_data
            &&& now.name == s[i].name
            &&& now.module_name == s[i].module_name
            &&& now.caller == s[i].caller
            &&& now.token == s[i].token
            &&& !now.gone
        },
{
}

/// A plugin is told of its panel's container exactly if it was told of none or
/// of another one, and its registration is not gone; what it is told is the
/// code of the container that its panel is in, and it comes behind what the
/// plugins before it are told.
pub proof fn a_plugin_is_told_of_a_new_container<C>(
    s: Seq<PluginPanel<C>>,
    p: PluginPanel<C>,
    readings: Seq<Reading<C>>,
)
    requires
        readings.len() > s.len(),
    ensures
        notices_spec(Seq::<PluginPanel<C>>::empty(), readings).len() == 0,
        ({
            let before = notices_spec(s, readings);
            let after = notices_spec(s.push(p), readings);
            let reading = readings[s.len() as int];
            if !p.gone && (p.told is None || !reading.same_as_told) {
                &&& after.len() == before.len() + 1
                &&& after.drop_last() == before
                &&& after.last().panel == p.panel
                &&& after.last().handle == p.handle
                &&& after.last().caller == p.caller
                &&& after.last().code == reading.code
            } else {
                after == before
            }
        }),
{
    assert(s.push(p).drop_last() =~= s);
    assert(notices_spec(Seq::<PluginPanel<C>>::empty(), readings) =~= Seq::empty());
    let before = notices_spec(s, readings);
    let after = notices_spec(s.push(p), readings);
    if !p.gone && (p.told is None || !readings[s.len() as int].same_as_told) {
        assert(after.drop_last() =~= before);
    }
}

/// The first registration that is not gone and has a name is found by it: its
/// handle by its name, the panel itself when it is to be shown. One whose module
/// differs is passed over where a module is asked for.
pub proof fn a_panel_is_found_by_its_name<C: Copy>(
    reg: PanelRegistry<C>,
    name: &str,
    module: &str,
    k: int,
    any: Option<usize>,
    of_module: Option<usize>,
    edits: Option<Vec<LayoutEdit>>,
)
    requires
        0 <= k < reg.entries@.len(),
        !reg.entries@[k].gone,
        reg.entries@[k].name@ == name@,
        call_ensures(PanelRegistry::<C>::plugin_panel_handle, (&reg, name, None), any),
        call_ensures(PanelRegistry::<C>::plugin_panel_handle, (&reg, name, Some(module)), of_module),
    ensures
        (forall|j: int|
            0 <= j < k ==> (#[trigger] reg.entries@[j]).gone || reg.entries@[j].name@ != name@) ==> any
            == Some(reg.entries@[k].handle),
        reg.entries@[k].module_name@ == module@ && (forall|j: int|
            0 <= j < k ==> (#[trigger] reg.entries@[j]).gone || reg.entries@[j].name@ != name@
                || reg.entries@[j].module_name@ != module@) ==> of_module == Some(
            reg.entries@[k].handle,
        ),
        (forall|j: int|
            0 <= j < k ==> (#[trigger] reg.entries@[j]).gone || reg.entries@[j].name@ != name@)
            ==> forall|r: &mut PanelRegistry<C>| #[trigger]
            call_ensures(PanelRegistry::<C>::view_plugin_panel, (r, name), edits) && *r == reg
                ==> edits is Some && edits->0@ == seq![
                LayoutEdit::Show(reg.entries@[k].panel),
                LayoutEdit::Activate(reg.entries@[k].panel),
            ] && final(r).dirty,
{
    let s = reg@;
    assert(s[k].live());
    assert(named::<C>(name@, None)(s[k]));
    if forall|j: int| 0 <= j < k ==> (#[trigger] s[j]).gone || s[j].name@ != name@ {
        only_first(s, named::<C>(name@, None), k);
    }
    if s[k].module_name@ == module@ && (forall|j: int|
        0 <= j < k ==> (#[trigger] s[j]).gone || s[j].name@ != name@ || s[j].module_name@
            != module@) {
        assert(named::<C>(name@, Some(module@))(s[k]));
        only_first(s, named::<C>(name@, Some(module@)), k);
    }
}

proof fn only_first<C>(s: Seq<PluginPanel<C>>, pred: spec_fn(PluginPanel<C>) -> bool, k: int)
    requires
        0 <= k < s.len(),
        s[k].live(),
        pred(s[k]),
        forall|j: int| 0 <= j < k ==> !((#[trigger] s[j]).live() && pred(s[j])),
    ensures
        !none_is(s, pred),
        forall|i: int| #[trigger] is_first(s, pred, i) <==> i == k,
{
    assert forall|i: int| #[trigger] is_first(s, pred, i) implies i == k by {
        if i < k {
            assert(!(s[i].live() && pred(s[i])));
        } else if k < i {
            assert(!(s[k].live() && pred(s[k])));
        }
    }
}

/// The first registration that is not gone and has a handle is the one that the
/// handle addresses: it is shown and hidden by it, and gives its description. A
/// null handle addresses nothing, and neither does one that only registrations
/// have that are gone.
pub proof fn a_panel_is_addressed_by_its_handle<C: Copy>(
    reg: PanelRegistry<C>,
    handle: usize,
    k: int,
    tb_data: Option<usize>,
    shown: Option<Vec<LayoutEdit>>,
    hidden: Option<Vec<LayoutEdit>>,
)
    requires
        call_ensures(PanelRegistry::<C>::plugin_panel_tb_data, (&reg, handle), tb_data),
    ensures
        handle == 0 || (forall|j: int|
            0 <= j < reg.entries@.len() ==> (#[trigger] reg.entries@[j]).gone
                || reg.entries@[j].handle != handle) ==> tb_data is None,
        handle != 0 && 0 <= k < reg.entries@.len() && !reg.entries@[k].gone
            && reg.entries@[k].handle == handle && (forall|j: int|
            0 <= j < k ==> (#[trigger] reg.entries@[j]).gone || reg.entries@[j].handle != handle)
            ==> {
            &&& tb_data == Some(reg.entries@[k].tb_data)
            &&& forall|r: &mut PanelRegistry<C>| #[trigger]
                call_ensures(PanelRegistry::<C>::show_plugin_panel, (r, handle), shown) && *r == reg
                    ==> shown is Some && shown->0@ == seq![
                    LayoutEdit::Show(reg.entries@[k].panel),
                    LayoutEdit::Activate(reg.entries@[k].panel),
                ] && final(r).dirty
            &&& forall|r: &mut PanelRegistry<C>| #[trigger]
                call_ensures(PanelRegistry::<C>::hide_plugin_panel, (r, handle), hidden) && *r == reg
                    ==> hidden is Some && hidden->0@ == seq![
                    LayoutEdit::Hide(reg.entries@[k].panel),
                ] && final(r).dirty
        },
{
    let s = reg@;
    if handle != 0 && 0 <= k < s.len() && !s[k].gone && s[k].handle == handle && (forall|j: int|
        0 <= j < k ==> (#[trigger] s[j]).gone || s[j].handle != handle) {
        assert(s[k].live());
        assert(addressed::<C>(handle)(s[k]));
        only_first(s, addressed::<C>(handle), k);
    }
    if handle == 0 || (forall|j: int|
        0 <= j < s.len() ==> (#[trigger] s[j]).gone || s[j].handle != handle) {
        assert(none_is(s, addressed::<C>(handle)));
        if tb_data is Some {
            let i = choose|i: int| #[trigger]
                is_first(s, addressed::<C>(handle), i) && tb_data->0 == s[i].tb_data;
            assert(!(s[i].live() && addressed::<C>(handle)(s[i])));
        }
    }
}

/// The plugin to tell about a panel is the one whose registration for it is not
/// gone; without one there is nobody to tell.
pub proof fn the_right_plugin_is_told<C: Copy>(
    reg: PanelRegistry<C>,
    panel: DockPanel,
    k: int,
    target: Option<(usize, Option<usize>)>,
    registered: bool,
    live: bool,
)
    requires
        call_ensures(PanelRegistry::<C>::plugin_panel_notify_target, (&reg, panel), target),
        call_ensures(PanelRegistry::<C>::is_plugin_panel_registered, (&reg, panel), registered),
    ensures
        target is Some <==> registered,
        registered <==> exists|i: int|
            0 <= i < reg.entries@.len() && !(#[trigger] reg.entries@[i]).gone
                && reg.entries@[i].panel == panel,
        0 <= k < reg.entries@.len() && !reg.entries@[k].gone && reg.entries@[k].panel == panel && (
        forall|j: int|
            0 <= j < k ==> (#[trigger] reg.entries@[j]).gone || reg.entries@[j].panel != panel)
            ==> target == Some((reg.entries@[k].handle, reg.entries@[k].caller)),
{
    let s = reg@;
    if panel_taken(s, panel) {
        let i = choose|i: int| 0 <= i < s.len() && (#[trigger] s[i]).live() && s[i].panel == panel;
        assert(!reg.entries@[i].gone);
    }
    if exists|i: int|
        0 <= i < reg.entries@.len() && !(#[trigger] reg.entries@[i]).gone && reg.entries@[i].panel
            == panel {
        let i = choose|i: int|
            0 <= i < reg.entries@.len() && !(#[trigger] reg.entries@[i]).gone
                && reg.entries@[i].panel == panel;
        assert(s[i].live());
    }
    if let Some((handle, caller)) = target {
        let i = choose|i: int| #[trigger]
            is_first(s, of_panel::<C>(panel), i) && handle == s[i].handle && caller == s[i].caller;
        assert(s[i].live() && s[i].panel == panel);
    }
    if 0 <= k < s.len() && !s[k].gone && s[k].panel == panel && (forall|j: int|
        0 <= j < k ==> (#[trigger] s[j]).gone || s[j].panel != panel) {
        assert(s[k].live());
        assert(of_panel::<C>(panel)(s[k]));
        only_first(s, of_panel::<C>(panel), k);
    }
}

/// A registration that is accepted comes last, as it was asked for, under a
/// token of its own, and its plugin has been told nothing; one that is refused
/// changes nothing.
pub proof fn a_registration_is_kept_as_asked<C: Copy>(
    spec: PluginPanelSpec,
    cap: usize,
    r: Result<(u64, Vec<LayoutEdit>), Refusal>,
)
    ensures
        forall|reg: &mut PanelRegistry<C>| #[trigger]
            call_ensures(PanelRegistry::<C>::register, (reg, spec, cap), r) ==> {
                &&& r is Err ==> *final(reg) == *reg
                &&& r is Ok ==> {
                    let last = final(reg).entries@.last();
                    &&& final(reg).entries@.len() == reg.entries@.len() + 1
                    &&& final(reg).entries@.drop_last() == reg.entries@
                    &&& last.panel == spec.panel
                    &&& last.handle == spec.handle
                    &&& last.tb_data == spec.tb_data
                    &&& last.name == spec.name
                    &&& last.module_name == spec.module_name
                    &&& last.caller == spec.caller
                    &&& last.told is None
                    &&& !last.gone
                    &&& last.token == reg.next_token
                    &&& final(reg).next_token == reg.next_token + 1
                    &&& final(reg).dirty
                }
            },
{
    assert forall|reg: &mut PanelRegistry<C>| #[trigger]
        call_ensures(PanelRegistry::<C>::register, (reg, spec, cap), r) && r is Ok implies final(
        reg).entries@.drop_last() == reg.entries@ by {
        assert(final(reg).entries@.drop_last() =~= reg.entries@);
    }
}

/// A destroyed widget's registration is gone from then on, it alone, and found
/// by its token; a rename changes the names of the registration under its handle
/// and nothing else; and a mark that was taken is not there any more.
pub proof fn a_registration_changes_alone<C: Copy>(
    token: u64,
    handle: usize,
    name: String,
    module_name: String,
    i: int,
    found: bool,
    was: bool,
)
    ensures
        forall|reg: &mut PanelRegistry<C>| #[trigger]
            call_ensures(PanelRegistry::<C>::mark_gone, (reg, token), found) && 0 <= i
                < reg.entries@.len() ==> {
                let before = reg.entries@[i];
                let after = final(reg).entries@[i];
                &&& before.token == token ==> found && after.gone
                &&& before.token != token ==> after == before
                &&& after.panel == before.panel && after.handle == before.handle && after.name
                    == before.name && after.told == before.told
            },
        forall|reg: &mut PanelRegistry<C>| #[trigger]
            call_ensures(
                PanelRegistry::<C>::rename_plugin_panel,
                (reg, handle, name, module_name),
                (),
            ) && 0 <= i < reg.entries@.len() ==> {
                let before = reg.entries@[i];
                let after = final(reg).entries@[i];
                &&& !before.gone && before.handle == handle ==> after.name == name
                    && after.module_name == module_name && after.panel == before.panel
                    && after.handle == before.handle && after.told == before.told && after.gone
                    == before.gone
                &&& before.gone || before.handle != handle ==> after == before
            },
        forall|reg: &mut PanelRegistry<C>| #[trigger]
            call_ensures(PanelRegistry::<C>::take_dirty, (reg,), was) ==> was == reg.dirty && !final(
                reg).dirty && final(reg).entries@ == reg.entries@,
{
    assert forall|reg: &mut PanelRegistry<C>| #[trigger]
        call_ensures(PanelRegistry::<C>::mark_gone, (reg, token), found) && 0 <= i
            < reg.entries@.len() implies {
        let before = reg.entries@[i];
        let after = final(reg).entries@[i];
        &&& before.token == token ==> found && after.gone
        &&& before.token != token ==> after == before
        &&& after.panel == before.panel && after.handle == before.handle && after.name
            == before.name && after.told == before.told
    } by {
        let after = final(reg)@[i];
        assert(after == final(reg).entries@[i]);
    }
    assert forall|reg: &mut PanelRegistry<C>| #[trigger]
        call_ensures(
            PanelRegistry::<C>::rename_plugin_panel,
            (reg, handle, name, module_name),
            (),
        ) && 0 <= i < reg.entries@.len() implies {
        let before = reg.entries@[i];
        let after = final(reg).entries@[i];
        &&& !before.gone && before.handle == handle ==> after.name == name && after.module_name
            == module_name && after.panel == before.panel && after.handle == before.handle
            && after.told == before.told && after.gone == before.gone
        &&& before.gone || before.handle != handle ==> after == before
    } by {
        let after = final(reg)@[i];
        assert(after == final(reg).entries@[i]);
    }
}

/// Each refusal is told in words of its own.
pub proof fn a_refusal_is_told_in_its_words()
    ensures
        Refusal::WidgetRegistered.text() == "that widget is already registered"@,
        Refusal::PanelRegistered.text() == "that panel is already registered"@,
        Refusal::CapReached.text() == "the plugin panel cap is reached"@,
        Refusal::Busy.text() == "the dock is busy (a re-entrant registration)"@,
{
}

} // verus!
