//! What stands between plugins and the editor: where their messages go, which
//! widgets they may hand over, what they are told, and their keys.
//!
//! Handles are addresses. The library compares them and never follows one.
use vstd::prelude::*;
use crate::delivery::{DeliveryQueue, Latch};
use crate::dock_panels::{DockNotice, PanelRegistry, PluginPanel};
use crate::text::{decimal, push_decimal};

verus! {

/// Where a plugin's message goes.
#[derive(Copy, Clone, PartialEq, Eq, Structural, Debug)]
pub enum MessageRoute {
    /// To the host.
    Host,
    /// To the editor, on the spot.
    Editor,
    /// To the editor, by way of the thread that owns it.
    EditorOnMain,
    /// Nowhere; the answer is zero.
    Refused,
}

/// A handle is the editor's: there is one, and it is this.
pub open spec fn is_editor(handle: usize, editor: usize) -> bool {
    editor != 0 && handle == editor
}

/// Where a message goes, by the handle it is sent to alone: the messages for
/// the host and those for the editor share their numbers.
pub open spec fn route_of(handle: usize, host: usize, editor: usize, on_main: bool) -> MessageRoute {
    if handle == host {
        MessageRoute::Host
    } else if is_editor(handle, editor) {
        if on_main {
            MessageRoute::Editor
        } else {
            MessageRoute::EditorOnMain
        }
    } else {
        MessageRoute::Refused
    }
}

/// Decide where a plugin's message goes. `editor` is zero as long as there is
/// no editor.
pub fn plugin_dispatch(handle: usize, host: usize, editor: usize, on_main: bool) -> (r: MessageRoute)
    ensures
        r == route_of(handle, host, editor, on_main),
{
    if handle == host {
        MessageRoute::Host
    } else if is_valid_scintilla(handle, editor) {
        if on_main {
            MessageRoute::Editor
        } else {
            MessageRoute::EditorOnMain
        }
    } else {
        MessageRoute::Refused
    }
}

/// Whether a handle is the editor's.
pub fn is_valid_scintilla(handle: usize, editor: usize) -> (r: bool)
    ensures
        r == is_editor(handle, editor),
{
    editor != 0 && handle == editor
}

/// No message reaches the editor but under the editor's own handle, and none
/// reaches it directly but on the thread that owns it.
pub proof fn only_the_editor_is_reached(handle: usize, host: usize, editor: usize, on_main: bool)
    ensures
        route_of(handle, host, editor, on_main) is Editor ==> handle == editor && handle != 0
            && on_main,
        route_of(handle, host, editor, on_main) is EditorOnMain ==> handle == editor && handle != 0
            && !on_main,
        handle != host && handle != editor ==> route_of(handle, host, editor, on_main) is Refused,
{
}

/// What the host saw before it answered a message.
pub struct DispatchBefore {
    pub active: Option<usize>,
    /// The active document is modified.
    pub modified: bool,
    /// The marks of the tabs.
    pub dirty: Vec<bool>,
}

/// What it saw after.
pub struct DispatchAfter {
    pub active: Option<usize>,
    pub modified: bool,
    pub dirty: Vec<bool>,
    /// For each tab, whether its file is still being read.
    pub loading: Vec<bool>,
    /// A plugin's panel was registered, shown, hidden or brought to front.
    pub dock_changed: bool,
}

/// Something to do after a message was answered.
#[derive(Copy, Clone, PartialEq, Eq, Structural, Debug)]
pub enum DispatchStep {
    /// Bind the view to the active tab.
    Rebind,
    /// Bring the tabs' marks up to date.
    RefreshChrome,
    /// Bring the panels up to date.
    ApplyLayout,
    /// Show the dialogs that the message asked for.
    PresentDialogs,
}

/// A tab's mark differs from what stood at its place before; a tab at a new
/// place counts.
pub open spec fn marks_moved(before: Seq<bool>, after: Seq<bool>) -> bool {
    exists|i: int| 0 <= i < after.len() && !#[trigger] same_mark(before, after, i)
}

/// The mark at a place is what it was.
pub open spec fn same_mark(before: Seq<bool>, after: Seq<bool>, i: int) -> bool {
    i < before.len() && before[i] == after[i]
}

/// The active tab is there, with its file read.
pub open spec fn active_is_loaded(after: DispatchAfter) -> bool {
    match after.active {
        Some(i) => i < after.loading@.len() && !after.loading@[i as int],
        None => false,
    }
}

fn marks_differ(before: &Vec<bool>, after: &Vec<bool>) -> (r: bool)
    ensures
        r == marks_moved(before@, after@),
{
    let mut i: usize = 0;
    while i < after.len()
        invariant
            i <= after@.len(),
            forall|j: int| 0 <= j < i ==> #[trigger] same_mark(before@, after@, j),
        decreases after.len() - i,
    {
        if !(i < before.len() && before[i] == after[i]) {
            assert(!same_mark(before@, after@, i as int));
            return true;
        }
        i += 1;
    }
    false
}

/// One step, if it is called for.
pub open spec fn step_if(called_for: bool, step: DispatchStep) -> Seq<DispatchStep> {
    if called_for {
        seq![step]
    } else {
        Seq::empty()
    }
}

/// What follows a message, in order. The view is bound anew if another tab
/// became active, unless its file is still being read: it is bound when that is
/// done. Dialogs come last, before the message returns to the plugin.
pub open spec fn follow_up(before: DispatchBefore, after: DispatchAfter) -> Seq<DispatchStep> {
    step_if(after.active != before.active && active_is_loaded(after), DispatchStep::Rebind)
        + step_if(
        before.modified != after.modified || marks_moved(before.dirty@, after.dirty@),
        DispatchStep::RefreshChrome,
    ) + step_if(after.dock_changed, DispatchStep::ApplyLayout) + seq![DispatchStep::PresentDialogs]
}

/// Work out what has to be done after a message was answered.
pub fn dispatch_follow_up(before: &DispatchBefore, after: &DispatchAfter) -> (r: Vec<DispatchStep>)
    ensures
        r@ == follow_up(*before, *after),
{
    let moved: bool = match (before.active, after.active) {
        (Some(a), Some(b)) => a != b,
        (None, None) => false,
        _ => true,
    };
    let loaded: bool = match after.active {
        Some(i) => i < after.loading.len() && !after.loading[i],
        None => false,
    };
    let mut steps: Vec<DispatchStep> = Vec::new();
    if moved && loaded {
        steps.push(DispatchStep::Rebind);
    }
    if before.modified != after.modified || marks_differ(&before.dirty, &after.dirty) {
        steps.push(DispatchStep::RefreshChrome);
    }
    if after.dock_changed {
        steps.push(DispatchStep::ApplyLayout);
    }
    steps.push(DispatchStep::PresentDialogs);
    assert(steps@ =~= follow_up(*before, *after));
    steps
}

/// Why a widget is refused that a plugin wants to see as a panel.
#[derive(Copy, Clone, PartialEq, Eq, Structural, Debug)]
pub enum HandleRefusal {
    Null,
    HostHandle,
    HostEditor,
    NotAWidget,
    Toplevel,
    HasParent,
}

/// What is logged for a refusal.
pub open spec fn refusal_text(why: HandleRefusal) -> Seq<char> {
    match why {
        HandleRefusal::Null => "hClient is null"@,
        HandleRefusal::HostHandle => "hClient is the npp handle, not a widget"@,
        HandleRefusal::HostEditor => "hClient is the host's own Scintilla view"@,
        HandleRefusal::NotAWidget => "hClient is not a GtkWidget"@,
        HandleRefusal::Toplevel => "hClient is a toplevel window"@,
        HandleRefusal::HasParent =>
            "hClient is already inside a container — register a free-standing widget"@,
    }
}

impl HandleRefusal {
    /// What is logged for a refusal.
    pub fn message(self) -> (r: &'static str)
        ensures
            r@ == refusal_text(self),
    {
        match self {
            HandleRefusal::Null => "hClient is null",
            HandleRefusal::HostHandle => "hClient is the npp handle, not a widget",
            HandleRefusal::HostEditor => "hClient is the host's own Scintilla view",
            HandleRefusal::NotAWidget => "hClient is not a GtkWidget",
            HandleRefusal::Toplevel => "hClient is a toplevel window",
            HandleRefusal::HasParent =>
                "hClient is already inside a container — register a free-standing widget",
        }
    }
}

/// Refuse the handles that can be told without following them.
pub fn refuse_host_handle(handle: usize, host: usize, editor: usize) -> (r: Result<
    (),
    HandleRefusal,
>)
    ensures
        r == if handle == 0 {
            Err(HandleRefusal::Null)
        } else if handle == host {
            Err(HandleRefusal::HostHandle)
        } else if is_editor(handle, editor) {
            Err(HandleRefusal::HostEditor)
        } else {
            Ok(())
        },
{
    if handle == 0 {
        return Err(HandleRefusal::Null);
    }
    if handle == host {
        return Err(HandleRefusal::HostHandle);
    }
    if is_valid_scintilla(handle, editor) {
        return Err(HandleRefusal::HostEditor);
    }
    Ok(())
}

/// What a look at a handle shows that passed [`refuse_host_handle`].
#[derive(Copy, Clone, PartialEq, Eq, Structural, Debug)]
pub struct WidgetReading {
    pub is_widget: bool,
    pub is_toplevel: bool,
    pub has_parent: bool,
}

/// Refuse what is no widget, or is a window, or stands in a container already.
pub fn refuse_widget(w: WidgetReading) -> (r: Result<(), HandleRefusal>)
    ensures
        r == if !w.is_widget {
            Err(HandleRefusal::NotAWidget)
        } else if w.is_toplevel {
            Err(HandleRefusal::Toplevel)
        } else if w.has_parent {
            Err(HandleRefusal::HasParent)
        } else {
            Ok(())
        },
{
    if !w.is_widget {
        Err(HandleRefusal::NotAWidget)
    } else if w.is_toplevel {
        Err(HandleRefusal::Toplevel)
    } else if w.has_parent {
        Err(HandleRefusal::HasParent)
    } else {
        Ok(())
    }
}

/// Whether a plugin's icon is looked at: it says that it has one, and there
/// is something where it says. `icon_flag` is the bit that says so.
pub fn looks_at_icon(mask: u32, icon_flag: u32, icon: usize) -> (r: bool)
    ensures
        r == (mask & icon_flag != 0 && icon != 0),
{
    mask & icon_flag != 0 && icon != 0
}

/// Begin closing a plugin's panel; it is hidden in the end in any case. The
/// plugin is told before that, if one has registered it, unless a plugin is
/// being told of a close already: a plugin that closes its panel when told
/// would otherwise be told without end. Returns the handle and the registrant
/// to tell; the latch is then set until [`Latch::release`].
pub fn close_plugin_panel(target: Option<(usize, Option<usize>)>, telling: &mut Latch) -> (tell:
    Option<(usize, Option<usize>)>)
    ensures
        tell == if old(telling).is_set() {
            None
        } else {
            target
        },
        final(telling).is_set() == (old(telling).is_set() || target is Some),
{
    match target {
        Some(t) => if telling.try_set() {
            Some(t)
        } else {
            None
        },
        None => None,
    }
}

/// A registration stands for a notice's panel under its handle.
pub open spec fn notice_is_live<C>(entries: Seq<PluginPanel<C>>, n: DockNotice) -> bool {
    exists|i: int|
        0 <= i < entries.len() && (#[trigger] entries[i]).live() && entries[i].panel == n.panel
            && entries[i].handle == n.handle
}

/// How many notices stand at the head of a queue whose widgets are gone, while
/// these panels are registered.
pub open spec fn gone_before<C>(waiting: Seq<DockNotice>, entries: Seq<PluginPanel<C>>) -> nat
    decreases waiting.len(),
{
    if waiting.len() > 0 && !notice_is_live(entries, waiting[0]) {
        1 + gone_before(waiting.skip(1), entries)
    } else {
        0
    }
}

/// What is left of a queue when its next notice has been taken: what stands
/// behind the first whose widget still is there.
pub open spec fn left_waiting<C>(
    waiting: Seq<DockNotice>,
    entries: Seq<PluginPanel<C>>,
) -> Seq<DockNotice> {
    let gone = gone_before(waiting, entries);
    if gone < waiting.len() {
        waiting.skip(gone as int + 1)
    } else {
        Seq::empty()
    }
}

/// The notice taken from a queue: the first whose widget still is there.
pub open spec fn notice_taken<C>(
    waiting: Seq<DockNotice>,
    entries: Seq<PluginPanel<C>>,
) -> Option<DockNotice> {
    let gone = gone_before(waiting, entries);
    if gone < waiting.len() {
        Some(waiting[gone as int])
    } else {
        None
    }
}

/// The next notice to send: the first that waits and whose widget still is
/// there. Those before it are dropped; their plugins have destroyed what they
/// were about. `None` ends the delivery.
pub fn next_dock_notice<C: Copy>(
    queue: &mut DeliveryQueue<DockNotice>,
    registry: &PanelRegistry<C>,
) -> (r: Option<DockNotice>)
    ensures
        r == notice_taken(old(queue).waiting(), registry@),
        final(queue).waiting() == left_waiting(old(queue).waiting(), registry@),
        final(queue).delivering() == (old(queue).delivering() && r is Some),
{
    let ghost all = queue.waiting();
    let ghost mut dropped: nat = 0;
    assert(all.skip(0) =~= all);
    loop
        invariant
            0 <= dropped <= all.len(),
            all == old(queue).waiting(),
            queue.waiting() == all.skip(dropped as int),
            queue.delivering() == old(queue).delivering(),
            gone_before(all, registry@) == dropped + gone_before(
                all.skip(dropped as int),
                registry@,
            ),
        decreases all.len() - dropped,
    {
        match queue.next() {
            None => {
                return None;
            },
            Some(notice) => {
                assert(notice == all[dropped as int]);
                assert(all.skip(dropped as int).skip(1) =~= all.skip(dropped as int + 1));
                if registry.plugin_panel_is_live(notice.panel, notice.handle) {
                    return Some(notice);
                }
                proof {
                    dropped = dropped + 1;
                }
            },
        }
    }
}

/// What happens to the queue of notices.
pub enum NoticeEvent<C> {
    /// Notices are handed in to be delivered.
    HandIn(Seq<DockNotice>),
    /// The next one is asked for, while these panels are registered.
    Ask(Seq<PluginPanel<C>>),
}

/// The queue of notices: those that wait, and whether a delivery is under way.
pub struct NoticeQueue {
    pub waiting: Seq<DockNotice>,
    pub delivering: bool,
}

/// The queue after an event.
pub open spec fn queue_after<C>(q: NoticeQueue, e: NoticeEvent<C>) -> NoticeQueue {
    match e {
        NoticeEvent::HandIn(items) => NoticeQueue { waiting: q.waiting + items, delivering: true },
        NoticeEvent::Ask(entries) => NoticeQueue {
            waiting: left_waiting(q.waiting, entries),
            delivering: q.delivering && notice_taken(q.waiting, entries) is Some,
        },
    }
}

/// The queue after a row of events.
pub open spec fn queue_after_all<C>(q: NoticeQueue, events: Seq<NoticeEvent<C>>) -> NoticeQueue
    decreases events.len(),
{
    if events.len() == 0 {
        q
    } else {
        queue_after(queue_after_all(q, events.drop_last()), events.last())
    }
}

/// The notices that were handed in, in the order in which they were.
pub open spec fn handed_in<C>(events: Seq<NoticeEvent<C>>) -> Seq<DockNotice>
    decreases events.len(),
{
    if events.len() == 0 {
        Seq::empty()
    } else {
        match events.last() {
            NoticeEvent::HandIn(items) => handed_in(events.drop_last()) + items,
            NoticeEvent::Ask(_) => handed_in(events.drop_last()),
        }
    }
}

/// The notices that were sent, in the order in which they were.
pub open spec fn sent_in<C>(q: NoticeQueue, events: Seq<NoticeEvent<C>>) -> Seq<DockNotice>
    decreases events.len(),
{
    if events.len() == 0 {
        Seq::empty()
    } else {
        let before = sent_in(q, events.drop_last());
        match events.last() {
            NoticeEvent::HandIn(_) => before,
            NoticeEvent::Ask(entries) => match notice_taken(
                queue_after_all(q, events.drop_last()).waiting,
                entries,
            ) {
                Some(notice) => before.push(notice),
                None => before,
            },
        }
    }
}

/// A notice whose turn has come, and the panels that were registered then.
pub struct Turn<C> {
    pub notice: DockNotice,
    pub entries: Seq<PluginPanel<C>>,
}

/// The notices at the head of a queue whose turn comes when the next is asked
/// for: those whose widgets are gone, and the one behind them.
pub open spec fn turns_now<C>(
    waiting: Seq<DockNotice>,
    entries: Seq<PluginPanel<C>>,
) -> Seq<Turn<C>> {
    let gone = gone_before(waiting, entries);
    let reached = if gone < waiting.len() {
        gone + 1
    } else {
        waiting.len()
    };
    Seq::new(reached, |i: int| Turn { notice: waiting[i], entries })
}

/// The notices whose turn came in a row of events, in the order in which it
/// did.
pub open spec fn turns_in<C>(q: NoticeQueue, events: Seq<NoticeEvent<C>>) -> Seq<Turn<C>>
    decreases events.len(),
{
    if events.len() == 0 {
        Seq::empty()
    } else {
        let before = turns_in(q, events.drop_last());
        match events.last() {
            NoticeEvent::HandIn(_) => before,
            NoticeEvent::Ask(entries) => before + turns_now(
                queue_after_all(q, events.drop_last()).waiting,
                entries,
            ),
        }
    }
}

/// The notices of a row of turns.
pub open spec fn notices_of<C>(turns: Seq<Turn<C>>) -> Seq<DockNotice> {
    turns.map_values(|t: Turn<C>| t.notice)
}

/// The notices of those turns at which the widget still was there.
pub open spec fn live_notices<C>(turns: Seq<Turn<C>>) -> Seq<DockNotice> {
    notices_of(turns.filter(|t: Turn<C>| notice_is_live(t.entries, t.notice)))
}

/// A delivery has ended: the next notice was asked for and there was none.
pub open spec fn delivery_ended<C>(q: NoticeQueue, events: Seq<NoticeEvent<C>>) -> bool {
    events.len() > 0 && (events.last() matches NoticeEvent::Ask(entries) && notice_taken(
        queue_after_all(q, events.drop_last()).waiting,
        entries,
    ) is None)
}

proof fn gone_are_gone<C>(waiting: Seq<DockNotice>, entries: Seq<PluginPanel<C>>)
    ensures
        gone_before(waiting, entries) <= waiting.len(),
        forall|i: int|
            0 <= i < gone_before(waiting, entries) ==> !notice_is_live(
                entries,
                #[trigger] waiting[i],
            ),
        gone_before(waiting, entries) < waiting.len() ==> notice_is_live(
            entries,
            waiting[gone_before(waiting, entries) as int],
        ),
    decreases waiting.len(),
{
    if waiting.len() > 0 && !notice_is_live(entries, waiting[0]) {
        let rest = waiting.skip(1);
        gone_are_gone(rest, entries);
        assert forall|i: int| 0 <= i < gone_before(waiting, entries) implies !notice_is_live(
            entries,
            #[trigger] waiting[i],
        ) by {
            if i > 0 {
                assert(waiting[i] == rest[i - 1]);
            }
        }
    }
}

proof fn none_live<C>(turns: Seq<Turn<C>>)
    requires
        forall|i: int|
            0 <= i < turns.len() ==> !notice_is_live(
                (#[trigger] turns[i]).entries,
                turns[i].notice,
            ),
    ensures
        live_notices(turns) == Seq::<DockNotice>::empty(),
    decreases turns.len(),
{
    reveal(Seq::filter);
    if turns.len() > 0 {
        none_live(turns.drop_last());
        assert(!notice_is_live(turns[turns.len() - 1].entries, turns[turns.len() - 1].notice));
    }
    assert(live_notices(turns) =~= Seq::<DockNotice>::empty());
}

proof fn one_turn_at_a_time<C>(waiting: Seq<DockNotice>, entries: Seq<PluginPanel<C>>)
    ensures
        notices_of(turns_now(waiting, entries)) + left_waiting(waiting, entries) == waiting,
        live_notices(turns_now(waiting, entries)) == match notice_taken(waiting, entries) {
            Some(notice) => seq![notice],
            None => Seq::empty(),
        },
{
    gone_are_gone(waiting, entries);
    let turns = turns_now(waiting, entries);
    let gone = gone_before(waiting, entries);
    assert(notices_of(turns) + left_waiting(waiting, entries) =~= waiting);
    if gone < waiting.len() {
        reveal(Seq::filter);
        none_live(turns.drop_last());
        assert(live_notices(turns) =~= live_notices(turns.drop_last()).push(waiting[gone as int]));
        assert(live_notices(turns) =~= seq![waiting[gone as int]]);
    } else {
        none_live(turns);
    }
}

/// Each notice that waited or was handed in has its turn once, in the order in
/// which it came, or still waits; and what is sent are the notices whose widget
/// was there when their turn came, in that order and nothing else.
pub proof fn each_notice_has_its_turn<C>(q: NoticeQueue, events: Seq<NoticeEvent<C>>)
    ensures
        notices_of(turns_in(q, events)) + queue_after_all(q, events).waiting == q.waiting
            + handed_in(events),
        sent_in(q, events) == live_notices(turns_in(q, events)),
    decreases events.len(),
{
    if events.len() == 0 {
        reveal(Seq::filter);
        assert(notices_of(turns_in(q, events)) + q.waiting =~= q.waiting + handed_in(events));
        assert(sent_in(q, events) =~= live_notices(turns_in(q, events)));
    } else {
        let before = events.drop_last();
        let waiting = queue_after_all(q, before).waiting;
        let turns = turns_in(q, before);
        each_notice_has_its_turn(q, before);
        match events.last() {
            NoticeEvent::HandIn(items) => {
                assert(notices_of(turns) + (waiting + items) =~= (notices_of(turns) + waiting)
                    + items);
                assert(q.waiting + handed_in(events) =~= (q.waiting + handed_in(before)) + items);
            },
            NoticeEvent::Ask(entries) => {
                let now = turns_now(waiting, entries);
                let live = |t: Turn<C>| notice_is_live(t.entries, t.notice);
                one_turn_at_a_time(waiting, entries);
                Seq::filter_distributes_over_add(turns, now, live);
                assert(notices_of(turns + now) =~= notices_of(turns) + notices_of(now));
                assert(live_notices(turns + now) =~= live_notices(turns) + live_notices(now));
                assert(notices_of(turns + now) + left_waiting(waiting, entries)
                    =~= notices_of(turns) + (notices_of(now) + left_waiting(waiting, entries)));
                assert(sent_in(q, events) =~= sent_in(q, before) + live_notices(now));
            },
        }
    }
}

/// A whole delivery, notices handed in on the way with it, leaves none waiting.
/// Every notice had its turn once and in order, and all were sent but those
/// whose registration was gone when their turn came.
pub proof fn a_delivery_is_complete<C>(q: NoticeQueue, events: Seq<NoticeEvent<C>>)
    requires
        delivery_ended(q, events),
    ensures
        queue_after_all(q, events).waiting == Seq::<DockNotice>::empty(),
        !queue_after_all(q, events).delivering,
        notices_of(turns_in(q, events)) == q.waiting + handed_in(events),
        sent_in(q, events) == live_notices(turns_in(q, events)),
{
    each_notice_has_its_turn(q, events);
    assert(notices_of(turns_in(q, events)) + Seq::<DockNotice>::empty() =~= notices_of(
        turns_in(q, events),
    ));
}

/// Deliveries do not nest: from the moment a delivery is under way until it has
/// ended, it stays under way, so what is handed in meanwhile is not for its
/// giver to deliver.
pub proof fn deliveries_do_not_nest<C>(q: NoticeQueue, events: Seq<NoticeEvent<C>>)
    requires
        q.delivering,
        forall|n: int| 0 < n <= events.len() ==> !delivery_ended(q, #[trigger] events.take(n)),
    ensures
        queue_after_all(q, events).delivering,
    decreases events.len(),
{
    if events.len() > 0 {
        let before = events.drop_last();
        assert forall|n: int| 0 < n <= before.len() implies !delivery_ended(
            q,
            #[trigger] before.take(n),
        ) by {
            assert(before.take(n) =~= events.take(n));
        }
        deliveries_do_not_nest(q, before);
        assert(events.take(events.len() as int) =~= events);
    }
}

/// A key that means the same on every keyboard.
#[derive(Copy, Clone, PartialEq, Eq, Structural, Debug)]
pub enum PortableKey {
    /// A letter, in lower case.
    Letter(u8),
    Digit(u8),
    Function(u8),
    Space,
    Insert,
    Delete,
    Home,
    End,
    PageUp,
    PageDown,
    Left,
    Right,
    Up,
    Down,
}

/// How a key is found.
pub enum GdkKey {
    /// By its value, which is the character.
    Value(u32),
    /// By its name.
    Name(String),
}

/// [`GdkKey`] as a value.
pub enum GdkKeyView {
    Value(u32),
    Name(Seq<char>),
}

impl GdkKey {
    pub open spec fn view(&self) -> GdkKeyView {
        match *self {
            GdkKey::Value(v) => GdkKeyView::Value(v),
            GdkKey::Name(n) => GdkKeyView::Name(n@),
        }
    }
}

/// How a key is found.
pub open spec fn gdk_key_of(key: PortableKey) -> GdkKeyView {
    match key {
        PortableKey::Letter(c) => GdkKeyView::Value(c as u32),
        PortableKey::Digit(c) => GdkKeyView::Value(c as u32),
        PortableKey::Function(n) => GdkKeyView::Name("F"@ + decimal(n as nat)),
        PortableKey::Space => GdkKeyView::Name("space"@),
        PortableKey::Insert => GdkKeyView::Name("Insert"@),
        PortableKey::Delete => GdkKeyView::Name("Delete"@),
        PortableKey::Home => GdkKeyView::Name("Home"@),
        PortableKey::End => GdkKeyView::Name("End"@),
        PortableKey::PageUp => GdkKeyView::Name("Page_Up"@),
        PortableKey::PageDown => GdkKeyView::Name("Page_Down"@),
        PortableKey::Left => GdkKeyView::Name("Left"@),
        PortableKey::Right => GdkKeyView::Name("Right"@),
        PortableKey::Up => GdkKeyView::Name("Up"@),
        PortableKey::Down => GdkKeyView::Name("Down"@),
    }
}

/// Work out how a key is found.
pub fn portable_key_to_gdk(key: PortableKey) -> (r: GdkKey)
    ensures
        r@ == gdk_key_of(key),
{
    let name: &'static str = match key {
        PortableKey::Letter(c) => {
            return GdkKey::Value(c as u32);
        },
        PortableKey::Digit(c) => {
            return GdkKey::Value(c as u32);
        },
        PortableKey::Function(n) => {
            let mut name: String = String::from_str("F");
            push_decimal(&mut name, n as u64);
            return GdkKey::Name(name);
        },
        PortableKey::Space => "space",
        PortableKey::Insert => "Insert",
        PortableKey::Delete => "Delete",
        PortableKey::Home => "Home",
        PortableKey::End => "End",
        PortableKey::PageUp => "Page_Up",
        PortableKey::PageDown => "Page_Down",
        PortableKey::Left => "Left",
        PortableKey::Right => "Right",
        PortableKey::Up => "Up",
        PortableKey::Down => "Down",
    };
    GdkKey::Name(String::from_str(name))
}

/// The bits of the modifier keys.
pub const SHIFT_MASK: u32 = 1;

pub const CONTROL_MASK: u32 = 4;

pub const MOD1_MASK: u32 = 8;

/// The value of a key whose name is not known.
pub const VOID_SYMBOL: u32 = 0xFF_FFFF;

/// The bits of the modifiers that are held down.
pub open spec fn modifier_bits(ctrl: bool, alt: bool, shift: bool) -> int {
    (if ctrl {
        CONTROL_MASK as int
    } else {
        0
    }) + (if alt {
        MOD1_MASK as int
    } else {
        0
    }) + (if shift {
        SHIFT_MASK as int
    } else {
        0
    })
}

/// A shortcut: the value that the key was found to have, with the modifiers.
/// There is none for a key that was not found, has no value or goes by a name
/// that is not known, such as a function key beyond the last.
pub fn chord_to_gdk(ctrl: bool, alt: bool, shift: bool, found: Option<u32>) -> (r: Option<
    (u32, u32),
>)
    ensures
        match found {
            Some(value) if value != 0 && value != VOID_SYMBOL => r matches Some((key, mods)) && key
                == value && mods == modifier_bits(ctrl, alt, shift),
            _ => r is None,
        },
{
    let value: u32 = match found {
        Some(value) => value,
        None => {
            return None;
        },
    };
    if value == 0 || value == VOID_SYMBOL {
        return None;
    }
    let mut mods: u32 = 0;
    if ctrl {
        mods = mods + CONTROL_MASK;
    }
    if alt {
        mods = mods + MOD1_MASK;
    }
    if shift {
        mods = mods + SHIFT_MASK;
    }
    Some((value, mods))
}

/// Different modifiers have different bits.
pub proof fn modifiers_are_told_apart(
    ctrl: bool,
    alt: bool,
    shift: bool,
    ctrl2: bool,
    alt2: bool,
    shift2: bool,
)
    requires
        modifier_bits(ctrl, alt, shift) == modifier_bits(ctrl2, alt2, shift2),
    ensures
        ctrl == ctrl2 && alt == alt2 && shift == shift2,
{
}

/// What a pressed shortcut does.
#[derive(Copy, Clone, PartialEq, Eq, Structural, Debug)]
pub enum ChordStep {
    /// Load the plugins that are not loaded yet.
    LoadPlugins,
    /// Set up the shortcuts again, once this one is over.
    RebuildLater,
    Run(i32),
    /// Take in what the load left behind.
    Drain,
}

/// The steps of a pressed shortcut, and whether the key was used. `matched`
/// says whether it stands for a command at all; `command` is the command that
/// was found after the plugins were loaded.
pub open spec fn chord_steps(matched: bool, command: Option<i32>) -> (Seq<ChordStep>, bool) {
    if !matched {
        (Seq::empty(), false)
    } else {
        match command {
            Some(cmd) => (
                seq![ChordStep::LoadPlugins, ChordStep::RebuildLater, ChordStep::Run(cmd)],
                true,
            ),
            None => (
                seq![ChordStep::LoadPlugins, ChordStep::RebuildLater, ChordStep::Drain],
                false,
            ),
        }
    }
}

/// The first steps of a pressed shortcut; none if it stands for nothing.
pub fn chord_begins(matched: bool) -> (r: Vec<ChordStep>)
    ensures
        forall|command: Option<i32>|
            matched ==> #[trigger] chord_steps(true, command).0.take(2) == r@,
        !matched ==> r@.len() == 0,
{
    if matched {
        let r: Vec<ChordStep> = vec![ChordStep::LoadPlugins, ChordStep::RebuildLater];
        assert forall|command: Option<i32>| #[trigger]
            chord_steps(true, command).0.take(2) == r@ by {
            assert(chord_steps(true, command).0.take(2) =~= r@);
        }
        r
    } else {
        Vec::new()
    }
}

/// The last step of a pressed shortcut that stands for something, and whether
/// the key was used; else it goes on to the editor.
pub fn chord_ends(command: Option<i32>) -> (r: (ChordStep, bool))
    ensures
        r.0 == chord_steps(true, command).0.last(),
        r.1 == chord_steps(true, command).1,
{
    match command {
        Some(cmd) => (ChordStep::Run(cmd), true),
        None => (ChordStep::Drain, false),
    }
}

/// A key is used exactly when a command runs, and then it is the command that
/// was found.
pub proof fn a_used_key_runs_something(matched: bool, command: Option<i32>)
    ensures
        chord_steps(matched, command).1 <==> exists|i: int|
            0 <= i < chord_steps(matched, command).0.len() && #[trigger] chord_steps(
                matched,
                command,
            ).0[i] is Run,
        chord_steps(matched, command).1 ==> command is Some && chord_steps(
            matched,
            command,
        ).0.last() == ChordStep::Run(command->Some_0),
{
    if matched && command is Some {
        assert(chord_steps(matched, command).0[2] is Run);
    }
}

/// The text of a menu item up to the NUL that ends it, or all of it.
pub open spec fn before_nul(units: Seq<u16>) -> Seq<u16>
    decreases units.len(),
{
    if units.len() == 0 || units[0] == 0 {
        Seq::empty()
    } else {
        seq![units[0]] + before_nul(units.skip(1))
    }
}

/// The text of a menu item up to the NUL that ends it, or all of it.
pub fn funcitem_label(units: &Vec<u16>) -> (r: Vec<u16>)
    ensures
        r@ == before_nul(units@),
{
    let mut out: Vec<u16> = Vec::new();
    let mut i: usize = 0;
    assert(units@.skip(0) =~= units@);
    while i < units.len() && units[i] != 0
        invariant
            i <= units@.len(),
            out@ + before_nul(units@.skip(i as int)) =~= before_nul(units@),
        decreases units.len() - i,
    {
        assert(units@.skip(i as int).skip(1) =~= units@.skip(i + 1));
        out.push(units[i]);
        i += 1;
    }
    assert(before_nul(units@.skip(i as int)) =~= Seq::empty());
    out
}

/// A label holds no NUL, and is what the item's text begins with.
pub proof fn labels_hold_no_nul(units: Seq<u16>)
    ensures
        before_nul(units).len() <= units.len(),
        forall|i: int|
            0 <= i < before_nul(units).len() ==> #[trigger] before_nul(units)[i] == units[i]
                && units[i] != 0,
        before_nul(units).len() < units.len() ==> units[before_nul(units).len() as int] == 0,
    decreases units.len(),
{
    if units.len() > 0 && units[0] != 0 {
        let rest = units.skip(1);
        labels_hold_no_nul(rest);
        assert forall|i: int| 0 <= i < before_nul(units).len() implies #[trigger] before_nul(
            units,
        )[i] == units[i] && units[i] != 0 by {
            if i > 0 {
                assert(before_nul(units)[i] == before_nul(rest)[i - 1]);
            }
        }
    }
}

/// Something to do about notifications.
#[derive(Copy, Clone, PartialEq, Eq, Structural, Debug)]
pub enum NotifyStep {
    /// Tell all plugins the notification at this place.
    Tell(usize),
    /// Show the dialogs that plugins asked for when they were told.
    PresentDialogs,
}

/// What is done about so many notifications that go out to plugins: each is
/// told, in order, and then the dialogs are shown.
pub open spec fn telling(notes: nat) -> Seq<NotifyStep> {
    Seq::new(notes, |i: int| NotifyStep::Tell(i as usize)).push(NotifyStep::PresentDialogs)
}

fn tell_all(notes: usize) -> (r: Vec<NotifyStep>)
    ensures
        r@ == telling(notes as nat),
{
    let mut steps: Vec<NotifyStep> = Vec::new();
    let mut i: usize = 0;
    while i < notes
        invariant
            i <= notes,
            steps@ =~= Seq::new(i as nat, |j: int| NotifyStep::Tell(j as usize)),
        decreases notes - i,
    {
        steps.push(NotifyStep::Tell(i));
        i += 1;
    }
    steps.push(NotifyStep::PresentDialogs);
    steps
}

/// What is done about queued notifications: they are told if there is one and
/// somebody to tell.
pub fn deliver_notifications(notes: usize, targets: usize) -> (r: Vec<NotifyStep>)
    ensures
        r@ == if notes > 0 && targets > 0 {
            telling(notes as nat)
        } else {
            Seq::empty()
        },
{
    if notes > 0 && targets > 0 {
        tell_all(notes)
    } else {
        Vec::new()
    }
}

/// What is done about a notification that announces something: it is told at
/// once, whoever there is to hear it, and then the dialogs are shown.
pub fn deliver_sync() -> (r: Vec<NotifyStep>)
    ensures
        r@ == telling(1),
{
    tell_all(1)
}

/// What plugins are told when the program ends.
#[derive(Copy, Clone, PartialEq, Eq, Structural, Debug)]
pub enum ShutdownNotice {
    BeforeShutdown,
    Shutdown,
}

/// What plugins are told when the program ends, in order. Each is told to all
/// of them before the next, so a plugin that hears of the end knows that every
/// other has been warned.
pub fn notify_shutdown() -> (r: Vec<ShutdownNotice>)
    ensures
        r@ == seq![ShutdownNotice::BeforeShutdown, ShutdownNotice::Shutdown],
{
    let mut notices: Vec<ShutdownNotice> = Vec::new();
    notices.push(ShutdownNotice::BeforeShutdown);
    notices.push(ShutdownNotice::Shutdown);
    notices
}

/// A message goes to the host under the host's handle, to the editor under the
/// editor's, and nowhere under any other; where the editor is on another thread
/// it goes by way of that.
pub proof fn a_message_goes_by_its_handle(handle: usize, host: usize, editor: usize, on_main: bool)
    ensures
        route_of(handle, host, editor, on_main) == MessageRoute::Host <==> handle == host,
        route_of(handle, host, editor, on_main) == MessageRoute::Editor <==> handle != host
            && handle == editor && editor != 0 && on_main,
        route_of(handle, host, editor, on_main) == MessageRoute::EditorOnMain <==> handle != host
            && handle == editor && editor != 0 && !on_main,
        route_of(handle, host, editor, on_main) == MessageRoute::Refused <==> handle != host && (
        handle != editor || editor == 0),
{
}

/// The tabs' marks have moved exactly if one is not what stood at its place, or
/// stands at a place that was not there.
pub proof fn a_moved_mark_is_seen(before: Seq<bool>, after: Seq<bool>)
    ensures
        marks_moved(before, after) <==> after.len() > before.len() || exists|i: int|
            0 <= i < after.len() && i < before.len() && #[trigger] before[i] != #[trigger] after[i],
{
    if after.len() > before.len() {
        assert(!same_mark(before, after, before.len() as int));
    }
    if exists|i: int|
        0 <= i < after.len() && i < before.len() && #[trigger] before[i] != #[trigger] after[i] {
        let i = choose|i: int|
            0 <= i < after.len() && i < before.len() && #[trigger] before[i] != #[trigger] after[i];
        assert(!same_mark(before, after, i));
    }
    if marks_moved(before, after) {
        let i = choose|i: int| 0 <= i < after.len() && !#[trigger] same_mark(before, after, i);
        if i < before.len() {
            assert(before[i] != after[i]);
        }
    }
}

/// After a message the view is bound exactly if another tab became active whose
/// file is read; the tabs are looked at exactly if the active document or a mark
/// changed; the panels are built exactly if one changed; and the dialogs always
/// come, and last.
pub proof fn what_follows_a_message(before: DispatchBefore, after: DispatchAfter)
    ensures
        ({
            let steps = follow_up(before, after);
            let bound = after.active != before.active && after.active is Some && after.active->0
                < after.loading@.len() && !after.loading@[after.active->0 as int];
            let looked = before.modified != after.modified || after.dirty@.len()
                > before.dirty@.len() || exists|i: int|
                0 <= i < after.dirty@.len() && i < before.dirty@.len() && #[trigger] before.dirty@[i]
                    != #[trigger] after.dirty@[i];
            &&& steps.contains(DispatchStep::Rebind) <==> bound
            &&& steps.contains(DispatchStep::RefreshChrome) <==> looked
            &&& steps.contains(DispatchStep::ApplyLayout) <==> after.dock_changed
            &&& steps.last() == DispatchStep::PresentDialogs
            &&& steps.len() == 1 + (if bound {
                1int
            } else {
                0
            }) + (if looked {
                1int
            } else {
                0
            }) + (if after.dock_changed {
                1int
            } else {
                0
            })
            &&& bound ==> steps[0] == DispatchStep::Rebind
            &&& after.dock_changed ==> steps[steps.len() - 2] == DispatchStep::ApplyLayout
        }),
{
    a_moved_mark_is_seen(before.dirty@, after.dirty@);
    let steps = follow_up(before, after);
    let bound = after.active != before.active && active_is_loaded(after);
    let looked = before.modified != after.modified || marks_moved(before.dirty@, after.dirty@);
    let a = step_if(bound, DispatchStep::Rebind);
    let b = step_if(looked, DispatchStep::RefreshChrome);
    let c = step_if(after.dock_changed, DispatchStep::ApplyLayout);
    if bound {
        assert(steps[0] == DispatchStep::Rebind);
    }
    if looked {
        assert(steps[a.len() as int] == DispatchStep::RefreshChrome);
    }
    if after.dock_changed {
        assert(steps[(a.len() + b.len()) as int] == DispatchStep::ApplyLayout);
    }
}

/// A handle is refused for being null, then the host's, then the editor's, and
/// a widget for being none, then a window, then inside something; each exactly
/// if it is.
pub proof fn a_handle_is_refused_for_cause(
    handle: usize,
    host: usize,
    editor: usize,
    h: Result<(), HandleRefusal>,
    w: WidgetReading,
    r: Result<(), HandleRefusal>,
)
    requires
        call_ensures(refuse_host_handle, (handle, host, editor), h),
        call_ensures(refuse_widget, (w,), r),
    ensures
        h is Ok <==> handle != 0 && handle != host && handle != editor,
        h == Err::<(), HandleRefusal>(HandleRefusal::Null) <==> handle == 0,
        h == Err::<(), HandleRefusal>(HandleRefusal::HostHandle) <==> handle != 0 && handle == host,
        h == Err::<(), HandleRefusal>(HandleRefusal::HostEditor) <==> handle != 0 && handle != host
            && handle == editor,
        r is Ok <==> w.is_widget && !w.is_toplevel && !w.has_parent,
        r == Err::<(), HandleRefusal>(HandleRefusal::NotAWidget) <==> !w.is_widget,
        r == Err::<(), HandleRefusal>(HandleRefusal::Toplevel) <==> w.is_widget && w.is_toplevel,
        r == Err::<(), HandleRefusal>(HandleRefusal::HasParent) <==> w.is_widget && !w.is_toplevel
            && w.has_parent,
{
}

/// Each refusal is told in words of its own.
pub proof fn a_refusal_is_told_in_its_words()
    ensures
        refusal_text(HandleRefusal::Null) == "hClient is null"@,
        refusal_text(HandleRefusal::HostHandle) == "hClient is the npp handle, not a widget"@,
        refusal_text(HandleRefusal::HostEditor) == "hClient is the host's own Scintilla view"@,
        refusal_text(HandleRefusal::NotAWidget) == "hClient is not a GtkWidget"@,
        refusal_text(HandleRefusal::Toplevel) == "hClient is a toplevel window"@,
        refusal_text(HandleRefusal::HasParent)
            == "hClient is already inside a container — register a free-standing widget"@,
{
}

/// A close is told to the plugin that registered the panel, once: a plugin that
/// closes it again while it is being told hears nothing.
pub proof fn a_close_is_told_once(
    target: (usize, Option<usize>),
    first: Option<(usize, Option<usize>)>,
    second: Option<(usize, Option<usize>)>,
)
    ensures
        forall|a: &mut Latch, b: &mut Latch|
            (#[trigger] call_ensures(close_plugin_panel, (Some(target), a), first)
                && #[trigger] call_ensures(close_plugin_panel, (Some(target), b), second) && *b
                == *final(a)) ==> second is None && (!a.is_set() ==> first == Some(target)),
        forall|a: &mut Latch| #[trigger]
            call_ensures(close_plugin_panel, (None, a), first) ==> first is None && (final(
                a).is_set() <==> a.is_set()),
{
}

/// A notice is about a widget that is there exactly if a registration that is
/// not gone has its panel under its handle.
pub proof fn a_notice_needs_its_registration<C>(entries: Seq<PluginPanel<C>>, n: DockNotice)
    ensures
        notice_is_live(entries, n) <==> exists|i: int|
            0 <= i < entries.len() && !(#[trigger] entries[i]).gone && entries[i].panel == n.panel
                && entries[i].handle == n.handle,
{
    if notice_is_live(entries, n) {
        let i = choose|i: int|
            0 <= i < entries.len() && (#[trigger] entries[i]).live() && entries[i].panel == n.panel
                && entries[i].handle == n.handle;
        assert(!entries[i].gone);
    }
    if exists|i: int|
        0 <= i < entries.len() && !(#[trigger] entries[i]).gone && entries[i].panel == n.panel
            && entries[i].handle == n.handle {
        let i = choose|i: int|
            0 <= i < entries.len() && !(#[trigger] entries[i]).gone && entries[i].panel == n.panel
                && entries[i].handle == n.handle;
        assert(entries[i].live());
    }
}

/// The notice that is taken is the first whose widget is there, and what is left
/// is what stood behind it; if there is none, nothing is taken and nothing left.
pub proof fn the_first_live_notice_is_taken<C>(
    waiting: Seq<DockNotice>,
    entries: Seq<PluginPanel<C>>,
    k: int,
)
    ensures
        0 <= k < waiting.len() && notice_is_live(entries, waiting[k]) && (forall|j: int|
            0 <= j < k ==> !notice_is_live(entries, #[trigger] waiting[j])) ==> notice_taken(
            waiting,
            entries,
        ) == Some(waiting[k]) && left_waiting(waiting, entries) == waiting.skip(k + 1),
        (forall|j: int| 0 <= j < waiting.len() ==> !notice_is_live(entries, #[trigger] waiting[j]))
            ==> notice_taken(waiting, entries) is None && left_waiting(waiting, entries).len() == 0,
{
    gone_are_gone(waiting, entries);
    let gone = gone_before(waiting, entries);
    if 0 <= k < waiting.len() && notice_is_live(entries, waiting[k]) && (forall|j: int|
        0 <= j < k ==> !notice_is_live(entries, #[trigger] waiting[j])) {
        if gone < k {
            assert(!notice_is_live(entries, waiting[gone as int]));
        } else if k < gone {
            assert(!notice_is_live(entries, waiting[k]));
        }
    }
}

/// A letter or a digit is found by its character, a function key by its number,
/// and every other key by its name.
pub proof fn a_key_is_found_by_its_name(c: u8, n: u8)
    ensures
        gdk_key_of(PortableKey::Letter(c)) == GdkKeyView::Value(c as u32),
        gdk_key_of(PortableKey::Digit(c)) == GdkKeyView::Value(c as u32),
        gdk_key_of(PortableKey::Function(n)) == GdkKeyView::Name("F"@ + decimal(n as nat)),
        gdk_key_of(PortableKey::Space) == GdkKeyView::Name("space"@),
        gdk_key_of(PortableKey::Insert) == GdkKeyView::Name("Insert"@),
        gdk_key_of(PortableKey::Delete) == GdkKeyView::Name("Delete"@),
        gdk_key_of(PortableKey::Home) == GdkKeyView::Name("Home"@),
        gdk_key_of(PortableKey::End) == GdkKeyView::Name("End"@),
        gdk_key_of(PortableKey::PageUp) == GdkKeyView::Name("Page_Up"@),
        gdk_key_of(PortableKey::PageDown) == GdkKeyView::Name("Page_Down"@),
        gdk_key_of(PortableKey::Left) == GdkKeyView::Name("Left"@),
        gdk_key_of(PortableKey::Right) == GdkKeyView::Name("Right"@),
        gdk_key_of(PortableKey::Up) == GdkKeyView::Name("Up"@),
        gdk_key_of(PortableKey::Down) == GdkKeyView::Name("Down"@),
{
}

/// A shortcut keeps the value its key was found to have, with one for Shift,
/// four for Ctrl and eight for Alt; there is none for a key without a value or
/// of an unknown name.
pub proof fn a_shortcut_keeps_its_key(
    ctrl: bool,
    alt: bool,
    shift: bool,
    value: u32,
    r: Option<(u32, u32)>,
    none: Option<(u32, u32)>,
)
    requires
        call_ensures(chord_to_gdk, (ctrl, alt, shift, Some(value)), r),
        call_ensures(chord_to_gdk, (ctrl, alt, shift, None), none),
    ensures
        none is None,
        r is None <==> value == 0 || value == 0xff_ffff,
        r matches Some((key, mods)) ==> {
            &&& key == value
            &&& mods % 2 == 1 <==> shift
            &&& (mods / 4) % 2 == 1 <==> ctrl
            &&& mods / 8 == 1 <==> alt
            &&& mods <= 13
        },
{
}

/// A shortcut that stands for something loads the plugins first and sets the
/// shortcuts up again; then its command runs, if it was found, and the key is
/// used up exactly then. One that stands for nothing does nothing.
pub proof fn a_shortcut_runs_its_command(cmd: i32)
    ensures
        chord_steps(true, Some(cmd)).0 == seq![
            ChordStep::LoadPlugins,
            ChordStep::RebuildLater,
            ChordStep::Run(cmd),
        ],
        chord_steps(true, Some(cmd)).1,
        chord_steps(true, None).0 == seq![
            ChordStep::LoadPlugins,
            ChordStep::RebuildLater,
            ChordStep::Drain,
        ],
        !chord_steps(true, None).1,
        chord_steps(false, Some(cmd)).0.len() == 0 && !chord_steps(false, Some(cmd)).1,
        chord_steps(false, None).0.len() == 0 && !chord_steps(false, None).1,
{
}

/// Every notification is told once and in order, and the dialogs are shown when
/// all are told; nothing happens without a notification or without a plugin to
/// hear it.
pub proof fn every_notification_is_told(notes: usize, targets: usize, r: Vec<NotifyStep>, i: int)
    requires
        call_ensures(deliver_notifications, (notes, targets), r),
    ensures
        notes == 0 || targets == 0 ==> r@.len() == 0,
        notes > 0 && targets > 0 ==> {
            &&& r@.len() == notes + 1
            &&& r@[notes as int] == NotifyStep::PresentDialogs
            &&& 0 <= i < notes ==> r@[i] == NotifyStep::Tell(i as usize)
        },
{
}

/// The end is announced before it comes.
pub proof fn the_end_is_announced(r: Vec<ShutdownNotice>, sync: Vec<NotifyStep>)
    requires
        call_ensures(notify_shutdown, (), r),
        call_ensures(deliver_sync, (), sync),
    ensures
        r@.len() == 2,
        r@[0] == ShutdownNotice::BeforeShutdown,
        r@[1] == ShutdownNotice::Shutdown,
        sync@.len() == 2,
        sync@[0] == NotifyStep::Tell(0),
        sync@[1] == NotifyStep::PresentDialogs,
{
}

} // verus!
