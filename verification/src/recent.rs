//! The recent files in the File menu, and the list of open files.
//!
//! The region of recent files is made anew each time the menu opens, just above
//! a separator that stays.
use vstd::prelude::*;
use crate::text::{decimal, push_decimal};

verus! {

/// A line of the region.
pub enum RegionLine {
    Separator,
    /// A file, with its place in the list.
    File { index: usize, label: String },
    /// Open the file that was closed last.
    Restore { enabled: bool },
    /// Open all of them.
    OpenAll { enabled: bool },
    /// Forget them.
    Empty { enabled: bool },
    /// The submenu that holds the rest.
    Submenu,
}

/// [`RegionLine`] as a value.
pub enum RegionLineView {
    Separator,
    File { index: nat, label: Seq<char> },
    Restore { enabled: bool },
    OpenAll { enabled: bool },
    Empty { enabled: bool },
    Submenu,
}

impl RegionLine {
    pub open spec fn view(&self) -> RegionLineView {
        match *self {
            RegionLine::Separator => RegionLineView::Separator,
            RegionLine::File { index, label } => RegionLineView::File {
                index: index as nat,
                label: label@,
            },
            RegionLine::Restore { enabled } => RegionLineView::Restore { enabled },
            RegionLine::OpenAll { enabled } => RegionLineView::OpenAll { enabled },
            RegionLine::Empty { enabled } => RegionLineView::Empty { enabled },
            RegionLine::Submenu => RegionLineView::Submenu,
        }
    }
}

/// The lines as values.
pub open spec fn lines_of(lines: Seq<RegionLine>) -> Seq<RegionLineView> {
    lines.map_values(|l: RegionLine| l@)
}

/// The region: what stands in the File menu itself, and in its submenu.
pub struct RecentRegion {
    pub top: Vec<RegionLine>,
    pub nested: Vec<RegionLine>,
}

/// How recent files are shown.
#[derive(Copy, Clone, PartialEq, Eq, Structural, Debug)]
pub struct RecentSettings {
    /// They are shown at all.
    pub active: bool,
    /// They stand in a submenu.
    pub in_submenu: bool,
}

/// The lines of the files: each with its number, from one, and its name.
pub open spec fn file_lines(names: Seq<String>) -> Seq<RegionLineView> {
    Seq::new(
        names.len(),
        |i: int|
            RegionLineView::File {
                index: i as nat,
                label: decimal((i + 1) as nat) + ": "@ + names[i]@,
            },
    )
}

/// The lines of the files and, set apart where there are any, what can be done
/// with them.
pub open spec fn body_lines(names: Seq<String>) -> Seq<RegionLineView> {
    let has = names.len() > 0;
    file_lines(names) + (if has {
        seq![RegionLineView::Separator]
    } else {
        Seq::empty()
    }) + seq![
        RegionLineView::Restore { enabled: has },
        RegionLineView::OpenAll { enabled: has },
        RegionLineView::Empty { enabled: has },
    ]
}

fn push_body(out: &mut Vec<RegionLine>, names: &Vec<String>)
    ensures
        lines_of(final(out)@) == lines_of(old(out)@) + body_lines(names@),
{
    let ghost before = lines_of(out@);
    let count: usize = names.len();
    let mut i: usize = 0;
    while i < count
        invariant
            i <= count == names@.len(),
            lines_of(out@) =~= before + file_lines(names@).take(i as int),
        decreases count - i,
    {
        let mut label: String = String::new();
        push_decimal(&mut label, i as u64 + 1);
        label.append(": ");
        label.append(names[i].as_str());
        assert(label@ =~= decimal((i + 1) as nat) + ": "@ + names@[i as int]@);
        let ghost now = lines_of(out@);
        let line: RegionLine = RegionLine::File { index: i, label };
        assert(line@ == file_lines(names@)[i as int]);
        out.push(line);
        assert(lines_of(out@) =~= now.push(line@));
        i += 1;
    }
    assert(file_lines(names@).take(i as int) =~= file_lines(names@));
    let has: bool = count > 0;
    let ghost listed = lines_of(out@);
    if has {
        out.push(RegionLine::Separator);
    }
    let ghost parted = lines_of(out@);
    assert(parted =~= listed + (if has {
        seq![RegionLineView::Separator]
    } else {
        Seq::empty()
    }));
    out.push(RegionLine::Restore { enabled: has });
    out.push(RegionLine::OpenAll { enabled: has });
    out.push(RegionLine::Empty { enabled: has });
    assert(lines_of(out@) =~= parted + seq![
        RegionLineView::Restore { enabled: has },
        RegionLineView::OpenAll { enabled: has },
        RegionLineView::Empty { enabled: has },
    ]);
    assert(lines_of(out@) =~= before + body_lines(names@));
}

/// The region for the names of the recent files, newest first: nothing if they
/// are not to be shown; else a separator and then either the lines themselves
/// or the submenu that holds them.
pub fn recent_region_items(names: &Vec<String>, settings: RecentSettings) -> (r: RecentRegion)
    ensures
        lines_of(r.top@) == if !settings.active {
            Seq::empty()
        } else if settings.in_submenu {
            seq![RegionLineView::Separator, RegionLineView::Submenu]
        } else {
            seq![RegionLineView::Separator] + body_lines(names@)
        },
        lines_of(r.nested@) == if settings.active && settings.in_submenu {
            body_lines(names@)
        } else {
            Seq::empty()
        },
{
    let mut top: Vec<RegionLine> = Vec::new();
    let mut nested: Vec<RegionLine> = Vec::new();
    if settings.active {
        top.push(RegionLine::Separator);
        assert(lines_of(top@) =~= seq![RegionLineView::Separator]);
        if settings.in_submenu {
            top.push(RegionLine::Submenu);
            assert(lines_of(top@) =~= seq![RegionLineView::Separator, RegionLineView::Submenu]);
            assert(lines_of(nested@) =~= Seq::empty());
            push_body(&mut nested, names);
            assert(lines_of(nested@) =~= body_lines(names@));
        } else {
            push_body(&mut top, names);
        }
    }
    assert(!settings.active ==> lines_of(top@) =~= Seq::empty());
    assert(!(settings.active && settings.in_submenu) ==> lines_of(nested@) =~= Seq::empty());
    RecentRegion { top, nested }
}

/// What a rebuild of the region does to the menu: what leaves it, and what
/// goes in where.
pub struct RebuildPlan {
    pub remove: Vec<u64>,
    pub insert: Vec<(u64, i32)>,
}

/// The items of `menu` that are not among `gone`.
pub open spec fn without(menu: Seq<u64>, gone: Seq<u64>) -> Seq<u64> {
    menu.filter(|w: u64| !gone.contains(w))
}

/// `menu` with `fresh` put in before the place `at`.
pub open spec fn spliced(menu: Seq<u64>, at: int, fresh: Seq<u64>) -> Seq<u64> {
    menu.take(at) + fresh + menu.skip(at)
}

/// The insertions that put `fresh` in at `at`: each item goes to the next
/// position, as far as there are positions.
pub open spec fn insertions(at: int, fresh: Seq<u64>) -> Seq<(u64, i32)> {
    Seq::new(
        fresh.len(),
        |i: int|
            (
                fresh[i],
                if at + i <= i32::MAX {
                    (at + i) as i32
                } else {
                    i32::MAX
                },
            ),
    )
}

/// `menu` after insertions, one after the other.
pub open spec fn inserted(menu: Seq<u64>, insert: Seq<(u64, i32)>) -> Seq<u64>
    decreases insert.len(),
{
    if insert.len() == 0 {
        menu
    } else {
        let before = inserted(menu, insert.drop_last());
        before.insert(insert.last().1 as int, insert.last().0)
    }
}

/// The items that were put in last time.
pub struct RegionTracker {
    pub items: Vec<u64>,
}

/// The first place of `w` in `menu`.
pub open spec fn is_place(menu: Seq<u64>, w: u64, at: int) -> bool {
    &&& 0 <= at < menu.len()
    &&& menu[at] == w
    &&& forall|j: int| 0 <= j < at ==> menu[j] != w
}

fn place_of(menu: &Vec<u64>, w: u64) -> (r: Option<usize>)
    ensures
        match r {
            Some(at) => is_place(menu@, w, at as int),
            None => !menu@.contains(w),
        },
{
    let mut i: usize = 0;
    while i < menu.len()
        invariant
            i <= menu@.len(),
            forall|j: int| 0 <= j < i ==> menu@[j] != w,
        decreases menu.len() - i,
    {
        if menu[i] == w {
            return Some(i);
        }
        i += 1;
    }
    None
}

fn is_among(items: &Vec<u64>, w: u64) -> (r: bool)
    ensures
        r == items@.contains(w),
{
    place_of(items, w).is_some()
}

fn left_over(menu: &Vec<u64>, gone: &Vec<u64>) -> (r: Vec<u64>)
    ensures
        r@ == without(menu@, gone@),
{
    let mut out: Vec<u64> = Vec::new();
    let mut i: usize = 0;
    let ghost keep = |w: u64| !gone@.contains(w);
    while i < menu.len()
        invariant
            i <= menu@.len(),
            keep == (|w: u64| !gone@.contains(w)),
            out@ == menu@.take(i as int).filter(keep),
        decreases menu.len() - i,
    {
        proof {
            reveal(Seq::filter);
            assert(menu@.take(i + 1).drop_last() =~= menu@.take(i as int));
        }
        if !is_among(gone, menu[i]) {
            out.push(menu[i]);
        }
        i += 1;
    }
    assert(menu@.take(i as int) =~= menu@);
    out
}

impl RegionTracker {
    /// Plan the rebuild of the region in a menu: everything that was put in
    /// last time leaves, and the fresh items go in right before the anchor,
    /// in order. Without an anchor in the menu nothing goes in.
    pub fn rebuild(&mut self, menu: &Vec<u64>, anchor: Option<u64>, fresh: Vec<u64>) -> (plan:
        RebuildPlan)
        ensures
            plan.remove@ == old(self).items@,
            ({
                let rest = without(menu@, old(self).items@);
                match anchor {
                    Some(a) if rest.contains(a) => {
                        &&& final(self).items@ == fresh@
                        &&& exists|at: int| #[trigger]
                            is_place(rest, a, at) && plan.insert@ == insertions(at, fresh@)
                    },
                    _ => final(self).items@.len() == 0 && plan.insert@.len() == 0,
                }
            }),
    {
        let rest: Vec<u64> = left_over(menu, &self.items);
        let mut remove: Vec<u64> = Vec::new();
        std::mem::swap(&mut remove, &mut self.items);
        let base: Option<usize> = match anchor {
            Some(a) => place_of(&rest, a),
            None => None,
        };
        let mut insert: Vec<(u64, i32)> = Vec::new();
        if let Some(at) = base {
            let mut i: usize = 0;
            while i < fresh.len()
                invariant
                    i <= fresh@.len(),
                    insert@ =~= insertions(at as int, fresh@).take(i as int),
                decreases fresh.len() - i,
            {
                let position: u128 = at as u128 + i as u128;
                insert.push(
                    (
                        fresh[i],
                        if position <= 0x7fff_ffff {
                            position as i32
                        } else {
                            i32::MAX
                        },
                    ),
                );
                i += 1;
            }
            assert(insert@ =~= insertions(at as int, fresh@));
            self.items = fresh;
            assert(is_place(rest@, anchor->Some_0, at as int));
        }
        RebuildPlan { remove, insert }
    }
}

/// Insertions one after the other, each a place further down, put the items in
/// as they stand, in a menu of any size that has positions.
pub proof fn insertions_splice(rest: Seq<u64>, at: int, fresh: Seq<u64>)
    requires
        0 <= at <= rest.len(),
        at + fresh.len() <= i32::MAX,
    ensures
        inserted(rest, insertions(at, fresh)) == spliced(rest, at, fresh),
    decreases fresh.len(),
{
    let planned = insertions(at, fresh);
    if fresh.len() == 0 {
        assert(spliced(rest, at, fresh) =~= rest);
    } else {
        let fewer = fresh.drop_last();
        insertions_splice(rest, at, fewer);
        assert(planned.drop_last() =~= insertions(at, fewer));
        assert(spliced(rest, at, fewer).insert(at + fewer.len(), fresh.last()) =~= spliced(
            rest,
            at,
            fresh,
        ));
    }
}

/// Nothing but the region changes: take the fresh items out again, and the
/// menu is as it was without the region.
pub proof fn the_rest_of_the_menu_stays(rest: Seq<u64>, at: int, fresh: Seq<u64>)
    requires
        0 <= at <= rest.len(),
        forall|i: int, j: int|
            0 <= i < rest.len() && 0 <= j < fresh.len() ==> #[trigger] rest[i] != #[trigger] fresh[j],
    ensures
        without(spliced(rest, at, fresh), fresh) == rest,
{
    let keep = |w: u64| !fresh.contains(w);
    let all = spliced(rest, at, fresh);
    filter_parts(rest.take(at) + fresh, rest.skip(at), keep);
    filter_parts(rest.take(at), fresh, keep);
    keep_all(rest.take(at), keep);
    keep_all(rest.skip(at), keep);
    keep_none(fresh, keep);
    assert(all.filter(keep) =~= rest.take(at) + rest.skip(at));
    assert(rest.take(at) + rest.skip(at) =~= rest);
}

proof fn filter_parts(a: Seq<u64>, b: Seq<u64>, keep: spec_fn(u64) -> bool)
    ensures
        (a + b).filter(keep) == a.filter(keep) + b.filter(keep),
    decreases b.len(),
{
    reveal(Seq::filter);
    if b.len() == 0 {
        assert(a + b =~= a);
        assert(a.filter(keep) + b.filter(keep) =~= a.filter(keep));
    } else {
        assert((a + b).drop_last() =~= a + b.drop_last());
        filter_parts(a, b.drop_last(), keep);
        assert((a + b).filter(keep) =~= a.filter(keep) + b.filter(keep));
    }
}

proof fn keep_all(s: Seq<u64>, keep: spec_fn(u64) -> bool)
    requires
        forall|i: int| 0 <= i < s.len() ==> keep(#[trigger] s[i]),
    ensures
        s.filter(keep) == s,
    decreases s.len(),
{
    reveal(Seq::filter);
    if s.len() > 0 {
        assert(keep(s[s.len() - 1]));
        assert forall|i: int| 0 <= i < s.len() - 1 implies keep(#[trigger] s.drop_last()[i]) by {
            assert(keep(s[i]));
        }
        keep_all(s.drop_last(), keep);
        assert(s.drop_last().push(s.last()) =~= s);
    }
}

proof fn keep_none(s: Seq<u64>, keep: spec_fn(u64) -> bool)
    requires
        forall|i: int| 0 <= i < s.len() ==> !keep(#[trigger] s[i]),
    ensures
        s.filter(keep).len() == 0,
    decreases s.len(),
{
    reveal(Seq::filter);
    if s.len() > 0 {
        assert(!keep(s[s.len() - 1]));
        assert forall|i: int| 0 <= i < s.len() - 1 implies !keep(#[trigger] s.drop_last()[i]) by {
            assert(!keep(s[i]));
        }
        keep_none(s.drop_last(), keep);
    }
}

/// An open file in the list of open files.
pub struct OpenFileRow {
    pub id: i32,
    pub name: String,
    pub active: bool,
}

/// What a tab brings to the list of open files.
pub struct NamedTab {
    pub id: i32,
    pub name: String,
}

/// The list of open files: one row for each tab, in order, the active one
/// marked. With no tab, one greyed row says so.
pub enum OpenFiles {
    Nothing(&'static str),
    Rows(Vec<OpenFileRow>),
}

/// Make the list of open files.
pub fn populate_open_files_menu(tabs: Vec<NamedTab>, active: Option<usize>) -> (r: OpenFiles)
    ensures
        tabs@.len() == 0 ==> (r matches OpenFiles::Nothing(text) && text@ == "(no open files)"@),
        tabs@.len() > 0 ==> {
            &&& r matches OpenFiles::Rows(rows)
            &&& rows@.len() == tabs@.len()
            &&& forall|i: int|
                0 <= i < tabs@.len() ==> (#[trigger] rows@[i]).id == tabs@[i].id && rows@[i].name
                    == tabs@[i].name && rows@[i].active == (active == Some(i as usize))
        },
{
    if tabs.len() == 0 {
        return OpenFiles::Nothing("(no open files)");
    }
    let ghost all = tabs@;
    let mut rows: Vec<OpenFileRow> = Vec::new();
    for tab in it: tabs
        invariant
            it.seq() == all,
            rows@.len() == it.index(),
            it.seq().len() <= usize::MAX,
            forall|i: int|
                0 <= i < it.index() ==> (#[trigger] rows@[i]).id == all[i].id && rows@[i].name
                    == all[i].name && rows@[i].active == (active == Some(i as usize)),
    {
        let place: usize = rows.len();
        let is_active: bool = match active {
            Some(a) => a == place,
            None => false,
        };
        rows.push(OpenFileRow { id: tab.id, name: tab.name, active: is_active });
    }
    OpenFiles::Rows(rows)
}

/// Each recent file has its line, in order: its number from one, and its name;
/// and the line leads to its place in the list.
pub proof fn a_recent_file_has_its_line(names: Seq<String>, i: int)
    requires
        0 <= i < names.len(),
    ensures
        file_lines(names).len() == names.len(),
        file_lines(names)[i] matches RegionLineView::File { index, label } && index == i && label
            == decimal((i + 1) as nat) + ": "@ + names[i]@,
{
}

/// The files come first, then what can be done with them, set apart by a
/// separator and usable exactly if there is a file.
pub proof fn the_region_ends_in_its_commands(names: Seq<String>, i: int)
    ensures
        ({
            let body = body_lines(names);
            let n = body.len();
            let some = names.len() > 0;
            &&& some ==> n == names.len() + 4 && body[names.len() as int] is Separator
            &&& !some ==> n == 3
            &&& 0 <= i < names.len() ==> body[i] == file_lines(names)[i]
            &&& body[n - 3] == (RegionLineView::Restore { enabled: some })
            &&& body[n - 2] == (RegionLineView::OpenAll { enabled: some })
            &&& body[n - 1] == (RegionLineView::Empty { enabled: some })
        }),
{
}

/// A line as a value says what the line says.
pub proof fn a_line_is_told_by_its_value(index: usize, label: String, on: bool)
    ensures
        (RegionLine::File { index, label })@ == (RegionLineView::File {
            index: index as nat,
            label: label@,
        }),
        RegionLine::Separator@ == RegionLineView::Separator,
        RegionLine::Submenu@ == RegionLineView::Submenu,
        (RegionLine::Restore { enabled: on })@ == (RegionLineView::Restore { enabled: on }),
        (RegionLine::OpenAll { enabled: on })@ == (RegionLineView::OpenAll { enabled: on }),
        (RegionLine::Empty { enabled: on })@ == (RegionLineView::Empty { enabled: on }),
{
}

/// The region stands in the menu itself or in a submenu, as is set, and nowhere
/// if recent files are not shown.
pub proof fn the_region_stands_where_it_is_set(
    names: Vec<String>,
    s: RecentSettings,
    r: RecentRegion,
)
    requires
        call_ensures(recent_region_items, (&names, s), r),
    ensures
        !s.active ==> lines_of(r.top@).len() == 0 && lines_of(r.nested@).len() == 0,
        s.active ==> lines_of(r.top@)[0] is Separator,
        s.active && s.in_submenu ==> lines_of(r.top@).len() == 2 && lines_of(r.top@)[1] is Submenu
            && lines_of(r.nested@) == body_lines(names@),
        s.active && !s.in_submenu ==> lines_of(r.top@).skip(1) == body_lines(names@) && lines_of(
            r.nested@,
        ).len() == 0,
{
    if s.active && !s.in_submenu {
        assert(lines_of(r.top@).skip(1) =~= body_lines(names@));
    }
}

/// What leaves the menu is what was put in last time, all of it and nothing
/// else; the rest keeps its order.
pub proof fn only_the_old_region_leaves(menu: Seq<u64>, gone: Seq<u64>, w: u64)
    ensures
        without(menu, gone).contains(w) <==> menu.contains(w) && !gone.contains(w),
        without(menu.push(w), gone) == if gone.contains(w) {
            without(menu, gone)
        } else {
            without(menu, gone).push(w)
        },
    decreases menu.len(),
{
    reveal(Seq::filter);
    assert(menu.push(w).drop_last() =~= menu);
    if menu.len() > 0 {
        let less = menu.drop_last();
        only_the_old_region_leaves(less, gone, w);
        let before = without(less, gone);
        let all = without(menu, gone);
        if before.contains(w) {
            let k = choose|k: int| 0 <= k < before.len() && before[k] == w;
            assert(all[k] == w);
            let n = choose|n: int| 0 <= n < less.len() && less[n] == w;
            assert(menu[n] == w);
        }
        if all.contains(w) {
            let k = choose|k: int| 0 <= k < all.len() && all[k] == w;
            if k < before.len() {
                assert(before[k] == w);
            } else {
                assert(menu[menu.len() - 1] == w);
            }
        }
        if menu.contains(w) && !gone.contains(w) {
            let n = choose|n: int| 0 <= n < menu.len() && menu[n] == w;
            if n < less.len() {
                assert(less[n] == w);
            } else {
                assert(all[before.len() as int] == w);
            }
        }
    }
}

/// The fresh items go in one below the other, from where the region begins.
pub proof fn fresh_items_go_in_one_below_the_other(at: int, fresh: Seq<u64>, i: int)
    requires
        0 <= i < fresh.len(),
        0 <= at,
    ensures
        insertions(at, fresh).len() == fresh.len(),
        insertions(at, fresh)[i].0 == fresh[i],
        at + i <= i32::MAX ==> insertions(at, fresh)[i].1 == at + i,
        at + i > i32::MAX ==> insertions(at, fresh)[i].1 == i32::MAX,
{
}

/// Each open file has its row, in order, and the active one alone is marked.
pub proof fn an_open_file_has_its_row(
    tabs: Vec<NamedTab>,
    active: Option<usize>,
    r: OpenFiles,
    i: int,
)
    requires
        call_ensures(populate_open_files_menu, (tabs, active), r),
        0 <= i < tabs@.len(),
    ensures
        r matches OpenFiles::Rows(rows) && rows@.len() == tabs@.len() && rows@[i].id == tabs@[i].id
            && rows@[i].name@ == tabs@[i].name@ && (rows@[i].active <==> active is Some
            && active->0 == i),
{
    assert(tabs.len() == tabs@.len());
    assert((i as usize) as int == i);
}

/// A rebuild takes out what was put in last time and puts the fresh items in
/// right before the anchor, one below the other; next time it is these that
/// leave. Without the anchor nothing goes in.
pub proof fn a_rebuild_puts_the_region_before_its_anchor(
    menu: Vec<u64>,
    anchor: u64,
    fresh: Vec<u64>,
    plan: RebuildPlan,
    at: int,
    i: int,
)
    ensures
        forall|t: &mut RegionTracker| #[trigger]
            call_ensures(RegionTracker::rebuild, (t, &menu, Some(anchor), fresh), plan) ==> {
                let rest = without(menu@, t.items@);
                &&& plan.remove@ == t.items@
                &&& !rest.contains(anchor) ==> plan.insert@.len() == 0 && final(t).items@.len() == 0
                &&& 0 <= at < rest.len() && rest[at] == anchor && (forall|j: int|
                    0 <= j < at ==> rest[j] != anchor) ==> {
                    &&& final(t).items@ == fresh@
                    &&& plan.insert@.len() == fresh@.len()
                    &&& 0 <= i < fresh@.len() && at + i <= i32::MAX ==> plan.insert@[i].0
                        == fresh@[i] && plan.insert@[i].1 == at + i
                }
            },
{
    assert forall|t: &mut RegionTracker| #[trigger]
        call_ensures(RegionTracker::rebuild, (t, &menu, Some(anchor), fresh), plan) implies {
        let rest = without(menu@, t.items@);
        0 <= at < rest.len() && rest[at] == anchor && (forall|j: int|
            0 <= j < at ==> rest[j] != anchor) ==> {
            &&& final(t).items@ == fresh@
            &&& plan.insert@ == insertions(at, fresh@)
        }
    } by {
        let rest = without(menu@, t.items@);
        if 0 <= at < rest.len() && rest[at] == anchor && (forall|j: int|
            0 <= j < at ==> rest[j] != anchor) {
            assert(rest.contains(anchor));
            let place = choose|place: int| #[trigger]
                is_place(rest, anchor, place) && plan.insert@ == insertions(place, fresh@);
            if place < at {
                assert(rest[place] != anchor);
            } else if at < place {
                assert(rest[at] != anchor);
            }
        }
    }
}

} // verus!
