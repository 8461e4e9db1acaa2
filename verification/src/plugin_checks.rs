//! The ticks that plugins put on their menu items.
//!
//! The Plugins menu is made anew each time it opens, so a tick cannot live on
//! an item; it is kept here under the item's command.
use std::collections::{HashMap, HashSet};
use vstd::prelude::*;

verus! {

broadcast use vstd::std_specs::hash::group_hash_axioms;

/// A command as a plugin publishes it: its number, whether it is a command and
/// no separator, and whether it starts out ticked.
pub type PublishedCommand = (i32, bool, bool);

/// The commands that plugins have published, and the ticks they have set.
#[derive(Debug)]
pub struct PluginChecks {
    commands: HashSet<i32>,
    marks: HashMap<i32, bool>,
}

/// A command is published in `funcs`.
pub open spec fn publishes(funcs: Seq<PublishedCommand>, cmd: i32) -> bool {
    exists|i: int| 0 <= i < funcs.len() && (#[trigger] funcs[i]).0 == cmd && funcs[i].1
}

/// A command is published in `funcs` as one that starts out ticked.
pub open spec fn publishes_ticked(funcs: Seq<PublishedCommand>, cmd: i32) -> bool {
    exists|i: int|
        0 <= i < funcs.len() && (#[trigger] funcs[i]).0 == cmd && funcs[i].1 && funcs[i].2
}

/// The tick after a command was published: one that was set stays as it is.
pub open spec fn seeded(before: Option<bool>, ticked: bool) -> Option<bool> {
    if before is None && ticked {
        Some(true)
    } else {
        before
    }
}

impl Default for PluginChecks {
    /// No command, and no tick.
    fn default() -> (c: PluginChecks)
        ensures
            c.wf(),
            forall|cmd: i32| !c.is_known(cmd) && c.mark(cmd) is None,
    {
        PluginChecks { commands: HashSet::new(), marks: HashMap::new() }
    }
}

impl PluginChecks {
    /// A command has been published.
    pub closed spec fn is_known(&self, cmd: i32) -> bool {
        self.commands@.contains(cmd)
    }

    /// The tick of a command, set or unset, if there has been one.
    pub closed spec fn mark(&self, cmd: i32) -> Option<bool> {
        if self.marks@.contains_key(cmd) {
            Some(self.marks@[cmd])
        } else {
            None
        }
    }

    /// Only published commands have a tick.
    pub open spec fn wf(&self) -> bool {
        forall|cmd: i32| (#[trigger] self.mark(cmd)) is Some ==> self.is_known(cmd)
    }

    /// Take in the commands that plugins publish. One that starts out ticked
    /// is ticked, unless its plugin has said otherwise since.
    pub fn absorb(&mut self, funcs: Vec<PublishedCommand>)
        requires
            old(self).wf(),
        ensures
            final(self).wf(),
            forall|cmd: i32| #[trigger]
                final(self).is_known(cmd) <==> old(self).is_known(cmd) || publishes(funcs@, cmd),
            forall|cmd: i32| #[trigger]
                final(self).mark(cmd) == seeded(old(self).mark(cmd), publishes_ticked(funcs@, cmd)),
    {
        let ghost before = *self;
        let mut i: usize = 0;
        while i < funcs.len()
            invariant
                i <= funcs@.len(),
                before.wf(),
                forall|cmd: i32| #[trigger]
                    self.is_known(cmd) <==> before.is_known(cmd) || publishes(
                        funcs@.take(i as int),
                        cmd,
                    ),
                forall|cmd: i32| #[trigger]
                    self.mark(cmd) == seeded(
                        before.mark(cmd),
                        publishes_ticked(funcs@.take(i as int), cmd),
                    ),
            decreases funcs.len() - i,
        {
            let (cmd, is_command, ticked): (i32, bool, bool) = funcs[i];
            let ghost mid = *self;
            proof {
                one_more(funcs@, i as int);
            }
            if is_command {
                self.commands.insert(cmd);
                if ticked && !self.marks.contains_key(&cmd) {
                    self.marks.insert(cmd, true);
                }
            }
            proof {
                let next = funcs@.take(i + 1);
                assert forall|c: i32| #[trigger]
                    self.is_known(c) <==> before.is_known(c) || publishes(next, c) by {
                    assert(mid.is_known(c) <==> before.is_known(c) || publishes(
                        funcs@.take(i as int),
                        c,
                    ));
                }
                assert forall|c: i32| #[trigger]
                    self.mark(c) == seeded(before.mark(c), publishes_ticked(next, c)) by {
                    assert(mid.mark(c) == seeded(
                        before.mark(c),
                        publishes_ticked(funcs@.take(i as int), c),
                    ));
                }
            }
            i += 1;
        }
        assert(funcs@.take(i as int) =~= funcs@);
        proof {
            assert forall|cmd: i32| (#[trigger] self.mark(cmd)) is Some implies self.is_known(
                cmd,
            ) by {
                if before.mark(cmd) is None {
                    let k = choose|k: int|
                        0 <= k < funcs@.len() && (#[trigger] funcs@[k]).0 == cmd && funcs@[k].1
                            && funcs@[k].2;
                    assert(publishes(funcs@, cmd));
                } else {
                    assert(before.is_known(cmd));
                }
            }
        }
    }

    /// Set or unset the tick of a command. `false`, with nothing changed, for
    /// a number that no plugin has published as a command.
    pub fn set(&mut self, cmd: i32, checked: bool) -> (r: bool)
        requires
            old(self).wf(),
        ensures
            final(self).wf(),
            r == old(self).is_known(cmd),
            forall|c: i32| #[trigger] final(self).is_known(c) == old(self).is_known(c),
            forall|c: i32| #[trigger]
                final(self).mark(c) == if r && c == cmd {
                    Some(checked)
                } else {
                    old(self).mark(c)
                },
    {
        if !self.commands.contains(&cmd) {
            return false;
        }
        self.marks.insert(cmd, checked);
        assert forall|c: i32| (#[trigger] self.mark(c)) is Some implies self.is_known(c) by {
            if c != cmd {
                assert(old(self).mark(c) is Some);
                assert(old(self).is_known(c));
            }
        }
        true
    }

    /// The tick of a command, if there has been one.
    pub fn get(&self, cmd: i32) -> (r: Option<bool>)
        ensures
            r == self.mark(cmd),
    {
        match self.marks.get(&cmd) {
            Some(mark) => Some(*mark),
            None => None,
        }
    }
}

proof fn one_more(funcs: Seq<PublishedCommand>, i: int)
    requires
        0 <= i < funcs.len(),
    ensures
        forall|cmd: i32| #[trigger]
            publishes(funcs.take(i + 1), cmd) <==> publishes(funcs.take(i), cmd) || (funcs[i].0
                == cmd && funcs[i].1),
        forall|cmd: i32| #[trigger]
            publishes_ticked(funcs.take(i + 1), cmd) <==> publishes_ticked(funcs.take(i), cmd) || (
            funcs[i].0 == cmd && funcs[i].1 && funcs[i].2),
{
    let a = funcs.take(i);
    let b = funcs.take(i + 1);
    assert forall|cmd: i32| #[trigger]
        publishes(b, cmd) <==> publishes(a, cmd) || (funcs[i].0 == cmd && funcs[i].1) by {
        if publishes(a, cmd) {
            let k = choose|k: int| 0 <= k < a.len() && (#[trigger] a[k]).0 == cmd && a[k].1;
            assert(b[k] == a[k]);
        }
        if funcs[i].0 == cmd && funcs[i].1 {
            assert(b[i].0 == cmd);
        }
        if publishes(b, cmd) {
            let k = choose|k: int| 0 <= k < b.len() && (#[trigger] b[k]).0 == cmd && b[k].1;
            if k < i {
                assert(a[k] == b[k]);
            }
        }
    }
    assert forall|cmd: i32| #[trigger]
        publishes_ticked(b, cmd) <==> publishes_ticked(a, cmd) || (funcs[i].0 == cmd && funcs[i].1
            && funcs[i].2) by {
        if publishes_ticked(a, cmd) {
            let k = choose|k: int|
                0 <= k < a.len() && (#[trigger] a[k]).0 == cmd && a[k].1 && a[k].2;
            assert(b[k] == a[k]);
        }
        if funcs[i].0 == cmd && funcs[i].1 && funcs[i].2 {
            assert(b[i].0 == cmd);
        }
        if publishes_ticked(b, cmd) {
            let k = choose|k: int|
                0 <= k < b.len() && (#[trigger] b[k]).0 == cmd && b[k].1 && b[k].2;
            if k < i {
                assert(a[k] == b[k]);
            }
        }
    }
}

/// A tick that a plugin has set or unset outlasts every later load: taking the
/// same commands in again does not bring an unticked one back.
pub proof fn a_plugins_word_stands(before: Option<bool>, checked: bool, ticked: bool)
    ensures
        seeded(Some(checked), ticked) == Some(checked),
        seeded(seeded(before, ticked), ticked) == seeded(before, ticked),
{
}

/// What plugins publish is known from then on, and nothing else comes to be
/// known by it: a separator is no command. A command that starts out ticked is
/// ticked unless it has a mark already; no other mark changes.
pub proof fn what_is_published_is_known(funcs: Vec<PublishedCommand>, cmd: i32, k: int)
    ensures
        forall|c: &mut PluginChecks| #[trigger]
            call_ensures(PluginChecks::absorb, (c, funcs), ()) ==> {
                &&& c.is_known(cmd) ==> final(c).is_known(cmd)
                &&& 0 <= k < funcs@.len() && funcs@[k].0 == cmd && funcs@[k].1 ==> final(
                    c).is_known(cmd)
                &&& !c.is_known(cmd) && (forall|i: int|
                    0 <= i < funcs@.len() ==> (#[trigger] funcs@[i]).0 != cmd || !funcs@[i].1)
                    ==> !final(c).is_known(cmd)
                &&& c.mark(cmd) is Some ==> final(c).mark(cmd) == c.mark(cmd)
                &&& c.mark(cmd) is None && 0 <= k < funcs@.len() && funcs@[k].0 == cmd
                    && funcs@[k].1 && funcs@[k].2 ==> final(c).mark(cmd) == Some(true)
                &&& c.mark(cmd) is None && (forall|i: int|
                    0 <= i < funcs@.len() ==> (#[trigger] funcs@[i]).0 != cmd || !funcs@[i].1
                        || !funcs@[i].2) ==> final(c).mark(cmd) is None
            },
{
    assert forall|c: &mut PluginChecks| #[trigger]
        call_ensures(PluginChecks::absorb, (c, funcs), ()) implies {
        &&& 0 <= k < funcs@.len() && funcs@[k].0 == cmd && funcs@[k].1 ==> final(c).is_known(cmd)
        &&& c.mark(cmd) is None && 0 <= k < funcs@.len() && funcs@[k].0 == cmd && funcs@[k].1
            && funcs@[k].2 ==> final(c).mark(cmd) == Some(true)
    } by {
        if 0 <= k < funcs@.len() && funcs@[k].0 == cmd && funcs@[k].1 {
            assert(publishes(funcs@, cmd));
            assert(final(c).is_known(cmd) <==> c.is_known(cmd) || publishes(funcs@, cmd));
            if funcs@[k].2 {
                assert(publishes_ticked(funcs@, cmd));
                assert(final(c).mark(cmd) == seeded(c.mark(cmd), publishes_ticked(funcs@, cmd)));
            }
        }
    }
}

/// A tick is what it was last set to, for the command it was set for and for no
/// other; a number that no plugin has published takes none.
pub proof fn a_tick_is_read_as_it_was_set(
    cmd: i32,
    other: i32,
    checked: bool,
    taken: bool,
    read: Option<bool>,
)
    ensures
        forall|c: &mut PluginChecks| #[trigger]
            call_ensures(PluginChecks::set, (c, cmd, checked), taken) ==> {
                &&& taken <==> c.is_known(cmd)
                &&& taken && call_ensures(PluginChecks::get, (final(c), cmd), read) ==> read
                    == Some(checked)
                &&& !taken ==> final(c).mark(cmd) == c.mark(cmd)
                &&& other != cmd ==> final(c).mark(other) == c.mark(other)
                &&& final(c).is_known(other) == c.is_known(other)
            },
{
    assert forall|c: &mut PluginChecks| #[trigger]
        call_ensures(PluginChecks::set, (c, cmd, checked), taken) implies {
        &&& taken ==> final(c).mark(cmd) == Some(checked)
        &&& !taken ==> final(c).mark(cmd) == c.mark(cmd)
        &&& other != cmd ==> final(c).mark(other) == c.mark(other)
        &&& final(c).is_known(other) == c.is_known(other)
    } by {}
}

} // verus!
