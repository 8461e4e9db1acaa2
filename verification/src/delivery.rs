//! Queues and guards that keep nested main loops in order.
//!
//! A modal dialog, or a plugin's handler, runs inside the delivery that
//! started it and may cause more deliveries. Those are queued and made by the
//! delivery already under way, so that deliveries never nest.
use vstd::prelude::*;
use std::collections::VecDeque;

verus! {

/// Items waiting for delivery, and whether a delivery is under way.
pub struct DeliveryQueue<T> {
    waiting: VecDeque<T>,
    delivering: bool,
}

impl<T> DeliveryQueue<T> {
    /// The items that wait, first to come first.
    pub closed spec fn waiting(&self) -> Seq<T> {
        self.waiting@
    }

    /// Whether a delivery is under way.
    pub closed spec fn delivering(&self) -> bool {
        self.delivering
    }

    /// Nothing waiting, nothing under way.
    pub fn new() -> (q: DeliveryQueue<T>)
        ensures
            q.waiting() == Seq::<T>::empty(),
            !q.delivering(),
    {
        DeliveryQueue { waiting: VecDeque::new(), delivering: false }
    }

    /// Add items behind those that wait. `true` if the caller is to deliver
    /// them, which is then under way; `false` if a delivery is under way
    /// already and will come to them.
    pub fn start(&mut self, items: Vec<T>) -> (mine: bool)
        ensures
            final(self).waiting() == old(self).waiting() + items@,
            final(self).delivering(),
            mine == !old(self).delivering(),
    {
        let ghost before = self.waiting@;
        let ghost all = items@;
        let mut rest: Vec<T> = items;
        let mut reversed: Vec<T> = Vec::new();
        while rest.len() > 0
            invariant
                rest@.len() <= all.len(),
                rest@ =~= all.take(rest@.len() as int),
                reversed@ =~= all.skip(rest@.len() as int).reverse(),
            decreases rest.len(),
        {
            let ghost n = rest@.len();
            match rest.pop() {
                Some(item) => {
                    reversed.push(item);
                    assert(all.skip(n - 1) =~= seq![all[n - 1]] + all.skip(n as int));
                },
                None => {},
            }
        }
        while reversed.len() > 0
            invariant
                reversed@.len() <= all.len(),
                self.waiting@ =~= before + all.take(all.len() - reversed@.len()),
                reversed@ =~= all.skip(all.len() - reversed@.len()).reverse(),
                self.delivering == old(self).delivering,
            decreases reversed.len(),
        {
            let ghost n = all.len() - reversed@.len();
            assert(reversed@[reversed@.len() - 1] == all.skip(n)[0]);
            match reversed.pop() {
                Some(item) => {
                    self.waiting.push_back(item);
                },
                None => {},
            }
        }
        let mine: bool = !self.delivering;
        self.delivering = true;
        mine
    }

    /// The next item to deliver. `None` ends the delivery.
    pub fn next(&mut self) -> (r: Option<T>)
        ensures
            match r {
                Some(item) => {
                    &&& old(self).waiting().len() > 0
                    &&& item == old(self).waiting()[0]
                    &&& final(self).waiting() == old(self).waiting().skip(1)
                    &&& final(self).delivering() == old(self).delivering()
                },
                None => {
                    &&& old(self).waiting().len() == 0
                    &&& final(self).waiting() == old(self).waiting()
                    &&& !final(self).delivering()
                },
            },
    {
        match self.waiting.pop_front() {
            Some(item) => {
                assert(self.waiting@ =~= old(self).waiting@.skip(1));
                Some(item)
            },
            None => {
                self.delivering = false;
                None
            },
        }
    }

    /// End a delivery that was cut short; what waits stays.
    pub fn abandon(&mut self)
        ensures
            final(self).waiting() == old(self).waiting(),
            !final(self).delivering(),
    {
        self.delivering = false;
    }
}

/// What a delivery hands out of a queue that others add to on the way. Before
/// its `i`-th item is taken, `added[i]` came in; it stops when nothing waits.
pub open spec fn handed_out<T>(waiting: Seq<T>, added: Seq<Seq<T>>) -> Seq<T>
    decreases added.len(),
{
    if added.len() == 0 {
        waiting
    } else {
        let now = waiting + added[0];
        if now.len() == 0 {
            Seq::empty()
        } else {
            seq![now[0]] + handed_out(now.skip(1), added.skip(1))
        }
    }
}

/// Everything that came in, in the order in which it came.
pub open spec fn all_added<T>(added: Seq<Seq<T>>) -> Seq<T>
    decreases added.len(),
{
    if added.len() == 0 {
        Seq::empty()
    } else {
        added[0] + all_added(added.skip(1))
    }
}

/// A delivery hands out what came in, once each, in the order in which it came
/// in, no matter when that was; and all of it, if it was never short of items.
pub proof fn deliveries_keep_order<T>(waiting: Seq<T>, added: Seq<Seq<T>>)
    ensures
        handed_out(waiting, added).is_prefix_of(waiting + all_added(added)),
        waiting.len() >= added.len() ==> handed_out(waiting, added) == waiting + all_added(added),
    decreases added.len(),
{
    let all = waiting + all_added(added);
    if added.len() == 0 {
        assert(all =~= waiting);
    } else {
        let now = waiting + added[0];
        let rest = now.skip(1) + all_added(added.skip(1));
        if now.len() > 0 {
            deliveries_keep_order(now.skip(1), added.skip(1));
            assert(all =~= seq![now[0]] + rest);
            let tail = handed_out(now.skip(1), added.skip(1));
            assert(handed_out(waiting, added) =~= seq![now[0]] + tail);
            assert(tail =~= rest.subrange(0, tail.len() as int));
            assert(handed_out(waiting, added) =~= all.subrange(0, 1 + tail.len() as int));
        } else {
            assert(handed_out(waiting, added) =~= all.subrange(0, 0));
        }
    }
}

/// How many operations are holding back the shell's drains.
pub struct DrainFreeze {
    depth: u32,
}

impl DrainFreeze {
    pub closed spec fn depth(&self) -> nat {
        self.depth as nat
    }

    /// Nothing holds back drains.
    pub fn new() -> (f: DrainFreeze)
        ensures
            f.depth() == 0,
    {
        DrainFreeze { depth: 0 }
    }

    /// Hold back drains until the matching [`DrainFreeze::lift`].
    pub fn hold(&mut self)
        requires
            old(self).depth() < u32::MAX,
        ensures
            final(self).depth() == old(self).depth() + 1,
    {
        self.depth = self.depth + 1;
    }

    /// Give up one hold; without any, nothing changes.
    pub fn lift(&mut self)
        ensures
            final(self).depth() == if old(self).depth() == 0 {
                0
            } else {
                (old(self).depth() - 1) as nat
            },
    {
        self.depth = self.depth.saturating_sub(1);
    }

    /// Whether drains are held back.
    pub fn active(&self) -> (r: bool)
        ensures
            r == (self.depth() > 0),
    {
        self.depth > 0
    }
}

/// The depth after a row of holds (`true`) and lifts (`false`).
pub open spec fn depth_after(depth: nat, ops: Seq<bool>) -> nat
    decreases ops.len(),
{
    if ops.len() == 0 {
        depth
    } else {
        let before = depth_after(depth, ops.drop_last());
        if ops.last() {
            before + 1
        } else if before == 0 {
            0
        } else {
            (before - 1) as nat
        }
    }
}

/// The holds of a row, less its lifts.
pub open spec fn net(ops: Seq<bool>) -> int
    decreases ops.len(),
{
    if ops.len() == 0 {
        0
    } else {
        net(ops.drop_last()) + if ops.last() {
            1int
        } else {
            -1
        }
    }
}

/// A freeze stays while the operations nested inside it hold and lift their
/// own: as long as no prefix of theirs lifts more than it held, the depth
/// never falls below what it was.
pub proof fn nested_holds_do_not_thaw(depth: nat, ops: Seq<bool>)
    requires
        forall|i: int| 0 <= i <= ops.len() ==> net(#[trigger] ops.take(i)) >= 0,
    ensures
        depth_after(depth, ops) == depth + net(ops),
        depth > 0 ==> depth_after(depth, ops) > 0,
    decreases ops.len(),
{
    assert(ops.take(ops.len() as int) =~= ops);
    if ops.len() > 0 {
        let before = ops.drop_last();
        assert forall|i: int| 0 <= i <= before.len() implies net(#[trigger] before.take(i)) >= 0 by {
            assert(before.take(i) =~= ops.take(i));
        }
        nested_holds_do_not_thaw(depth, before);
        assert(before.take(before.len() as int) =~= before);
    }
}

/// A latch that a handler's own doing must not pass a second time.
pub struct Latch {
    set: bool,
}

impl Latch {
    pub closed spec fn is_set(&self) -> bool {
        self.set
    }

    pub fn new() -> (l: Latch)
        ensures
            !l.is_set(),
    {
        Latch { set: false }
    }

    /// Whether the latch is set.
    pub fn get(&self) -> (r: bool)
        ensures
            r == self.is_set(),
    {
        self.set
    }

    /// Set the latch. `false`, and no change, if it was set already.
    pub fn try_set(&mut self) -> (mine: bool)
        ensures
            mine == !old(self).is_set(),
            final(self).is_set(),
    {
        let mine: bool = !self.set;
        self.set = true;
        mine
    }

    /// Open the latch again.
    pub fn release(&mut self)
        ensures
            !final(self).is_set(),
    {
        self.set = false;
    }
}

/// What comes in first goes out first: of items added to a queue and then asked
/// for, the first to go out is the one that waited longest, and the others stay
/// behind it in order. Who adds to a queue at rest is the one to deliver.
pub proof fn first_in_first_out<T>(items: Vec<T>, mine: bool, r: Option<T>)
    ensures
        forall|q: &mut DeliveryQueue<T>, later: &mut DeliveryQueue<T>|
            (#[trigger] call_ensures(DeliveryQueue::<T>::start, (q, items), mine)
                && #[trigger] call_ensures(DeliveryQueue::<T>::next, (later,), r) && *later
                == *final(q)) ==> {
                &&& mine <==> !q.delivering()
                &&& r is None <==> q.waiting().len() == 0 && items@.len() == 0
                &&& r matches Some(item) ==> {
                    &&& q.waiting().len() > 0 ==> item == q.waiting()[0]
                    &&& q.waiting().len() == 0 ==> item == items@[0]
                    &&& seq![item] + final(later).waiting() == q.waiting() + items@
                    &&& final(later).delivering()
                }
                &&& r is None ==> !final(later).delivering() && final(later).waiting().len() == 0
            },
{
    assert forall|q: &mut DeliveryQueue<T>, later: &mut DeliveryQueue<T>|
        (#[trigger] call_ensures(DeliveryQueue::<T>::start, (q, items), mine)
            && #[trigger] call_ensures(DeliveryQueue::<T>::next, (later,), r) && *later
            == *final(q) && r is Some) implies seq![r->0] + final(later).waiting() == q.waiting()
        + items@ by {
        assert(seq![r->0] + final(later).waiting() =~= q.waiting() + items@);
    }
}

/// A hold that is lifted leaves things as they were, and drains are held back
/// in between; a lift without a hold changes nothing.
pub proof fn a_lift_takes_back_a_hold(before: bool, between: bool, after: bool)
    ensures
        forall|f: &mut DrainFreeze, g: &mut DrainFreeze|
            (#[trigger] call_ensures(DrainFreeze::hold, (f,), ()) && #[trigger] call_ensures(
                DrainFreeze::lift,
                (g,),
                (),
            ) && *g == *final(f)) ==> {
                &&& final(g).depth() == f.depth()
                &&& call_ensures(DrainFreeze::active, (g,), between) ==> between
                &&& call_ensures(DrainFreeze::active, (f,), before) && call_ensures(
                    DrainFreeze::active,
                    (final(g),),
                    after,
                ) ==> before == after
            },
        forall|f: &mut DrainFreeze| #[trigger]
            call_ensures(DrainFreeze::lift, (f,), ()) && f.depth() == 0 ==> final(f).depth() == 0,
{
}

/// A latch lets one through: whoever sets it finds it open, whoever comes next
/// finds it set, until it is opened again.
pub proof fn a_latch_lets_one_through(first: bool, second: bool, third: bool)
    ensures
        forall|l: &mut Latch, m: &mut Latch|
            (#[trigger] call_ensures(Latch::try_set, (l,), first) && #[trigger] call_ensures(
                Latch::try_set,
                (m,),
                second,
            ) && *m == *final(l)) ==> !second && (first <==> !l.is_set()),
        forall|l: &mut Latch, m: &mut Latch|
            (#[trigger] call_ensures(Latch::release, (l,), ()) && #[trigger] call_ensures(
                Latch::try_set,
                (m,),
                third,
            ) && *m == *final(l)) ==> third,
{
}

} // verus!
