//! The slot that holds the window state.
//!
//! A handler borrows the state for the length of one update. GTK can deliver
//! a signal in the middle of such an update, so a second borrow is declined
//! rather than granted, and the handler that asked for it does nothing: the
//! outer update is already under way.
use vstd::prelude::*;

verus! {

/// Where the state stands.
pub enum Holding<S> {
    /// Not installed: before startup is done, or after the window is gone.
    Absent,
    /// Installed and free to borrow.
    Idle(S),
    /// Installed, and borrowed by the update under way.
    Lent,
}

/// The slot, and how many states were ever installed in it. The count tells a
/// state that comes back from a borrow whether it is still the installed one.
pub struct StateSlot<S> {
    holding: Holding<S>,
    installs: u64,
}

/// A borrowed state, with the count it was borrowed under.
pub struct Loan<S> {
    pub state: S,
    pub ticket: u64,
}

/// What a slot holds once a borrow has been asked for.
pub open spec fn after_borrow_request<S>(h: Holding<S>) -> Holding<S> {
    if h is Idle {
        Holding::Lent
    } else {
        h
    }
}

/// What a slot holds once a state borrowed under `ticket` came back to it.
pub open spec fn after_return<S>(h: Holding<S>, installs: nat, ticket: nat, state: S) -> Holding<S> {
    if h is Lent && ticket == installs {
        Holding::Idle(state)
    } else {
        h
    }
}

impl<S> StateSlot<S> {
    /// What the slot holds.
    pub closed spec fn holding(&self) -> Holding<S> {
        self.holding
    }

    /// How many states were installed so far.
    pub closed spec fn installs(&self) -> nat {
        self.installs as nat
    }

    /// An empty slot.
    pub fn new() -> (slot: StateSlot<S>)
        ensures
            slot.holding() == Holding::<S>::Absent,
            slot.installs() == 0,
    {
        StateSlot { holding: Holding::Absent, installs: 0 }
    }

    /// Whether a state is installed, borrowed or not.
    pub fn is_installed(&self) -> (r: bool)
        ensures
            r == !(self.holding() is Absent),
    {
        !matches!(self.holding, Holding::Absent)
    }

    /// Borrow the state. `None`, and no change, unless a state is installed
    /// and nothing else has it.
    pub fn borrow_state(&mut self) -> (r: Option<Loan<S>>)
        ensures
            r is Some <==> old(self).holding() is Idle,
            final(self).installs() == old(self).installs(),
            final(self).holding() == after_borrow_request(old(self).holding()),
            r matches Some(loan) ==> {
                &&& old(self).holding() == Holding::Idle(loan.state)
                &&& loan.ticket == old(self).installs()
            },
    {
        let mut taken: Holding<S> = Holding::Lent;
        std::mem::swap(&mut taken, &mut self.holding);
        match taken {
            Holding::Idle(state) => Some(Loan { state, ticket: self.installs }),
            Holding::Absent => {
                self.holding = Holding::Absent;
                None
            },
            Holding::Lent => None,
        }
    }

    /// Give a borrowed state back. A state that was replaced or dropped while
    /// it was borrowed is handed back to the caller to be torn down.
    pub fn give_back(&mut self, loan: Loan<S>) -> (dropped: Option<S>)
        ensures
            final(self).installs() == old(self).installs(),
            final(self).holding() == after_return(
                old(self).holding(),
                old(self).installs(),
                loan.ticket as nat,
                loan.state,
            ),
            dropped == if old(self).holding() is Lent && loan.ticket == old(self).installs() {
                None
            } else {
                Some(loan.state)
            },
    {
        if matches!(self.holding, Holding::Lent) && loan.ticket == self.installs {
            self.holding = Holding::Idle(loan.state);
            None
        } else {
            Some(loan.state)
        }
    }
}

/// Publish `state`, so that [`with_state`] finds it. Whatever was installed
/// before is replaced, even while it is borrowed.
pub fn install<S>(slot: &mut StateSlot<S>, state: S)
    requires
        old(slot).installs() < u64::MAX,
    ensures
        final(slot).holding() == Holding::Idle(state),
        final(slot).installs() == old(slot).installs() + 1,
{
    slot.holding = Holding::Idle(state);
    slot.installs = slot.installs + 1;
}

/// Drop the installed state. A borrow that is under way keeps its own hold on
/// the state and loses it when it ends.
pub fn uninstall<S>(slot: &mut StateSlot<S>)
    ensures
        final(slot).holding() == Holding::<S>::Absent,
        final(slot).installs() == old(slot).installs(),
{
    slot.holding = Holding::Absent;
}

/// Run `f` against the state, if it is installed and free. `None`, with `f`
/// not called and nothing changed, otherwise.
pub fn with_state<S, R, F: FnOnce(S) -> (S, R)>(slot: &mut StateSlot<S>, f: F) -> (r: Option<R>)
    requires
        old(slot).holding() matches Holding::Idle(s) ==> call_requires(f, (s,)),
    ensures
        r is Some <==> old(slot).holding() is Idle,
        final(slot).installs() == old(slot).installs(),
        old(slot).holding() matches Holding::Idle(s) ==> {
            &&& final(slot).holding() is Idle
            &&& call_ensures(f, (s,), (final(slot).holding()->Idle_0, r->Some_0))
        },
        !(old(slot).holding() is Idle) ==> final(slot).holding() == old(slot).holding(),
{
    match slot.borrow_state() {
        None => None,
        Some(loan) => {
            let ticket: u64 = loan.ticket;
            let (next, out) = f(loan.state);
            let dropped: Option<S> = slot.give_back(Loan { state: next, ticket });
            Some(out)
        },
    }
}

/// While the state is borrowed every further borrow is declined and changes
/// nothing, and giving the state back makes it available again as it now is.
pub proof fn a_borrow_is_exclusive<S>(state: S, next: S, installs: nat)
    ensures
        ({
            let lent = after_borrow_request(Holding::Idle(state));
            &&& !(lent is Idle)
            &&& after_borrow_request(lent) == lent
            &&& after_return(lent, installs, installs, next) == Holding::Idle(next)
        }),
{
}

/// A state that was dropped or replaced while it was borrowed does not come
/// back: its return leaves an empty slot empty, and leaves a later
/// installation, borrowed or not, as it is.
pub proof fn a_replaced_state_does_not_return<S>(
    stale: S,
    current: S,
    ticket: nat,
    installs: nat,
)
    requires
        ticket < installs,
    ensures
        after_return(Holding::<S>::Absent, installs, ticket, stale) == Holding::<S>::Absent,
        after_return(Holding::<S>::Absent, ticket, ticket, stale) == Holding::<S>::Absent,
        after_return(Holding::Idle(current), installs, ticket, stale) == Holding::Idle(current),
        after_return(Holding::<S>::Lent, installs, ticket, stale) == Holding::<S>::Lent,
{
}

/// A state that is borrowed is nobody else's until it comes back, and then it is
/// there again as it came back.
pub proof fn a_loan_comes_back<S>(
    first: Option<Loan<S>>,
    second: Option<Loan<S>>,
    next: S,
    dropped: Option<S>,
)
    ensures
        forall|a: &mut StateSlot<S>, b: &mut StateSlot<S>|
            (#[trigger] call_ensures(StateSlot::<S>::borrow_state, (a,), first)
                && #[trigger] call_ensures(StateSlot::<S>::borrow_state, (b,), second) && *b
                == *final(a)) ==> second is None && final(b).holding() == b.holding(),
        forall|a: &mut StateSlot<S>, b: &mut StateSlot<S>|
            (#[trigger] call_ensures(StateSlot::<S>::borrow_state, (a,), first) && first is Some
                && #[trigger] call_ensures(
                StateSlot::<S>::give_back,
                (b, Loan { state: next, ticket: first->0.ticket }),
                dropped,
            ) && *b == *final(a)) ==> {
                &&& a.holding() == Holding::Idle(first->0.state)
                &&& dropped is None
                &&& final(b).holding() == Holding::Idle(next)
            },
{
}

/// A state that was installed while another one was borrowed stays, and the
/// other is handed back to be torn down; so is one whose slot was emptied.
pub proof fn a_new_state_outlasts_an_old_loan<S>(
    loan: Option<Loan<S>>,
    fresh: S,
    next: S,
    dropped: Option<S>,
)
    ensures
        forall|a: &mut StateSlot<S>, b: &mut StateSlot<S>, c: &mut StateSlot<S>|
            (#[trigger] call_ensures(StateSlot::<S>::borrow_state, (a,), loan) && loan is Some
                && #[trigger] call_ensures(install::<S>, (b, fresh), ()) && *b == *final(a)
                && #[trigger] call_ensures(
                StateSlot::<S>::give_back,
                (c, Loan { state: next, ticket: loan->0.ticket }),
                dropped,
            ) && *c == *final(b)) ==> dropped == Some(next) && final(c).holding() == Holding::Idle(
                fresh,
            ),
        forall|a: &mut StateSlot<S>, b: &mut StateSlot<S>, c: &mut StateSlot<S>|
            (#[trigger] call_ensures(StateSlot::<S>::borrow_state, (a,), loan) && loan is Some
                && #[trigger] call_ensures(uninstall::<S>, (b,), ()) && *b == *final(a)
                && #[trigger] call_ensures(
                StateSlot::<S>::give_back,
                (c, Loan { state: next, ticket: loan->0.ticket }),
                dropped,
            ) && *c == *final(b)) ==> dropped == Some(next) && final(c).holding() is Absent,
{
}

} // verus!
