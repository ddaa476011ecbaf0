//! The decisions of a rendezvous: a meeting point where a fixed number of
//! threads wait for each other, which a third party can break for good.
//! The blocking itself (a mutex around this state and a condition
//! variable) belongs to the caller: each transition says whether the
//! arriving thread passes at once or must wait, and when waiters wake.

use vstd::prelude::*;

verus! {

/// What an arriving thread does.
#[derive(Debug, Clone, Copy, PartialEq, Eq, Structural)]
pub enum Arrival {
    /// Passes at once with this result: `true` when it completed the
    /// rendezvous (all waiters are to be woken), `false` when the
    /// rendezvous is broken.
    Passed(bool),
    /// Waits until woken.
    Wait,
}

/// The shared state of a rendezvous for `max_val` threads.
#[derive(Debug)]
pub struct RendezvousState {
    count: u32,
    broken: bool,
    unlocked: bool,
    max_val: u32,
}

/// An abstract view of the state.
pub struct RendezvousView {
    pub count: nat,
    pub broken: bool,
    pub unlocked: bool,
    pub max_val: nat,
}

impl View for RendezvousState {
    type V = RendezvousView;

    closed spec fn view(&self) -> RendezvousView {
        RendezvousView {
            count: self.count as nat,
            broken: self.broken,
            unlocked: self.unlocked,
            max_val: self.max_val as nat,
        }
    }
}

/// Fewer threads than needed are counted (none when the rendezvous needs
/// at most one), and the count fits 32 bits.
pub open spec fn rendezvous_wf(v: RendezvousView) -> bool {
    &&& v.count == 0 || v.count < v.max_val
    &&& v.max_val <= u32::MAX
}

/// An arrival: on a broken or unlocked rendezvous the thread passes with
/// `false`; otherwise it is counted, and the `max_val`-th thread resets the
/// count and passes with `true` while earlier ones wait.
pub open spec fn spec_arrive(v: RendezvousView) -> (RendezvousView, Arrival) {
    if v.unlocked || v.broken {
        (v, Arrival::Passed(false))
    } else if v.count + 1 >= v.max_val {
        (RendezvousView { count: 0, ..v }, Arrival::Passed(true))
    } else {
        (RendezvousView { count: v.count + 1, ..v }, Arrival::Wait)
    }
}

/// What a woken waiter does: keeps waiting (`None`) while threads are
/// counted and the rendezvous is intact; otherwise leaves, with `true`
/// unless the rendezvous was broken.
pub open spec fn spec_waiting_outcome(v: RendezvousView) -> Option<bool> {
    if v.count != 0 && !v.broken {
        None
    } else {
        Some(!v.broken)
    }
}

/// Breaking the rendezvous for good.
pub open spec fn spec_unlock(v: RendezvousView) -> RendezvousView {
    RendezvousView { count: 0, broken: true, unlocked: true, ..v }
}

impl RendezvousState {
    /// A fresh rendezvous for `max_val` threads.
    pub fn new(max_val: u32) -> (r: RendezvousState)
        ensures
            rendezvous_wf(r@),
            r@ == (RendezvousView { count: 0, broken: false, unlocked: false, max_val: max_val as nat }),
    {
        RendezvousState { count: 0, broken: false, unlocked: false, max_val }
    }

    /// A thread arrives (see [`spec_arrive`]).
    pub fn arrive(&mut self) -> (r: Arrival)
        requires
            rendezvous_wf(old(self)@),
        ensures
            rendezvous_wf(final(self)@),
            (final(self)@, r) == spec_arrive(old(self)@),
    {
        if self.unlocked {
            return Arrival::Passed(false);
        }
        if self.broken {
            return Arrival::Passed(false);
        }
        self.count = self.count + 1;
        if self.count >= self.max_val {
            self.count = 0;
            Arrival::Passed(true)
        } else {
            Arrival::Wait
        }
    }

    /// What a woken waiter does (see [`spec_waiting_outcome`]).
    pub fn waiting_outcome(&self) -> (r: Option<bool>)
        ensures
            r == spec_waiting_outcome(self@),
    {
        if self.count != 0 && !self.broken {
            None
        } else {
            Some(!self.broken)
        }
    }

    /// Breaks the rendezvous for good: every waiter is to be woken and
    /// every later arrival passes with `false`.
    pub fn unlock(&mut self)
        requires
            rendezvous_wf(old(self)@),
        ensures
            rendezvous_wf(final(self)@),
            final(self)@ == spec_unlock(old(self)@),
    {
        self.unlocked = true;
        self.broken = true;
        self.count = 0;
    }

    /// Number of threads the rendezvous waits for.
    pub fn max_val(&self) -> (r: u32)
        ensures
            r == self@.max_val,
    {
        self.max_val
    }
}

/// The state and the last arrival's outcome after `n` arrivals.
pub open spec fn arrive_n(v: RendezvousView, n: nat) -> (RendezvousView, Arrival)
    decreases n,
{
    if n == 0 {
        (v, Arrival::Wait)
    } else {
        spec_arrive(arrive_n(v, (n - 1) as nat).0)
    }
}

/// On a fresh rendezvous for `m` threads, each of the first `m - 1`
/// arrivals waits, the `m`-th passes with `true` and resets the count, so
/// that every waiter then wakes with `true`.
pub proof fn law_rendezvous_round(m: nat)
    requires
        m >= 1,
        m <= u32::MAX,
    ensures
        forall|n: nat|
            1 <= n < m ==> (#[trigger] arrive_n(
                RendezvousView { count: 0, broken: false, unlocked: false, max_val: m },
                n,
            )).1 == Arrival::Wait,
        arrive_n(RendezvousView { count: 0, broken: false, unlocked: false, max_val: m }, m).1
            == Arrival::Passed(true),
        arrive_n(RendezvousView { count: 0, broken: false, unlocked: false, max_val: m }, m).0.count
            == 0,
        spec_waiting_outcome(
            arrive_n(RendezvousView { count: 0, broken: false, unlocked: false, max_val: m }, m).0,
        ) == Some(true),
{
    let v0 = RendezvousView { count: 0, broken: false, unlocked: false, max_val: m };
    assert forall|n: nat| 1 <= n < m implies (#[trigger] arrive_n(v0, n)).1 == Arrival::Wait by {
        lemma_arrive_counts(v0, n);
    }
    lemma_arrive_counts(v0, (m - 1) as nat);
}

proof fn lemma_arrive_counts(v0: RendezvousView, n: nat)
    requires
        v0.count == 0,
        !v0.broken,
        !v0.unlocked,
        n < v0.max_val,
    ensures
        arrive_n(v0, n).0 == (RendezvousView { count: n, ..v0 }),
        n >= 1 ==> arrive_n(v0, n).1 == Arrival::Wait,
    decreases n,
{
    if n > 0 {
        lemma_arrive_counts(v0, (n - 1) as nat);
    }
}

/// After an unlock, any number of further arrivals pass with `false`
/// without changing the state, and waiters wake with `false`.
pub proof fn law_unlock_is_final(v: RendezvousView, n: nat)
    requires
        n >= 1,
    ensures
        arrive_n(spec_unlock(v), n).0 == spec_unlock(v),
        arrive_n(spec_unlock(v), n).1 == Arrival::Passed(false),
        spec_waiting_outcome(arrive_n(spec_unlock(v), n).0) == Some(false),
    decreases n,
{
    if n > 1 {
        law_unlock_is_final(v, (n - 1) as nat);
    } else {
        assert(arrive_n(spec_unlock(v), 0).0 == spec_unlock(v));
    }
}

/// Arrivals compose: `a` arrivals and then `b` more are `a + b` arrivals.
proof fn lemma_arrive_add(v: RendezvousView, a: nat, b: nat)
    ensures
        arrive_n(v, a + b).0 == arrive_n(arrive_n(v, a).0, b).0,
        b >= 1 ==> arrive_n(v, a + b).1 == arrive_n(arrive_n(v, a).0, b).1,
    decreases b,
{
    if b > 0 {
        lemma_arrive_add(v, a, (b - 1) as nat);
        assert((a + b - 1) as nat == a + (b - 1) as nat);
    }
}

/// Rounds repeat: on a fresh rendezvous for `m` threads that is never
/// unlocked, after `r` full rounds the state is fresh again, and in the
/// next round the first `m - 1` arrivals wait and the `m`-th passes with
/// `true`.
pub proof fn law_rendezvous_rounds(m: nat, r: nat)
    requires
        m >= 1,
        m <= u32::MAX,
    ensures
        arrive_n(RendezvousView { count: 0, broken: false, unlocked: false, max_val: m }, r * m).0
            == (RendezvousView { count: 0, broken: false, unlocked: false, max_val: m }),
        forall|j: nat|
            1 <= j < m ==> (#[trigger] arrive_n(
                RendezvousView { count: 0, broken: false, unlocked: false, max_val: m },
                r * m + j,
            )).1 == Arrival::Wait,
        arrive_n(RendezvousView { count: 0, broken: false, unlocked: false, max_val: m }, r * m + m).1
            == Arrival::Passed(true),
    decreases r,
{
    let v0 = RendezvousView { count: 0, broken: false, unlocked: false, max_val: m };
    law_rendezvous_round(m);
    lemma_arrive_counts(v0, (m - 1) as nat);
    assert(arrive_n(v0, m).0 == v0);
    if r > 0 {
        law_rendezvous_rounds(m, (r - 1) as nat);
        assert(r * m == (r - 1) * m + m) by (nonlinear_arith);
        lemma_arrive_add(v0, ((r - 1) * m) as nat, m);
    } else {
        assert(r * m == 0) by (nonlinear_arith)
            requires
                r == 0,
        ;
    }
    assert forall|j: nat| 1 <= j < m implies (#[trigger] arrive_n(v0, r * m + j)).1 == Arrival::Wait by {
        lemma_arrive_add(v0, r * m, j);
        lemma_arrive_counts(v0, j);
    }
    lemma_arrive_add(v0, r * m, m);
}

/// A rendezvous for at most one thread never makes a thread wait: until
/// it is unlocked, every arrival passes with `true` and leaves it as it
/// was.
pub proof fn law_rendezvous_single(m: nat, n: nat)
    requires
        m <= 1,
        n >= 1,
    ensures
        arrive_n(RendezvousView { count: 0, broken: false, unlocked: false, max_val: m }, n).1
            == Arrival::Passed(true),
        arrive_n(RendezvousView { count: 0, broken: false, unlocked: false, max_val: m }, n).0
            == (RendezvousView { count: 0, broken: false, unlocked: false, max_val: m }),
    decreases n,
{
    let v0 = RendezvousView { count: 0, broken: false, unlocked: false, max_val: m };
    if n > 1 {
        law_rendezvous_single(m, (n - 1) as nat);
    } else {
        assert(arrive_n(v0, 0).0 == v0);
    }
    assert(arrive_n(v0, (n - 1) as nat).0 == v0);
    assert(arrive_n(v0, n) == spec_arrive(v0));
    assert(spec_arrive(v0).0 =~= v0);
}

/// A woken waiter keeps waiting while some threads are counted and the
/// rendezvous is intact; it leaves with `true` only once the count was
/// reset by a completed round of an intact rendezvous, and with `false`
/// once the rendezvous is broken. In particular, on a fresh rendezvous for
/// `m` threads, after fewer than `m` arrivals every waiter keeps waiting.
pub proof fn law_waiters_wait_for_all(v: RendezvousView, m: nat, n: nat)
    ensures
        v.count != 0 && !v.broken ==> spec_waiting_outcome(v) is None,
        spec_waiting_outcome(v) == Some(true) ==> v.count == 0 && !v.broken,
        v.broken ==> spec_waiting_outcome(v) == Some(false),
        m <= u32::MAX && 1 <= n < m ==> spec_waiting_outcome(
            arrive_n(RendezvousView { count: 0, broken: false, unlocked: false, max_val: m }, n).0,
        ) is None,
{
    if m <= u32::MAX && 1 <= n < m {
        lemma_arrive_counts(RendezvousView { count: 0, broken: false, unlocked: false, max_val: m }, n);
    }
}

} // verus!
