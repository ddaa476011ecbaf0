//! The decisions of one tick of the logic thread: which events the objects
//! receive, and whether they asked the application to quit. The thread
//! itself (synchronisation, input polling, timing) runs around them.

use vstd::prelude::*;
use crate::events::Event;
use crate::objects::DispatchAction;

verus! {

/// The events of one tick: the polled input events in order, then the
/// creation event on the first tick, then the update with the time delta.
pub open spec fn spec_tick_events<F>(polled: Seq<Event<F>>, first_tick: bool, delta: F) -> Seq<Event<F>> {
    if first_tick {
        polled.push(Event::Create).push(Event::Update(delta))
    } else {
        polled.push(Event::Update(delta))
    }
}

/// The events the objects receive in one tick.
pub fn tick_events<F>(polled: Vec<Event<F>>, first_tick: bool, delta: F) -> (r: Vec<Event<F>>)
    ensures
        r@ == spec_tick_events(polled@, first_tick, delta),
{
    let mut events = polled;
    if first_tick {
        events.push(Event::Create);
    }
    events.push(Event::Update(delta));
    events
}

/// Whether any of the actions asks the application to quit.
pub fn quit_requested<O, R>(actions: &Vec<DispatchAction<O, R>>) -> (r: bool)
    ensures
        r == exists|i: int| 0 <= i < actions@.len() && (#[trigger] actions@[i]) is QuitApplication,
{
    let mut i: usize = 0;
    while i < actions.len()
        invariant
            0 <= i <= actions.len(),
            forall|j: int| 0 <= j < i ==> !((#[trigger] actions@[j]) is QuitApplication),
        decreases actions.len() - i,
    {
        if matches!(actions[i], DispatchAction::QuitApplication) {
            return true;
        }
        i = i + 1;
    }
    false
}

/// A tick keeps every polled input event, in order, ahead of its own
/// events: after them comes the creation event on the first tick only,
/// and the update with the tick's time delta always comes last.
pub proof fn law_tick_keeps_input<F>(polled: Seq<Event<F>>, first_tick: bool, delta: F)
    ensures
        spec_tick_events(polled, first_tick, delta).len() == polled.len() + if first_tick {
            2int
        } else {
            1int
        },
        spec_tick_events(polled, first_tick, delta).take(polled.len() as int) == polled,
        spec_tick_events(polled, first_tick, delta).last() == Event::Update(delta),
        first_tick ==> spec_tick_events(polled, first_tick, delta)[polled.len() as int] == Event::<F>::Create,
{
    let r = spec_tick_events(polled, first_tick, delta);
    if first_tick {
        assert(r.take(polled.len() as int) =~= polled);
    } else {
        assert(r.take(polled.len() as int) =~= polled);
    }
}

} // verus!
