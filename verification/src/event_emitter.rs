//! The event emitter: subscriptions by kind of event, the events emitted,
//! and the events scheduled for a later time.

use crate::event::{AppEvent, AppEventType, AppEventView};
use crate::view_state::same_text;
use vstd::prelude::*;

verus! {

/// An event that waits for its time, in milliseconds.
#[derive(Debug)]
pub struct ScheduledEvent {
    pub due: u64,
    pub event: AppEvent,
}

/// What a scheduled event holds.
pub struct ScheduledView {
    pub due: u64,
    pub event: AppEventView,
}

impl View for ScheduledEvent {
    type V = ScheduledView;

    open spec fn view(&self) -> ScheduledView {
        ScheduledView { due: self.due, event: self.event@ }
    }
}

/// What an emitter holds: the kind that each handler subscribed to, in the
/// order of subscription; the scheduled events in the order in which they
/// were scheduled; and the events emitted and not yet taken, oldest first.
pub struct EmitterView {
    pub subscriptions: Seq<AppEventType>,
    pub scheduled: Seq<ScheduledView>,
    pub emitted: Seq<AppEventView>,
}

/// The handlers that subscribed to a kind of event, in the order of
/// subscription.
pub open spec fn subscribers(subscriptions: Seq<AppEventType>, kind: AppEventType) -> Seq<usize>
    decreases subscriptions.len(),
{
    if subscriptions.len() == 0 {
        Seq::empty()
    } else if subscriptions.last() == kind {
        subscribers(subscriptions.drop_last(), kind).push((subscriptions.len() - 1) as usize)
    } else {
        subscribers(subscriptions.drop_last(), kind)
    }
}

/// Whether a scheduled event asks to clear the error message of the input
/// `id`.
pub open spec fn clears(entry: ScheduledView, id: Seq<char>) -> bool {
    entry.event == (AppEventView::ClearErrorMessage { id })
}

/// The scheduled events without those that ask to clear the error message
/// of the input `id`.
pub open spec fn without_clear(scheduled: Seq<ScheduledView>, id: Seq<char>) -> Seq<ScheduledView>
    decreases scheduled.len(),
{
    if scheduled.len() == 0 {
        Seq::empty()
    } else if clears(scheduled.last(), id) {
        without_clear(scheduled.drop_last(), id)
    } else {
        without_clear(scheduled.drop_last(), id).push(scheduled.last())
    }
}

/// The events whose time has come, in the order in which they were
/// scheduled.
pub open spec fn due_events(scheduled: Seq<ScheduledView>, now: u64) -> Seq<AppEventView>
    decreases scheduled.len(),
{
    if scheduled.len() == 0 {
        Seq::empty()
    } else if scheduled.last().due <= now {
        due_events(scheduled.drop_last(), now).push(scheduled.last().event)
    } else {
        due_events(scheduled.drop_last(), now)
    }
}

/// The scheduled events whose time has not come.
pub open spec fn not_due(scheduled: Seq<ScheduledView>, now: u64) -> Seq<ScheduledView>
    decreases scheduled.len(),
{
    if scheduled.len() == 0 {
        Seq::empty()
    } else if scheduled.last().due <= now {
        not_due(scheduled.drop_last(), now)
    } else {
        not_due(scheduled.drop_last(), now).push(scheduled.last())
    }
}

/// The time at which an event scheduled at `now` with a delay is due, held
/// at the greatest time.
pub open spec fn due_time(now: u64, delay: u64) -> u64 {
    if now + delay <= u64::MAX {
        (now + delay) as u64
    } else {
        u64::MAX
    }
}

/// The views of scheduled events.
pub open spec fn scheduled_views(scheduled: Seq<ScheduledEvent>) -> Seq<ScheduledView> {
    scheduled.map_values(|s: ScheduledEvent| s@)
}

/// The views of events.
pub open spec fn event_views(events: Seq<AppEvent>) -> Seq<AppEventView> {
    events.map_values(|e: AppEvent| e@)
}

/// After a cancellation no scheduled event asks to clear the error message
/// of the input, and every other scheduled event is still there.
pub proof fn lemma_without_clear(scheduled: Seq<ScheduledView>, id: Seq<char>)
    ensures
        forall|i: int|
            0 <= i < without_clear(scheduled, id).len() ==> !clears(
                #[trigger] without_clear(scheduled, id)[i],
                id,
            ),
        forall|i: int|
            0 <= i < scheduled.len() && !clears(#[trigger] scheduled[i], id) ==> without_clear(
                scheduled,
                id,
            ).contains(scheduled[i]),
        without_clear(scheduled, id).len() <= scheduled.len(),
    decreases scheduled.len(),
{
    if scheduled.len() > 0 {
        let rest = scheduled.drop_last();
        lemma_without_clear(rest, id);
        let kept = without_clear(scheduled, id);
        assert forall|i: int| 0 <= i < kept.len() implies !clears(#[trigger] kept[i], id) by {
            if i < without_clear(rest, id).len() {
                assert(kept[i] == without_clear(rest, id)[i]);
            }
        }
        assert forall|i: int|
            0 <= i < scheduled.len() && !clears(#[trigger] scheduled[i], id) implies kept.contains(
            scheduled[i],
        ) by {
            if i < rest.len() {
                assert(rest[i] == scheduled[i]);
                let j = choose|j: int|
                    0 <= j < without_clear(rest, id).len() && without_clear(rest, id)[j] == rest[i];
                assert(kept[j] == scheduled[i]);
            } else {
                assert(kept[kept.len() - 1] == scheduled[i]);
            }
        }
    }
}

/// Draining splits the scheduled events: as many are handed out and kept
/// together as were scheduled, none of those kept is due, and a second
/// draining at the same time hands out nothing.
pub proof fn lemma_drain_splits(scheduled: Seq<ScheduledView>, now: u64)
    ensures
        due_events(scheduled, now).len() + not_due(scheduled, now).len() == scheduled.len(),
        forall|i: int|
            0 <= i < not_due(scheduled, now).len() ==> (#[trigger] not_due(scheduled, now)[i]).due
                > now,
        not_due(not_due(scheduled, now), now) == not_due(scheduled, now),
        due_events(not_due(scheduled, now), now) == Seq::<AppEventView>::empty(),
    decreases scheduled.len(),
{
    if scheduled.len() > 0 {
        let rest = scheduled.drop_last();
        lemma_drain_splits(rest, now);
        let kept = not_due(scheduled, now);
        assert forall|i: int| 0 <= i < kept.len() implies (#[trigger] kept[i]).due > now by {
            if i < not_due(rest, now).len() {
                assert(kept[i] == not_due(rest, now)[i]);
            }
        }
        if scheduled.last().due > now {
            assert(kept.drop_last() =~= not_due(rest, now));
        }
    }
}

/// The event emitter.
#[derive(Debug)]
pub struct EventEmitter {
    subscriptions: Vec<AppEventType>,
    scheduled: Vec<ScheduledEvent>,
    emitted: Vec<AppEvent>,
}

impl View for EventEmitter {
    type V = EmitterView;

    closed spec fn view(&self) -> EmitterView {
        EmitterView {
            subscriptions: self.subscriptions@,
            scheduled: scheduled_views(self.scheduled@),
            emitted: event_views(self.emitted@),
        }
    }
}

impl EventEmitter {
    /// An emitter without subscriptions and events.
    pub fn new() -> (r: Self)
        ensures
            r@ == (EmitterView {
                subscriptions: Seq::empty(),
                scheduled: Seq::empty(),
                emitted: Seq::empty(),
            }),
    {
        let r = EventEmitter {
            subscriptions: Vec::new(),
            scheduled: Vec::new(),
            emitted: Vec::new(),
        };
        assert(r@.scheduled =~= Seq::empty());
        assert(r@.emitted =~= Seq::empty());
        r
    }

    /// Subscribes a handler to a kind of event. Answers the number of the
    /// handler: handlers are numbered in the order of subscription.
    pub fn on(&mut self, event_type: AppEventType) -> (handler: usize)
        ensures
            handler == old(self)@.subscriptions.len(),
            final(self)@ == (EmitterView {
                subscriptions: old(self)@.subscriptions.push(event_type),
                ..old(self)@
            }),
    {
        let handler = self.subscriptions.len();
        self.subscriptions.push(event_type);
        handler
    }

    /// The handlers to call for a kind of event, in the order of
    /// subscription.
    pub fn handlers_for(&self, event_type: AppEventType) -> (r: Vec<usize>)
        ensures
            r@ == subscribers(self@.subscriptions, event_type),
    {
        let mut r: Vec<usize> = Vec::new();
        let mut i: usize = 0;
        assert(self.subscriptions@.take(0) =~= Seq::<AppEventType>::empty());
        while i < self.subscriptions.len()
            invariant
                i <= self.subscriptions.len(),
                r@ == subscribers(self.subscriptions@.take(i as int), event_type),
            decreases self.subscriptions.len() - i,
        {
            proof {
                assert(self.subscriptions@.take(i + 1).drop_last() =~= self.subscriptions@.take(
                    i as int,
                ));
                assert(self.subscriptions@.take(i + 1).last() == self.subscriptions@[i as int]);
            }
            if self.subscriptions[i] == event_type {
                r.push(i);
            }
            i += 1;
        }
        assert(self.subscriptions@.take(i as int) =~= self.subscriptions@);
        r
    }

    /// Emits an event: it is added to the events that wait to be handed to
    /// the handlers of its kind.
    pub fn emit(&mut self, event: &AppEvent)
        ensures
            final(self)@ == (EmitterView {
                emitted: old(self)@.emitted.push(event@),
                ..old(self)@
            }),
    {
        self.emitted.push(event.clone());
        assert(self@.emitted =~= old(self)@.emitted.push(event@));
    }

    /// Hands out the emitted events, oldest first, and forgets them.
    pub fn take_emitted(&mut self) -> (r: Vec<AppEvent>)
        ensures
            event_views(r@) == old(self)@.emitted,
            final(self)@ == (EmitterView { emitted: Seq::empty(), ..old(self)@ }),
    {
        let mut taken: Vec<AppEvent> = Vec::new();
        core::mem::swap(&mut taken, &mut self.emitted);
        assert(self@.emitted =~= Seq::empty());
        taken
    }

    /// Schedules an event for the time `now + delay`.
    pub fn emit_after(&mut self, event: AppEvent, delay: u64, now: u64)
        ensures
            final(self)@ == (EmitterView {
                scheduled: old(self)@.scheduled.push(
                    ScheduledView { due: due_time(now, delay), event: event@ },
                ),
                ..old(self)@
            }),
    {
        let due: u64 = if delay > u64::MAX - now {
            u64::MAX
        } else {
            now + delay
        };
        self.scheduled.push(ScheduledEvent { due, event });
        assert(self@.scheduled =~= old(self)@.scheduled.push(
            ScheduledView { due: due_time(now, delay), event: event@ },
        ));
    }

    /// Cancels the scheduled events that ask to clear the error message of
    /// an input.
    pub fn cancel_clear_error_message(&mut self, id: &str)
        ensures
            final(self)@ == (EmitterView {
                scheduled: without_clear(old(self)@.scheduled, id@),
                ..old(self)@
            }),
    {
        let mut all: Vec<ScheduledEvent> = Vec::new();
        core::mem::swap(&mut all, &mut self.scheduled);
        let ghost before = scheduled_views(all@);
        let mut kept: Vec<ScheduledEvent> = Vec::new();
        let n = all.len();
        let mut i: usize = 0;
        proof {
            assert(before.take(0) =~= Seq::<ScheduledView>::empty());
            assert(scheduled_views(kept@) =~= Seq::<ScheduledView>::empty());
        }
        while i < n
            invariant
                i <= n,
                n == all@.len(),
                before == scheduled_views(all@),
                scheduled_views(kept@) == without_clear(before.take(i as int), id@),
            decreases n - i,
        {
            proof {
                assert(before.take(i + 1).drop_last() =~= before.take(i as int));
                assert(before.take(i + 1).last() == all@[i as int]@);
            }
            let cancel = match &all[i].event {
                AppEvent::ClearErrorMessage { id: scheduled_id } => same_text(
                    scheduled_id.as_str(),
                    id,
                ),
                _ => false,
            };
            if !cancel {
                let ghost so_far = scheduled_views(kept@);
                let entry = ScheduledEvent { due: all[i].due, event: all[i].event.clone() };
                kept.push(entry);
                assert(scheduled_views(kept@) =~= so_far.push(all@[i as int]@));
            }
            i += 1;
        }
        assert(before.take(i as int) =~= before);
        self.scheduled = kept;
    }

    /// Hands out the events whose time has come, in the order in which they
    /// were scheduled, and keeps the others.
    pub fn drain_due(&mut self, now: u64) -> (r: Vec<AppEvent>)
        ensures
            event_views(r@) == due_events(old(self)@.scheduled, now),
            final(self)@ == (EmitterView {
                scheduled: not_due(old(self)@.scheduled, now),
                ..old(self)@
            }),
    {
        let mut all: Vec<ScheduledEvent> = Vec::new();
        core::mem::swap(&mut all, &mut self.scheduled);
        let ghost before = scheduled_views(all@);
        let mut kept: Vec<ScheduledEvent> = Vec::new();
        let mut due: Vec<AppEvent> = Vec::new();
        let n = all.len();
        let mut i: usize = 0;
        proof {
            assert(before.take(0) =~= Seq::<ScheduledView>::empty());
            assert(scheduled_views(kept@) =~= Seq::<ScheduledView>::empty());
            assert(event_views(due@) =~= Seq::<AppEventView>::empty());
        }
        while i < n
            invariant
                i <= n,
                n == all@.len(),
                before == scheduled_views(all@),
                scheduled_views(kept@) == not_due(before.take(i as int), now),
                event_views(due@) == due_events(before.take(i as int), now),
            decreases n - i,
        {
            proof {
                assert(before.take(i + 1).drop_last() =~= before.take(i as int));
                assert(before.take(i + 1).last() == all@[i as int]@);
            }
            if all[i].due <= now {
                let ghost so_far = event_views(due@);
                due.push(all[i].event.clone());
                assert(event_views(due@) =~= so_far.push(all@[i as int]@.event));
            } else {
                let ghost so_far = scheduled_views(kept@);
                let entry = ScheduledEvent { due: all[i].due, event: all[i].event.clone() };
                kept.push(entry);
                assert(scheduled_views(kept@) =~= so_far.push(all@[i as int]@));
            }
            i += 1;
        }
        assert(before.take(i as int) =~= before);
        self.scheduled = kept;
        due
    }

    /// The number of scheduled events.
    pub fn pending(&self) -> (n: usize)
        ensures
            n == self@.scheduled.len(),
    {
        self.scheduled.len()
    }
}

impl Default for EventEmitter {
    fn default() -> (r: Self)
        ensures
            r@ == (EmitterView {
                subscriptions: Seq::empty(),
                scheduled: Seq::empty(),
                emitted: Seq::empty(),
            }),
    {
        EventEmitter::new()
    }
}

} // verus!
