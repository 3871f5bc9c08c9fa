//! The append-only log of accepted events.

use crate::event::{AcceptAll, Event, EventError, VerifierCapability};
use crate::time::Timestamp;
use vstd::prelude::*;

verus! {

/// The events of `log` that carry a timestamp strictly after `timestamp`, in
/// the order in which they stand in `log`.
pub open spec fn events_since(log: Seq<Event>, timestamp: Timestamp) -> Seq<Event> {
    log.filter(|e: Event| e.timestamp.later_than(timestamp))
}

/// The positions in `log` of the events that carry a timestamp strictly after
/// `timestamp`, in ascending order.
pub open spec fn positions_since(log: Seq<Event>, timestamp: Timestamp) -> Seq<int>
    decreases log.len(),
{
    if log.len() == 0 {
        Seq::empty()
    } else if log.last().timestamp.later_than(timestamp) {
        positions_since(log.drop_last(), timestamp).push(log.len() - 1)
    } else {
        positions_since(log.drop_last(), timestamp)
    }
}

/// A query on a log with one more event: the new event comes last in the
/// answer if its timestamp is after the bound, and the answer is unchanged
/// otherwise.
pub proof fn lemma_events_since_push(log: Seq<Event>, event: Event, timestamp: Timestamp)
    ensures
        events_since(log.push(event), timestamp) == if event.timestamp.later_than(timestamp) {
            events_since(log, timestamp).push(event)
        } else {
            events_since(log, timestamp)
        },
{
    reveal(Seq::filter);
    assert(log.push(event).drop_last() =~= log);
}

/// A query on a log that grew by a run of events: the answer on the log
/// before, followed by the answer on the run.
pub proof fn lemma_events_since_appended(log: Seq<Event>, added: Seq<Event>, timestamp: Timestamp)
    ensures
        events_since(log + added, timestamp) == events_since(log, timestamp) + events_since(
            added,
            timestamp,
        ),
{
    Seq::filter_distributes_over_add(log, added, |e: Event| e.timestamp.later_than(timestamp));
}

/// An event is in the answer to a query exactly if it is in the log and its
/// timestamp is strictly after the bound.
pub proof fn lemma_events_since_members(log: Seq<Event>, timestamp: Timestamp)
    ensures
        forall|e: Event| #[trigger]
            events_since(log, timestamp).contains(e) ==> log.contains(e)
                && e.timestamp.later_than(timestamp),
        forall|e: Event| #[trigger]
            log.contains(e) && e.timestamp.later_than(timestamp) ==> events_since(
                log,
                timestamp,
            ).contains(e),
    decreases log.len(),
{
    reveal(Seq::filter);
    if log.len() > 0 {
        let rest = log.drop_last();
        let last = log.last();
        lemma_events_since_members(rest, timestamp);
        assert(log =~= rest.push(last));
        lemma_events_since_push(rest, last, timestamp);
        let answer = events_since(log, timestamp);
        let before = events_since(rest, timestamp);
        assert forall|e: Event| #[trigger] answer.contains(e) implies log.contains(e)
            && e.timestamp.later_than(timestamp) by {
            let k = choose|k: int| 0 <= k < answer.len() && answer[k] == e;
            if k < before.len() {
                assert(before[k] == e);
                assert(before.contains(e));
                let j = choose|j: int| 0 <= j < rest.len() && rest[j] == e;
                assert(log[j] == e);
            } else {
                assert(log[log.len() - 1] == e);
            }
        }
        assert forall|e: Event| #[trigger]
            log.contains(e) && e.timestamp.later_than(timestamp) implies answer.contains(e) by {
            let j = choose|j: int| 0 <= j < log.len() && log[j] == e;
            if j < rest.len() {
                assert(rest[j] == e);
                assert(rest.contains(e));
                let k = choose|k: int| 0 <= k < before.len() && before[k] == e;
                assert(answer[k] == e);
            } else {
                assert(answer[answer.len() - 1] == e);
            }
        }
    }
}

/// The answer to a query keeps the order of the log and leaves nothing out:
/// it is the log read at the positions of the events after the bound, and
/// those positions ascend and are all of them.
pub proof fn lemma_events_since_keeps_order(log: Seq<Event>, timestamp: Timestamp)
    ensures
        events_since(log, timestamp).len() == positions_since(log, timestamp).len(),
        forall|k: int|
            0 <= k < positions_since(log, timestamp).len() ==> {
                let p = #[trigger] positions_since(log, timestamp)[k];
                0 <= p < log.len() && log[p].timestamp.later_than(timestamp) && events_since(
                    log,
                    timestamp,
                )[k] == log[p]
            },
        forall|j: int, k: int|
            0 <= j < k < positions_since(log, timestamp).len() ==> positions_since(
                log,
                timestamp,
            )[j] < positions_since(log, timestamp)[k],
        forall|p: int|
            0 <= p < log.len() && (#[trigger] log[p]).timestamp.later_than(timestamp)
                ==> positions_since(log, timestamp).contains(p),
    decreases log.len(),
{
    reveal(Seq::filter);
    if log.len() > 0 {
        let rest = log.drop_last();
        let last = log.last();
        lemma_events_since_keeps_order(rest, timestamp);
        assert(log =~= rest.push(last));
        lemma_events_since_push(rest, last, timestamp);
        let here = positions_since(log, timestamp);
        let before = positions_since(rest, timestamp);
        assert forall|p: int|
            0 <= p < log.len() && (#[trigger] log[p]).timestamp.later_than(
                timestamp,
            ) implies here.contains(p) by {
            if p < rest.len() {
                assert(rest[p] == log[p]);
                let k = choose|k: int| 0 <= k < before.len() && before[k] == p;
                assert(here[k] == p);
            } else {
                assert(here[here.len() - 1] == p);
            }
        }
    }
}

/// An append-only log of events, each admitted by the log's verifier.
///
/// The log is a sequence: an accepted event goes to the end, and nothing is
/// ever changed, reordered or removed. Its length is not bounded.
pub struct EventLog<V: VerifierCapability> {
    events: Vec<Event>,
    capability: V,
}

impl<V: VerifierCapability> View for EventLog<V> {
    type V = Seq<Event>;

    /// The accepted events, oldest insertion first.
    closed spec fn view(&self) -> Seq<Event> {
        self.events@
    }
}

impl EventLog<AcceptAll> {
    /// An empty log that holds every signature valid.
    pub fn new() -> (log: Self)
        ensures
            log@ == Seq::<Event>::empty(),
    {
        EventLog { events: Vec::new(), capability: AcceptAll }
    }
}

impl<V: VerifierCapability> EventLog<V> {
    /// The capability that this log asks before it appends.
    pub closed spec fn capability(&self) -> V {
        self.capability
    }

    /// An empty log that admits the events that `capability` accepts.
    pub fn with_verifier(capability: V) -> (log: Self)
        ensures
            log@ == Seq::<Event>::empty(),
            log.capability() == capability,
    {
        EventLog { events: Vec::new(), capability }
    }

    /// Appends `event` if the verifier accepts it. A refused event leaves the
    /// log as it was.
    pub fn add_event(&mut self, event: Event) -> (r: Result<(), EventError>)
        ensures
            final(self).capability() == old(self).capability(),
            old(self).capability().accepts(&event) ==> r == Ok::<(), EventError>(())
                && final(self)@ == old(self)@.push(event),
            !old(self).capability().accepts(&event) ==> r == Err::<(), EventError>(
                EventError::InvalidSignature,
            ) && final(self)@ == old(self)@,
    {
        if !self.verify_signature(&event) {
            return Err(EventError::InvalidSignature);
        }
        self.events.push(event);
        Ok(())
    }

    /// Copies of the events with a timestamp strictly after `timestamp`, in
    /// the order in which they were added.
    pub fn get_events_since(&self, timestamp: Timestamp) -> (found: Vec<Event>)
        ensures
            found@ == events_since(self@, timestamp),
    {
        let mut found: Vec<Event> = Vec::new();
        let mut i: usize = 0;
        while i < self.events.len()
            invariant
                i <= self.events.len(),
                found@ == events_since(self.events@.take(i as int), timestamp),
            decreases self.events.len() - i,
        {
            let event = &self.events[i];
            proof {
                assert(self.events@.take(i + 1) =~= self.events@.take(i as int).push(*event));
                lemma_events_since_push(self.events@.take(i as int), *event, timestamp);
            }
            if event.timestamp.is_after(&timestamp) {
                found.push(event.clone());
            }
            i += 1;
        }
        assert(self.events@.take(i as int) =~= self.events@);
        found
    }

    /// The number of events in the log.
    pub fn len(&self) -> (n: usize)
        ensures
            n == self@.len(),
    {
        self.events.len()
    }

    fn verify_signature(&self, event: &Event) -> (valid: bool)
        ensures
            valid == self.capability().accepts(event),
    {
        self.capability.verify_signature(event)
    }
}

} // verus!
