//! The daemon's bounded journal of events, read by cursor.
//!
//! Each event gets the next sequence number; a client keeps the cursor it
//! was handed and asks for the events from that sequence on. Only the most
//! recent events are kept.
use vstd::prelude::*;

use crate::protocol::{same_event, DaemonEvent, SequencedDaemonEvent};

verus! {

/// How many events the journal keeps.
pub const MAX_EVENTS: usize = 800;

/// Whether every kept sequence lies below the cursor, or at it once the
/// counter has saturated.
pub open spec fn sequences_below(next: u64, events: Seq<SequencedDaemonEvent>) -> bool {
    forall|i: int| 0 <= i < events.len() ==> {
        ||| #[trigger] events[i].sequence < next
        ||| (events[i].sequence == next && next == u64::MAX)
    }
}

/// The events kept after one more is appended: the oldest leaves when the
/// journal is over its bound.
pub open spec fn appended(events: Seq<SequencedDaemonEvent>, e: SequencedDaemonEvent) -> Seq<SequencedDaemonEvent> {
    let all = events.push(e);
    if all.len() > MAX_EVENTS { all.drop_first() } else { all }
}

/// The events with a sequence at or after `from`, in journal order.
pub open spec fn events_from(events: Seq<SequencedDaemonEvent>, from: u64) -> Seq<SequencedDaemonEvent>
    decreases events.len(),
{
    if events.len() == 0 {
        seq![]
    } else {
        let rest = events_from(events.drop_last(), from);
        if events.last().sequence >= from { rest.push(events.last()) } else { rest }
    }
}

/// Whether two lists hold the same events with the same sequences.
pub open spec fn same_events(a: Seq<SequencedDaemonEvent>, b: Seq<SequencedDaemonEvent>) -> bool {
    &&& a.len() == b.len()
    &&& forall|i: int| 0 <= i < a.len() ==> #[trigger] a[i].sequence == b[i].sequence && same_event(a[i].event, b[i].event)
}

/// The daemon's bounded, sequenced event journal.
#[derive(Debug)]
pub struct EventJournal {
    next_sequence: u64,
    events: Vec<SequencedDaemonEvent>,
}

impl EventJournal {
    /// The sequence the next event gets.
    pub closed spec fn next(&self) -> u64 {
        self.next_sequence
    }

    /// The events kept, oldest first.
    pub closed spec fn kept(&self) -> Seq<SequencedDaemonEvent> {
        self.events@
    }

    /// Well-formedness: at most the bound is kept, below the cursor.
    pub open spec fn wf(&self) -> bool {
        self.kept().len() <= MAX_EVENTS && sequences_below(self.next(), self.kept())
    }

    /// An empty journal whose first event gets sequence zero.
    pub fn new() -> (r: EventJournal)
        ensures
            r.wf(),
            r.next() == 0,
            r.kept().len() == 0,
    {
        EventJournal { next_sequence: 0, events: Vec::new() }
    }

    /// Appends an event under the current cursor and advances the cursor
    /// (it stays at its largest value once there).
    pub fn push(&mut self, event: DaemonEvent)
        requires
            old(self).wf(),
        ensures
            final(self).wf(),
            final(self).next() == if old(self).next() == u64::MAX { u64::MAX } else { (old(self).next() + 1) as u64 },
            final(self).kept() == appended(old(self).kept(), SequencedDaemonEvent { sequence: old(self).next(), event }),
    {
        let sequence = self.next_sequence;
        self.next_sequence = self.next_sequence.saturating_add(1);
        self.events.push(SequencedDaemonEvent { sequence, event });
        if self.events.len() > MAX_EVENTS {
            self.events.remove(0);
        }
        proof {
            let e = SequencedDaemonEvent { sequence, event };
            let all = old(self).kept().push(e);
            assert(self.events@ == appended(old(self).kept(), e)) by {
                if all.len() > MAX_EVENTS {
                    assert(self.events@ =~= all.drop_first());
                }
            }
        }
    }

    /// The events from sequence `sequence` on, and the cursor to ask from
    /// next time.
    pub fn after(&self, sequence: u64) -> (r: (Vec<SequencedDaemonEvent>, u64))
        requires
            self.wf(),
        ensures
            same_events(r.0@, events_from(self.kept(), sequence)),
            r.1 == self.next(),
    {
        let mut out: Vec<SequencedDaemonEvent> = Vec::new();
        let mut k: usize = 0;
        while k < self.events.len()
            invariant
                k <= self.events@.len(),
                same_events(out@, events_from(self.events@.take(k as int), sequence)),
            decreases self.events@.len() - k,
        {
            proof { assert(self.events@.take(k + 1).drop_last() =~= self.events@.take(k as int)); }
            let item = &self.events[k];
            if item.sequence >= sequence {
                out.push(SequencedDaemonEvent { sequence: item.sequence, event: item.event.copy() });
            }
            k = k + 1;
        }
        proof { assert(self.events@.take(self.events@.len() as int) =~= self.events@); }
        (out, self.next_sequence)
    }

    /// The sequence the next event gets.
    pub fn cursor(&self) -> (r: u64)
        ensures
            r == self.next(),
    {
        self.next_sequence
    }
}

impl Default for EventJournal {
    fn default() -> (r: EventJournal)
        ensures
            r.wf(),
            r.next() == 0,
            r.kept().len() == 0,
    {
        EventJournal::new()
    }
}

proof fn lemma_events_from_none(events: Seq<SequencedDaemonEvent>, from: u64)
    requires
        forall|i: int| 0 <= i < events.len() ==> #[trigger] events[i].sequence < from,
    ensures
        events_from(events, from).len() == 0,
    decreases events.len(),
{
    if events.len() > 0 {
        lemma_events_from_none(events.drop_last(), from);
    }
}

/// The cursor never moves back, and moves by one for each event until it
/// reaches its largest value.
pub proof fn law_cursor_is_monotonic(j: EventJournal, e: DaemonEvent, k: EventJournal)
    requires
        j.wf(),
        k.next() == if j.next() == u64::MAX { u64::MAX } else { (j.next() + 1) as u64 },
    ensures
        j.next() <= k.next(),
        j.next() < u64::MAX ==> k.next() == j.next() + 1,
{
}

/// Reading from a cursor gives the events appended since it was handed out,
/// and reading from the cursor handed back gives nothing: reads exclude what
/// the previous cursor already covered.
pub proof fn law_reads_from_cursor_are_exclusive(events: Seq<SequencedDaemonEvent>, next: u64, e: DaemonEvent)
    requires
        events.len() <= MAX_EVENTS,
        sequences_below(next, events),
        next < u64::MAX,
    ensures
        events_from(appended(events, SequencedDaemonEvent { sequence: next, event: e }), next)
            == seq![SequencedDaemonEvent { sequence: next, event: e }],
        events_from(appended(events, SequencedDaemonEvent { sequence: next, event: e }), (next + 1) as u64).len() == 0,
{
    let item = SequencedDaemonEvent { sequence: next, event: e };
    let all = events.push(item);
    let kept = appended(events, item);
    assert forall|i: int| 0 <= i < events.len() implies #[trigger] events[i].sequence < next by {}
    if all.len() > MAX_EVENTS {
        assert(kept.drop_last() =~= events.drop_first());
        assert forall|i: int| 0 <= i < events.drop_first().len() implies #[trigger] events.drop_first()[i].sequence < next by {
            assert(events.drop_first()[i] == events[i + 1]);
        }
        lemma_events_from_none(events.drop_first(), next);
        lemma_events_from_none(events.drop_first(), (next + 1) as u64);
    } else {
        assert(kept.drop_last() =~= events);
        lemma_events_from_none(events, next);
        lemma_events_from_none(events, (next + 1) as u64);
    }
    assert(kept.last() == item);
    assert(events_from(kept, next) =~= seq![item]);
}

} // verus!
