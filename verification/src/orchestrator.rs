//! Searching one volume: which top-level directories get a walker, and
//! the aggregation of what the walkers send until all of them are done.

use vstd::prelude::*;
use crate::volumes::texts;
use crate::walker::{is_pruned, pruned, Entry, FileSearchResult};

verus! {

/// Slots of the channel between the walkers and the aggregation loop. A
/// full channel stalls the walkers; it never drops a match.
pub const CHANNEL_CAPACITY: usize = 10000;

/// Milliseconds the aggregation loop waits for input before it reports
/// silence.
pub const RECEIVE_TIMEOUT_MS: u64 = 100;

/// A walker is started for an immediate child of the volume root that is
/// a directory and is not pruned.
pub open spec fn dispatchable(e: Entry, denylist: Seq<String>) -> bool {
    e.depth == 1 && e.is_dir && !pruned(e, denylist)
}

/// The paths of the dispatchable entries among the first `n`, in order.
pub open spec fn dispatched(children: Seq<Entry>, denylist: Seq<String>, n: nat) -> Seq<Seq<char>>
    decreases n,
{
    if n == 0 {
        Seq::empty()
    } else {
        let before = dispatched(children, denylist, (n - 1) as nat);
        if dispatchable(children[n - 1], denylist) {
            before.push(children[n - 1].path@)
        } else {
            before
        }
    }
}

/// The roots of the walkers to start for one volume, given the listing of
/// the volume root to depth one: the path of every immediate child that
/// is a directory and neither hidden nor excluded, in listing order. The
/// volume root itself (depth 0) and plain files get no walker.
pub fn walker_roots(children: &Vec<Entry>, denylist: &Vec<String>) -> (roots: Vec<String>)
    ensures
        texts(roots@) == dispatched(children@, denylist@, children@.len()),
{
    let mut roots: Vec<String> = Vec::new();
    let mut i: usize = 0;
    assert(texts(roots@) =~= Seq::<Seq<char>>::empty());
    while i < children.len()
        invariant
            i <= children.len(),
            texts(roots@) == dispatched(children@, denylist@, i as nat),
        decreases children.len() - i,
    {
        let e = &children[i];
        if e.depth == 1 && e.is_dir && !is_pruned(e, denylist) {
            let ghost before = roots@;
            let path = e.path.clone();
            roots.push(path);
            assert(texts(roots@) =~= texts(before).push(path@));
        }
        i += 1;
    }
    roots
}

/// What the aggregation loop observes.
pub enum Event {
    /// A walker sent a match.
    Received(FileSearchResult),
    /// A walker finished; everything it sent has been received before.
    WalkerDone,
    /// Nothing arrived within the waiting time.
    Silence,
    /// Every sender is gone and nothing is left to receive.
    Closed,
}

/// The aggregation as a mathematical state: what was received, in order
/// of arrival; how many walkers have not finished; whether the channel
/// was seen closed.
pub ghost struct Aggregation {
    pub received: Seq<FileSearchResult>,
    pub outstanding: nat,
    pub closed: bool,
}

/// The state before anything was observed.
pub open spec fn initial(walkers: nat) -> Aggregation {
    Aggregation { received: Seq::empty(), outstanding: walkers, closed: false }
}

/// The effect of one event. A match is appended; a finished walker
/// lowers the outstanding count; silence changes nothing.
pub open spec fn step(s: Aggregation, event: Event) -> Aggregation {
    match event {
        Event::Received(m) => Aggregation { received: s.received.push(m), ..s },
        Event::WalkerDone => Aggregation {
            outstanding: if s.outstanding > 0 {
                (s.outstanding - 1) as nat
            } else {
                0
            },
            ..s
        },
        Event::Silence => s,
        Event::Closed => Aggregation { closed: true, ..s },
    }
}

/// Aggregation is complete when every walker has finished or the channel
/// is closed.
pub open spec fn complete(s: Aggregation) -> bool {
    s.outstanding == 0 || s.closed
}

/// The state after a sequence of events.
pub open spec fn run(s: Aggregation, events: Seq<Event>) -> Aggregation
    decreases events.len(),
{
    if events.len() == 0 {
        s
    } else {
        step(run(s, events.drop_last()), events.last())
    }
}

/// The matches carried by a sequence of events, in order.
pub open spec fn matches_in(events: Seq<Event>) -> Seq<FileSearchResult>
    decreases events.len(),
{
    if events.len() == 0 {
        Seq::empty()
    } else {
        let before = matches_in(events.drop_last());
        match events.last() {
            Event::Received(m) => before.push(m),
            _ => before,
        }
    }
}

/// The number of walkers that a sequence of events reports as finished.
pub open spec fn finished_in(events: Seq<Event>) -> nat
    decreases events.len(),
{
    if events.len() == 0 {
        0
    } else {
        finished_in(events.drop_last()) + if events.last() is WalkerDone {
            1nat
        } else {
            0nat
        }
    }
}

/// Whether a sequence of events reports the channel closed.
pub open spec fn closed_in(events: Seq<Event>) -> bool
    decreases events.len(),
{
    events.len() > 0 && (events.last() is Closed || closed_in(events.drop_last()))
}

/// Nothing is lost: after any sequence of events the received matches
/// are those held before followed by every match of the sequence, in
/// order of arrival, however many they are.
pub proof fn lemma_no_match_is_lost(s: Aggregation, events: Seq<Event>)
    ensures
        run(s, events).received == s.received + matches_in(events),
    decreases events.len(),
{
    if events.len() == 0 {
        assert(s.received + matches_in(events) =~= s.received);
    } else {
        lemma_no_match_is_lost(s, events.drop_last());
        let before = matches_in(events.drop_last());
        match events.last() {
            Event::Received(m) => {
                assert((s.received + before).push(m) =~= s.received + before.push(m));
            },
            _ => {},
        }
    }
}

/// Aggregation ends exactly when it should: after any sequence of events
/// it is complete if and only if it was complete before, or the sequence
/// reports the channel closed, or it reports at least as many walkers
/// finished as were outstanding. Silence and matches alone never
/// complete it.
pub proof fn lemma_complete_only_when_walkers_done(s: Aggregation, events: Seq<Event>)
    ensures
        run(s, events).closed == (s.closed || closed_in(events)),
        run(s, events).outstanding == (if finished_in(events) >= s.outstanding {
            0
        } else {
            s.outstanding - finished_in(events)
        }),
        complete(run(s, events)) == (s.closed || closed_in(events) || finished_in(events)
            >= s.outstanding),
    decreases events.len(),
{
    if events.len() > 0 {
        lemma_complete_only_when_walkers_done(s, events.drop_last());
    }
}

/// The single consumer of the walkers' output. It owns the accumulated
/// results and counts the walkers that have not finished.
pub struct Aggregator {
    results: Vec<FileSearchResult>,
    outstanding: usize,
    closed: bool,
}

impl Aggregator {
    /// The mathematical state of this aggregator.
    pub closed spec fn state(&self) -> Aggregation {
        Aggregation {
            received: self.results@,
            outstanding: self.outstanding as nat,
            closed: self.closed,
        }
    }

    /// An aggregator awaiting `walkers` walkers, with nothing received.
    pub fn new(walkers: usize) -> (a: Aggregator)
        ensures
            a.state() == initial(walkers as nat),
    {
        Aggregator { results: Vec::new(), outstanding: walkers, closed: false }
    }

    /// Takes one event and tells whether aggregation is complete.
    pub fn on_event(&mut self, event: Event) -> (finished: bool)
        ensures
            final(self).state() == step(old(self).state(), event),
            finished == complete(final(self).state()),
    {
        match event {
            Event::Received(m) => {
                self.results.push(m);
            },
            Event::WalkerDone => {
                if self.outstanding > 0 {
                    self.outstanding = self.outstanding - 1;
                }
            },
            Event::Silence => {},
            Event::Closed => {
                self.closed = true;
            },
        }
        self.outstanding == 0 || self.closed
    }

    /// Whether aggregation is complete.
    pub fn is_complete(&self) -> (r: bool)
        ensures
            r == complete(self.state()),
    {
        self.outstanding == 0 || self.closed
    }

    /// Hands over everything received, in order of arrival.
    pub fn into_results(self) -> (out: Vec<FileSearchResult>)
        ensures
            out@ == self.state().received,
    {
        self.results
    }
}

} // verus!
