//! The result queue: completed transcripts appended by listeners and
//! drained by a periodic poll. The host guards one such queue with a
//! lock, so each operation here is one atomic step of that exchange;
//! the contracts pin each step down exactly, which is what keeps a
//! transcript from being lost or duplicated across the boundary.
use vstd::prelude::*;

verus! {

/// An ordered collection of completed transcripts awaiting delivery.
pub struct TranscriptQueue {
    items: Vec<String>,
}

impl View for TranscriptQueue {
    type V = Seq<String>;

    closed spec fn view(&self) -> Seq<String> {
        self.items@
    }
}

impl TranscriptQueue {
    /// A queue with nothing pending.
    pub fn new() -> (q: TranscriptQueue)
        ensures
            q@ == Seq::<String>::empty(),
    {
        TranscriptQueue { items: Vec::new() }
    }

    /// Appends one completed transcript at the tail, keeping the order
    /// in which a speaker's transcripts were produced.
    pub fn push(&mut self, text: String)
        ensures
            final(self)@ == old(self)@.push(text),
    {
        self.items.push(text);
    }

    /// Hands back every pending transcript, in append order, and leaves
    /// the queue empty: nothing is lost and nothing is handed back twice.
    pub fn drain(&mut self) -> (drained: Vec<String>)
        ensures
            drained@ == old(self)@,
            final(self)@ == Seq::<String>::empty(),
    {
        let mut out: Vec<String> = Vec::new();
        core::mem::swap(&mut out, &mut self.items);
        out
    }

    /// Whether a poll finding the queue in this state tells the host no
    /// further polling is needed for now.
    pub fn is_idle(&self) -> (idle: bool)
        ensures
            idle <==> self@.len() == 0,
    {
        self.items.len() == 0
    }

    /// How many transcripts are pending.
    pub fn pending(&self) -> (n: usize)
        ensures
            n == self@.len(),
    {
        self.items.len()
    }
}

/// One atomic operation on the shared queue, as the host's lock
/// serializes them: a producer's push or the consumer's drain.
pub enum QueueEvent {
    /// A listener thread appends one completed transcript.
    Push(String),
    /// The poll step takes every pending transcript at once.
    Drain,
}

/// The queue and the drains' outputs after a run of atomic operations
/// starting from `pending`: a push appends at the tail and a drain
/// hands the whole pending sequence out, leaving the queue empty —
/// exactly what `push` and `drain` ensure of each step.
pub open spec fn run_queue(pending: Seq<String>, events: Seq<QueueEvent>) -> (
    Seq<String>,
    Seq<Seq<String>>,
)
    decreases events.len(),
{
    if events.len() == 0 {
        (pending, Seq::empty())
    } else {
        match events[0] {
            QueueEvent::Push(text) => run_queue(pending.push(text), events.skip(1)),
            QueueEvent::Drain => {
                let rest = run_queue(Seq::<String>::empty(), events.skip(1));
                (rest.0, seq![pending] + rest.1)
            },
        }
    }
}

/// The transcripts a run of operations pushes, in order.
pub open spec fn pushes_of(events: Seq<QueueEvent>) -> Seq<String>
    decreases events.len(),
{
    if events.len() == 0 {
        Seq::empty()
    } else {
        match events[0] {
            QueueEvent::Push(text) => seq![text] + pushes_of(events.skip(1)),
            QueueEvent::Drain => pushes_of(events.skip(1)),
        }
    }
}

/// Law: under any interleaving of producer pushes and consumer drains —
/// each one atomic step of the lock-guarded queue — the transcripts the
/// drains hand out, in drain order, followed by those still pending,
/// are exactly the ones pending at the start followed by the pushed
/// ones, in push order. No transcript is lost and none is duplicated
/// across the producer/consumer boundary.
pub proof fn lemma_no_transcript_lost_or_duplicated(pending: Seq<String>, events: Seq<QueueEvent>)
    ensures
        run_queue(pending, events).1.flatten() + run_queue(pending, events).0 == pending
            + pushes_of(events),
    decreases events.len(),
{
    if events.len() == 0 {
        assert(run_queue(pending, events).1.flatten() + run_queue(pending, events).0 =~= pending
            + pushes_of(events));
    } else {
        match events[0] {
            QueueEvent::Push(text) => {
                lemma_no_transcript_lost_or_duplicated(pending.push(text), events.skip(1));
                assert(pending.push(text) + pushes_of(events.skip(1)) =~= pending + pushes_of(
                    events,
                ));
            },
            QueueEvent::Drain => {
                lemma_no_transcript_lost_or_duplicated(Seq::<String>::empty(), events.skip(1));
                let rest = run_queue(Seq::<String>::empty(), events.skip(1));
                assert((seq![pending] + rest.1).drop_first() =~= rest.1);
                assert((seq![pending] + rest.1).flatten() == pending + rest.1.flatten());
                assert(Seq::<String>::empty() + pushes_of(events.skip(1)) =~= pushes_of(
                    events.skip(1),
                ));
                assert((pending + rest.1.flatten()) + rest.0 =~= pending + (rest.1.flatten()
                    + rest.0));
            },
        }
    }
}

} // verus!
