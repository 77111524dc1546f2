use vstd::prelude::*;

use crate::admission::{Admission, admission_of, admitted_key};
use crate::codec::{is_hex_text, unhex};
use crate::payload::{PayloadModel, TaskPayload, parse_envelope};

verus! {

/// Where the worker stands in its loop.
#[derive(Clone, Copy, Debug, PartialEq, Eq, Structural)]
pub enum Phase {
    Subscribing,
    Polling,
    Draining,
    Executing,
    Unsubscribing,
    Stopped,
}

/// What ended a wait in `Polling`.
#[derive(Clone, Copy, Debug, PartialEq, Eq, Structural)]
pub enum Wake {
    Cancelled,
    TimerFired,
}

/// What became of one fetched message.
#[derive(Clone, Copy, Debug, PartialEq, Eq, Structural)]
pub enum Outcome {
    Queued,
    Malformed,
    Rejected(Admission),
}

/// What the admission step makes of one message.
pub open spec fn outcome_of(m: Seq<u8>, now: u64, node_id: Seq<u8>) -> Outcome {
    match parse_envelope(m) {
        None => Outcome::Malformed,
        Some(p) => match admission_of(p, now, node_id) {
            Admission::Accepted => Outcome::Queued,
            a => Outcome::Rejected(a),
        },
    }
}

/// The tasks that a batch queues, in the order of the batch.
pub open spec fn queued_of(msgs: Seq<Seq<u8>>, now: u64, node_id: Seq<u8>) -> Seq<PayloadModel>
    decreases msgs.len(),
{
    if msgs.len() == 0 {
        Seq::empty()
    } else {
        let rest = queued_of(msgs.drop_last(), now, node_id);
        if outcome_of(msgs.last(), now, node_id) == Outcome::Queued {
            rest.push(parse_envelope(msgs.last()).unwrap())
        } else {
            rest
        }
    }
}

/// The queue of two batches read one after the other is the queue of the
/// first followed by that of the second.
pub proof fn lemma_queued_append(a: Seq<Seq<u8>>, b: Seq<Seq<u8>>, now: u64, node_id: Seq<u8>)
    ensures
        queued_of(a + b, now, node_id) == queued_of(a, now, node_id) + queued_of(b, now, node_id),
    decreases b.len(),
{
    if b.len() == 0 {
        assert(a + b =~= a);
        assert(queued_of(a, now, node_id) + queued_of(b, now, node_id) =~= queued_of(a, now, node_id));
    } else {
        lemma_queued_append(a, b.drop_last(), now, node_id);
        assert((a + b).drop_last() =~= a + b.drop_last());
        assert((a + b).last() == b.last());
        let qa = queued_of(a, now, node_id);
        let qb = queued_of(b.drop_last(), now, node_id);
        if outcome_of(b.last(), now, node_id) == Outcome::Queued {
            assert(qa + qb.push(parse_envelope(b.last()).unwrap()) =~= (qa + qb).push(
                parse_envelope(b.last()).unwrap(),
            ));
        }
    }
}

/// A message that is not queued, malformed or rejected, changes nothing in
/// what the rest of its batch queues, nor in its order.
pub proof fn lemma_unqueued_message_skipped(
    before: Seq<Seq<u8>>,
    m: Seq<u8>,
    after: Seq<Seq<u8>>,
    now: u64,
    node_id: Seq<u8>,
)
    requires
        outcome_of(m, now, node_id) != Outcome::Queued,
    ensures
        queued_of(before.push(m) + after, now, node_id) == queued_of(before + after, now, node_id),
{
    lemma_queued_append(before.push(m), after, now, node_id);
    lemma_queued_append(before, after, now, node_id);
    assert(before.push(m).drop_last() =~= before);
}

/// An expired task is never queued, whatever its filter says.
pub proof fn lemma_expired_not_queued(m: Seq<u8>, now: u64, node_id: Seq<u8>)
    requires
        parse_envelope(m) is Some,
        parse_envelope(m).unwrap().deadline <= now,
    ensures
        outcome_of(m, now, node_id) == Outcome::Rejected(Admission::Expired),
{
}

/// An admitted task together with the requester's key as raw bytes.
pub struct QueuedTask {
    pub task: TaskPayload,
    pub key: Vec<u8>,
}

impl QueuedTask {
    /// The key is the decoding of the task's hex key.
    pub open spec fn key_decoded(&self) -> bool {
        is_hex_text(self.task.public_key@) && self.key@ == unhex(self.task.public_key@)
    }
}

pub open spec fn payload_views(v: Seq<QueuedTask>) -> Seq<PayloadModel> {
    Seq::new(v.len(), |i: int| v[i].task@)
}

pub open spec fn msg_views(v: Seq<Vec<u8>>) -> Seq<Seq<u8>> {
    Seq::new(v.len(), |i: int| v[i]@)
}

/// The admission and execution loop of one topic, as a state machine: the
/// caller performs the waiting, fetching, computing and sending, and reports
/// each step back.
pub struct TaskWorker {
    pub topic: String,
    pub poll_interval_ms: u64,
    pub node_id: Vec<u8>,
    pub phase: Phase,
    /// Advisory: true exactly while a batch of this worker executes. The flag
    /// is kept per worker; a node that runs several workers is busy while any
    /// of their flags is set, and combining them is the caller's part.
    pub busy: bool,
    /// The admitted tasks of the batch that executes, next first.
    pub queue: Vec<QueuedTask>,
}

impl TaskWorker {
    pub open spec fn wf(&self) -> bool {
        &&& self.busy <==> self.phase == Phase::Executing
        &&& self.phase != Phase::Executing ==> self.queue.len() == 0
        &&& forall|i: int| 0 <= i < self.queue.len() ==> (#[trigger] self.queue@[i]).key_decoded()
    }

    pub open spec fn pending(&self) -> Seq<PayloadModel> {
        payload_views(self.queue@)
    }

    /// A worker that has yet to subscribe to `topic`.
    pub fn new(topic: String, poll_interval_ms: u64, node_id: Vec<u8>) -> (r: TaskWorker)
        ensures
            r.wf(),
            r.phase == Phase::Subscribing,
            !r.busy,
            r.topic@ == topic@,
            r.poll_interval_ms == poll_interval_ms,
            r.node_id@ == node_id@,
    {
        TaskWorker {
            topic,
            poll_interval_ms,
            node_id,
            phase: Phase::Subscribing,
            busy: false,
            queue: Vec::new(),
        }
    }

    pub fn is_busy(&self) -> (r: bool)
        ensures
            r == self.busy,
    {
        self.busy
    }

    pub fn phase(&self) -> (r: Phase)
        ensures
            r == self.phase,
    {
        self.phase
    }

    /// The subscription was attempted; its failure does not stop the worker.
    pub fn subscribed(&mut self)
        requires
            old(self).wf(),
            old(self).phase == Phase::Subscribing,
        ensures
            final(self).wf(),
            final(self).phase == Phase::Polling,
            !final(self).busy,
            final(self).pending() == old(self).pending(),
            final(self).node_id == old(self).node_id,
            final(self).topic == old(self).topic,
            final(self).poll_interval_ms == old(self).poll_interval_ms,
    {
        self.phase = Phase::Polling;
    }

    /// The wait in `Polling` ended: cancellation leads to unsubscribing, the
    /// timer to draining.
    pub fn woke(&mut self, wake: Wake)
        requires
            old(self).wf(),
            old(self).phase == Phase::Polling,
        ensures
            final(self).wf(),
            wake == Wake::Cancelled ==> final(self).phase == Phase::Unsubscribing,
            wake == Wake::TimerFired ==> final(self).phase == Phase::Draining,
            !final(self).busy,
            final(self).pending().len() == 0,
            final(self).node_id == old(self).node_id,
            final(self).topic == old(self).topic,
            final(self).poll_interval_ms == old(self).poll_interval_ms,
    {
        match wake {
            Wake::Cancelled => {
                self.phase = Phase::Unsubscribing;
            },
            Wake::TimerFired => {
                self.phase = Phase::Draining;
            },
        }
    }

    /// Decodes and admits each fetched message, in order, and queues the
    /// admitted tasks. A batch that queues nothing goes back to `Polling`
    /// and leaves the busy flag alone; otherwise the batch starts executing.
    pub fn drain(&mut self, messages: &Vec<Vec<u8>>, now: u64) -> (r: Vec<Outcome>)
        requires
            old(self).wf(),
            old(self).phase == Phase::Draining,
        ensures
            final(self).wf(),
            r.len() == messages.len(),
            forall|i: int|
                0 <= i < messages.len() ==> r@[i] == outcome_of(
                    #[trigger] messages@[i]@,
                    now,
                    old(self).node_id@,
                ),
            final(self).pending() == queued_of(msg_views(messages@), now, old(self).node_id@),
            final(self).pending().len() == 0 ==> final(self).phase == Phase::Polling
                && !final(self).busy,
            final(self).pending().len() > 0 ==> final(self).phase == Phase::Executing
                && final(self).busy,
            final(self).node_id == old(self).node_id,
            final(self).topic == old(self).topic,
            final(self).poll_interval_ms == old(self).poll_interval_ms,
    {
        let mut outcomes: Vec<Outcome> = Vec::new();
        let mut i: usize = 0;
        while i < messages.len()
            invariant
                i <= messages.len(),
                outcomes.len() == i,
                forall|j: int|
                    0 <= j < i ==> outcomes@[j] == outcome_of(
                        #[trigger] messages@[j]@,
                        now,
                        self.node_id@,
                    ),
                self.pending() == queued_of(
                    msg_views(messages@).subrange(0, i as int),
                    now,
                    self.node_id@,
                ),
                self.node_id == old(self).node_id,
                self.topic == old(self).topic,
                self.poll_interval_ms == old(self).poll_interval_ms,
                self.phase == Phase::Draining,
                !self.busy,
                forall|k: int| 0 <= k < self.queue.len() ==> (#[trigger] self.queue@[k]).key_decoded(),
            decreases messages.len() - i,
        {
            let ghost before = self.pending();
            let ghost seen = msg_views(messages@).subrange(0, i as int + 1);
            assert(seen.drop_last() =~= msg_views(messages@).subrange(0, i as int));
            assert(seen.last() == messages@[i as int]@);
            match TaskPayload::decode_envelope(&messages[i]) {
                Err(_) => {
                    outcomes.push(Outcome::Malformed);
                },
                Ok(task) => {
                    match admitted_key(&task, now, &self.node_id) {
                        Ok(key) => {
                            let ghost tv = task@;
                            self.queue.push(QueuedTask { task, key });
                            assert(self.pending() =~= before.push(tv));
                            outcomes.push(Outcome::Queued);
                        },
                        Err(verdict) => {
                            outcomes.push(Outcome::Rejected(verdict));
                        },
                    }
                },
            }
            i = i + 1;
        }
        assert(msg_views(messages@).subrange(0, messages.len() as int) =~= msg_views(messages@));
        if self.queue.len() == 0 {
            self.phase = Phase::Polling;
        } else {
            self.phase = Phase::Executing;
            self.busy = true;
        }
        outcomes
    }

    /// Hands out the next queued task of the executing batch; after the last
    /// one the batch ends: the busy flag is cleared and the worker polls again.
    pub fn next_task(&mut self) -> (r: Option<QueuedTask>)
        requires
            old(self).wf(),
            old(self).phase == Phase::Executing,
        ensures
            final(self).wf(),
            old(self).pending().len() == 0 ==> r is None && final(self).phase == Phase::Polling
                && !final(self).busy,
            r is Some ==> r->Some_0.key_decoded(),
            old(self).pending().len() > 0 ==> r is Some && r->Some_0.task@ == old(self).pending()[0]
                && final(self).pending() == old(self).pending().drop_first()
                && final(self).phase == Phase::Executing && final(self).busy,
            final(self).node_id == old(self).node_id,
            final(self).topic == old(self).topic,
            final(self).poll_interval_ms == old(self).poll_interval_ms,
    {
        if self.queue.len() == 0 {
            self.busy = false;
            self.phase = Phase::Polling;
            None
        } else {
            let ghost before = self.pending();
            let task = self.queue.remove(0);
            assert(self.pending() =~= before.drop_first());
            Some(task)
        }
    }

    /// The unsubscription was attempted; the worker stops either way.
    pub fn unsubscribed(&mut self)
        requires
            old(self).wf(),
            old(self).phase == Phase::Unsubscribing,
        ensures
            final(self).wf(),
            final(self).phase == Phase::Stopped,
            !final(self).busy,
            final(self).pending().len() == 0,
            final(self).node_id == old(self).node_id,
            final(self).topic == old(self).topic,
            final(self).poll_interval_ms == old(self).poll_interval_ms,
    {
        self.phase = Phase::Stopped;
    }

    pub fn is_stopped(&self) -> (r: bool)
        ensures
            r == (self.phase == Phase::Stopped),
    {
        match self.phase {
            Phase::Stopped => true,
            _ => false,
        }
    }
}

} // verus!
