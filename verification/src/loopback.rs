use std::collections::VecDeque;

use vstd::prelude::*;

use crate::error::DomainError;
use crate::faults::{consulted, first_value, injected, FaultState, FaultView, LoopbackFault};
use crate::frame::{
    control_frame, make_control_frame, DecodedFrame, ErrorCode, FrameMessageType, FrameView,
    ReceiptView, TransportReceipt,
};
use crate::ids::{add_once, copy_id, distinct, names, position, WorkerId};

verus! {

/// A frame waiting in a destination's queue, with the faults applied to it.
pub struct QueuedFrame {
    pub source: WorkerId,
    pub frame: DecodedFrame,
    pub corrupted: bool,
    pub delay_polls: u8,
    pub timeout: bool,
}

/// A queued frame with its source and frame given by their content.
pub struct QueuedView {
    pub source: Seq<char>,
    pub frame: FrameView,
    pub corrupted: bool,
    pub delay_polls: u8,
    pub timeout: bool,
}

impl View for QueuedFrame {
    type V = QueuedView;

    open spec fn view(&self) -> QueuedView {
        QueuedView {
            source: self.source@,
            frame: self.frame@,
            corrupted: self.corrupted,
            delay_polls: self.delay_polls,
            timeout: self.timeout,
        }
    }
}

/// Safe transport observation with no prompt, activation, or weight content.
pub enum LoopbackEvent {
    NackSent {
        source: WorkerId,
        destination: WorkerId,
        receipt: TransportReceipt,
        reason: ErrorCode,
    },
}

/// A recorded rejection, its identifiers given by their content.
pub struct NackView {
    pub source: Seq<char>,
    pub destination: Seq<char>,
    pub receipt: ReceiptView,
    pub reason: ErrorCode,
}

impl View for LoopbackEvent {
    type V = NackView;

    open spec fn view(&self) -> NackView {
        match self {
            LoopbackEvent::NackSent { source, destination, receipt, reason } => NackView {
                source: source@,
                destination: destination@,
                receipt: receipt@,
                reason: *reason,
            },
        }
    }
}

/// A codec-validated frame received by a named worker.
pub struct ReceivedWorkerFrame {
    pub source: WorkerId,
    pub frame: DecodedFrame,
}

/// Bounded per-worker queues that deliver only codec-validated frames and apply
/// the injected faults deterministically.
pub struct LoopbackTransport {
    limit: u16,
    workers: Vec<WorkerId>,
    queues: Vec<VecDeque<QueuedFrame>>,
    faults: FaultState,
    events: Vec<LoopbackEvent>,
}

/// The transport's state with every identifier and frame given by its content.
#[verifier::ext_equal]
pub struct TransportView {
    pub limit: u16,
    pub workers: Seq<Seq<char>>,
    pub queues: Seq<Seq<QueuedView>>,
    pub faults: FaultView,
    pub events: Seq<NackView>,
}

pub open spec fn queue_view(q: VecDeque<QueuedFrame>) -> Seq<QueuedView> {
    q@.map_values(|f: QueuedFrame| f@)
}

impl View for LoopbackTransport {
    type V = TransportView;

    closed spec fn view(&self) -> TransportView {
        TransportView {
            limit: self.limit,
            workers: names(self.workers@),
            queues: self.queues@.map_values(|q: VecDeque<QueuedFrame>| queue_view(q)),
            faults: self.faults@,
            events: self.events@.map_values(|e: LoopbackEvent| e@),
        }
    }
}

/// The position of worker `w` among the transport's workers.
pub open spec fn slot(v: TransportView, w: Seq<char>) -> int {
    choose|i: int| 0 <= i < v.workers.len() && v.workers[i] == w
}

pub open spec fn known(v: TransportView, w: Seq<char>) -> bool {
    v.workers.contains(w)
}

/// A worker is available when it is known and not marked unavailable.
pub open spec fn available(v: TransportView, w: Seq<char>) -> bool {
    known(v, w) && !v.faults.unavailable.contains(w)
}

/// The frames waiting for worker `w`, oldest first.
pub open spec fn queue(v: TransportView, w: Seq<char>) -> Seq<QueuedView> {
    v.queues[slot(v, w)]
}

pub open spec fn with_queue(v: TransportView, w: Seq<char>, q: Seq<QueuedView>) -> TransportView {
    TransportView { queues: v.queues.update(slot(v, w), q), ..v }
}

/// Every worker has one queue, no worker is named twice, there are at least two
/// workers, and no queue holds more frames than the limit.
pub open spec fn transport_wf(v: TransportView) -> bool {
    &&& v.workers.len() == v.queues.len()
    &&& v.workers.len() >= 2
    &&& distinct(v.workers)
    &&& forall|i: int| 0 <= i < v.queues.len() ==> #[trigger] v.queues[i].len() <= v.limit
}

/// Sending `frame` from `source` to `destination`: both must be available; the
/// faults for the frame are consumed; a pending send failure refuses it, a
/// dropped acknowledgement is accepted but not queued, a full queue refuses it,
/// and otherwise it joins the back of the destination's queue with its delay,
/// timeout and corruption.
pub open spec fn sent(v: TransportView, source: Seq<char>, destination: Seq<char>, frame: FrameView) -> (
    TransportView,
    Result<(), DomainError>,
) {
    if !available(v, source) || !available(v, destination) {
        (v, Err(DomainError::WorkerUnavailable))
    } else {
        let consumed = TransportView {
            faults: consulted(v.faults, source, destination, frame.envelope.message_type),
            ..v
        };
        if v.faults.failed_sends.contains(source) {
            (consumed, Err(DomainError::WorkerUnavailable))
        } else if frame.envelope.message_type == FrameMessageType::Ack
            && v.faults.dropped_acks.contains(destination) {
            (consumed, Ok(()))
        } else if queue(v, destination).len() >= v.limit {
            (consumed, Err(DomainError::FrameBoundsExceeded))
        } else {
            let queued = QueuedView {
                source,
                frame,
                corrupted: v.faults.corruptions.contains(destination),
                delay_polls: match first_value(v.faults.delayed, destination) {
                    Some(p) => p,
                    None => 0u8,
                },
                timeout: v.faults.timeouts.contains(destination),
            };
            (with_queue(consumed, destination, queue(v, destination).push(queued)), Ok(()))
        }
    }
}

/// Polling `recipient`'s queue: an unavailable recipient is refused; an empty
/// queue yields nothing; a delayed front frame loses one poll of delay and
/// yields nothing; otherwise the front frame leaves the queue and is refused
/// when it timed out or was corrupted, else delivered with its source.
pub open spec fn received(v: TransportView, recipient: Seq<char>) -> (
    TransportView,
    Result<Option<(Seq<char>, FrameView)>, DomainError>,
) {
    if !available(v, recipient) {
        (v, Err(DomainError::WorkerUnavailable))
    } else {
        let q = queue(v, recipient);
        if q.len() == 0 {
            (v, Ok(None))
        } else if q[0].delay_polls > 0 {
            (
                with_queue(
                    v,
                    recipient,
                    q.update(0, QueuedView { delay_polls: (q[0].delay_polls - 1) as u8, ..q[0] }),
                ),
                Ok(None),
            )
        } else {
            let rest = with_queue(v, recipient, q.drop_first());
            if q[0].timeout {
                (rest, Err(DomainError::DeadlineExceeded))
            } else if q[0].corrupted {
                (rest, Err(DomainError::FrameIntegrity))
            } else {
                (rest, Ok(Some((q[0].source, q[0].frame))))
            }
        }
    }
}

/// A queued frame survives a cancellation of `session` when it decodes and
/// belongs to another session.
pub open spec fn survives_purge(f: QueuedView, session: Seq<char>) -> bool {
    !f.corrupted && f.frame.envelope.session_id != session
}

pub open spec fn purged(v: TransportView, destination: Seq<char>, session: Seq<char>) -> TransportView {
    with_queue(
        v,
        destination,
        queue(v, destination).filter(|f: QueuedView| survives_purge(f, session)),
    )
}

/// Cancelling: the destination's queued frames of the receipt's session are
/// removed, then a cancel frame is sent.
pub open spec fn cancelled(
    v: TransportView,
    source: Seq<char>,
    destination: Seq<char>,
    receipt: ReceiptView,
) -> (TransportView, Result<(), DomainError>) {
    if !known(v, destination) {
        (v, Err(DomainError::WorkerUnavailable))
    } else {
        sent(
            purged(v, destination, receipt.session_id),
            source,
            destination,
            control_frame(receipt, FrameMessageType::Cancel, None),
        )
    }
}

/// Rejecting: the rejection is recorded as an event, then a negative
/// acknowledgement carrying the reason is sent.
pub open spec fn rejected(
    v: TransportView,
    source: Seq<char>,
    destination: Seq<char>,
    receipt: ReceiptView,
    reason: ErrorCode,
) -> (TransportView, Result<(), DomainError>) {
    sent(
        TransportView {
            events: v.events.push(NackView { source, destination, receipt, reason }),
            ..v
        },
        source,
        destination,
        control_frame(receipt, FrameMessageType::Nack, Some(reason)),
    )
}

/// Shutting a known worker down marks it unavailable and empties its queue.
pub open spec fn shut_down(v: TransportView, worker: Seq<char>) -> (
    TransportView,
    Result<(), DomainError>,
) {
    if !known(v, worker) {
        (v, Err(DomainError::WorkerUnavailable))
    } else {
        (
            with_queue(
                TransportView {
                    faults: FaultView {
                        unavailable: add_once(v.faults.unavailable, worker),
                        ..v.faults
                    },
                    ..v
                },
                worker,
                Seq::empty(),
            ),
            Ok(()),
        )
    }
}

/// A receive result with its identifier and frame given by their content.
pub open spec fn received_view(r: Result<Option<ReceivedWorkerFrame>, DomainError>) -> Result<
    Option<(Seq<char>, FrameView)>,
    DomainError,
> {
    match r {
        Ok(Some(f)) => Ok(Some((f.source@, f.frame@))),
        Ok(None) => Ok(None),
        Err(e) => Err(e),
    }
}

pub proof fn lemma_slot(v: TransportView, w: Seq<char>, i: int)
    requires
        distinct(v.workers),
        0 <= i < v.workers.len(),
        v.workers[i] == w,
    ensures
        slot(v, w) == i,
        known(v, w),
{
    let k = slot(v, w);
    assert(0 <= k < v.workers.len() && v.workers[k] == w);
}

/// Whether any identifier occurs twice.
fn has_duplicates(workers: &Vec<WorkerId>) -> (r: bool)
    ensures
        r == !distinct(names(workers@)),
{
    let mut i: usize = 0;
    while i < workers.len()
        invariant
            i <= workers.len(),
            forall|a: int, b: int|
                0 <= a < i && 0 <= b < workers.len() && a != b ==> names(workers@)[a] != names(
                    workers@,
                )[b],
        decreases workers.len() - i,
    {
        let mut j: usize = 0;
        while j < workers.len()
            invariant
                i < workers.len(),
                j <= workers.len(),
                forall|a: int, b: int|
                    0 <= a < i && 0 <= b < workers.len() && a != b ==> names(workers@)[a] != names(
                        workers@,
                    )[b],
                forall|b: int| 0 <= b < j && b != i ==> names(workers@)[i as int] != names(workers@)[b],
            decreases workers.len() - j,
        {
            if j != i && workers[i] == workers[j] {
                assert(names(workers@)[i as int] == names(workers@)[j as int]);
                return true;
            }
            j += 1;
        }
        i += 1;
    }
    false
}

impl LoopbackTransport {
    /// The transport's state is well formed and its storage agrees with it.
    pub open spec fn wf(&self) -> bool {
        &&& transport_wf(self@)
        &&& self.storage_consistent()
    }

    /// Each stored worker has its stored queue.
    pub closed spec fn storage_consistent(&self) -> bool {
        self.workers.len() == self.queues.len()
    }

    /// A transport over at least two distinct workers, all queues empty.
    pub fn new(limit: u16, workers: Vec<WorkerId>) -> (r: Result<Self, DomainError>)
        ensures
            r is Ok <==> (workers.len() >= 2 && distinct(names(workers@))),
            r matches Err(e) ==> e == DomainError::WorkerUnavailable,
            r matches Ok(t) ==> {
                &&& t.wf()
                &&& t@.limit == limit
                &&& t@.workers == names(workers@)
                &&& forall|i: int| 0 <= i < t@.queues.len() ==> #[trigger] t@.queues[i].len() == 0
                &&& t@.faults.delayed.len() == 0
                &&& t@.faults.timeouts.len() == 0
                &&& t@.faults.dropped_acks.len() == 0
                &&& t@.faults.corruptions.len() == 0
                &&& t@.faults.unavailable.len() == 0
                &&& t@.faults.failed_sends.len() == 0
                &&& t@.events.len() == 0
            },
    {
        if workers.len() < 2 || has_duplicates(&workers) {
            return Err(DomainError::WorkerUnavailable);
        }
        let mut queues: Vec<VecDeque<QueuedFrame>> = Vec::new();
        let mut i: usize = 0;
        while i < workers.len()
            invariant
                i <= workers.len(),
                queues.len() == i,
                forall|j: int| 0 <= j < i ==> (#[trigger] queues@[j])@.len() == 0,
            decreases workers.len() - i,
        {
            queues.push(VecDeque::new());
            i += 1;
        }
        let t = LoopbackTransport {
            limit,
            workers,
            queues,
            faults: FaultState::new(),
            events: Vec::new(),
        };
        assert forall|j: int| 0 <= j < t@.queues.len() implies #[trigger] t@.queues[j].len() == 0 by {
            assert(t@.queues[j] == queue_view(t.queues@[j]));
        }
        Ok(t)
    }

    /// The per-destination queue limit.
    pub fn queue_limit(&self) -> (r: u16)
        ensures
            r == self@.limit,
    {
        self.limit
    }

    /// The recorded rejections, oldest first.
    pub fn events(&self) -> (r: &Vec<LoopbackEvent>)
        ensures
            r@.map_values(|e: LoopbackEvent| e@) == self@.events,
    {
        &self.events
    }

    fn slot_of(&self, worker: &WorkerId) -> (r: Option<usize>)
        requires
            self.wf(),
        ensures
            match r {
                Some(i) => known(self@, worker@) && slot(self@, worker@) == i && i < self.queues.len(),
                None => !known(self@, worker@),
            },
    {
        match position(&self.workers, worker) {
            Some(i) => {
                proof {
                    lemma_slot(self@, worker@, i as int);
                }
                Some(i)
            },
            None => None,
        }
    }

    /// Whether `worker` is known and not marked unavailable.
    pub fn is_available(&self, worker: &WorkerId) -> (r: bool)
        requires
            self.wf(),
        ensures
            r == available(self@, worker@),
    {
        let known = position(&self.workers, worker).is_some();
        known && !self.faults.is_unavailable(worker)
    }

    /// Records a fault; a delay of zero polls is refused.
    pub fn inject(&mut self, fault: LoopbackFault) -> (r: Result<(), DomainError>)
        requires
            old(self).wf(),
        ensures
            final(self).wf(),
            match injected(old(self)@.faults, fault) {
                Some(f) => r is Ok && final(self)@ == TransportView { faults: f, ..old(self)@ },
                None => r == Err::<(), DomainError>(DomainError::FrameInvalid) && final(self)@ == old(
                    self,
                )@,
            },
    {
        let r = self.faults.inject(fault);
        assert(self@ =~= TransportView { faults: self.faults@, ..old(self)@ });
        r
    }

    /// Sends a frame from `source` to `destination` under the injected faults.
    pub fn send(&mut self, source: &WorkerId, destination: &WorkerId, frame: DecodedFrame) -> (r:
        Result<(), DomainError>)
        requires
            old(self).wf(),
        ensures
            final(self).wf(),
            final(self)@ == sent(old(self)@, source@, destination@, frame@).0,
            r == sent(old(self)@, source@, destination@, frame@).1,
            r is Err ==> final(self)@.queues == old(self)@.queues,
            r is Ok && frame.envelope.message_type == FrameMessageType::Ack
                && old(self)@.faults.dropped_acks.contains(destination@) ==> final(self)@.queues
                == old(self)@.queues,
            r is Ok && !(frame.envelope.message_type == FrameMessageType::Ack
                && old(self)@.faults.dropped_acks.contains(destination@)) ==> queue(
                final(self)@,
                destination@,
            ).len() == queue(old(self)@, destination@).len() + 1 && queue(
                final(self)@,
                destination@,
            ).drop_last() == queue(old(self)@, destination@) && queue(
                final(self)@,
                destination@,
            ).last().frame == frame@ && queue(final(self)@, destination@).last().source == source@,
    {
        if !self.is_available(source) || !self.is_available(destination) {
            return Err(DomainError::WorkerUnavailable);
        }
        let ghost v0 = self@;
        let instruction = match self.faults.delivery_for(
            source,
            destination,
            frame.envelope.message_type,
        ) {
            Ok(i) => i,
            Err(e) => {
                assert(self@ =~= sent(v0, source@, destination@, frame@).0);
                return Err(e);
            },
        };
        assert(self@ =~= TransportView {
            faults: consulted(v0.faults, source@, destination@, frame.envelope.message_type),
            ..v0
        });
        if instruction.drop {
            return Ok(());
        }
        let index = match self.slot_of(destination) {
            Some(i) => i,
            None => return Err(DomainError::WorkerUnavailable),
        };
        assert(self@.queues[index as int] == queue_view(self.queues@[index as int]));
        if self.queues[index].len() >= self.limit as usize {
            return Err(DomainError::FrameBoundsExceeded);
        }
        let queued = QueuedFrame {
            source: copy_id(source),
            corrupted: instruction.corrupt,
            delay_polls: instruction.delay_polls,
            timeout: instruction.timeout,
            frame,
        };
        let ghost before = self@;
        self.queues[index].push_back(queued);
        proof {
            assert(queue_view(self.queues@[index as int]) =~= before.queues[index as int].push(
                queued@,
            ));
            assert(self@.queues =~= before.queues.update(index as int, before.queues[index as int].push(queued@)));
            assert(self@ =~= sent(v0, source@, destination@, frame@).0);
            assert forall|i: int| 0 <= i < self@.queues.len() implies #[trigger] self@.queues[i].len()
                <= self@.limit by {
                if i != index {
                    assert(self@.queues[i] == before.queues[i]);
                }
            }
        }
        Ok(())
    }

    /// Polls `recipient`'s queue once.
    pub fn receive(&mut self, recipient: &WorkerId) -> (r: Result<Option<ReceivedWorkerFrame>, DomainError>)
        requires
            old(self).wf(),
        ensures
            final(self).wf(),
            final(self)@ == received(old(self)@, recipient@).0,
            received_view(r) == received(old(self)@, recipient@).1,
            r matches Ok(Some(f)) ==> queue(old(self)@, recipient@).len() > 0 && f.frame@ == queue(
                old(self)@,
                recipient@,
            )[0].frame && f.source@ == queue(old(self)@, recipient@)[0].source && !queue(
                old(self)@,
                recipient@,
            )[0].corrupted && queue(final(self)@, recipient@) == queue(
                old(self)@,
                recipient@,
            ).drop_first(),
            r == Ok::<Option<ReceivedWorkerFrame>, DomainError>(None) ==> queue(
                old(self)@,
                recipient@,
            ).len() == 0 || queue(old(self)@, recipient@)[0].delay_polls > 0,
    {
        if !self.is_available(recipient) {
            return Err(DomainError::WorkerUnavailable);
        }
        let index = match self.slot_of(recipient) {
            Some(i) => i,
            None => return Err(DomainError::WorkerUnavailable),
        };
        let ghost v0 = self@;
        assert(v0.queues[index as int] == queue_view(self.queues@[index as int]));
        if self.queues[index].len() == 0 {
            return Ok(None);
        }
        let front = match self.queues[index].pop_front() {
            Some(f) => f,
            None => return Err(DomainError::WorkerUnavailable),
        };
        if front.delay_polls > 0 {
            let delayed = QueuedFrame { delay_polls: front.delay_polls - 1, ..front };
            self.queues[index].push_front(delayed);
            proof {
                let q = v0.queues[index as int];
                assert(queue_view(self.queues@[index as int]) =~= q.update(
                    0,
                    QueuedView { delay_polls: (q[0].delay_polls - 1) as u8, ..q[0] },
                ));
                assert(self@.queues =~= v0.queues.update(index as int, queue_view(self.queues@[index as int])));
                assert(self@ =~= received(v0, recipient@).0);
                assert forall|i: int| 0 <= i < self@.queues.len() implies #[trigger] self@.queues[i].len()
                    <= self@.limit by {
                    if i != index {
                        assert(self@.queues[i] == v0.queues[i]);
                    }
                }
            }
            return Ok(None);
        }
        proof {
            let q = v0.queues[index as int];
            assert(queue_view(self.queues@[index as int]) =~= q.drop_first());
            assert(self@.queues =~= v0.queues.update(index as int, q.drop_first()));
            assert(self@ =~= received(v0, recipient@).0);
            assert forall|i: int| 0 <= i < self@.queues.len() implies #[trigger] self@.queues[i].len()
                <= self@.limit by {
                if i != index {
                    assert(self@.queues[i] == v0.queues[i]);
                }
            }
        }
        if front.timeout {
            return Err(DomainError::DeadlineExceeded);
        }
        if front.corrupted {
            return Err(DomainError::FrameIntegrity);
        }
        Ok(Some(ReceivedWorkerFrame { source: front.source, frame: front.frame }))
    }

    /// Marks a known worker unavailable and discards its queued frames.
    pub fn shutdown(&mut self, worker: &WorkerId) -> (r: Result<(), DomainError>)
        requires
            old(self).wf(),
        ensures
            final(self).wf(),
            final(self)@ == shut_down(old(self)@, worker@).0,
            r == shut_down(old(self)@, worker@).1,
    {
        let index = match self.slot_of(worker) {
            Some(i) => i,
            None => return Err(DomainError::WorkerUnavailable),
        };
        let ghost v0 = self@;
        let injected = self.faults.inject(
            LoopbackFault::Unavailable { worker: copy_id(worker), enabled: true },
        );
        self.queues[index].clear();
        proof {
            assert(queue_view(self.queues@[index as int]) =~= Seq::<QueuedView>::empty());
            assert(self@.queues =~= v0.queues.update(index as int, Seq::empty()));
            assert(self@ =~= shut_down(v0, worker@).0);
            assert forall|i: int| 0 <= i < self@.queues.len() implies #[trigger] self@.queues[i].len()
                <= self@.limit by {
                if i != index {
                    assert(self@.queues[i] == v0.queues[i]);
                }
            }
        }
        match injected {
            Ok(()) => Ok(()),
            Err(e) => Err(e),
        }
    }

    /// Removes the destination's queued frames of the receipt's session, and
    /// frames that no longer decode.
    fn purge_session(&mut self, destination: &WorkerId, receipt: &TransportReceipt) -> (r: Result<
        (),
        DomainError,
    >)
        requires
            old(self).wf(),
        ensures
            final(self).wf(),
            known(old(self)@, destination@) ==> r is Ok && final(self)@ == purged(
                old(self)@,
                destination@,
                receipt@.session_id,
            ),
            !known(old(self)@, destination@) ==> r == Err::<(), DomainError>(
                DomainError::WorkerUnavailable,
            ) && final(self)@ == old(self)@,
            known(old(self)@, destination@) ==> queue(final(self)@, destination@) == queue(
                old(self)@,
                destination@,
            ).filter(
                |f: QueuedView| !f.corrupted && f.frame.envelope.session_id != receipt@.session_id,
            ),
    {
        let index = match self.slot_of(destination) {
            Some(i) => i,
            None => return Err(DomainError::WorkerUnavailable),
        };
        let ghost v0 = self@;
        let ghost session = receipt@.session_id;
        let ghost keep = |f: QueuedView| survives_purge(f, session);
        let ghost untouched = v0.queues[index as int];
        assert(untouched == queue_view(self.queues@[index as int]));
        let count = self.queues[index].len();
        assert(untouched.subrange(0, count as int) =~= untouched);
        assert(v0.queues.update(index as int, untouched) =~= v0.queues);
        assert(untouched.subrange(0, 0) =~= Seq::<QueuedView>::empty());
        let mut kept: VecDeque<QueuedFrame> = VecDeque::new();
        let mut k: usize = 0;
        while k < count
            invariant
                self.wf(),
                index < self.queues.len(),
                k <= count,
                count == untouched.len(),
                session == receipt@.session_id,
                keep == (|f: QueuedView| survives_purge(f, session)),
                untouched == v0.queues[index as int],
                index < v0.queues.len(),
                transport_wf(v0),
                self@.limit == v0.limit,
                self@.workers == v0.workers,
                self@.faults == v0.faults,
                self@.events == v0.events,
                self@.queues == v0.queues.update(index as int, untouched.subrange(k as int, count as int)),
                queue_view(self.queues@[index as int]) == untouched.subrange(k as int, count as int),
                queue_view(kept) == untouched.subrange(0, k as int).filter(keep),
                kept@.len() <= k,
            decreases count - k,
        {
            let ghost before = self.queues@[index as int];
            let ghost qs0 = self.queues@;
            let ghost view_before = self@;
            let ghost kept_before = queue_view(kept);
            assert(queue_view(before) == untouched.subrange(k as int, count as int));
            assert(before@.len() == count - k);
            let front = match self.queues[index].pop_front() {
                Some(f) => f,
                None => {
                    assert(false);
                    return Err(DomainError::WorkerUnavailable);
                },
            };
            proof {
                assert(queue_view(before)[0] == before@[0]@);
                assert(front@ == untouched[k as int]);
                assert(self.queues@[index as int]@ == before@.subrange(1, before@.len() as int));
                assert forall|j: int| 0 <= j < count - k - 1 implies queue_view(
                    self.queues@[index as int],
                )[j] == untouched.subrange(k + 1, count as int)[j] by {
                    assert(queue_view(before)[j + 1] == before@[j + 1]@);
                    assert(queue_view(before)[j + 1] == untouched.subrange(k as int, count as int)[j + 1]);
                }
                assert(queue_view(self.queues@[index as int]) =~= untouched.subrange(k + 1, count as int));
                assert forall|i: int| 0 <= i < qs0.len() && i != index implies self@.queues[i]
                    == view_before.queues[i] by {
                    assert(self.queues@[i] == qs0[i]);
                }
                assert(self.queues@.len() == qs0.len());
                assert(self@.queues[index as int] == queue_view(self.queues@[index as int]));
                assert(self@.queues.len() == view_before.queues.len());
                let target = v0.queues.update(index as int, untouched.subrange(k + 1, count as int));
                assert forall|i: int| 0 <= i < self@.queues.len() implies self@.queues[i] == target[i] by {
                    if i != index {
                        assert(self@.queues[i] == view_before.queues[i]);
                        assert(view_before.queues[i] == v0.queues[i]);
                    }
                }
                assert(self@.queues =~= target);
            }
            let survives = !front.corrupted && !(front.frame.envelope.session_id == receipt.session_id);
            assert(keep(front@) == survives_purge(front@, session));
            assert(survives == keep(front@));
            if survives {
                kept.push_back(front);
                assert(queue_view(kept) =~= kept_before.push(front@));
            }
            k += 1;
            proof {
                reveal_with_fuel(Seq::<_>::filter, 1);
                assert(untouched.subrange(0, k as int).drop_last() =~= untouched.subrange(0, k - 1));
                assert(untouched.subrange(0, k as int).last() == untouched[k - 1]);
                assert(queue_view(kept) == untouched.subrange(0, k as int).filter(keep));
                assert forall|i: int| 0 <= i < self@.queues.len() implies #[trigger] self@.queues[i].len()
                    <= self@.limit by {
                    if i != index {
                        assert(self@.queues[i] == v0.queues[i]);
                    } else {
                        assert(self@.queues[i].len() <= untouched.len());
                        assert(v0.queues[i].len() <= v0.limit);
                    }
                }
            }
        }
        assert(untouched.subrange(0, count as int) =~= untouched);
        let ghost qs_last = self.queues@;
        let ghost view_last = self@;
        self.queues[index] = kept;
        proof {
            assert forall|i: int| 0 <= i < qs_last.len() && i != index implies self@.queues[i]
                == view_last.queues[i] by {
                assert(self.queues@[i] == qs_last[i]);
            }
            assert(self@.queues[index as int] == queue_view(self.queues@[index as int]));
            let target = v0.queues.update(index as int, untouched.filter(keep));
            assert forall|i: int| 0 <= i < self@.queues.len() implies self@.queues[i] == target[i] by {
                if i != index {
                    assert(self@.queues[i] == view_last.queues[i]);
                    assert(view_last.queues[i] == v0.queues[i]);
                }
            }
            assert(self@.queues =~= target);
            assert(self@ =~= purged(v0, destination@, session));
            assert forall|i: int| 0 <= i < self@.queues.len() implies #[trigger] self@.queues[i].len()
                <= self@.limit by {
                if i != index {
                    assert(self@.queues[i] == v0.queues[i]);
                }
            }
            assert(keep =~= (|f: QueuedView| !f.corrupted && f.frame.envelope.session_id
                != receipt@.session_id));
        }
        Ok(())
    }

    fn send_control(
        &mut self,
        source: &WorkerId,
        destination: &WorkerId,
        receipt: &TransportReceipt,
        message_type: FrameMessageType,
        reason: Option<ErrorCode>,
    ) -> (r: Result<(), DomainError>)
        requires
            old(self).wf(),
        ensures
            final(self).wf(),
            final(self)@ == sent(
                old(self)@,
                source@,
                destination@,
                control_frame(receipt@, message_type, reason),
            ).0,
            r == sent(old(self)@, source@, destination@, control_frame(receipt@, message_type, reason)).1,
    {
        let frame = make_control_frame(receipt, message_type, reason);
        self.send(source, destination, frame)
    }

    /// Acknowledges the frame identified by `receipt`.
    pub fn acknowledge(
        &mut self,
        source: &WorkerId,
        destination: &WorkerId,
        receipt: &TransportReceipt,
    ) -> (r: Result<(), DomainError>)
        requires
            old(self).wf(),
        ensures
            final(self).wf(),
            final(self)@ == sent(
                old(self)@,
                source@,
                destination@,
                control_frame(receipt@, FrameMessageType::Ack, None),
            ).0,
            r == sent(
                old(self)@,
                source@,
                destination@,
                control_frame(receipt@, FrameMessageType::Ack, None),
            ).1,
    {
        self.send_control(source, destination, receipt, FrameMessageType::Ack, None)
    }

    /// Records and sends a negative acknowledgement carrying `reason`.
    pub fn reject(
        &mut self,
        source: &WorkerId,
        destination: &WorkerId,
        receipt: &TransportReceipt,
        reason: ErrorCode,
    ) -> (r: Result<(), DomainError>)
        requires
            old(self).wf(),
        ensures
            final(self).wf(),
            final(self)@ == rejected(old(self)@, source@, destination@, receipt@, reason).0,
            r == rejected(old(self)@, source@, destination@, receipt@, reason).1,
    {
        let ghost v0 = self@;
        self.events.push(
            LoopbackEvent::NackSent {
                source: copy_id(source),
                destination: copy_id(destination),
                receipt: receipt.copy(),
                reason,
            },
        );
        assert(self@ =~= TransportView {
            events: v0.events.push(NackView { source: source@, destination: destination@, receipt: receipt@, reason }),
            ..v0
        });
        self.send_control(source, destination, receipt, FrameMessageType::Nack, Some(reason))
    }

    /// Purges the destination's queued frames of the receipt's session, then
    /// sends a cancel frame.
    pub fn cancel(
        &mut self,
        source: &WorkerId,
        destination: &WorkerId,
        receipt: &TransportReceipt,
    ) -> (r: Result<(), DomainError>)
        requires
            old(self).wf(),
        ensures
            final(self).wf(),
            final(self)@ == cancelled(old(self)@, source@, destination@, receipt@).0,
            r == cancelled(old(self)@, source@, destination@, receipt@).1,
            known(old(self)@, destination@) ==> queue(final(self)@, destination@).len() <= queue(
                old(self)@,
                destination@,
            ).filter(
                |f: QueuedView| !f.corrupted && f.frame.envelope.session_id != receipt@.session_id,
            ).len() + 1,
            known(old(self)@, destination@) ==> queue(old(self)@, destination@).filter(
                |f: QueuedView| !f.corrupted && f.frame.envelope.session_id != receipt@.session_id,
            ).is_prefix_of(queue(final(self)@, destination@)),
    {
        let ghost v0 = self@;
        match self.purge_session(destination, receipt) {
            Ok(()) => {},
            Err(e) => return Err(e),
        }
        let ghost p = self@;
        let r = self.send_control(source, destination, receipt, FrameMessageType::Cancel, None);
        proof {
            let kept = queue(v0, destination@).filter(
                |f: QueuedView| !f.corrupted && f.frame.envelope.session_id != receipt@.session_id,
            );
            assert(queue(p, destination@) == kept);
            let frame = control_frame(receipt@, FrameMessageType::Cancel, None);
            let consumed = TransportView {
                faults: consulted(p.faults, source@, destination@, frame.envelope.message_type),
                ..p
            };
            assert(slot(consumed, destination@) == slot(p, destination@));
            assert(queue(consumed, destination@) == kept);
            if available(p, source@) && available(p, destination@)
                && !p.faults.failed_sends.contains(source@) && queue(p, destination@).len() < p.limit {
                let q = queue(self@, destination@);
                assert(slot(self@, destination@) == slot(p, destination@));
                assert(q.subrange(0, kept.len() as int) =~= kept);
            } else {
                assert(slot(self@, destination@) == slot(p, destination@));
                assert(queue(self@, destination@) == kept);
                assert(kept.subrange(0, kept.len() as int) =~= kept);
            }
        }
        r
    }
}

} // verus!
