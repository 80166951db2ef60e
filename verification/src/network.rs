use vstd::prelude::*;

use crate::error::DomainError;
use crate::faults::{injected, LoopbackFault};
use crate::frame::{
    control_frame, receipt_of, DecodedFrame, ErrorCode, FrameEnvelope, FrameMessageType, FrameView,
    TransportReceipt,
};
use crate::ids::{contains_name, copy_id, distinct, names, WorkerId};
use crate::loopback::{
    cancelled, received, received_view, rejected, sent, shut_down, transport_wf, LoopbackTransport,
    ReceivedWorkerFrame, TransportView,
};

verus! {

/// Independently addressable workers backed by one bounded loopback transport.
pub struct LoopbackNetwork {
    workers: Vec<WorkerId>,
    transport: LoopbackTransport,
}

/// A named worker endpoint; it acts on the transport of the network that made it.
#[derive(Clone)]
pub struct LoopbackWorker {
    id: WorkerId,
}

/// The frame a worker sends for an envelope and payload: no extensions.
pub open spec fn data_frame(
    envelope: FrameEnvelope,
    payload: Seq<u8>,
    trace_id: Option<Seq<char>>,
) -> FrameView {
    FrameView { envelope: envelope@, payload, trace_id, extensions: Seq::empty() }
}

impl LoopbackNetwork {
    /// The shared transport is well formed and serves exactly this network's workers.
    pub open spec fn wf(&self) -> bool {
        &&& transport_wf(self.transport_view())
        &&& self.workers() == self.transport_view().workers
        &&& self.storage_consistent()
    }

    /// The stored transport agrees with its state.
    pub closed spec fn storage_consistent(&self) -> bool {
        &&& self.transport.wf()
        &&& names(self.workers@) == self.transport@.workers
    }

    pub closed spec fn workers(&self) -> Seq<Seq<char>> {
        names(self.workers@)
    }

    pub closed spec fn transport_view(&self) -> TransportView {
        self.transport@
    }

    /// A network over at least two distinct workers.
    pub fn new(limit: u16, workers: Vec<WorkerId>) -> (r: Result<Self, DomainError>)
        ensures
            r is Ok <==> (workers.len() >= 2 && distinct(names(workers@))),
            r matches Err(e) ==> e == DomainError::WorkerUnavailable,
            r matches Ok(n) ==> {
                &&& n.wf()
                &&& n.workers() == names(workers@)
                &&& n.transport_view().limit == limit
                &&& forall|i: int|
                    0 <= i < n.transport_view().queues.len()
                        ==> #[trigger] n.transport_view().queues[i].len() == 0
                &&& n.transport_view().faults.delayed.len() == 0
                &&& n.transport_view().faults.timeouts.len() == 0
                &&& n.transport_view().faults.dropped_acks.len() == 0
                &&& n.transport_view().faults.corruptions.len() == 0
                &&& n.transport_view().faults.unavailable.len() == 0
                &&& n.transport_view().faults.failed_sends.len() == 0
                &&& n.transport_view().events.len() == 0
            },
    {
        let mut copies: Vec<WorkerId> = Vec::new();
        let mut i: usize = 0;
        while i < workers.len()
            invariant
                i <= workers.len(),
                names(copies@) == names(workers@).subrange(0, i as int),
            decreases workers.len() - i,
        {
            let ghost before = copies@;
            copies.push(copy_id(&workers[i]));
            i += 1;
            assert(names(copies@) =~= names(workers@).subrange(0, i as int)) by {
                assert(names(copies@) =~= names(before).push(workers@[i - 1]@));
            }
        }
        assert(names(workers@).subrange(0, workers@.len() as int) =~= names(workers@));
        match LoopbackTransport::new(limit, copies) {
            Ok(transport) => Ok(LoopbackNetwork { workers, transport }),
            Err(e) => Err(e),
        }
    }

    /// The endpoint of a worker of this network.
    pub fn worker(&self, id: &WorkerId) -> (r: Result<LoopbackWorker, DomainError>)
        ensures
            r is Ok <==> self.workers().contains(id@),
            r matches Ok(w) ==> w@ == id@,
            r matches Err(e) ==> e == DomainError::WorkerUnavailable,
    {
        if !contains_name(&self.workers, id) {
            return Err(DomainError::WorkerUnavailable);
        }
        Ok(LoopbackWorker { id: copy_id(id) })
    }

    /// Injects a fault into the shared transport.
    pub fn inject(&mut self, fault: LoopbackFault) -> (r: Result<(), DomainError>)
        requires
            old(self).wf(),
        ensures
            final(self).wf(),
            final(self).workers() == old(self).workers(),
            match injected(old(self).transport_view().faults, fault) {
                Some(f) => r is Ok && final(self).transport_view() == TransportView {
                    faults: f,
                    ..old(self).transport_view()
                },
                None => r == Err::<(), DomainError>(DomainError::FrameInvalid)
                    && final(self).transport_view() == old(self).transport_view(),
            },
    {
        self.transport.inject(fault)
    }

    /// The shared transport.
    pub fn transport(&self) -> (r: &LoopbackTransport)
        ensures
            r@ == self.transport_view(),
            self.wf() ==> r.wf(),
    {
        &self.transport
    }

    /// The shared transport, for a worker's operations.
    pub fn transport_mut(&mut self) -> (r: &mut LoopbackTransport)
        ensures
            r@ == old(self).transport_view(),
            final(self).workers() == old(self).workers(),
            final(self).transport_view() == final(r)@,
            old(self).wf() ==> r.wf(),
            old(self).wf() && final(r).wf() && final(r)@.workers == old(self).transport_view().workers
                ==> final(self).wf(),
    {
        &mut self.transport
    }
}

impl View for LoopbackWorker {
    type V = Seq<char>;

    closed spec fn view(&self) -> Seq<char> {
        self.id@
    }
}

impl LoopbackWorker {
    /// The worker's name.
    pub fn id(&self) -> (r: &WorkerId)
        ensures
            r@ == self@,
    {
        &self.id
    }

    /// Sends `payload` under `envelope` to `destination`.
    pub fn send(
        &self,
        transport: &mut LoopbackTransport,
        destination: &WorkerId,
        envelope: &FrameEnvelope,
        payload: &[u8],
        trace_id: Option<&String>,
    ) -> (r: Result<(), DomainError>)
        requires
            old(transport).wf(),
        ensures
            final(transport).wf(),
            ({
                let frame = data_frame(
                    *envelope,
                    payload@,
                    match trace_id {
                        Some(t) => Some(t@),
                        None => None,
                    },
                );
                &&& final(transport)@ == sent(old(transport)@, self@, destination@, frame).0
                &&& r == sent(old(transport)@, self@, destination@, frame).1
            }),
    {
        let frame = DecodedFrame::new(envelope, payload, trace_id);
        assert(frame@ =~= data_frame(
            *envelope,
            payload@,
            match trace_id {
                Some(t) => Some(t@),
                None => None,
            },
        ));
        transport.send(&self.id, destination, frame)
    }

    /// Forwards a decoded frame, keeping its extensions.
    pub fn send_frame(
        &self,
        transport: &mut LoopbackTransport,
        destination: &WorkerId,
        frame: &DecodedFrame,
    ) -> (r: Result<(), DomainError>)
        requires
            old(transport).wf(),
        ensures
            final(transport).wf(),
            final(transport)@ == sent(old(transport)@, self@, destination@, frame@).0,
            r == sent(old(transport)@, self@, destination@, frame@).1,
    {
        transport.send(&self.id, destination, frame.copy())
    }

    /// Polls this worker's queue.
    pub fn receive(&self, transport: &mut LoopbackTransport) -> (r: Result<
        Option<ReceivedWorkerFrame>,
        DomainError,
    >)
        requires
            old(transport).wf(),
        ensures
            final(transport).wf(),
            final(transport)@ == received(old(transport)@, self@).0,
            received_view(r) == received(old(transport)@, self@).1,
    {
        transport.receive(&self.id)
    }

    /// Acknowledges the frame with `envelope` to `destination`.
    pub fn acknowledge(
        &self,
        transport: &mut LoopbackTransport,
        destination: &WorkerId,
        envelope: &FrameEnvelope,
    ) -> (r: Result<(), DomainError>)
        requires
            old(transport).wf(),
        ensures
            final(transport).wf(),
            final(transport)@ == sent(
                old(transport)@,
                self@,
                destination@,
                control_frame(receipt_of(envelope@), FrameMessageType::Ack, None),
            ).0,
            r == sent(
                old(transport)@,
                self@,
                destination@,
                control_frame(receipt_of(envelope@), FrameMessageType::Ack, None),
            ).1,
    {
        transport.acknowledge(&self.id, destination, &TransportReceipt::from_envelope(envelope))
    }

    /// Rejects the frame with `envelope`, telling `destination` why.
    pub fn reject(
        &self,
        transport: &mut LoopbackTransport,
        destination: &WorkerId,
        envelope: &FrameEnvelope,
        reason: ErrorCode,
    ) -> (r: Result<(), DomainError>)
        requires
            old(transport).wf(),
        ensures
            final(transport).wf(),
            final(transport)@ == rejected(
                old(transport)@,
                self@,
                destination@,
                receipt_of(envelope@),
                reason,
            ).0,
            r == rejected(old(transport)@, self@, destination@, receipt_of(envelope@), reason).1,
    {
        transport.reject(&self.id, destination, &TransportReceipt::from_envelope(envelope), reason)
    }

    /// Cancels the session of `envelope` at `destination`.
    pub fn cancel(
        &self,
        transport: &mut LoopbackTransport,
        destination: &WorkerId,
        envelope: &FrameEnvelope,
    ) -> (r: Result<(), DomainError>)
        requires
            old(transport).wf(),
        ensures
            final(transport).wf(),
            final(transport)@ == cancelled(
                old(transport)@,
                self@,
                destination@,
                receipt_of(envelope@),
            ).0,
            r == cancelled(old(transport)@, self@, destination@, receipt_of(envelope@)).1,
    {
        transport.cancel(&self.id, destination, &TransportReceipt::from_envelope(envelope))
    }

    /// Shuts this worker down.
    pub fn shutdown(&self, transport: &mut LoopbackTransport) -> (r: Result<(), DomainError>)
        requires
            old(transport).wf(),
        ensures
            final(transport).wf(),
            final(transport)@ == shut_down(old(transport)@, self@).0,
            r == shut_down(old(transport)@, self@).1,
    {
        transport.shutdown(&self.id)
    }
}

} // verus!
