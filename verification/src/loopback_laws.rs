use vstd::prelude::*;

use crate::error::DomainError;
use crate::faults::{consulted, has_key, injected, remove_first_key, FaultView, LoopbackFault};
use crate::frame::{control_frame, FrameMessageType, FrameView, ReceiptView};
use crate::ids::{add_once, remove_first};
use crate::loopback::{
    available, cancelled, known, queue, received, sent, shut_down, slot, survives_purge,
    transport_wf, QueuedView, TransportView,
};

verus! {

/// No pending fault applies to frames from `source` to `destination`.
pub open spec fn quiet(f: FaultView, source: Seq<char>, destination: Seq<char>) -> bool {
    &&& !f.failed_sends.contains(source)
    &&& !has_key(f.delayed, destination)
    &&& !f.timeouts.contains(destination)
    &&& !f.dropped_acks.contains(destination)
    &&& !f.corruptions.contains(destination)
}

proof fn lemma_quiet_consulted(f: FaultView, s: Seq<char>, d: Seq<char>, mt: FrameMessageType)
    requires
        quiet(f, s, d),
    ensures
        consulted(f, s, d, mt) == f,
{
    assert(remove_first_key(f.delayed, d) == f.delayed);
    assert(remove_first(f.timeouts, d) == f.timeouts);
    assert(remove_first(f.dropped_acks, d) == f.dropped_acks);
    assert(remove_first(f.corruptions, d) == f.corruptions);
}

/// Frames sent between two available workers with no pending faults reach the
/// destination in the order they were sent, each with its source.
pub proof fn law_frames_arrive_in_order(
    v: TransportView,
    source: Seq<char>,
    destination: Seq<char>,
    first: FrameView,
    second: FrameView,
)
    requires
        transport_wf(v),
        available(v, source),
        available(v, destination),
        quiet(v.faults, source, destination),
        queue(v, destination).len() == 0,
        v.limit >= 2,
    ensures
        ({
            let v1 = sent(v, source, destination, first);
            let v2 = sent(v1.0, source, destination, second);
            let r1 = received(v2.0, destination);
            let r2 = received(r1.0, destination);
            &&& v1.1 == Ok::<(), DomainError>(())
            &&& v2.1 == Ok::<(), DomainError>(())
            &&& r1.1 == Ok::<Option<(Seq<char>, FrameView)>, DomainError>(Some((source, first)))
            &&& r2.1 == Ok::<Option<(Seq<char>, FrameView)>, DomainError>(Some((source, second)))
            &&& queue(r2.0, destination).len() == 0
        }),
{
    lemma_quiet_consulted(v.faults, source, destination, first.envelope.message_type);
    lemma_quiet_consulted(v.faults, source, destination, second.envelope.message_type);
    let i = slot(v, destination);
    let v1 = sent(v, source, destination, first).0;
    assert(v1.workers == v.workers);
    assert(slot(v1, destination) == i);
    assert(v1.faults == v.faults);
    assert(queue(v1, destination).len() == 1);
    let v2 = sent(v1, source, destination, second).0;
    assert(slot(v2, destination) == i);
    assert(queue(v2, destination).len() == 2);
    assert(queue(v2, destination)[0].frame == first);
    assert(queue(v2, destination)[1].frame == second);
    let r1 = received(v2, destination).0;
    assert(slot(r1, destination) == i);
    assert(queue(r1, destination) =~= queue(v2, destination).drop_first());
    let r2 = received(r1, destination).0;
    assert(slot(r2, destination) == i);
}

/// A destination whose queue is full refuses further frames without queuing
/// them, unless the frame is an acknowledgement marked to be dropped.
pub proof fn law_full_queue_applies_backpressure(
    v: TransportView,
    source: Seq<char>,
    destination: Seq<char>,
    frame: FrameView,
)
    requires
        transport_wf(v),
        available(v, source),
        available(v, destination),
        !v.faults.failed_sends.contains(source),
        !v.faults.dropped_acks.contains(destination),
        queue(v, destination).len() >= v.limit,
    ensures
        sent(v, source, destination, frame).1 == Err::<(), DomainError>(
            DomainError::FrameBoundsExceeded,
        ),
        sent(v, source, destination, frame).0.queues == v.queues,
{
}

/// After a worker is shut down it is unavailable: its queue is empty, frames
/// sent to it and polls by it are refused.
pub proof fn law_shutdown_makes_worker_unavailable(
    v: TransportView,
    worker: Seq<char>,
    other: Seq<char>,
    frame: FrameView,
)
    requires
        transport_wf(v),
        known(v, worker),
    ensures
        shut_down(v, worker).1 == Ok::<(), DomainError>(()),
        !available(shut_down(v, worker).0, worker),
        queue(shut_down(v, worker).0, worker).len() == 0,
        sent(shut_down(v, worker).0, other, worker, frame).1 == Err::<(), DomainError>(
            DomainError::WorkerUnavailable,
        ),
        received(shut_down(v, worker).0, worker).1 == Err::<
            Option<(Seq<char>, FrameView)>,
            DomainError,
        >(DomainError::WorkerUnavailable),
{
    let w = shut_down(v, worker).0;
    assert(w.workers == v.workers);
    assert(slot(w, worker) == slot(v, worker));
    assert(add_once(v.faults.unavailable, worker).contains(worker)) by {
        if !v.faults.unavailable.contains(worker) {
            assert(v.faults.unavailable.push(worker).last() == worker);
        }
    }
}

/// Cancelling a session leaves no frame of that session queued at the
/// destination other than the cancel frame itself.
pub proof fn law_cancel_purges_the_session(
    v: TransportView,
    source: Seq<char>,
    destination: Seq<char>,
    receipt: ReceiptView,
)
    requires
        transport_wf(v),
        known(v, destination),
    ensures
        ({
            let after = cancelled(v, source, destination, receipt).0;
            forall|i: int|
                0 <= i < queue(after, destination).len() ==> {
                    let f = #[trigger] queue(after, destination)[i];
                    f.frame.envelope.session_id != receipt.session_id || f.frame == control_frame(
                        receipt,
                        FrameMessageType::Cancel,
                        None,
                    )
                }
        }),
{
    let keep = |f: QueuedView| survives_purge(f, receipt.session_id);
    let p = queue(v, destination).filter(keep);
    let after = cancelled(v, source, destination, receipt).0;
    assert forall|i: int| 0 <= i < p.len() implies p[i].frame.envelope.session_id
        != receipt.session_id by {
        assert(keep(p[i]));
    }
}

/// Marking an available worker unavailable and then clearing the mark restores
/// the faults exactly.
pub proof fn law_unavailability_round_trip(v: TransportView, worker: String)
    requires
        !v.faults.unavailable.contains(worker@),
    ensures
        ({
            let once = injected(v.faults, LoopbackFault::Unavailable { worker, enabled: true });
            &&& once is Some
            &&& injected(once->0, LoopbackFault::Unavailable { worker, enabled: false }) == Some(
                v.faults,
            )
        }),
{
    let s = v.faults.unavailable;
    let added = s.push(worker@);
    assert(added.contains(worker@)) by {
        assert(added[s.len() as int] == worker@);
    }
    let k = choose|k: int| crate::ids::first_occurrence(added, worker@, k);
    assert(crate::ids::first_occurrence(added, worker@, s.len() as int));
    crate::ids::lemma_remove_first_at(added, worker@, s.len() as int);
    assert(added.remove(s.len() as int) =~= s);
    let restored = FaultView { unavailable: remove_first(added, worker@), ..v.faults };
    assert(restored == v.faults);
}

/// An acknowledgement to a destination marked to drop one is accepted but not
/// delivered, and the mark is consumed.
pub proof fn law_dropped_ack_is_not_delivered(
    v: TransportView,
    source: Seq<char>,
    destination: Seq<char>,
    ack: FrameView,
)
    requires
        transport_wf(v),
        available(v, source),
        available(v, destination),
        !v.faults.failed_sends.contains(source),
        v.faults.dropped_acks.contains(destination),
        ack.envelope.message_type == FrameMessageType::Ack,
    ensures
        sent(v, source, destination, ack).1 == Ok::<(), DomainError>(()),
        sent(v, source, destination, ack).0.queues == v.queues,
        sent(v, source, destination, ack).0.faults.dropped_acks == remove_first(
            v.faults.dropped_acks,
            destination,
        ),
{
}

} // verus!
